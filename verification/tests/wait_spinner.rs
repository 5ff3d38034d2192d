use miyu::render::wait_spinner::{
    color_index, paint_active_dot, paint_inactive_dot, paint_secondary, render_cell, render_frame, scanner_state,
    total_frames, WaitSpinnerState, INACTIVE_DOT,
};

fn state(phase: &str, sub_phase: Option<&str>) -> WaitSpinnerState {
    // a spinner that has just started shows no elapsed time
    WaitSpinnerState {
        phase: phase.to_string(),
        sub_phase: sub_phase.map(str::to_string),
        elapsed: String::new(),
        lines_rendered: 0,
    }
}

#[test]
fn render_frame_has_phase_without_face() {
    let state = state("思考", None);

    let (frame, lines) = render_frame(0, &state);

    assert!(frame.contains("思考"));
    assert!(!frame.contains('('));
    assert_eq!(lines, 1);
}

#[test]
fn render_frame_with_sub_phase_produces_two_lines() {
    let state = state("工具: 深度诊断×1 运行中", Some("第 1 轮：诊断中"));

    let (frame, lines) = render_frame(0, &state);

    assert!(frame.contains("深度诊断"));
    assert!(frame.contains("第 1 轮"));
    assert_eq!(lines, 2);
}

#[test]
fn frames_loop_over_pattern() {
    let state = state("thinking", None);

    let (f1, _) = render_frame(0, &state);
    let (f2, _) = render_frame(total_frames(), &state);

    assert_eq!(f1, f2);
}

#[test]
fn scanner_has_trail_behind_active_position() {
    let state = scanner_state(4);

    assert_eq!(color_index(4, state), Some(0));
    assert_eq!(color_index(3, state), Some(1));
    assert_eq!(color_index(7, state), None);
}

#[test]
fn active_and_inactive_dots_match_pr_style() {
    assert!(render_cell(4, scanner_state(4)).contains("▪"));
    assert!(paint_inactive_dot().contains(INACTIVE_DOT));
    assert!(render_cell(6, scanner_state(4)).contains(INACTIVE_DOT));
}

#[test]
fn blank_sub_phase_keeps_one_line() {
    let (_, lines) = render_frame(3, &state("x", Some("   ")));
    assert_eq!(lines, 1);
}

#[test]
fn frame_text_is_exact() {
    let st = state("p", None);
    let (frame, _) = render_frame(0, &st);
    let dim_dot = "\x1b[2m\x1b[36m·\x1b[0m";
    let expected = format!(
        "\x1b[36m▪\x1b[0m{} \x1b[2m\x1b[36mp\x1b[0m\x1b[2m\x1b[36m\x1b[0m",
        dim_dot.repeat(6)
    );
    assert_eq!(frame, expected);
    assert_eq!(paint_active_dot(2), "\x1b[2m\x1b[36m▫\x1b[0m");
    assert_eq!(paint_secondary("ab"), "\x1b[2m\x1b[36mab\x1b[0m");
}

#[test]
fn scanner_cycle_phases() {
    assert_eq!(total_frames(), 52);
    let hold = scanner_state(7);
    assert!(hold.is_holding);
    assert_eq!(hold.active_position, 6);
    let back = scanner_state(16);
    assert!(!back.is_moving_forward);
    assert_eq!(back.active_position, 5);
    let rest = scanner_state(51);
    assert_eq!(rest.active_position, 0);
    assert_eq!(rest.hold_progress, 29);
    // holding at the start: the head is far along its fade
    assert_eq!(color_index(0, rest), Some(29));
}
