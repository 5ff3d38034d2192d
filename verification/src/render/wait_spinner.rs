//! Frames of the waiting spinner: a scanner of seven cells whose head runs right,
//! holds, runs back left and holds again, followed by the phase text.
use crate::text::{chars_of, push_all, push_str, string_of, trim, trim_ws};
use vstd::prelude::*;

verus! {

pub const WIDTH: usize = 7;

pub const TRAIL_LEN: usize = 6;

pub const HOLD_END: usize = 9;

pub const HOLD_START: usize = 30;

/// Where the scanner is in its cycle.
#[derive(Clone, Copy)]
pub struct ScannerState {
    pub active_position: usize,
    pub is_holding: bool,
    pub hold_progress: usize,
    pub hold_total: usize,
    pub movement_progress: usize,
    pub movement_total: usize,
    pub is_moving_forward: bool,
}

/// What a frame shows: the phase line, an optional second line, and the elapsed-time
/// label already formatted (empty during the first second).
pub struct WaitSpinnerState {
    pub phase: String,
    pub sub_phase: Option<String>,
    pub elapsed: String,
    pub lines_rendered: u16,
}

pub open spec fn frame_count() -> nat {
    (WIDTH + HOLD_END + (WIDTH - 1) + HOLD_START) as nat
}

/// Length of one scanner cycle, in frames.
pub fn total_frames() -> (n: usize)
    ensures
        n == frame_count(),
        n == 52,
{
    WIDTH + HOLD_END + (WIDTH - 1) + HOLD_START
}

/// The scanner state at a frame of the cycle.
pub open spec fn scanner_at(frame: nat) -> ScannerState {
    if frame < WIDTH {
        ScannerState {
            active_position: frame as usize,
            is_holding: false,
            hold_progress: 0,
            hold_total: 0,
            movement_progress: frame as usize,
            movement_total: WIDTH,
            is_moving_forward: true,
        }
    } else if frame < WIDTH + HOLD_END {
        ScannerState {
            active_position: (WIDTH - 1) as usize,
            is_holding: true,
            hold_progress: (frame - WIDTH) as usize,
            hold_total: HOLD_END,
            movement_progress: 0,
            movement_total: 0,
            is_moving_forward: true,
        }
    } else if frame < WIDTH + HOLD_END + (WIDTH - 1) {
        ScannerState {
            active_position: (WIDTH - 2 - (frame - WIDTH - HOLD_END)) as usize,
            is_holding: false,
            hold_progress: 0,
            hold_total: 0,
            movement_progress: (frame - WIDTH - HOLD_END) as usize,
            movement_total: (WIDTH - 1) as usize,
            is_moving_forward: false,
        }
    } else {
        ScannerState {
            active_position: 0,
            is_holding: true,
            hold_progress: (frame - WIDTH - HOLD_END - (WIDTH - 1)) as usize,
            hold_total: HOLD_START,
            movement_progress: 0,
            movement_total: 0,
            is_moving_forward: false,
        }
    }
}

/// The scanner state at `frame`.
pub fn scanner_state(frame: usize) -> (s: ScannerState)
    ensures
        s == scanner_at(frame as nat),
{
    let mut frame = frame;
    if frame < WIDTH {
        return ScannerState {
            active_position: frame,
            is_holding: false,
            hold_progress: 0,
            hold_total: 0,
            movement_progress: frame,
            movement_total: WIDTH,
            is_moving_forward: true,
        };
    }
    frame = frame - WIDTH;
    if frame < HOLD_END {
        return ScannerState {
            active_position: WIDTH - 1,
            is_holding: true,
            hold_progress: frame,
            hold_total: HOLD_END,
            movement_progress: 0,
            movement_total: 0,
            is_moving_forward: true,
        };
    }
    frame = frame - HOLD_END;
    if frame < WIDTH - 1 {
        return ScannerState {
            active_position: WIDTH - 2 - frame,
            is_holding: false,
            hold_progress: 0,
            hold_total: 0,
            movement_progress: frame,
            movement_total: WIDTH - 1,
            is_moving_forward: false,
        };
    }
    frame = frame - (WIDTH - 1);
    ScannerState {
        active_position: 0,
        is_holding: true,
        hold_progress: frame,
        hold_total: HOLD_START,
        movement_progress: 0,
        movement_total: 0,
        is_moving_forward: false,
    }
}

/// Signed distance of a cell behind the scanner's head, in its direction of travel.
pub open spec fn distance(char_index: int, state: ScannerState) -> int {
    if state.is_moving_forward {
        state.active_position - char_index
    } else {
        char_index - state.active_position
    }
}

/// Which trail dot a cell shows, if any.
pub open spec fn color_at(char_index: int, state: ScannerState) -> Option<int> {
    let d = distance(char_index, state);
    if state.is_holding {
        if d >= 0 {
            Some(d + state.hold_progress)
        } else {
            None
        }
    } else if d == 0 {
        Some(0)
    } else if 0 < d < TRAIL_LEN {
        Some(d)
    } else {
        None
    }
}

/// Which trail dot (0 is the head) the cell at `char_index` shows, if any.
pub fn color_index(char_index: usize, state: ScannerState) -> (r: Option<usize>)
    requires
        char_index <= isize::MAX,
        state.active_position <= isize::MAX,
        state.is_holding && distance(char_index as int, state) >= 0 ==> distance(
            char_index as int,
            state,
        ) + state.hold_progress <= usize::MAX,
    ensures
        match r {
            Some(i) => color_at(char_index as int, state) == Some(i as int),
            None => color_at(char_index as int, state) is None,
        },
{
    let a = state.active_position as isize;
    let c = char_index as isize;
    let distance: isize = if state.is_moving_forward {
        a - c
    } else {
        c - a
    };
    if state.is_holding {
        if distance >= 0 {
            let d = distance as usize;
            return Some(d + state.hold_progress);
        } else {
            return None;
        }
    }
    if distance == 0 {
        return Some(0);
    }
    if distance > 0 && distance < TRAIL_LEN as isize {
        return Some(distance as usize);
    }
    None
}

/// A dot of the scanner's trail: cyan, dim from the third dot on.
pub open spec fn active_dot(index: nat) -> Seq<char> {
    let dot = if index < 2 {
        "▪"@
    } else if index < 4 {
        "▫"@
    } else {
        "·"@
    };
    if index < 2 {
        "\x1b[36m"@ + dot + "\x1b[0m"@
    } else {
        "\x1b[2m\x1b[36m"@ + dot + "\x1b[0m"@
    }
}

/// A cell outside the trail: a dim cyan middle dot.
pub open spec fn inactive_dot() -> Seq<char> {
    "\x1b[2m\x1b[36m"@ + INACTIVE_DOT@ + "\x1b[0m"@
}

/// The dot of a cell the trail does not cover.
pub const INACTIVE_DOT: &'static str = "·";

/// Dim cyan text.
pub open spec fn secondary(text: Seq<char>) -> Seq<char> {
    "\x1b[2m\x1b[36m"@ + text + "\x1b[0m"@
}

/// What the cell at `char_index` shows.
pub open spec fn cell(char_index: int, state: ScannerState) -> Seq<char> {
    match color_at(char_index, state) {
        Some(i) => if i < TRAIL_LEN {
            active_dot(i as nat)
        } else {
            inactive_dot()
        },
        None => inactive_dot(),
    }
}

/// The cells `0..n` one after the other.
pub open spec fn cells(n: nat, state: ScannerState) -> Seq<char>
    decreases n,
{
    if n == 0 {
        seq![]
    } else {
        cells((n - 1) as nat, state) + cell(n - 1, state)
    }
}

/// The text of a frame and its number of lines.
pub open spec fn frame_of(frame: nat, phase: Seq<char>, sub_phase: Option<Seq<char>>, elapsed: Seq<
    char,
>) -> (Seq<char>, u16) {
    let state = scanner_at(frame % frame_count());
    let main = cells(WIDTH as nat, state) + " "@ + secondary(phase) + secondary(elapsed);
    match sub_phase {
        Some(sub) => if trim(sub).len() > 0 {
            (main + "\n"@ + "  "@ + secondary(sub), 2)
        } else {
            (main, 1)
        },
        None => (main, 1),
    }
}

pub open spec fn sub_view(s: Option<String>) -> Option<Seq<char>> {
    match s {
        Some(t) => Some(t@),
        None => None,
    }
}

fn push_active_dot(out: &mut Vec<char>, index: usize)
    ensures
        final(out)@ == old(out)@ + active_dot(index as nat),
{
    let dot = if index < 2 {
        "▪"
    } else if index < 4 {
        "▫"
    } else {
        "·"
    };
    if index < 2 {
        push_str(out, "\x1b[36m");
    } else {
        push_str(out, "\x1b[2m\x1b[36m");
    }
    push_str(out, dot);
    push_str(out, "\x1b[0m");
    proof {
        assert(final(out)@ =~= old(out)@ + active_dot(index as nat));
    }
}

/// A dot of the trail (`paint_active_dot`).
pub fn paint_active_dot(index: usize) -> (s: String)
    ensures
        s@ == active_dot(index as nat),
{
    let mut out: Vec<char> = Vec::new();
    push_active_dot(&mut out, index);
    proof {
        assert(out@ =~= active_dot(index as nat));
    }
    string_of(out.as_slice())
}

fn push_inactive_dot(out: &mut Vec<char>)
    ensures
        final(out)@ == old(out)@ + inactive_dot(),
{
    push_str(out, "\x1b[2m\x1b[36m");
    push_str(out, INACTIVE_DOT);
    push_str(out, "\x1b[0m");
    proof {
        assert(final(out)@ =~= old(out)@ + inactive_dot());
    }
}

/// A dot the trail does not cover (`paint_inactive_dot`). Its fade never changes
/// what it shows: both brightness levels paint the same dim dot, so it takes no
/// fade.
pub fn paint_inactive_dot() -> (s: String)
    ensures
        s@ == inactive_dot(),
{
    let mut out: Vec<char> = Vec::new();
    push_inactive_dot(&mut out);
    proof {
        assert(out@ =~= inactive_dot());
    }
    string_of(out.as_slice())
}

fn push_secondary(out: &mut Vec<char>, text: &[char])
    ensures
        final(out)@ == old(out)@ + secondary(text@),
{
    push_str(out, "\x1b[2m\x1b[36m");
    push_all(out, text);
    push_str(out, "\x1b[0m");
    proof {
        assert(final(out)@ =~= old(out)@ + secondary(text@));
    }
}

/// Dim cyan text (`paint_secondary`).
pub fn paint_secondary(text: &str) -> (s: String)
    ensures
        s@ == secondary(text@),
{
    let mut out: Vec<char> = Vec::new();
    let t = chars_of(text);
    push_secondary(&mut out, t.as_slice());
    proof {
        assert(out@ =~= secondary(text@));
    }
    string_of(out.as_slice())
}

fn push_cell(out: &mut Vec<char>, char_index: usize, state: ScannerState)
    requires
        char_index <= isize::MAX,
        state.active_position <= isize::MAX,
        state.is_holding && distance(char_index as int, state) >= 0 ==> distance(
            char_index as int,
            state,
        ) + state.hold_progress <= usize::MAX,
    ensures
        final(out)@ == old(out)@ + cell(char_index as int, state),
{
    match color_index(char_index, state) {
        Some(index) => {
            if index < TRAIL_LEN {
                push_active_dot(out, index);
            } else {
                push_inactive_dot(out);
            }
        },
        None => push_inactive_dot(out),
    }
}

/// What the cell at `char_index` shows (`render_cell`).
pub fn render_cell(char_index: usize, state: ScannerState) -> (s: String)
    requires
        char_index <= isize::MAX,
        state.active_position <= isize::MAX,
        state.is_holding && distance(char_index as int, state) >= 0 ==> distance(
            char_index as int,
            state,
        ) + state.hold_progress <= usize::MAX,
    ensures
        s@ == cell(char_index as int, state),
{
    let mut out: Vec<char> = Vec::new();
    push_cell(&mut out, char_index, state);
    proof {
        assert(out@ =~= cell(char_index as int, state));
    }
    string_of(out.as_slice())
}

/// Every state of the cycle keeps the head inside the scanner.
pub proof fn lemma_scanner_bounds(frame: nat)
    requires
        frame < frame_count(),
    ensures
        scanner_at(frame).active_position < WIDTH,
        scanner_at(frame).hold_progress < HOLD_START,
{
}

/// The text of a frame and its number of lines (one, or two with a non-blank
/// sub-phase).
pub fn render_frame(frame: usize, state: &WaitSpinnerState) -> (r: (String, u16))
    ensures
        (r.0@, r.1) == frame_of(frame as nat, state.phase@, sub_view(state.sub_phase), state.elapsed@),
{
    let scanner = scanner_state(frame % total_frames());
    proof {
        lemma_scanner_bounds((frame % 52) as nat);
    }
    let mut out: Vec<char> = Vec::new();
    let mut i: usize = 0;
    while i < WIDTH
        invariant
            0 <= i <= WIDTH,
            scanner == scanner_at((frame % 52) as nat),
            scanner.active_position < WIDTH,
            scanner.hold_progress <= HOLD_START,
            out@ == cells(i as nat, scanner),
        decreases WIDTH - i,
    {
        push_cell(&mut out, i, scanner);
        i = i + 1;
    }
    push_str(&mut out, " ");
    let phase = chars_of(state.phase.as_str());
    push_secondary(&mut out, phase.as_slice());
    let elapsed = chars_of(state.elapsed.as_str());
    push_secondary(&mut out, elapsed.as_slice());
    match &state.sub_phase {
        Some(sub) => {
            let sub_chars = chars_of(sub.as_str());
            let trimmed = trim_ws(sub_chars.as_slice());
            if trimmed.len() > 0 {
                push_str(&mut out, "\n");
                push_str(&mut out, "  ");
                push_secondary(&mut out, sub_chars.as_slice());
                proof {
                    let st = scanner_at((frame % 52) as nat);
                    assert(out@ =~= cells(WIDTH as nat, st) + " "@ + secondary(state.phase@)
                        + secondary(state.elapsed@) + "\n"@ + "  "@ + secondary(sub@));
                }
                return (string_of(out.as_slice()), 2);
            }
        },
        None => {},
    }
    proof {
        let st = scanner_at((frame % 52) as nat);
        assert(out@ =~= cells(WIDTH as nat, st) + " "@ + secondary(state.phase@) + secondary(
            state.elapsed@,
        ));
    }
    (string_of(out.as_slice()), 1)
}

/// Frames repeat with the cycle: a frame and the one a full cycle later are the same.
pub proof fn law_frames_repeat(
    frame: nat,
    phase: Seq<char>,
    sub_phase: Option<Seq<char>>,
    elapsed: Seq<char>,
)
    ensures
        frame_of(frame + frame_count(), phase, sub_phase, elapsed) == frame_of(
            frame,
            phase,
            sub_phase,
            elapsed,
        ),
{
    assert((frame + 52) % 52 == frame % 52) by (nonlinear_arith);
}

/// While the scanner moves, its head cell shows the head dot and each of the next
/// cells behind it, up to the trail's length, shows the dot of its distance.
pub proof fn law_trail_follows_head(frame: nat, behind: int)
    requires
        frame < frame_count(),
        !scanner_at(frame).is_holding,
        0 <= behind < TRAIL_LEN,
    ensures
        ({
            let s = scanner_at(frame);
            let cell_index = if s.is_moving_forward {
                s.active_position - behind
            } else {
                s.active_position + behind
            };
            color_at(cell_index, s) == Some(behind)
        }),
{
}

} // verus!
