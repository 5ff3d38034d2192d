use miyu::tools::diagnostics::{
    clip, command_exists_check, command_lookup_script, command_timeout, compact_evidence,
    detect_platform, extract_lspci_gpu_blocks, filtered_log, filtered_process_matches,
    finalize_summary, infer_probe_request, infer_symptom, infer_target, line_starts_with_pid,
    log_predicate, lookup_result, mask_network_addresses, optional_string, os_release_value,
    parse_args, parse_depth, parse_mode, parse_platform_arg, parse_u32, pick_input_env,
    process_check, process_match_score, redact, redact_after_marker, safe_command_name,
    shell_escape, status_check, systemd_check, Check, CheckStatus, Depth, Mode, Platform,
    PlatformArg, ProbeArgs, ProbeOutput,
};

fn output(status: Option<i32>, stdout: &str, stderr: &str) -> ProbeOutput {
    ProbeOutput {
        status,
        stdout: stdout.to_string(),
        stderr: stderr.to_string(),
        error: None,
        timed_out: false,
    }
}

fn raw_args() -> ProbeArgs {
    ProbeArgs {
        query: None,
        mode: None,
        target: None,
        symptom: None,
        depth: None,
        recent_minutes: None,
        platform: None,
    }
}

#[test]
fn names_read_back() {
    for m in [Mode::System, Mode::App, Mode::InputMethod, Mode::Display, Mode::Audio, Mode::PackageUpdate, Mode::Gpu, Mode::Network, Mode::Storage] {
        assert_eq!(parse_mode(m.as_str()).unwrap(), m);
    }
    for d in [Depth::Quick, Depth::Normal, Depth::Full] {
        assert_eq!(parse_depth(d.as_str()).unwrap(), d);
    }
    assert_eq!(parse_mode("sound").unwrap_err(), "unsupported diagnostic mode: sound");
    assert_eq!(parse_depth("deep").unwrap_err(), "unsupported diagnostic depth: deep");
    assert_eq!(parse_platform_arg("windows").unwrap_err(), "unsupported diagnostic platform: windows");
    assert_eq!(parse_platform_arg("macos").unwrap(), PlatformArg::Macos);
}

#[test]
fn platform_follows_the_request_then_the_system() {
    assert_eq!(detect_platform(PlatformArg::Linux, "macos"), Platform::Linux);
    assert_eq!(detect_platform(PlatformArg::Auto, "linux"), Platform::Linux);
    assert_eq!(detect_platform(PlatformArg::Auto, "macos"), Platform::Macos);
    assert_eq!(detect_platform(PlatformArg::Auto, "windows"), Platform::Unsupported);
}

#[test]
fn words_pick_the_mode_target_and_symptom() {
    let req = infer_probe_request(Some("QQ 打不了中文"), None, None).unwrap();
    assert_eq!(req.mode, Mode::InputMethod);
    assert_eq!(req.target.as_deref(), Some("qq"));
    assert_eq!(req.symptom.as_deref(), Some("app_cannot_input_chinese"));
    let req = infer_probe_request(Some("opencode crash on launch"), None, None).unwrap();
    assert_eq!(req.mode, Mode::App);
    assert_eq!(req.target.as_deref(), Some("opencode"));
    assert_eq!(req.symptom.as_deref(), Some("cannot_start"));
    let req = infer_probe_request(Some("Wi-Fi keeps dropping"), None, None).unwrap();
    assert_eq!(req.mode, Mode::Network);
    assert_eq!(req.symptom.as_deref(), Some("network_problem"));
    let req = infer_probe_request(Some("something odd"), None, Some("mine")).unwrap();
    assert_eq!(req.mode, Mode::System);
    assert_eq!(req.target, None);
    assert_eq!(req.symptom.as_deref(), Some("mine"));
    let req = infer_probe_request(None, Some("steam"), None).unwrap();
    assert_eq!(req.mode, Mode::App);
    assert_eq!(req.target.as_deref(), Some("steam"));
    assert_eq!(req.symptom, None);
    assert_eq!(
        infer_probe_request(Some("   "), None, None).unwrap_err(),
        "mode is auto but query is empty; provide query or a structured mode"
    );
    assert_eq!(infer_target("Open Code 启动不了").as_deref(), Some("opencode"));
    assert_eq!(infer_target("微信"), Some("wechat".to_string()));
    assert_eq!(infer_target("nothing"), None);
    assert_eq!(infer_symptom("runs fine", Mode::App), None);
    assert_eq!(infer_symptom("", Mode::Gpu).as_deref(), Some("gpu_problem"));
}

#[test]
fn arguments_are_read_with_defaults() {
    let mut raw = raw_args();
    raw.query = Some(" 没声音 ".to_string());
    let args = parse_args(&raw).unwrap();
    assert_eq!(args.mode, Mode::Audio);
    assert_eq!(args.depth, Depth::Normal);
    assert_eq!(args.recent_minutes, 30);
    assert_eq!(args.platform, PlatformArg::Auto);
    assert_eq!(args.query.as_deref(), Some("没声音"));
    assert_eq!(args.symptom.as_deref(), Some("audio_problem"));

    let mut raw = raw_args();
    raw.mode = Some(" gpu ".to_string());
    raw.depth = Some("full".to_string());
    raw.recent_minutes = Some(0);
    raw.platform = Some("linux".to_string());
    let args = parse_args(&raw).unwrap();
    assert_eq!(args.mode, Mode::Gpu);
    assert_eq!(args.recent_minutes, 1);
    assert_eq!(args.symptom, None);

    let mut raw = raw_args();
    raw.mode = Some("system".to_string());
    raw.recent_minutes = Some(99999);
    assert_eq!(parse_args(&raw).unwrap().recent_minutes, 1440);
    raw.depth = Some("slow".to_string());
    assert_eq!(parse_args(&raw).unwrap_err(), "unsupported diagnostic depth: slow");
    assert!(parse_args(&raw_args()).is_err());
    assert_eq!(optional_string(Some("  abcdef "), 3).as_deref(), Some("abc"));
    assert_eq!(optional_string(Some("   "), 3), None);
}

#[test]
fn process_lines_are_filtered_and_ranked() {
    let out = "12 /usr/bin/fcitx5 -d\n34 pgrep -af fcitx5\n56 /opt/helper --fcitx5-helper\n78 fcitx5\n99 /usr/bin/fcitx5";
    let matches = filtered_process_matches(out, "fcitx5", 99);
    assert_eq!(matches, vec!["12 /usr/bin/fcitx5 -d".to_string(), "78 fcitx5".to_string(), "56 /opt/helper --fcitx5-helper".to_string()]);
    assert_eq!(process_match_score("12 /usr/bin/fcitx5 -d", "FCITX5"), 100);
    assert_eq!(process_match_score("78 fcitx5", "fcitx5"), 50);
    assert_eq!(process_match_score("1 /tmp/.mount_x/helper /a/qq", "qq"), 70);
    assert!(line_starts_with_pid("  42 bash", 42));
    assert!(!line_starts_with_pid("x42 bash", 42));
    assert_eq!(parse_u32(&['+', '7']), Some(7));
    assert_eq!(parse_u32(&['4', '2', '9', '4', '9', '6', '7', '2', '9', '6']), None);
    assert_eq!(parse_u32(&['+']), None);
    let (check, pids) = process_check("fcitx5", &output(Some(0), out, ""), 99);
    assert_eq!(check.status, CheckStatus::Passed);
    assert_eq!(check.id, "process.fcitx5.running");
    assert_eq!(pids, vec![12, 78, 56]);
    let (check, pids) = process_check("fcitx5", &output(Some(1), "", ""), 99);
    assert_eq!(check.status, CheckStatus::Unknown);
    assert_eq!(check.detail, "no process matching fcitx5 was found");
    assert!(pids.is_empty());
}

#[test]
fn command_output_helpers_are_exact() {
    assert_eq!(clip("abcdef", 3), "abc\n...[truncated]");
    assert_eq!(clip("abc", 3), "abc");
    assert_eq!(os_release_value("NAME=Arch\nPRETTY_NAME=\"Arch Linux\"\n", "PRETTY_NAME").as_deref(), Some("Arch Linux"));
    assert_eq!(os_release_value("NAME=Arch", "ID"), None);
    let lspci = "00:02.0 VGA compatible controller: Intel\n\tKernel driver in use: i915\n00:1f.3 Audio device: Intel\n01:00.0 3D controller: NVIDIA\n\tKernel driver in use: nvidia";
    assert_eq!(
        extract_lspci_gpu_blocks(lspci),
        "00:02.0 VGA compatible controller: Intel\n\tKernel driver in use: i915\n\n01:00.0 3D controller: NVIDIA\n\tKernel driver in use: nvidia"
    );
    assert_eq!(mask_network_addresses("lo  UNKNOWN 127.0.0.1/8 ::1/128\neth0 UP"), "lo UNKNOWN [ip/prefix] [ip/prefix]\neth0 UP");
    assert_eq!(shell_escape("it's"), "'it'\\''s'");
    assert_eq!(command_lookup_script("qq"), "command -v 'qq'");
    assert!(safe_command_name("fcitx5-remote"));
    assert!(!safe_command_name("rm -rf"));
    assert!(!safe_command_name(""));
    assert!(!safe_command_name(&"a".repeat(161)));
    assert_eq!(command_timeout(0, 10), 1);
    assert_eq!(command_timeout(30, 10), 10);
    assert_eq!(command_timeout(3, 0), 1);
    assert_eq!(lookup_result(Some(0), " /usr/bin/qq \n").as_deref(), Some("/usr/bin/qq"));
    assert_eq!(lookup_result(Some(1), "/usr/bin/qq"), None);
}

#[test]
fn redaction_hides_home_user_and_secrets() {
    assert_eq!(
        redact("/home/alice/x alice@host\nAPI_KEY=abc\nok", "/home/alice", "alice"),
        "$HOME/x $USER@host\nAPI_KEY=[REDACTED]\nok"
    );
    assert_eq!(redact("/srv/alice/y", "", "alice"), "/srv/$USER/y");
    assert_eq!(redact_after_marker("a TOKEN=1\nb\n\n", "TOKEN="), "a TOKEN=[REDACTED]\nb");
}

#[test]
fn evidence_and_checks_follow_the_output() {
    let mut o = output(Some(1), "  out  ", " err ");
    o.error = Some("boom".to_string());
    assert_eq!(compact_evidence(&o), vec!["out".to_string(), "err".to_string(), "boom".to_string()]);
    let mut t = output(None, "", "");
    t.timed_out = true;
    assert_eq!(compact_evidence(&t), vec!["command timed out".to_string()]);
    let c = status_check("app.version_probe", "ran qq --version", &output(Some(0), "1.0", ""));
    assert_eq!(c.status, CheckStatus::Passed);
    assert_eq!(c.evidence, vec!["1.0".to_string()]);
    let c = systemd_check("pipewire.service", &output(Some(3), "inactive\n", ""));
    assert_eq!(c.status, CheckStatus::Warn);
    assert_eq!(c.detail, "pipewire.service is inactive");
    let c = command_exists_check("ip", Some("/usr/bin/ip".to_string()));
    assert_eq!(c.id, "command.ip.exists");
    assert_eq!(c.detail, "ip is available");
    let c = command_exists_check("ip", None);
    assert_eq!(c.status, CheckStatus::Unknown);
    assert!(c.evidence.is_empty());
}

#[test]
fn summary_counts_errors_and_warnings() {
    let check = |status| Check { id: String::new(), status, detail: String::new(), evidence: Vec::new() };
    let checks = vec![check(CheckStatus::Error), check(CheckStatus::Warn), check(CheckStatus::Warn), check(CheckStatus::Passed)];
    assert_eq!(
        finalize_summary("", &checks),
        "context collection completed with 1 error check(s) and 2 warning check(s)"
    );
    assert_eq!(finalize_summary("", &checks[1..]), "context collection completed with 2 warning check(s)");
    assert_eq!(
        finalize_summary("", &[]),
        "context collection completed without obvious errors in the selected probes"
    );
    assert_eq!(finalize_summary("unsupported platform", &checks), "unsupported platform");
}

#[test]
fn logs_keep_the_first_twenty_matching_lines() {
    let text: String = (0..30).map(|i| format!("line {i} PipeWire\n")).collect();
    let log = filtered_log("journalctl --user", &text, &["pipewire"]).unwrap();
    assert_eq!(log.source, "journalctl --user");
    assert_eq!(log.message.lines().count(), 20);
    assert!(log.message.ends_with("line 19 PipeWire"));
    assert!(filtered_log("x", "nothing here", &["pipewire"]).is_none());
    assert_eq!(
        log_predicate(&["qq", "it's"]),
        "eventMessage CONTAINS[c] 'qq' OR eventMessage CONTAINS[c] 'its'"
    );
}

#[test]
fn input_environment_is_picked_in_key_order() {
    let entries = vec![
        "QT_IM_MODULE=ibus".to_string(),
        "PATH=/usr/bin".to_string(),
        "XMODIFIERS=@im=fcitx".to_string(),
        "QT_IM_MODULE=fcitx".to_string(),
        "DISPLAY=:0".to_string(),
    ];
    let picked = pick_input_env(&entries, "", "");
    assert_eq!(
        picked,
        vec![
            ("DISPLAY".to_string(), ":0".to_string()),
            ("QT_IM_MODULE".to_string(), "fcitx".to_string()),
            ("XMODIFIERS".to_string(), "@im=fcitx".to_string()),
        ]
    );
    let c = miyu::tools::diagnostics::input_env_check("qq", 42, &picked);
    assert_eq!(c.status, CheckStatus::Passed);
    assert_eq!(c.detail, "checked input method environment for qq pid 42");
    assert_eq!(c.evidence, vec!["QT_IM_MODULE=fcitx".to_string()]);
}
