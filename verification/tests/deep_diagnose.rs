use miyu::tools::deep_diagnose::{clip_inline, input_method_prompt, strip_report_preamble};
use miyu::tools::report::required;

#[test]
fn strips_report_preamble() {
    assert_eq!(
        strip_report_preamble("以下是诊断报告\n\n## 问题分析\nSteam 输入法不可用"),
        "## 问题分析\nSteam 输入法不可用"
    );
}

#[test]
fn clips_inline_values() {
    assert_eq!(clip_inline("  steam \n  不能   输入 ", 80), "steam 不能 输入");
    assert_eq!(clip_inline("abcdefghij", 6), "abc...");
    assert_eq!(clip_inline("abcdefghij", 2), "...");
}

#[test]
fn prompt_defaults_target() {
    let p = input_method_prompt("没法打字", None);
    assert!(p.starts_with("用户输入法问题：\n没法打字\n\n目标软件：未明确，需从问题中推断"));
    assert!(input_method_prompt("x", Some("steam")).contains("目标软件：steam"));
}

#[test]
fn required_argument_is_trimmed() {
    assert_eq!(required(Some("  qq "), "target"), Ok("qq".to_string()));
    assert_eq!(
        required(Some("   "), "issue"),
        Err("missing required argument: issue".to_string())
    );
    assert_eq!(
        required(None, "game"),
        Err("missing required argument: game".to_string())
    );
}
