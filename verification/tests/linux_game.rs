use miyu::tools::linux_game::{
    anticheat_summary_from_text, can_i_play_summary_from_text, compatibility_confidence, excerpt,
    extract_can_i_play_summary, game_candidates, game_prompt, normalize_game_query,
    section_excerpt, site_slugs, slug_candidates, slugify, strip_report_preamble,
    value_after_label, verdict, ConfidenceLevel, ProtonDbSummary, Verdict, OUTPUT_INSTRUCTION,
};

fn gold() -> Option<ProtonDbSummary> {
    Some(ProtonDbSummary { tier: Some("gold".to_string()) })
}

#[test]
fn slugifies_game_names() {
    assert_eq!(slugify("Cyberpunk 2077"), "cyberpunk-2077");
    assert_eq!(
        slugify("Tom Clancy's Rainbow Six® Siege"),
        "tom-clancy-s-rainbow-six-siege"
    );
}

#[test]
fn normalizes_chinese_cyberpunk_query() {
    assert_eq!(normalize_game_query("赛博朋克2077"), "Cyberpunk 2077");
    assert_eq!(
        normalize_game_query("Linux能玩赛博朋克2077吗"),
        "Cyberpunk 2077"
    );
}

#[test]
fn normalizes_chinese_genshin_query() {
    assert_eq!(normalize_game_query("原神"), "Genshin Impact");
    assert!(game_candidates("linux能玩原神吗")
        .iter()
        .any(|candidate| candidate == "Genshin Impact"));
    assert_eq!(slugify("Genshin Impact"), "genshin-impact");
    assert_eq!(
        slug_candidates(&game_candidates("linux能玩原神吗")),
        vec!["genshin-impact"]
    );
}

#[test]
fn output_instruction_mentions_final_report() {
    assert!(OUTPUT_INSTRUCTION.contains("final_report"));
    assert!(OUTPUT_INSTRUCTION.contains("红绿灯"));
    assert!(OUTPUT_INSTRUCTION.contains("怎么"));
}

#[test]
fn insufficient_data_requires_followup() {
    let result = verdict(&None, None, None, "");
    assert_eq!(result.label(), "不一定能玩");
    let confidence = compatibility_confidence(None, &None, None, None, result);
    assert_eq!(confidence.level.as_str(), "low");
    assert_eq!(confidence.needs_followup, true);
}

#[test]
fn strong_cross_source_signal_is_high_confidence() {
    let protondb = gold();
    let result = verdict(&protondb, Some("Works"), None, "");
    let confidence = compatibility_confidence(
        Some(1091500),
        &protondb,
        Some("Works"),
        Some("Running"),
        result,
    );
    assert_eq!(result.label(), "可玩");
    assert_eq!(confidence.level.as_str(), "high");
    assert_eq!(confidence.needs_followup, false);
}

#[test]
fn genshin_can_i_play_and_anticheat_indicate_playable() {
    let result = verdict(
        &None,
        Some("Genshin Impact Works Yes — runs via Proton"),
        Some("Genshin Impact Running AntiCheat"),
        "",
    );
    assert_eq!(result.label(), "可玩");
    let confidence =
        compatibility_confidence(None, &None, Some("Works"), Some("Running"), result);
    assert_eq!(confidence.level.as_str(), "medium");
    assert_eq!(confidence.needs_followup, true);
}

#[test]
fn single_source_signal_still_suggests_followup() {
    let protondb = gold();
    let result = verdict(&protondb, None, None, "");
    let confidence = compatibility_confidence(Some(1091500), &protondb, None, None, result);
    assert_eq!(confidence.level.as_str(), "medium");
    assert_eq!(confidence.needs_followup, true);
}

#[test]
fn anticheat_denied_blocks_multiplayer_verdict() {
    let result = verdict(
        &None,
        None,
        Some("Apex Legends Denied Easy Anti-Cheat"),
        "多人",
    );
    assert_eq!(result.traffic_light(), "🔴");
}

#[test]
fn gold_protondb_is_playable() {
    let result = verdict(&gold(), None, None, "");
    assert_eq!(result.traffic_light(), "🟢");
}

#[test]
fn can_i_play_marks_recommended_proton_as_source_value() {
    let summary = extract_can_i_play_summary(
        "<p>Works</p><p>Recommended Proton</p><p>Proton 9.0-3</p><p>Steam Deck Verified</p>",
    )
    .unwrap();
    assert_eq!(
        summary.source_recommended_proton.as_deref(),
        Some("Proton 9.0-3")
    );
    assert!(summary.works);
    assert!(summary.steam_deck_verified);
}

#[test]
fn verdict_order_and_reasons() {
    assert_eq!(verdict(&None, Some("Broken"), None, ""), Verdict::Broken);
    assert_eq!(
        verdict(&Some(ProtonDbSummary { tier: Some("silver".to_string()) }), None, None, ""),
        Verdict::Partial
    );
    assert_eq!(verdict(&None, None, Some("Denied"), "Online play"), Verdict::AntiCheatBlocked);
    assert_eq!(verdict(&None, None, Some("Denied"), "single player"), Verdict::Insufficient);
    assert_eq!(Verdict::Insufficient.reason(), "insufficient compatibility data");
    let c = compatibility_confidence(None, &None, None, None, Verdict::Insufficient);
    assert_eq!(
        c.followup_reason.as_deref(),
        Some("Steam app id was not found; ProtonDB data is missing; Can I Play on Linux data is missing; AreWeAntiCheatYet data is missing; compatibility data is insufficient")
    );
    assert_eq!(c.level, ConfidenceLevel::Low);
}

#[test]
fn report_preamble_is_cut() {
    assert_eq!(
        strip_report_preamble("好的，以下是最终报告\n\n## 调查结果\n🟢 可玩\n"),
        "## 调查结果\n🟢 可玩"
    );
    assert_eq!(strip_report_preamble("---\n\n最终报告\n正文"), "正文");
}

#[test]
fn page_text_helpers() {
    let text = "Works\n  Recommended Proton  \n\n Proton 8.0 \nKnown issues\nsome   crash\nFixes\nuse  -dx11\nVerdict\nok";
    assert_eq!(value_after_label(text, "Recommended Proton").as_deref(), Some("Proton 8.0"));
    assert_eq!(value_after_label(text, "Missing"), None);
    assert_eq!(section_excerpt(text, "Known issues", "Fixes", 1200).as_deref(), Some("some crash"));
    assert_eq!(section_excerpt(text, "Fixes", "Verdict", 3).as_deref(), Some("use"));
    assert_eq!(section_excerpt(text, "Nothing", "Verdict", 3), None);
    assert_eq!(excerpt("  a \n b  c ", 4), "a b ");
    let s = can_i_play_summary_from_text(text);
    assert!(s.works && !s.partial && !s.broken);
    assert_eq!(s.fixes.as_deref(), Some("use -dx11"));
    let a = anticheat_summary_from_text("Status: Running with Easy Anti-Cheat, Denied before");
    assert_eq!(a.status, Some("Running"));
    assert!(a.mentions_eac && !a.mentions_battleye);
}

#[test]
fn slugs_include_steam_title() {
    let candidates = vec!["Genshin Impact".to_string(), "原神".to_string()];
    assert_eq!(
        site_slugs(&candidates, Some("Genshin Impact")),
        vec!["genshin-impact".to_string()]
    );
    assert_eq!(
        site_slugs(&candidates, Some("Zeta")),
        vec!["genshin-impact".to_string(), "zeta".to_string()]
    );
    assert_eq!(slug_candidates(&["B".to_string(), "a".to_string(), "b".to_string()]), vec!["a", "b"]);
}

#[test]
fn prompt_names_concern_or_default() {
    assert!(game_prompt("原神", "").contains("关注点：未明确"));
    assert!(game_prompt("原神", "联机").contains("关注点：联机"));
}
