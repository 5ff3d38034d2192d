use miyu::tools::registry::ToolRegistry;
use miyu::tools::scripts::{
    auto_detect_script, check_registration, clip_output, description_from_script, entry_to_spec,
    executable_mode, extract_description,
    extract_metadata, is_valid_id, merge_scripts, not_found_message, register, registered_entry,
    registration_message, remove_from_index, rescan_scripts, resolve_script_path, script_source,
    select_script_description, select_script_display_name, split_description_line,
    unregistered_message, upsert_entry, DescriptionKey, DirFile, IndexedScript, ScriptDescriptions,
    ScriptDir, ScriptDisplayNames, ScriptEntry,
};

#[test]
fn extracts_description_from_shebang_script() {
    let raw = "#!/bin/bash\ndescription: Check system status\n\necho ok";
    assert_eq!(
        extract_description(raw, false),
        Some("Check system status".to_string())
    );
}

#[test]
fn extracts_chinese_description() {
    let raw = "#!/usr/bin/env python3\n功能介绍: 检查系统状态\n\nprint('ok')";
    assert_eq!(extract_description(raw, true), Some("检查系统状态".to_string()));
}

#[test]
fn extracts_bilingual_script_descriptions() {
    let raw = "#!/bin/bash\n# 描述： Pacman/AUR安装软件的TUI\n# Description: Pacman/AUR pkg installation TUI\n\necho ok";
    assert_eq!(
        extract_metadata(raw).descriptions,
        ScriptDescriptions {
            zh: Some("Pacman/AUR安装软件的TUI".to_string()),
            en: Some("Pacman/AUR pkg installation TUI".to_string()),
        }
    );
}

#[test]
fn extracts_lowercase_english_description() {
    let raw = "#!/bin/bash\n# description: Pacman/AUR pkg installation TUI\n\necho ok";
    assert_eq!(
        extract_metadata(raw).descriptions,
        ScriptDescriptions {
            zh: None,
            en: Some("Pacman/AUR pkg installation TUI".to_string()),
        }
    );
}

#[test]
fn script_description_falls_back_when_locale_description_missing() {
    let english_only = ScriptDescriptions {
        zh: None,
        en: Some("English only".to_string()),
    };
    assert_eq!(
        select_script_description(&english_only, true),
        Some("English only".to_string())
    );
}

#[test]
fn returns_none_when_no_description() {
    let raw = "#!/bin/bash\necho hello";
    assert_eq!(extract_description(raw, false), None);
}

#[test]
fn extracts_script_display_name_metadata() {
    let raw = "#!/bin/bash\n# 显示名称：电池护理\n# 描述：管理电池充电阈值\n\necho ok";
    let metadata = extract_metadata(raw);
    assert_eq!(metadata.display_names.zh, Some("电池护理".to_string()));
    assert_eq!(
        metadata.descriptions.zh,
        Some("管理电池充电阈值".to_string())
    );
}

#[test]
fn locale_picks_its_own_description_first() {
    let both = ScriptDescriptions {
        zh: Some("中文".to_string()),
        en: Some("English".to_string()),
    };
    assert_eq!(select_script_description(&both, true), Some("中文".to_string()));
    assert_eq!(select_script_description(&both, false), Some("English".to_string()));
    let names = ScriptDisplayNames { zh: Some("电池".to_string()), en: None };
    assert_eq!(select_script_display_name(&names, false), Some("电池".to_string()));
}

#[test]
fn description_line_needs_a_value() {
    assert!(matches!(
        split_description_line("  Description : hi "),
        Some((DescriptionKey::English, ref v)) if v == "hi"
    ));
    assert!(split_description_line("description:   ").is_none());
    assert!(split_description_line("no colon here").is_none());
}

#[test]
fn auto_detects_executable_script() {
    let raw = "#!/bin/bash\ndescription: Say hello\n\necho hello";
    let entry = auto_detect_script(raw, Some("hello"), Some("hello.sh"), false).unwrap();
    assert_eq!(entry.id, "hello");
    assert_eq!(entry.display_name, "hello");
    assert_eq!(entry.description, "Say hello");
    assert_eq!(entry.path, "hello.sh");
    assert!(auto_detect_script("echo no shebang", Some("x"), Some("x.sh"), false).is_none());
}

#[test]
fn auto_detect_uses_script_display_name() {
    let raw = "#!/bin/bash\n# 显示名称：电池护理\n# 描述：管理电池充电阈值\n\necho ok";
    let entry = auto_detect_script(raw, Some("battery-care"), Some("battery-care.sh"), true).unwrap();
    assert_eq!(entry.id, "battery-care");
    assert_eq!(entry.display_name, "电池护理");
    assert_eq!(entry.description, "管理电池充电阈值");
}

fn file(dir: &str, name: &str, stem: &str, contents: &str) -> DirFile {
    DirFile {
        path: format!("{dir}/{name}"),
        is_file: true,
        file_name: name.to_string(),
        file_stem: Some(stem.to_string()),
        canonical: format!("{dir}/{name}"),
        contents: Some(contents.to_string()),
    }
}

fn entry(id: &str, display: &str, description: &str, path: &str) -> ScriptEntry {
    ScriptEntry {
        id: id.to_string(),
        display_name: display.to_string(),
        description: description.to_string(),
        path: path.to_string(),
        parameters: None,
        timeout_seconds: None,
    }
}

#[test]
fn scan_finds_auto_detected_scripts() {
    let dir = ScriptDir {
        is_dir: true,
        indexed: Vec::new(),
        files: vec![file("/s", "greet.sh", "greet", "#!/bin/bash\ndescription: Greet user\n\necho hi")],
    };
    let entries = merge_scripts(&[dir], false);
    assert_eq!(entries.len(), 1);
    assert_eq!(entries[0].id, "greet");
    assert_eq!(entries[0].path, "/s/greet.sh");
}

#[test]
fn scan_merges_index_and_auto_detected() {
    let dir = ScriptDir {
        is_dir: true,
        indexed: vec![IndexedScript {
            entry: entry("custom", "自定义", "Custom tool", "custom.sh"),
            resolved_path: "/s/custom.sh".to_string(),
            is_file: true,
            canonical: "/s/custom.sh".to_string(),
            contents: Some("#!/bin/bash\necho custom".to_string()),
        }],
        files: vec![
            file("/s", "custom.sh", "custom", "#!/bin/bash\necho custom"),
            file("/s", "auto.sh", "auto", "#!/bin/bash\ndescription: Auto detected\n\necho auto"),
            file("/s", "index.json", "index", "#!/bin/bash"),
            file("/s", ".hidden.sh", ".hidden", "#!/bin/bash"),
        ],
    };
    let entries = merge_scripts(&[dir], false);
    assert_eq!(entries.len(), 2);
    let ids: Vec<&str> = entries.iter().map(|e| e.id.as_str()).collect();
    assert!(ids.contains(&"custom"));
    assert!(ids.contains(&"auto"));
    assert_eq!(entries[0].description, "Custom tool");
}

#[test]
fn scan_fills_empty_index_description_from_script_header() {
    let contents = "#!/bin/bash\n# Description: Custom header description\n\necho custom";
    let dir = ScriptDir {
        is_dir: true,
        indexed: vec![IndexedScript {
            entry: entry("custom", "自定义", "", "custom.sh"),
            resolved_path: "/s/custom.sh".to_string(),
            is_file: true,
            canonical: "/s/custom.sh".to_string(),
            contents: Some(contents.to_string()),
        }],
        files: vec![file("/s", "custom.sh", "custom", contents)],
    };
    let entries = merge_scripts(&[dir], false);
    assert_eq!(entries.len(), 1);
    assert_eq!(entries[0].description, "Custom header description");
    assert_eq!(entries[0].path, "/s/custom.sh");
}

#[test]
fn register_script_uses_header_description_when_omitted() {
    let contents = "#!/bin/bash\n# Description: Pacman/AUR pkg installation TUI\n\necho ok";
    let (id, path) = check_registration(Some("pkg_install"), Some("pkg.sh")).unwrap();
    let description = description_from_script(Some(contents), &id, false);
    let e = registered_entry(id, "", description, path, None, None);
    let mut index = Vec::new();
    upsert_entry(&mut index, e);
    assert_eq!(index.len(), 1);
    assert_eq!(index[0].description, "Pacman/AUR pkg installation TUI");
    assert_eq!(description_from_script(None, "x", false), "User script: x");
}

#[test]
fn make_executable_sets_x_bit() {
    let mode = 0o100644u32;
    assert_eq!(mode & 0o111, 0);
    let new_mode = executable_mode(mode);
    assert_ne!(new_mode & 0o111, 0);
    assert_eq!(new_mode, 0o100755);
}

#[test]
fn scan_deduplicates_by_path() {
    let dir = ScriptDir {
        is_dir: true,
        indexed: vec![IndexedScript {
            entry: entry("alias1", "A1", "alias", "dup.sh"),
            resolved_path: "/s/dup.sh".to_string(),
            is_file: true,
            canonical: "/s/dup.sh".to_string(),
            contents: None,
        }],
        files: vec![file("/s", "dup.sh", "dup", "#!/bin/bash\ndescription: Dup\n\necho dup")],
    };
    let entries = merge_scripts(&[dir], false);
    assert_eq!(entries.len(), 1);
    assert_eq!(entries[0].id, "alias1");
}

#[test]
fn scan_user_dir_overrides_system_dir() {
    let sys = ScriptDir {
        is_dir: true,
        indexed: Vec::new(),
        files: vec![file("/sys", "tool.sh", "tool", "#!/bin/bash\ndescription: System version\n\necho sys")],
    };
    let user = ScriptDir {
        is_dir: true,
        indexed: Vec::new(),
        files: vec![file("/usr", "tool.sh", "tool", "#!/bin/bash\ndescription: User version\n\necho user")],
    };
    let missing = ScriptDir { is_dir: false, indexed: Vec::new(), files: vec![file("/x", "a.sh", "a", "#!/bin/sh")] };
    let entries = merge_scripts(&[sys, missing, user], false);
    assert_eq!(entries.len(), 1);
    assert_eq!(entries[0].description, "User version");
    assert_eq!(entries[0].path, "/usr/tool.sh");
}

#[test]
fn registering_scripts_adds_tools_and_management_tools() {
    let mut registry = ToolRegistry::new();
    let scanned = vec![entry("battery", "电池", "Battery care", "battery.sh")];
    register(&mut registry, Some(scanned), "/home/u/.miyu/scripts", false);
    let tool = registry.get("battery").unwrap();
    assert_eq!(tool.display_name.as_deref(), Some("电池"));
    let run = tool.run.as_ref().unwrap();
    assert_eq!(run.path, "battery.sh");
    assert_eq!(run.scripts_dir, "/home/u/.miyu/scripts");
    assert_eq!(run.timeout_seconds, 120);
    assert!(registry.get("register_script").is_some());
    assert!(registry.get("unregister_script").is_some());
    assert!(registry.get("list_scripts").is_some());

    let before = registry.len();
    rescan_scripts(
        &mut registry,
        Some(vec![entry("battery", "X", "changed", "other.sh"), entry("fresh", "F", "New", "/abs/fresh.sh")]),
        "/home/u/.miyu/scripts",
        false,
    );
    assert_eq!(registry.len(), before + 1);
    assert_eq!(registry.get("battery").unwrap().description, "Battery care");
    assert_eq!(registry.get("fresh").unwrap().run.as_ref().unwrap().path, "/abs/fresh.sh");
    assert_eq!(registry.get("fresh").unwrap().description, "New");

    let mut untouched = ToolRegistry::new();
    register(&mut untouched, None, "/d", false);
    assert_eq!(untouched.len(), 0);
}

#[test]
fn entry_spec_caps_timeout_and_keeps_schema() {
    let mut e = entry("t", "T", "desc", "t.sh");
    e.timeout_seconds = Some(999);
    e.parameters = Some("{\"type\":\"object\"}".to_string());
    let spec = entry_to_spec(&e, "/d", false).unwrap();
    assert_eq!(spec.parameters, "{\"type\":\"object\"}");
    assert_eq!(spec.run.as_ref().unwrap().timeout_seconds, 300);
    assert_eq!(spec.display_name.as_deref(), Some("T"));
    let mut blank = entry("", "", "", "x.sh");
    blank.parameters = None;
    assert_eq!(entry_to_spec(&blank, "/d", false).unwrap_err(), "script id is empty");
}

#[test]
fn registration_arguments_are_checked_in_order() {
    assert_eq!(check_registration(None, Some("a.sh")).unwrap_err(), "id is required");
    assert_eq!(
        check_registration(Some("9abc"), Some("a.sh")).unwrap_err(),
        "id must start with an ASCII letter and contain only ASCII alphanumeric and underscore"
    );
    assert_eq!(check_registration(Some(" pkg "), Some("  ")).unwrap_err(), "path is required");
    assert_eq!(
        check_registration(Some(" pkg_install "), Some(" pkg.sh ")).unwrap(),
        ("pkg_install".to_string(), "pkg.sh".to_string())
    );
    assert!(is_valid_id("a_1"));
    assert!(!is_valid_id("a-1"));
}

#[test]
fn registered_entry_defaults_display_name_and_caps_timeout() {
    let e = registered_entry(
        "pkg".to_string(),
        "  ",
        "Pacman/AUR pkg installation TUI".to_string(),
        "pkg.sh".to_string(),
        None,
        Some(1000),
    );
    assert_eq!(e.display_name, "pkg");
    assert_eq!(e.timeout_seconds, Some(300));
    assert_eq!(
        registration_message("pkg", "/s/pkg.sh"),
        "Script 'pkg' registered successfully. It will be available as a tool in the next tool call round. The script path is: /s/pkg.sh"
    );
}

#[test]
fn unregistering_after_registering_restores_the_index() {
    let mut index = vec![entry("a", "A", "a", "a.sh")];
    upsert_entry(&mut index, entry("b", "B", "b", "b.sh"));
    upsert_entry(&mut index, entry("a", "A2", "a2", "a.sh"));
    assert_eq!(index.len(), 2);
    assert_eq!(index[0].display_name, "A2");
    let removed = remove_from_index(&mut index, "b").unwrap();
    assert_eq!(removed.id, "b");
    assert_eq!(index, vec![entry("a", "A2", "a2", "a.sh")]);
    assert!(remove_from_index(&mut index, "zzz").is_none());
    assert_eq!(unregistered_message("b", true), "Script 'b' unregistered successfully and file deleted.");
    assert_eq!(unregistered_message("b", false), "Script 'b' unregistered successfully.");
    assert_eq!(not_found_message("zzz"), "script id 'zzz' not found in index");
}

#[test]
fn paths_resolve_against_the_scripts_directory() {
    assert_eq!(resolve_script_path("a.sh", "/s"), "/s/a.sh");
    assert_eq!(resolve_script_path("a.sh", "/s/"), "/s/a.sh");
    assert_eq!(resolve_script_path("/abs/a.sh", "/s"), "/abs/a.sh");
    assert_eq!(script_source("/sys/scripts/a.sh", "/sys/scripts"), "system");
    assert_eq!(script_source("/sys/scripts2/a.sh", "/sys/scripts"), "user");
}

#[test]
fn long_output_is_clipped_with_a_localized_note() {
    let long = "x".repeat(20005);
    let clipped = clip_output(&long, false);
    assert!(clipped.ends_with("\n...[truncated to 20000 chars]"));
    assert_eq!(clipped.chars().count(), 20000 + "\n...[truncated to 20000 chars]".chars().count());
    assert!(clip_output(&long, true).ends_with("\n...[已截断到 20000 字符]"));
    assert_eq!(clip_output("short", false), "short");
}
