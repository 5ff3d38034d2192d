use miyu::clipboard::{
    clipboard_command, clipboard_offer, clipboard_start, clipboard_step, ClipboardEvent, ClipboardStage, clipboard_path_candidate, image_from_output, is_image_path,
    targets_from_output, text_from_output, text_may_be_path, ClipboardContent, ClipboardImage,
    MAX_CLIPBOARD_IMAGE_BYTES,
};

fn image(mime: &str, data: &[u8]) -> ClipboardImage {
    ClipboardImage { mime: mime.to_string(), data: data.to_vec() }
}

#[test]
fn data_url_encodes_the_bytes() {
    assert_eq!(image("image/png", b"hi").data_url(), "data:image/png;base64,aGk=");
    assert_eq!(image("image/jpeg", b"").data_url(), "data:image/jpeg;base64,");
    assert_eq!(image("image/gif", b"Many").data_url(), "data:image/gif;base64,TWFueQ==");
    assert_eq!(image("image/gif", &[0xfb, 0xff]).data_url(), "data:image/gif;base64,+/8=");
}

#[test]
fn extension_follows_the_mime_type() {
    assert_eq!(image("image/png", b"x").extension(), "png");
    assert_eq!(image("image/webp", b"x").extension(), "webp");
    assert_eq!(image("image/", b"x").extension(), "png");
    assert_eq!(image("png", b"x").extension(), "png");
    assert_eq!(image("image/svg/xml", b"x").extension(), "svg");
    assert_eq!(image("image/jpeg", b"x").temp_file_name(1700000000123, 2), "img_1700000000123_2.jpeg");
}

#[test]
fn image_output_needs_success_bytes_and_a_size_limit() {
    assert!(image_from_output(true, vec![1, 2, 3], "image/png").is_some());
    assert!(image_from_output(false, vec![1, 2, 3], "image/png").is_none());
    assert!(image_from_output(true, Vec::new(), "image/png").is_none());
    assert!(image_from_output(true, vec![0; MAX_CLIPBOARD_IMAGE_BYTES + 1], "image/png").is_none());
    let img = image_from_output(true, vec![0; MAX_CLIPBOARD_IMAGE_BYTES], "image/png").unwrap();
    assert_eq!(img.mime, "image/png");
}

#[test]
fn targets_and_text_are_trimmed() {
    assert_eq!(
        targets_from_output(true, " TARGETS \n\n image/png\r\ntext/plain "),
        Some(vec!["TARGETS".to_string(), "image/png".to_string(), "text/plain".to_string()])
    );
    assert_eq!(targets_from_output(true, " \n "), None);
    assert_eq!(targets_from_output(false, "text/plain"), None);
    assert_eq!(text_from_output(true, "  /tmp/a.png \n"), Some("/tmp/a.png".to_string()));
    assert_eq!(text_from_output(true, " \n"), None);
}

#[test]
fn offer_reads_the_targets() {
    let targets = vec!["TARGETS".to_string(), "image/png".to_string(), "UTF8_STRING".to_string()];
    let offer = clipboard_offer(&targets);
    assert!(!offer.has_uri_list);
    assert!(offer.has_image);
    assert!(offer.has_text);
    let files = vec!["x-special/gnome-copied-files".to_string()];
    assert!(clipboard_offer(&files).has_uri_list);
    assert!(text_may_be_path(false, "file:///a"));
    assert!(text_may_be_path(false, "/a"));
    assert!(!text_may_be_path(false, "~/a"));
    assert!(text_may_be_path(true, "~/a"));
}

#[test]
fn path_candidates_follow_the_rules() {
    assert_eq!(clipboard_path_candidate(" file:///tmp/a.png ", None), Some("/tmp/a.png".to_string()));
    assert_eq!(clipboard_path_candidate("/tmp/b.txt", None), Some("/tmp/b.txt".to_string()));
    assert_eq!(clipboard_path_candidate("~/Pictures/c.jpg", Some("/home/u")), Some("/home/u/Pictures/c.jpg".to_string()));
    assert_eq!(clipboard_path_candidate("~/c.jpg", None), None);
    assert_eq!(clipboard_path_candidate("/a\n/b", None), None);
    assert_eq!(clipboard_path_candidate("relative/path", None), None);
    assert_eq!(clipboard_path_candidate("   ", None), None);
}

#[test]
fn image_paths_are_known_by_extension() {
    assert!(is_image_path("/tmp/a.PNG"));
    assert!(is_image_path("/tmp/b.jpeg"));
    assert!(is_image_path("/tmp/dir/c.svg/"));
    assert!(!is_image_path("/tmp/d.txt"));
    assert!(!is_image_path("/tmp/.png"));
    assert!(!is_image_path("/tmp/noext"));
    assert!(!is_image_path("/"));
    assert!(is_image_path("/tmp/x.tar.gif"));
}

#[test]
fn content_prefers_a_path_over_an_image() {
    let png = "/tmp/pasted.png".to_string();
    let r = clipboard_start();
    assert_eq!(r.stage, ClipboardStage::Targets);
    let targets = vec!["text/uri-list".to_string(), "image/png".to_string()];
    let (r, done) = clipboard_step(r, ClipboardEvent::Targets(Some(targets)), None);
    assert!(done.is_none());
    assert_eq!(r.stage, ClipboardStage::Text);
    let (r, done) = clipboard_step(r, ClipboardEvent::Text(Some(format!("file://{png}"))), None);
    assert!(done.is_none());
    assert_eq!(r.stage, ClipboardStage::CheckPath);
    assert_eq!(r.path, png);
    let (_, done) = clipboard_step(r, ClipboardEvent::PathExists(true), None);
    match done {
        Some(ClipboardContent::ImagePath(p)) => assert_eq!(p, png),
        _ => panic!("expected an image path"),
    }
}

#[test]
fn steps_fall_through_tools_and_stages() {
    let r = clipboard_start();
    let (r, done) = clipboard_step(r, ClipboardEvent::Targets(None), None);
    assert!(done.is_none());
    assert_eq!((r.stage, r.tool), (ClipboardStage::Targets, 1));
    let targets = vec!["UTF8_STRING".to_string(), "image/png".to_string()];
    let (r, _) = clipboard_step(r, ClipboardEvent::Targets(Some(targets)), None);
    assert_eq!((r.stage, r.tool), (ClipboardStage::Text, 0));
    let (r, done) = clipboard_step(r, ClipboardEvent::Text(Some("hello".to_string())), None);
    assert!(done.is_none());
    assert_eq!((r.stage, r.tool), (ClipboardStage::Image, 0));
    let (r, _) = clipboard_step(r, ClipboardEvent::Image(None), None);
    assert_eq!((r.stage, r.tool), (ClipboardStage::Image, 1));
    let (_, done) = clipboard_step(r, ClipboardEvent::Image(Some(image("image/png", b"x"))), None);
    assert!(matches!(done, Some(ClipboardContent::Image(_))));

    let (r, done) = clipboard_step(clipboard_start(), ClipboardEvent::Targets(Some(vec!["TARGETS".to_string()])), None);
    assert_eq!(r.stage, ClipboardStage::Done);
    assert!(matches!(done, Some(ClipboardContent::Empty)));

    let (r, _) = clipboard_step(clipboard_start(), ClipboardEvent::Targets(Some(vec!["STRING".to_string()])), None);
    let (r, _) = clipboard_step(r, ClipboardEvent::Text(Some("/tmp/x.txt".to_string())), None);
    assert_eq!(r.stage, ClipboardStage::CheckPath);
    let (_, done) = clipboard_step(r, ClipboardEvent::PathExists(false), None);
    assert!(matches!(done, Some(ClipboardContent::Empty)));
}

#[test]
fn each_stage_names_its_tools_in_order() {
    assert_eq!(clipboard_command(ClipboardStage::Targets, 0), Some(("wl-paste", vec!["-l"])));
    assert_eq!(
        clipboard_command(ClipboardStage::Targets, 1),
        Some(("xclip", vec!["-selection", "clipboard", "-t", "TARGETS", "-o"]))
    );
    assert_eq!(clipboard_command(ClipboardStage::Text, 0), Some(("wl-paste", vec![])));
    assert_eq!(clipboard_command(ClipboardStage::Text, 2), Some(("xsel", vec!["--clipboard", "--output"])));
    assert_eq!(clipboard_command(ClipboardStage::Image, 0), Some(("wl-paste", vec!["-t", "image/png"])));
    assert_eq!(clipboard_command(ClipboardStage::Image, 2), None);
    assert_eq!(clipboard_command(ClipboardStage::CheckPath, 0), None);
}
