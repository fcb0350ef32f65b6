use galaxy_md::sections::{group_sections, Section};
use galaxy_md::theme::hex_rgb;
use galaxy_md::viewer::{
    is_openable_scheme, is_reload_trigger, FsChangeKind, Viewer, ViewerAction, ViewerEvent,
};

fn section(heading: Option<usize>, body: &[usize]) -> Section {
    Section { heading, body: body.to_vec() }
}

#[test]
fn sections_follow_headings() {
    let kinds = vec![true, false, false, true, true, false];
    assert_eq!(
        group_sections(&kinds),
        vec![
            section(Some(0), &[1, 2]),
            section(Some(3), &[]),
            section(Some(4), &[5]),
        ]
    );
}

#[test]
fn leading_body_forms_its_own_section() {
    assert_eq!(
        group_sections(&vec![false, false, true]),
        vec![section(None, &[0, 1]), section(Some(2), &[])]
    );
    assert_eq!(group_sections(&vec![false]), vec![section(None, &[0])]);
    assert_eq!(group_sections(&vec![]), Vec::<Section>::new());
}

#[test]
fn sections_partition_items_in_order() {
    let kinds = vec![false, true, false, true, false, false, true];
    let mut seen = Vec::new();
    for s in group_sections(&kinds) {
        if let Some(h) = s.heading {
            assert!(kinds[h]);
            seen.push(h);
        }
        for &b in &s.body {
            assert!(!kinds[b]);
            seen.push(b);
        }
    }
    assert_eq!(seen, (0..kinds.len()).collect::<Vec<_>>());
}

#[test]
fn viewer_starts_formatted_with_plain_text_ready() {
    let v = Viewer::new("# Title\n\nbody".to_string());
    assert!(!v.selectable_mode());
    assert_eq!(v.editor_text(), "Title\nbody");
    assert_eq!(v.source(), "# Title\n\nbody");
    assert_eq!(v.header_label(), "Select Text");
}

#[test]
fn viewer_toggle_refreshes_editor_and_label() {
    let mut v = Viewer::new("*a*".to_string());
    assert_eq!(v.update(ViewerEvent::ToggleSelectable), ViewerAction::RefreshEditor);
    assert!(v.selectable_mode());
    assert_eq!(v.header_label(), "Formatted");
    assert_eq!(v.editor_text(), "a");
    assert_eq!(v.update(ViewerEvent::ToggleSelectable), ViewerAction::Nothing);
    assert!(!v.selectable_mode());
    assert_eq!(v.editor_text(), "a");
}

#[test]
fn viewer_reload_and_failed_read() {
    let mut v = Viewer::new("old".to_string());
    assert_eq!(
        v.update(ViewerEvent::FileRead(Err("permission denied".to_string()))),
        ViewerAction::ReportReadError("permission denied".to_string())
    );
    assert_eq!(v.source(), "old");
    assert_eq!(v.editor_text(), "old");
    assert_eq!(
        v.update(ViewerEvent::FileRead(Ok("- new".to_string()))),
        ViewerAction::ReloadViews
    );
    assert_eq!(v.source(), "- new");
    assert_eq!(v.editor_text(), "  • new");
}

#[test]
fn viewer_editor_is_read_only() {
    let mut v = Viewer::new("text".to_string());
    assert_eq!(
        v.update(ViewerEvent::EditorAction { is_edit: true }),
        ViewerAction::Nothing
    );
    assert_eq!(
        v.update(ViewerEvent::EditorAction { is_edit: false }),
        ViewerAction::PerformEditorAction
    );
    assert_eq!(v.editor_text(), "text");
}

fn click(v: &mut Viewer, scheme: &str) -> ViewerAction {
    v.update(ViewerEvent::LinkClicked {
        scheme: scheme.to_string(),
    })
}

#[test]
fn only_web_and_mail_links_are_opened() {
    let mut v = Viewer::new("[a](https://x)".to_string());
    for scheme in ["http", "https", "mailto"] {
        assert_eq!(click(&mut v, scheme), ViewerAction::OpenLink, "{scheme}");
        assert!(is_openable_scheme(scheme));
    }
    for scheme in ["file", "javascript", "ftp", "httpx", "http:", "", "mail"] {
        assert_eq!(click(&mut v, scheme), ViewerAction::IgnoreLink, "{scheme}");
        assert!(!is_openable_scheme(scheme));
    }
    assert_eq!(v.source(), "[a](https://x)");
    assert!(!v.selectable_mode());
}

#[test]
fn reload_only_on_content_changes_of_the_target() {
    assert!(is_reload_trigger(FsChangeKind::Modify, &vec![false, true]));
    assert!(is_reload_trigger(FsChangeKind::Create, &vec![true]));
    assert!(is_reload_trigger(FsChangeKind::Remove, &vec![true]));
    assert!(!is_reload_trigger(FsChangeKind::Access, &vec![true]));
    assert!(!is_reload_trigger(FsChangeKind::Any, &vec![true]));
    assert!(!is_reload_trigger(FsChangeKind::Other, &vec![true]));
    assert!(!is_reload_trigger(FsChangeKind::Modify, &vec![false, false]));
    assert!(!is_reload_trigger(FsChangeKind::Create, &vec![]));
}

#[test]
fn palette_bytes() {
    assert_eq!(hex_rgb(0x1a1b26), (0x1a, 0x1b, 0x26));
    assert_eq!(hex_rgb(0xc0caf5), (0xc0, 0xca, 0xf5));
    assert_eq!(hex_rgb(0xff123456), (0x12, 0x34, 0x56));
    assert_eq!(hex_rgb(0), (0, 0, 0));
}
