use pvfilt::clock::saturate_millis;
use pvfilt::help::{help_fragments, help_rect, help_text, text_size, Rect};
use pvfilt::{Action, AppEvent, Key, UiState};

#[test]
fn quit_keys_quit() {
    let mut ui = UiState::new();
    for k in [Key::Ctrl('c'), Key::Char('q'), Key::Esc] {
        assert_eq!(ui.process_event(AppEvent::Key(k)), Action::Quit);
    }
    assert!(!ui.show_help);
}

#[test]
fn help_key_toggles_help() {
    let mut ui = UiState::new();
    assert_eq!(ui.process_event(AppEvent::Key(Key::Char('h'))), Action::Redraw);
    assert!(ui.show_help);
    assert_eq!(ui.process_event(AppEvent::Key(Key::Char('h'))), Action::Redraw);
    assert!(!ui.show_help);
}

#[test]
fn updates_and_resizes_redraw_other_input_ignored() {
    let mut ui = UiState::new();
    assert_eq!(ui.process_event(AppEvent::Update), Action::Redraw);
    assert_eq!(ui.process_event(AppEvent::Resize), Action::Redraw);
    assert_eq!(ui.process_event(AppEvent::OtherInput), Action::Nothing);
    assert_eq!(ui.process_event(AppEvent::Key(Key::Char('x'))), Action::Nothing);
    assert_eq!(ui.process_event(AppEvent::Key(Key::Ctrl('d'))), Action::Nothing);
    assert_eq!(ui.process_event(AppEvent::Key(Key::Other)), Action::Nothing);
    assert!(!ui.show_help);
}

#[test]
fn help_text_fragments() {
    let f = help_fragments(help_text().as_bytes());
    let got: Vec<(bool, String)> =
        f.iter().map(|f| (f.highlight, String::from_utf8(f.text.clone()).unwrap())).collect();
    assert_eq!(
        got,
        vec![
            (false, String::new()),
            (true, "        h:".to_string()),
            (false, " Toggle this help window\n".to_string()),
            (true, " ESC q ^C:".to_string()),
            (false, " Quit".to_string()),
        ]
    );
}

#[test]
fn fragments_without_markers() {
    let f = help_fragments(b"plain");
    assert_eq!(f.len(), 1);
    assert!(!f[0].highlight);
    assert_eq!(f[0].text, b"plain".to_vec());
}

#[test]
fn help_text_size() {
    assert_eq!(text_size(help_text().as_bytes()), (34, 2));
}

#[test]
fn text_size_edges() {
    assert_eq!(text_size(b""), (0, 0));
    assert_eq!(text_size(b"ab\n"), (2, 1));
    assert_eq!(text_size(b"a\n\nabc\x01d"), (4, 3));
}

#[test]
fn help_rect_in_large_area() {
    assert_eq!(help_rect(80, 24, 34, 2), Some(Rect { x: 42, y: 19, width: 37, height: 4 }));
}

#[test]
fn help_rect_clipped_and_too_small() {
    assert_eq!(help_rect(20, 6, 34, 2), Some(Rect { x: 1, y: 2, width: 18, height: 3 }));
    assert_eq!(help_rect(4, 24, 34, 2), None);
    assert_eq!(help_rect(80, 4, 34, 2), None);
}

#[test]
fn saturating_milliseconds() {
    assert_eq!(saturate_millis(1_234), 1_234);
    assert_eq!(saturate_millis(u128::MAX), u64::MAX);
}
