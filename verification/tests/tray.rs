use scripthub::tray::{menu_action, TrayAction};

#[test]
fn show_entry_shows_the_window() {
    assert_eq!(menu_action(b"show"), TrayAction::ShowMainWindow);
}

#[test]
fn quit_entry_quits() {
    assert_eq!(menu_action(b"quit"), TrayAction::Quit);
}

#[test]
fn unknown_entries_are_ignored() {
    assert_eq!(menu_action(b""), TrayAction::Ignore);
    assert_eq!(menu_action(b"shows"), TrayAction::Ignore);
    assert_eq!(menu_action(b"qui"), TrayAction::Ignore);
    assert_eq!(menu_action(b"hide"), TrayAction::Ignore);
}
