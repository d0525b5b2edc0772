use daily_folder::tray_menu::{console_item_label, tray_step, TrayAction, TrayEvent};

#[test]
fn toggle_shows_then_hides_the_console() {
    let (visible, action) = tray_step(false, TrayEvent::ToggleConsole);
    assert!(visible);
    assert_eq!(action, TrayAction::ShowConsole);
    assert_eq!(console_item_label(visible), "Hide console");
    let (visible, action) = tray_step(visible, TrayEvent::ToggleConsole);
    assert!(!visible);
    assert_eq!(action, TrayAction::HideConsole);
    assert_eq!(console_item_label(visible), "Show console");
}

#[test]
fn exit_and_other_events_keep_the_console() {
    assert_eq!(tray_step(true, TrayEvent::Exit), (true, TrayAction::Exit));
    assert_eq!(tray_step(false, TrayEvent::Exit), (false, TrayAction::Exit));
    assert_eq!(tray_step(true, TrayEvent::Other), (true, TrayAction::Nothing));
}
