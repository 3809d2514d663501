use reminder::alert::{
    alert_for, create_alert, Action, AlertWindows, WindowEvent, TASKBAR, WINDOW_HEIGHT,
    WINDOW_PADDING, WINDOW_WIDTH,
};
use reminder::reminder::{CustomEvents, Theme};

#[test]
fn alert_has_title_size_and_place() {
    let alert = create_alert("Drink water", Theme::Dark);
    assert_eq!(alert.title, "Reminder: Drink water");
    assert_eq!(alert.reminder_string, "Drink water");
    assert_eq!(alert.theme, Theme::Dark);
    assert_eq!((alert.width, alert.height), (400, 260));
    assert_eq!((alert.x, alert.y), (24, 64));
    assert!(!alert.decorations);
    assert!(alert.transparent);
    assert!(alert.blur);
    assert!(alert.always_on_top);
}

#[test]
fn alert_constants() {
    assert_eq!(WINDOW_WIDTH, 400);
    assert_eq!(WINDOW_HEIGHT, 260);
    assert_eq!(WINDOW_PADDING, 24);
    assert_eq!(TASKBAR, 40);
}

#[test]
fn alert_for_an_empty_text() {
    let alert = create_alert("", Theme::Light);
    assert_eq!(alert.title, "Reminder: ");
    assert_eq!(alert.reminder_string, "");
    assert_eq!(alert.theme, Theme::Light);
}

#[test]
fn alert_for_a_timer_event() {
    let event = CustomEvents::CreateAlert("Stretch".to_string(), Theme::Light);
    assert_eq!(alert_for(&event), create_alert("Stretch", Theme::Light));
}

#[test]
fn no_window_is_open_at_first() {
    let windows = AlertWindows::new();
    assert_eq!(windows.len(), 0);
    assert!(!windows.contains(1));
    assert_eq!(windows.get(1), None);
}

#[test]
fn inserted_window_is_open() {
    let mut windows = AlertWindows::new();
    windows.insert(7, create_alert("a", Theme::Dark));
    windows.insert(9, create_alert("b", Theme::Light));
    assert_eq!(windows.len(), 2);
    assert!(windows.contains(7));
    assert_eq!(windows.get(9), Some(&create_alert("b", Theme::Light)));
    assert!(!windows.contains(8));
}

#[test]
fn insert_replaces_a_window_of_the_same_number() {
    let mut windows = AlertWindows::new();
    windows.insert(7, create_alert("a", Theme::Dark));
    windows.insert(7, create_alert("b", Theme::Light));
    assert_eq!(windows.len(), 1);
    assert_eq!(windows.get(7), Some(&create_alert("b", Theme::Light)));
}

#[test]
fn resize_reconfigures_the_surface() {
    let mut windows = AlertWindows::new();
    windows.insert(7, create_alert("a", Theme::Dark));
    windows.insert(9, create_alert("b", Theme::Light));
    let event = WindowEvent::Resized { width: 800, height: 600 };
    assert!(windows.accepts(7, event));
    assert_eq!(
        windows.handle_window_event(7, event),
        Action::Reconfigure { width: 800, height: 600 }
    );
    let mut expected = create_alert("a", Theme::Dark);
    expected.width = 800;
    expected.height = 600;
    assert_eq!(windows.get(7), Some(&expected));
    assert_eq!(windows.get(9), Some(&create_alert("b", Theme::Light)));
    assert_eq!(windows.len(), 2);
}

#[test]
fn redraw_renders_and_changes_nothing() {
    let mut windows = AlertWindows::new();
    windows.insert(7, create_alert("a", Theme::Dark));
    assert!(windows.accepts(7, WindowEvent::RedrawRequested));
    assert_eq!(windows.handle_window_event(7, WindowEvent::RedrawRequested), Action::Render);
    assert_eq!(windows.get(7), Some(&create_alert("a", Theme::Dark)));
}

#[test]
fn close_request_closes_the_window() {
    let mut windows = AlertWindows::new();
    windows.insert(7, create_alert("a", Theme::Dark));
    windows.insert(9, create_alert("b", Theme::Light));
    assert_eq!(windows.handle_window_event(7, WindowEvent::CloseRequested), Action::Close);
    assert!(!windows.contains(7));
    assert!(windows.contains(9));
    assert_eq!(windows.len(), 1);
}

#[test]
fn click_closes_the_window() {
    let mut windows = AlertWindows::new();
    windows.insert(7, create_alert("a", Theme::Dark));
    assert_eq!(windows.handle_window_event(7, WindowEvent::MouseInput), Action::Close);
    assert_eq!(windows.len(), 0);
}

#[test]
fn closing_an_unknown_window_does_nothing() {
    let mut windows = AlertWindows::new();
    windows.insert(7, create_alert("a", Theme::Dark));
    assert!(windows.accepts(8, WindowEvent::CloseRequested));
    assert_eq!(windows.handle_window_event(8, WindowEvent::CloseRequested), Action::Nothing);
    assert_eq!(windows.handle_window_event(8, WindowEvent::MouseInput), Action::Nothing);
    assert_eq!(windows.len(), 1);
}

#[test]
fn other_events_are_ignored() {
    let mut windows = AlertWindows::new();
    windows.insert(7, create_alert("a", Theme::Dark));
    assert_eq!(windows.handle_window_event(7, WindowEvent::Other), Action::Nothing);
    assert_eq!(windows.handle_window_event(8, WindowEvent::Other), Action::Nothing);
    assert_eq!(windows.get(7), Some(&create_alert("a", Theme::Dark)));
}

#[test]
fn unknown_window_cannot_be_resized_or_drawn() {
    let windows = AlertWindows::new();
    assert!(!windows.accepts(7, WindowEvent::Resized { width: 1, height: 1 }));
    assert!(!windows.accepts(7, WindowEvent::RedrawRequested));
    assert!(windows.accepts(7, WindowEvent::MouseInput));
    assert!(windows.accepts(7, WindowEvent::Other));
}
