use ratatui_tools::event::{Event, KeyCode, KeyEvent};
use ratatui_tools::framework::{react, route, FrameworkEvent, Reaction, Route};
use ratatui_tools::layout::Rect;
use ratatui_tools::Component;

fn is_esc(e: &Event) -> bool {
    matches!(e, Event::Key(k) if k.code == KeyCode::Esc)
}

#[test]
fn esc_exits() {
    let r = route::<u8, _>(FrameworkEvent::RatatuiEvent(Event::Key(KeyEvent::press(KeyCode::Esc, 0))), &is_esc);
    assert!(matches!(r, Route::Exit));
}

#[test]
fn other_input_is_forwarded() {
    let e = Event::Key(KeyEvent::press(KeyCode::Char('q'), 0));
    match route::<u8, _>(FrameworkEvent::RatatuiEvent(e.clone()), &is_esc) {
        Route::Forward(f) => assert_eq!(f, e),
        _ => panic!("expected the event to go to the component"),
    }
}

#[test]
fn messages_are_handled_without_exit_test() {
    let never_called = |_: &Event| -> bool { panic!("the exit test is for input events only") };
    match route(FrameworkEvent::AppMessage(7u8), &never_called) {
        Route::Handle(m) => assert_eq!(m, 7),
        _ => panic!("expected the message to go to the handler"),
    }
}

#[test]
fn replies_go_to_handler() {
    assert!(matches!(react(Some(3u8)), Reaction::Handle(3)));
    assert!(matches!(react::<u8>(None), Reaction::Idle));
}

struct Silent;

impl Component<(), (), u8> for Silent {
    fn render(&mut self, _frame: &mut ratatui_core::terminal::Frame, _area: Rect, _state: &(), _focus: &()) {}
}

#[test]
fn default_handle_event_answers_nothing() {
    let mut c = Silent;
    assert_eq!(c.handle_event(Event::FocusGained, &(), &mut ()), None);
}
