use ratatui_core::backend::TestBackend;
use ratatui_core::terminal::Terminal;
use ratatui_tools::event::{Event, KeyCode, KeyEvent, KeyEventKind, MouseButton, MouseEvent, MouseEventKind};
use ratatui_tools::layout::Rect;
use ratatui_tools::text_input::TextInput;
use ratatui_tools::Component;

fn press(code: KeyCode) -> Event {
    Event::Key(KeyEvent::press(code, 0))
}

fn input() -> TextInput<(), String, impl Fn(&()) -> bool, impl Fn(&Event) -> Option<String>, impl Fn(String) -> String> {
    TextInput::new(|_: &()| true, |_: &Event| None, |s: String| s)
}

/// Types `keys` into an input over `text`, following each edited text; returns the final text
/// and cursor.
fn type_keys(start: &str, keys: &[KeyCode]) -> (String, u16) {
    let mut t = input();
    let mut text = start.to_string();
    for k in keys {
        if let Some(new_text) = t.handle_event(press(*k), &text, &mut ()) {
            text = new_text;
        }
    }
    let c = t.cursor_pos();
    (text, c)
}

#[test]
fn new_input_starts_at_zero() {
    let t = input();
    assert_eq!(t.cursor_pos(), 0);
}

#[test]
fn typing_appends_in_order() {
    let (text, c) = type_keys("", &[KeyCode::Char('a'), KeyCode::Char('b'), KeyCode::Char('c')]);
    assert_eq!(text, "abc");
    assert_eq!(c, 3);
}

#[test]
fn typing_inserts_at_cursor() {
    let (text, c) = type_keys("", &[KeyCode::Char('a'), KeyCode::Char('c'), KeyCode::Left, KeyCode::Char('b')]);
    assert_eq!(text, "abc");
    assert_eq!(c, 2);
}

#[test]
fn home_then_type_prepends() {
    let (text, c) = type_keys("", &[KeyCode::Char('y'), KeyCode::Home, KeyCode::Char('x')]);
    assert_eq!(text, "xy");
    assert_eq!(c, 1);
}

#[test]
fn end_moves_to_char_count_not_bytes() {
    let mut t = input();
    let text = "héllo wörld".to_string();
    assert_eq!(t.handle_event(press(KeyCode::End), &text, &mut ()), None);
    assert_eq!(t.cursor_pos(), 11);
}

#[test]
fn backspace_deletes_before_cursor() {
    let (text, c) = type_keys("", &[KeyCode::Char('a'), KeyCode::Char('b'), KeyCode::Char('c'), KeyCode::Left, KeyCode::Backspace]);
    assert_eq!(text, "ac");
    assert_eq!(c, 1);
}

#[test]
fn backspace_at_start_does_nothing() {
    let mut t = input();
    let text = "abc".to_string();
    assert_eq!(t.handle_event(press(KeyCode::Backspace), &text, &mut ()), None);
    assert_eq!(t.cursor_pos(), 0);
}

#[test]
fn backspace_undoes_insert() {
    let mut t = input();
    let text = "hello".to_string();
    t.handle_event(press(KeyCode::Right), &text, &mut ());
    t.handle_event(press(KeyCode::Right), &text, &mut ());
    let typed = t.handle_event(press(KeyCode::Char('Z')), &text, &mut ()).unwrap();
    assert_eq!(typed, "heZllo");
    assert_eq!(t.cursor_pos(), 3);
    let back = t.handle_event(press(KeyCode::Backspace), &typed, &mut ()).unwrap();
    assert_eq!(back, "hello");
    assert_eq!(t.cursor_pos(), 2);
}

#[test]
fn multibyte_insert_and_delete() {
    let (text, c) = type_keys("", &[KeyCode::Char('ä'), KeyCode::Char('🍰'), KeyCode::Char('ö'), KeyCode::Left, KeyCode::Backspace]);
    assert_eq!(text, "äö");
    assert_eq!(c, 1);
}

#[test]
fn left_right_are_inverse_and_bounded() {
    let mut t = input();
    let text = "ab".to_string();
    t.handle_event(press(KeyCode::Left), &text, &mut ());
    assert_eq!(t.cursor_pos(), 0);
    t.handle_event(press(KeyCode::Right), &text, &mut ());
    t.handle_event(press(KeyCode::Right), &text, &mut ());
    t.handle_event(press(KeyCode::Right), &text, &mut ());
    assert_eq!(t.cursor_pos(), 2);
    t.handle_event(press(KeyCode::Left), &text, &mut ());
    assert_eq!(t.cursor_pos(), 1);
    t.handle_event(press(KeyCode::Right), &text, &mut ());
    assert_eq!(t.cursor_pos(), 2);
}

#[test]
fn only_presses_edit() {
    let mut t = input();
    let text = "ab".to_string();
    let release = Event::Key(KeyEvent { code: KeyCode::Char('x'), modifiers: 0, kind: KeyEventKind::Release, state: 0 });
    let repeat = Event::Key(KeyEvent { code: KeyCode::End, modifiers: 0, kind: KeyEventKind::Repeat, state: 0 });
    assert_eq!(t.handle_event(release, &text, &mut ()), None);
    assert_eq!(t.handle_event(repeat, &text, &mut ()), None);
    assert_eq!(t.handle_event(Event::Paste("zz".to_string()), &text, &mut ()), None);
    assert_eq!(t.handle_event(Event::Resize(3, 4), &text, &mut ()), None);
    let click = Event::Mouse(MouseEvent { kind: MouseEventKind::Down(MouseButton::Left), column: 1, row: 1, modifiers: 0 });
    assert_eq!(t.handle_event(click, &text, &mut ()), None);
    assert_eq!(t.handle_event(press(KeyCode::Tab), &text, &mut ()), None);
    assert_eq!(t.cursor_pos(), 0);
}

#[test]
fn typing_past_end_appends() {
    // The cursor may lie past the end of a text that got shorter; typing appends.
    let mut t = input();
    let long = "abcd".to_string();
    t.handle_event(press(KeyCode::End), &long, &mut ());
    let short = "ab".to_string();
    assert_eq!(t.handle_event(press(KeyCode::Char('x')), &short, &mut ()), Some("abx".to_string()));
    assert_eq!(t.cursor_pos(), 5);
}

#[test]
fn unfocused_input_ignores_events() {
    let mut t = TextInput::new(|f: &bool| *f, |_: &Event| None, |s: String| s);
    let text = "ab".to_string();
    let mut focus = false;
    assert_eq!(t.handle_event(press(KeyCode::Char('x')), &text, &mut focus), None);
    assert_eq!(t.handle_event(press(KeyCode::End), &text, &mut focus), None);
    assert_eq!(t.cursor_pos(), 0);
    focus = true;
    assert_eq!(t.handle_event(press(KeyCode::Char('x')), &text, &mut focus), Some("xab".to_string()));
    assert!(focus);
}

#[derive(Debug, PartialEq)]
enum Msg {
    Submit,
    Text(String),
}

#[test]
fn hook_message_wins_over_default_mapping() {
    let mut t = TextInput::new(
        |_: &()| true,
        |e: &Event| match e {
            Event::Key(k) if k.code == KeyCode::Enter && k.kind == KeyEventKind::Press => Some(Msg::Submit),
            Event::Key(k) if k.code == KeyCode::Char('!') => Some(Msg::Submit),
            _ => None,
        },
        Msg::Text,
    );
    let text = "hi".to_string();
    assert_eq!(t.handle_event(press(KeyCode::Enter), &text, &mut ()), Some(Msg::Submit));
    assert_eq!(t.handle_event(press(KeyCode::Char('!')), &text, &mut ()), Some(Msg::Submit));
    assert_eq!(t.cursor_pos(), 0);
    assert_eq!(t.handle_event(press(KeyCode::Char('?')), &text, &mut ()), Some(Msg::Text("?hi".to_string())));
    assert_eq!(t.cursor_pos(), 1);
}

#[test]
fn edit_reports_edited_text() {
    let mut t = input();
    let text = "ab".to_string();
    assert_eq!(t.edit(&press(KeyCode::Char('z')), &text), Some("zab".to_string()));
    assert_eq!(t.edit(&press(KeyCode::End), &text), None);
    assert_eq!(t.cursor_pos(), 2);
}

#[test]
fn render_draws_text_and_cursor() {
    let mut terminal = Terminal::new(TestBackend::new(10, 3)).unwrap();
    let mut t = input();
    let text = "hello".to_string();
    t.handle_event(press(KeyCode::End), &text, &mut ());
    t.handle_event(press(KeyCode::Left), &text, &mut ());
    terminal
        .draw(|frame| {
            t.render(frame, Rect { x: 2, y: 1, width: 8, height: 1 }, &text, &());
        })
        .unwrap();
    let buf = terminal.backend().buffer().clone();
    assert_eq!(buf[(2, 1)].symbol(), "h");
    assert_eq!(buf[(6, 1)].symbol(), "o");
    assert_eq!(buf[(0, 1)].symbol(), " ");
    let pos = terminal.get_cursor_position().unwrap();
    assert_eq!((pos.x, pos.y), (6, 1));
}

#[test]
fn render_resets_cursor_past_end() {
    let mut terminal = Terminal::new(TestBackend::new(10, 3)).unwrap();
    let mut t = input();
    let long = "hello".to_string();
    t.handle_event(press(KeyCode::End), &long, &mut ());
    assert_eq!(t.cursor_pos(), 5);
    let short = "hi".to_string();
    terminal
        .draw(|frame| {
            t.render(frame, Rect { x: 0, y: 0, width: 10, height: 1 }, &short, &());
        })
        .unwrap();
    assert_eq!(t.cursor_pos(), 0);
}

#[test]
fn cursor_position_is_offset_from_area() {
    let p = ratatui_tools::text_input::cursor_position(Rect { x: 3, y: 7, width: 5, height: 1 }, 4);
    assert_eq!((p.x, p.y), (7, 7));
    let w = ratatui_tools::text_input::cursor_position(Rect { x: u16::MAX, y: 0, width: 0, height: 1 }, 2);
    assert_eq!(w.x, 1);
}

#[test]
fn render_twice_is_render_once() {
    let mut terminal = Terminal::new(TestBackend::new(8, 2)).unwrap();
    let mut t = input();
    let text = "ab🍰c".to_string();
    t.handle_event(press(KeyCode::End), &text, &mut ());
    let area = Rect { x: 1, y: 0, width: 6, height: 1 };
    terminal.draw(|frame| t.render(frame, area, &text, &())).unwrap();
    let once = terminal.backend().buffer().clone();
    let cursor_once = terminal.get_cursor_position().unwrap();
    terminal.draw(|frame| t.render(frame, area, &text, &())).unwrap();
    assert_eq!(terminal.backend().buffer().clone(), once);
    assert_eq!(terminal.get_cursor_position().unwrap(), cursor_once);
    assert_eq!(t.cursor_pos(), 4);
    assert_eq!((cursor_once.x, cursor_once.y), (5, 0));
}

#[test]
fn render_keeps_cells_outside_area() {
    let mut terminal = Terminal::new(TestBackend::new(6, 2)).unwrap();
    let mut t = input();
    let text = "abc".to_string();
    terminal
        .draw(|frame| {
            frame.buffer_mut()[(0, 1)].set_char('z');
            frame.buffer_mut()[(5, 0)].set_char('y');
            t.render(frame, Rect { x: 1, y: 0, width: 3, height: 1 }, &text, &());
        })
        .unwrap();
    let buf = terminal.backend().buffer().clone();
    assert_eq!(buf[(0, 1)].symbol(), "z");
    assert_eq!(buf[(5, 0)].symbol(), "y");
    assert_eq!(buf[(0, 0)].symbol(), " ");
    assert_eq!(buf[(1, 0)].symbol(), "a");
    assert_eq!(buf[(3, 0)].symbol(), "c");
}
