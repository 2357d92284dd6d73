//! A single-line text input component.
//!
//! The input does not own its text: the application keeps the text in its state, hands it to
//! the input on each event, and receives the edited text back as a message. The input keeps
//! only the cursor: the number of characters left of it.
//!
//! Default key mapping, for key presses while the input is focused:
//! * a character key inserts the character at the cursor and moves the cursor past it;
//! * `Backspace` deletes the character before the cursor;
//! * `Left` / `Right` move the cursor by one character;
//! * `Home` / `End` move the cursor to the start / the end of the text.
//!
//! Cursor positions are `u16`: a character count or a cursor beyond `u16::MAX` wraps around
//! (modulo `2^16`).
use vstd::prelude::*;
use vstd::string::*;
use core::marker::PhantomData;

use ratatui_core::terminal::Frame;

use crate::Component;
use crate::draw::{
    frame_area,
    frame_cells,
    frame_cursor,
    frame_len,
    paragraph_cells,
    render_paragraph,
    set_cursor_position,
};
use crate::event::{Event, KeyCode, pressed_key};
use crate::layout::{Position, Rect};

verus! {

/// The character count of a text as the input stores cursor positions: modulo `2^16`.
pub open spec fn count16(text: Seq<char>) -> u16 {
    (text.len() % 0x10000) as u16
}

/// The smaller of a cursor position and a text length.
pub open spec fn clip(cursor: int, len: nat) -> int {
    if cursor < len {
        cursor
    } else {
        len as int
    }
}

/// The text with `c` inserted at cursor `cursor` (appended where the cursor lies past the end).
pub open spec fn inserted(text: Seq<char>, cursor: int, c: char) -> Seq<char> {
    let k = clip(cursor, text.len());
    text.take(k).push(c) + text.skip(k)
}

/// The text without the character before cursor `cursor` (`cursor > 0`); where the cursor lies
/// past the end, only the characters from `cursor - 1` on are gone, of which there may be none.
pub open spec fn backspaced(text: Seq<char>, cursor: int) -> Seq<char> {
    text.take(clip(cursor - 1, text.len())) + text.skip(clip(cursor, text.len()))
}

/// What the default key mapping does with `event` at cursor `cursor` over `text`: the new
/// cursor, and the edited text where the text changed.
pub open spec fn key_edit(cursor: u16, event: Event, text: Seq<char>) -> (u16, Option<Seq<char>>) {
    match pressed_key(event) {
        Some(KeyCode::Char(c)) => (
            if cursor == u16::MAX {
                0u16
            } else {
                (cursor + 1) as u16
            },
            Some(inserted(text, cursor as int, c)),
        ),
        Some(KeyCode::Backspace) => if cursor > 0 {
            ((cursor - 1) as u16, Some(backspaced(text, cursor as int)))
        } else {
            (cursor, None)
        },
        Some(KeyCode::Left) => if cursor > 0 {
            ((cursor - 1) as u16, None)
        } else {
            (cursor, None)
        },
        Some(KeyCode::Right) => if cursor < count16(text) {
            ((cursor + 1) as u16, None)
        } else {
            (cursor, None)
        },
        Some(KeyCode::Home) => (0u16, None),
        Some(KeyCode::End) => (count16(text), None),
        _ => (cursor, None),
    }
}

/// `String::push`: appends one character.
#[verifier::external_body]
fn push_char(s: &mut String, c: char)
    ensures
        final(s)@ == old(s)@.push(c),
{
    s.push(c);
}

/// The characters of `s` from index `from` (clipped to its length) to its end.
fn tail_from(s: &str, from: usize) -> (t: String)
    ensures
        t@ == s@.skip(clip(from as int, s@.len())),
{
    let n = s.unicode_len();
    let k = if from < n {
        from
    } else {
        n
    };
    let t = String::from_str(s.substring_char(k, n));
    assert(s@.subrange(k as int, n as int) =~= s@.skip(k as int));
    t
}

/// The first `upto` characters of `s` (all of them where it is shorter).
fn head_upto(s: &str, upto: usize) -> (t: String)
    ensures
        t@ == s@.take(clip(upto as int, s@.len())),
{
    let n = s.unicode_len();
    let k = if upto < n {
        upto
    } else {
        n
    };
    let t = String::from_str(s.substring_char(0, k));
    assert(s@.subrange(0, k as int) =~= s@.take(k as int));
    t
}

/// A single-line text input; see the module documentation for its key mapping.
///
/// * `is_focused` tells from the application's focus whether this input is focused;
/// * `handle_input` is asked first about every event while focused: a message it returns is
///   passed on and the event gets no default handling;
/// * `text_message_map` turns an edited text into the message that carries it.
#[verifier::reject_recursive_types(F)]
#[verifier::reject_recursive_types(M)]
pub struct TextInput<F, M, A, B, C> where
    A: Fn(&F) -> bool,
    B: Fn(&Event) -> Option<M>,
    C: Fn(String) -> M,
 {
    cursor_pos: u16,
    is_focused: A,
    handle_input: B,
    text_message_map: C,
    marker: PhantomData<(F, M)>,
}

impl<F, M, A, B, C> TextInput<F, M, A, B, C> where
    A: Fn(&F) -> bool,
    B: Fn(&Event) -> Option<M>,
    C: Fn(String) -> M,
 {
    /// The closures may be called on any argument.
    #[verifier::type_invariant]
    spec fn callable(self) -> bool {
        &&& forall|f: &F| #[trigger] call_requires(self.is_focused, (f,))
        &&& forall|e: &Event| #[trigger] call_requires(self.handle_input, (e,))
        &&& forall|s: String| #[trigger] call_requires(self.text_message_map, (s,))
    }

    /// The number of characters left of the cursor, as the input stores it.
    pub closed spec fn cursor(&self) -> u16 {
        self.cursor_pos
    }

    /// The closure that tells whether the input is focused.
    pub closed spec fn focus_test(&self) -> A {
        self.is_focused
    }

    /// The closure asked first about each event.
    pub closed spec fn input_hook(&self) -> B {
        self.handle_input
    }

    /// The closure that turns an edited text into a message.
    pub closed spec fn text_message(&self) -> C {
        self.text_message_map
    }

    /// A new input with the cursor at the start.
    pub fn new(is_focused: A, handle_input: B, text_message_map: C) -> (t: Self)
        requires
            forall|f: &F| #[trigger] call_requires(is_focused, (f,)),
            forall|e: &Event| #[trigger] call_requires(handle_input, (e,)),
            forall|s: String| #[trigger] call_requires(text_message_map, (s,)),
        ensures
            t.cursor() == 0,
            t.focus_test() == is_focused,
            t.input_hook() == handle_input,
            t.text_message() == text_message_map,
    {
        TextInput {
            cursor_pos: 0,
            is_focused,
            handle_input,
            text_message_map,
            marker: PhantomData,
        }
    }

    /// The number of characters left of the cursor.
    pub fn cursor_pos(&self) -> (c: u16)
        ensures
            c == self.cursor(),
    {
        self.cursor_pos
    }

    /// Applies the default key mapping to `event` over `input`: moves the cursor, and returns
    /// the edited text where the event changed the text.
    pub fn edit(&mut self, event: &Event, input: &String) -> (edited: Option<String>)
        ensures
            final(self).cursor() == key_edit(old(self).cursor(), *event, input@).0,
            edited matches Some(t) ==> key_edit(old(self).cursor(), *event, input@).1 == Some(
                t@,
            ),
            edited is None ==> key_edit(old(self).cursor(), *event, input@).1 is None,
            final(self).focus_test() == old(self).focus_test(),
            final(self).input_hook() == old(self).input_hook(),
            final(self).text_message() == old(self).text_message(),
    {
        proof {
            use_type_invariant(&*self);
        }
        let key_event = match event {
            Event::Key(k) => k,
            _ => return None,
        };
        match key_event.kind {
            crate::event::KeyEventKind::Press => {},
            _ => return None,
        }
        let text = input.as_str();
        let cursor = self.cursor_pos;
        match key_event.code {
            KeyCode::Char(c) => {
                let new_cursor = cursor.wrapping_add(1);
                let mut new_text = head_upto(text, cursor as usize);
                push_char(&mut new_text, c);
                let rest = tail_from(text, cursor as usize);
                new_text.append(rest.as_str());
                self.cursor_pos = new_cursor;
                Some(new_text)
            },
            KeyCode::Backspace => {
                if cursor > 0 {
                    let new_cursor = cursor - 1;
                    let mut new_text = head_upto(text, new_cursor as usize);
                    let rest = tail_from(text, cursor as usize);
                    new_text.append(rest.as_str());
                    self.cursor_pos = new_cursor;
                    Some(new_text)
                } else {
                    None
                }
            },
            KeyCode::Left => {
                if cursor > 0 {
                    self.cursor_pos = cursor - 1;
                }
                None
            },
            KeyCode::Right => {
                let count = char_count16(text);
                if cursor < count {
                    self.cursor_pos = cursor + 1;
                }
                None
            },
            KeyCode::Home => {
                self.cursor_pos = 0;
                None
            },
            KeyCode::End => {
                self.cursor_pos = char_count16(text);
                None
            },
            _ => None,
        }
    }
}

impl<F, M, A, B, C> TextInput<F, M, A, B, C> where
    A: Fn(&F) -> bool,
    B: Fn(&Event) -> Option<M>,
    C: Fn(String) -> M,
 {
    /// Whether `next` and `reply` are the outcome of the default key mapping on `event` over
    /// `text`: it moves the cursor, and where it edits the text, the reply is what `text_message`
    /// makes of the edited text; where it does not, there is no reply.
    pub open spec fn edit_outcome(self, next: Self, event: Event, text: Seq<char>, reply: Option<
        M,
    >) -> bool {
        let outcome = key_edit(self.cursor(), event, text);
        &&& next.cursor() == outcome.0
        &&& outcome.1 is None ==> reply is None
        &&& outcome.1 is Some ==> {
            &&& reply is Some
            &&& exists|s: String|
                s@ == outcome.1->0 && #[trigger] call_ensures(self.text_message(), (s,), reply->0)
        }
    }

    /// Whether `next` and `reply` are the outcome once `input_hook` answered `hooked`: a message
    /// is passed on with the cursor kept; without one the default key mapping applies.
    pub open spec fn hook_outcome(
        self,
        next: Self,
        event: Event,
        text: Seq<char>,
        hooked: Option<M>,
        reply: Option<M>,
    ) -> bool {
        if hooked is Some {
            reply == hooked && next.cursor() == self.cursor()
        } else {
            self.edit_outcome(next, event, text, reply)
        }
    }

    /// Whether `next` and `reply` are the outcome once `focus_test` answered `focused`: without
    /// focus there is no reply and the cursor stays; with it, `input_hook` is asked first.
    pub open spec fn focus_outcome(
        self,
        next: Self,
        event: Event,
        text: Seq<char>,
        focused: bool,
        reply: Option<M>,
    ) -> bool {
        if !focused {
            reply is None && next.cursor() == self.cursor()
        } else {
            exists|hooked: Option<M>|
                #[trigger] call_ensures(self.input_hook(), (&event,), hooked) && self.hook_outcome(
                    next,
                    event,
                    text,
                    hooked,
                    reply,
                )
        }
    }

    /// Whether `next` and `next_frame` are a possible outcome of drawing `text` in `area` of
    /// `frame` with the application's focus `focus`: the cursor goes back to the start where it
    /// lay past the end of the text; the frame keeps its buffer's area and storage, and its cells
    /// are those that an unstyled paragraph of `text` in `area` leaves (drawing it again would
    /// change none, and every cell outside `area` keeps what it showed); while `focus_test` says
    /// the input is focused, the terminal's cursor is put at `cursor_cell`, otherwise the frame's
    /// cursor stays. The closures are kept.
    pub open spec fn renders(
        self,
        next: Self,
        frame: Frame,
        next_frame: Frame,
        area: Rect,
        text: Seq<char>,
        focus: F,
    ) -> bool {
        &&& next.cursor() == cursor_after_render(self.cursor(), text)
        &&& next.focus_test() == self.focus_test()
        &&& next.input_hook() == self.input_hook()
        &&& next.text_message() == self.text_message()
        &&& frame_area(next_frame) == frame_area(frame)
        &&& frame_len(next_frame) == frame_len(frame)
        &&& frame_cells(next_frame) == paragraph_cells(
            text,
            area,
            frame_area(frame),
            frame_cells(frame),
        )
        &&& paragraph_cells(text, area, frame_area(frame), frame_cells(next_frame)) == frame_cells(
            next_frame,
        )
        &&& forall|k: (u16, u16)|
            !area.holds(k.0 as int, k.1 as int) ==> {
                &&& #[trigger] frame_cells(next_frame).contains_key(k) == frame_cells(
                    frame,
                ).contains_key(k)
                &&& frame_cells(next_frame)[k] == frame_cells(frame)[k]
            }
        &&& exists|focused: bool|
            #[trigger] call_ensures(self.focus_test(), (&focus,), focused) && if focused {
                frame_cursor(next_frame) == Some(cell_key(cursor_cell(area, next.cursor())))
            } else {
                frame_cursor(next_frame) == frame_cursor(frame)
            }
    }

    /// Whether `next` and `reply` are a possible outcome of handling `event` over `text` with the
    /// application's focus `focus` (see `focus_outcome`); the closures are kept.
    pub open spec fn responds(
        self,
        next: Self,
        event: Event,
        text: Seq<char>,
        focus: F,
        reply: Option<M>,
    ) -> bool {
        &&& next.focus_test() == self.focus_test()
        &&& next.input_hook() == self.input_hook()
        &&& next.text_message() == self.text_message()
        &&& exists|focused: bool|
            #[trigger] call_ensures(self.focus_test(), (&focus,), focused) && self.focus_outcome(
                next,
                event,
                text,
                focused,
                reply,
            )
    }
}

/// Where the cursor stands after drawing over `text`: at the start if it lay past the end.
pub open spec fn cursor_after_render(cursor: u16, text: Seq<char>) -> u16 {
    if cursor > count16(text) {
        0
    } else {
        cursor
    }
}

/// The cell at which the terminal shows the cursor of an input drawn in `area`: `cursor` columns
/// right of the area's corner (modulo `2^16`).
pub open spec fn cursor_cell(area: Rect, cursor: u16) -> Position {
    Position { x: ((area.x + cursor) % 0x10000) as u16, y: area.y }
}

impl<F, M, A, B, C> Component<String, F, M> for TextInput<F, M, A, B, C> where
    A: Fn(&F) -> bool,
    B: Fn(&Event) -> Option<M>,
    C: Fn(String) -> M,
 {
    /// Draws `input` in `area` as an unstyled paragraph; where the cursor lay past the end of
    /// `input` (the text got shorter since), it goes back to the start. While focused, the
    /// terminal's cursor is put at the input's cursor (see `cursor_cell`); otherwise the frame's
    /// cursor stays as it was.
    fn render(&mut self, frame: &mut Frame, area: Rect, input: &String, focus: &F)
        ensures
            old(self).renders(*final(self), *old(frame), *final(frame), area, input@, *focus),
    {
        proof {
            use_type_invariant(&*self);
        }
        let ghost before = *self;
        let text = input.as_str();
        if self.cursor_pos > char_count16(text) {
            self.cursor_pos = 0;
        }
        render_paragraph(frame, text, area);
        let focused = (self.is_focused)(focus);
        assert(call_ensures(before.focus_test(), (focus,), focused));
        if focused {
            let at = cursor_position(area, self.cursor_pos);
            set_cursor_position(frame, at);
        }
    }

    /// Handles `event` for the text `input`; see `responds` for the outcome.
    fn handle_event(&mut self, event: Event, input: &String, focus: &mut F) -> (reply: Option<M>)
        ensures
            *final(focus) == *old(focus),
            old(self).responds(*final(self), event, input@, *old(focus), reply),
    {
        proof {
            use_type_invariant(&*self);
        }
        let ghost before = *self;
        let focused = (self.is_focused)(&*focus);
        assert(call_ensures(before.focus_test(), (&*focus,), focused));
        if !focused {
            assert(before.focus_outcome(*self, event, input@, focused, None));
            return None;
        }
        let hooked = (self.handle_input)(&event);
        assert(call_ensures(before.input_hook(), (&event,), hooked));
        if hooked.is_some() {
            assert(before.hook_outcome(*self, event, input@, hooked, hooked));
            assert(before.focus_outcome(*self, event, input@, focused, hooked));
            return hooked;
        }
        let edited = self.edit(&event, input);
        let reply = match edited {
            Some(text) => {
                let ghost s = text;
                let m = (self.text_message_map)(text);
                let ghost r = Some(m);
                assert(call_ensures(before.text_message(), (s,), r->0));
                Some(m)
            },
            None => None,
        };
        assert(before.hook_outcome(*self, event, input@, hooked, reply));
        assert(before.focus_outcome(*self, event, input@, focused, reply));
        reply
    }
}

/// The column and row of a position.
pub open spec fn cell_key(p: Position) -> (u16, u16) {
    (p.x, p.y)
}

/// The cell for the cursor of an input drawn in `area`.
pub fn cursor_position(area: Rect, cursor: u16) -> (p: Position)
    ensures
        p == cursor_cell(area, cursor),
{
    Position { x: area.x.wrapping_add(cursor), y: area.y }
}

/// The character count of `s`, modulo `2^16`.
fn char_count16(s: &str) -> (n: u16)
    ensures
        n == count16(s@),
{
    let len = s.unicode_len();
    assert(len as u16 == (len % 0x10000) as u16) by (bit_vector);
    len as u16
}

/// The press of `code` with modifier bits `modifiers`.
pub open spec fn press(code: KeyCode, modifiers: u8) -> Event {
    Event::Key(
        crate::event::KeyEvent { code, modifiers, kind: crate::event::KeyEventKind::Press, state: 0 },
    )
}

/// Only key presses move the cursor or edit the text: any other event, a key repeat or release
/// among them, leaves both as they are.
pub proof fn lemma_only_presses_edit(cursor: u16, event: Event, text: Seq<char>)
    requires
        pressed_key(event) is None,
    ensures
        key_edit(cursor, event, text) == (cursor, None::<Seq<char>>),
{
}

/// Typing a character and then pressing `Backspace` gives back the text and the cursor, for a
/// cursor within the text (and below `u16::MAX`, where the cursor would wrap).
pub proof fn lemma_backspace_undoes_insert(
    cursor: u16,
    text: Seq<char>,
    c: char,
    m1: u8,
    m2: u8,
)
    requires
        cursor <= text.len(),
        cursor < u16::MAX,
    ensures
        ({
            let (c1, t1) = key_edit(cursor, press(KeyCode::Char(c), m1), text);
            &&& c1 == cursor + 1
            &&& t1 matches Some(t) && key_edit(c1, press(KeyCode::Backspace, m2), t) == (
                cursor,
                Some(text),
            )
        }),
{
    let t = inserted(text, cursor as int, c);
    let k = cursor as int;
    assert(clip(k, text.len()) == k);
    assert(t.len() == text.len() + 1);
    assert(clip(k, t.len()) == k);
    assert(clip(k + 1, t.len()) == k + 1);
    assert(backspaced(t, k + 1) =~= text);
}

/// Typing a character puts it at the cursor: the text grows by one, the characters left of the
/// cursor stay, the new one follows them, then the rest of the text.
pub proof fn lemma_insert_at_cursor(cursor: u16, text: Seq<char>, c: char, m: u8)
    requires
        cursor <= text.len(),
    ensures
        ({
            let t = key_edit(cursor, press(KeyCode::Char(c), m), text).1->0;
            &&& t.len() == text.len() + 1
            &&& t[cursor as int] == c
            &&& forall|i: int| 0 <= i < cursor ==> t[i] == text[i]
            &&& forall|i: int| cursor <= i < text.len() ==> t[i + 1] == text[i]
        }),
{
    assert(clip(cursor as int, text.len()) == cursor);
}

/// `Backspace` with the cursor inside the text removes exactly the character before it.
pub proof fn lemma_backspace_removes_before_cursor(cursor: u16, text: Seq<char>, m: u8)
    requires
        0 < cursor <= text.len(),
    ensures
        ({
            let (c1, t1) = key_edit(cursor, press(KeyCode::Backspace, m), text);
            &&& c1 == cursor - 1
            &&& t1 == Some(text.remove(cursor - 1))
        }),
{
    assert(clip(cursor - 1, text.len()) == cursor - 1);
    assert(clip(cursor as int, text.len()) == cursor);
    assert(backspaced(text, cursor as int) =~= text.remove(cursor - 1));
}

/// `Left` then `Right` brings the cursor back where it can move left within the text, and `Right`
/// then `Left` where it can move right; neither touches the text.
pub proof fn lemma_left_right_inverse(cursor: u16, text: Seq<char>, m1: u8, m2: u8)
    ensures
        0 < cursor <= count16(text) ==> key_edit(
            key_edit(cursor, press(KeyCode::Left, m1), text).0,
            press(KeyCode::Right, m2),
            text,
        ) == (cursor, None::<Seq<char>>),
        cursor < count16(text) ==> key_edit(
            key_edit(cursor, press(KeyCode::Right, m1), text).0,
            press(KeyCode::Left, m2),
            text,
        ) == (cursor, None::<Seq<char>>),
        key_edit(cursor, press(KeyCode::Left, m1), text).1 is None,
        key_edit(cursor, press(KeyCode::Right, m1), text).1 is None,
{
}

/// For texts shorter than `u16::MAX` characters, a cursor within the text stays within the text
/// (the edited one, where the event edits it) whatever the event.
pub proof fn lemma_cursor_stays_in_text(cursor: u16, event: Event, text: Seq<char>)
    requires
        cursor <= text.len(),
        text.len() < u16::MAX,
    ensures
        ({
            let (c1, t1) = key_edit(cursor, event, text);
            match t1 {
                Some(t) => c1 <= t.len() && t.len() < 0x10000,
                None => c1 <= text.len(),
            }
        }),
{
    assert(count16(text) == text.len());
    match pressed_key(event) {
        Some(KeyCode::Char(c)) => {
            assert(clip(cursor as int, text.len()) == cursor);
        },
        Some(KeyCode::Backspace) => {
            if cursor > 0 {
                assert(clip(cursor - 1, text.len()) == cursor - 1);
                assert(clip(cursor as int, text.len()) == cursor);
            }
        },
        _ => {},
    }
}

/// An input that is not focused answers no event and keeps its cursor.
pub proof fn lemma_unfocused_input_ignores_events<F, M, A, B, C>(
    input: TextInput<F, M, A, B, C>,
    next: TextInput<F, M, A, B, C>,
    event: Event,
    text: Seq<char>,
    focus: F,
    reply: Option<M>,
) where A: Fn(&F) -> bool, B: Fn(&Event) -> Option<M>, C: Fn(String) -> M
    requires
        input.responds(next, event, text, focus, reply),
        forall|b: bool| #[trigger] call_ensures(input.focus_test(), (&focus,), b) ==> !b,
    ensures
        reply is None,
        next.cursor() == input.cursor(),
{
}

/// While focused, a message with which `input_hook` answers an event is the reply, and the event
/// gets no default handling: the cursor stays.
pub proof fn lemma_hook_message_comes_first<F, M, A, B, C>(
    input: TextInput<F, M, A, B, C>,
    next: TextInput<F, M, A, B, C>,
    event: Event,
    text: Seq<char>,
    focus: F,
    reply: Option<M>,
    m: M,
) where A: Fn(&F) -> bool, B: Fn(&Event) -> Option<M>, C: Fn(String) -> M
    requires
        input.responds(next, event, text, focus, reply),
        forall|b: bool| #[trigger] call_ensures(input.focus_test(), (&focus,), b) ==> b,
        forall|h: Option<M>| #[trigger] call_ensures(input.input_hook(), (&event,), h) ==> h == Some(
            m,
        ),
    ensures
        reply == Some(m),
        next.cursor() == input.cursor(),
{
}

/// While focused and with no message from `input_hook`, the event gets the default key mapping:
/// the cursor moves as `key_edit` says, and a reply comes exactly where the text is edited.
pub proof fn lemma_default_mapping_applies<F, M, A, B, C>(
    input: TextInput<F, M, A, B, C>,
    next: TextInput<F, M, A, B, C>,
    event: Event,
    text: Seq<char>,
    focus: F,
    reply: Option<M>,
) where A: Fn(&F) -> bool, B: Fn(&Event) -> Option<M>, C: Fn(String) -> M
    requires
        input.responds(next, event, text, focus, reply),
        forall|b: bool| #[trigger] call_ensures(input.focus_test(), (&focus,), b) ==> b,
        forall|h: Option<M>| #[trigger] call_ensures(input.input_hook(), (&event,), h) ==> h is None,
    ensures
        next.cursor() == key_edit(input.cursor(), event, text).0,
        reply is Some == key_edit(input.cursor(), event, text).1 is Some,
{
}

/// Drawing an input twice in a row, over the same text and area and with a focus test that
/// always answers the same for the focus, leaves the input and the frame as drawing it once does.
pub proof fn lemma_render_twice_is_once<F, M, A, B, C>(
    t0: TextInput<F, M, A, B, C>,
    t1: TextInput<F, M, A, B, C>,
    t2: TextInput<F, M, A, B, C>,
    f0: Frame,
    f1: Frame,
    f2: Frame,
    area: Rect,
    text: Seq<char>,
    focus: F,
    focused: bool,
) where A: Fn(&F) -> bool, B: Fn(&Event) -> Option<M>, C: Fn(String) -> M
    requires
        t0.renders(t1, f0, f1, area, text, focus),
        t1.renders(t2, f1, f2, area, text, focus),
        forall|b: bool| #[trigger] call_ensures(t0.focus_test(), (&focus,), b) ==> b == focused,
    ensures
        t2.cursor() == t1.cursor(),
        frame_area(f2) == frame_area(f1),
        frame_len(f2) == frame_len(f1),
        frame_cells(f2) == frame_cells(f1),
        frame_cursor(f2) == frame_cursor(f1),
{
}

/// `Home` puts the cursor at the start of the input and `End` just past its last character,
/// wherever the cursor was; neither edits the text.
pub proof fn lemma_home_and_end(cursor: u16, text: Seq<char>, m: u8)
    ensures
        key_edit(cursor, press(KeyCode::Home, m), text) == (0u16, None::<Seq<char>>),
        text.len() < 0x10000 ==> key_edit(cursor, press(KeyCode::End, m), text) == (
            text.len() as u16,
            None::<Seq<char>>,
        ),
{
}

/// Keys other than characters, `Backspace`, `Left`, `Right`, `Home` and `End` neither move the
/// cursor nor edit the text.
pub proof fn lemma_other_keys_do_nothing(cursor: u16, code: KeyCode, text: Seq<char>, m: u8)
    requires
        !(code is Char),
        code != KeyCode::Backspace,
        code != KeyCode::Left,
        code != KeyCode::Right,
        code != KeyCode::Home,
        code != KeyCode::End,
    ensures
        key_edit(cursor, press(code, m), text) == (cursor, None::<Seq<char>>),
{
}

/// Drawing an input that the focus test says is not focused leaves the terminal's cursor where
/// it was; drawing one that is focused puts it in the area's top row, as many columns right of
/// the area's left edge as the input's cursor (modulo `2^16`). A cursor past the end of the text
/// goes back to the start; any other stays.
pub proof fn lemma_only_focused_input_places_cursor<F, M, A, B, C>(
    input: TextInput<F, M, A, B, C>,
    next: TextInput<F, M, A, B, C>,
    frame: Frame,
    next_frame: Frame,
    area: Rect,
    text: Seq<char>,
    focus: F,
    focused: bool,
) where A: Fn(&F) -> bool, B: Fn(&Event) -> Option<M>, C: Fn(String) -> M
    requires
        input.renders(next, frame, next_frame, area, text, focus),
        forall|b: bool| #[trigger] call_ensures(input.focus_test(), (&focus,), b) ==> b == focused,
    ensures
        next.cursor() == if input.cursor() > count16(text) {
            0
        } else {
            input.cursor()
        },
        !focused ==> frame_cursor(next_frame) == frame_cursor(frame),
        focused ==> frame_cursor(next_frame) == Some(
            (((area.x + next.cursor()) % 0x10000) as u16, area.y),
        ),
{
}

/// After drawing, the cursor lies within the text that was drawn.
pub proof fn lemma_render_clamps_cursor(cursor: u16, text: Seq<char>)
    ensures
        cursor_after_render(cursor, text) <= count16(text),
        cursor <= count16(text) ==> cursor_after_render(cursor, text) == cursor,
        cursor > count16(text) ==> cursor_after_render(cursor, text) == 0,
{
}

} // verus!
