//! Building blocks for terminal user interfaces: a single-line text input,
//! a tile map widget, a canvas shape of cells, and the event routing of an
//! application loop.
use vstd::prelude::*;

use ratatui_core::terminal::Frame;

pub mod cells;
pub mod draw;
pub mod event;
pub mod framework;
pub mod layout;
pub mod text_input;
pub mod tilemap;

use crate::draw::frame_sound;
use crate::event::Event;
use crate::layout::Rect;

verus! {

/// A part of the user interface that draws itself and handles events.
///
/// Handling an event may produce a message `M`, in the manner of the Elm architecture: the
/// application turns messages into changes of its state `S`. A component holds only the state of
/// its own widgets. `F` is the application's focus, shared by all its components: it tells which
/// component is focused and may be changed while handling input.
///
/// A component is made once and kept, unlike a ratatui widget.
pub trait Component<S, F, M> {
    /// Draws the component on `frame`, within the `area` that its parent gives it, showing
    /// `state`; `focus` may be used to highlight the focused part. The frame's buffer stores a
    /// cell for each position of its area, as the frames of a terminal do.
    fn render(&mut self, frame: &mut Frame, area: Rect, state: &S, focus: &F)
        requires
            frame_sound(*old(frame)),
    ;

    /// Handles `event` and may answer with a message. The state is only read here; the focus may
    /// change. By default nothing is handled: no message, and the component and the focus stay.
    fn handle_event(&mut self, event: Event, state: &S, focus: &mut F) -> (reply: Option<M>) where
        Self: Sized,

        default_ensures
            reply is None,
            *final(focus) == *old(focus),
            *final(self) == *old(self),
    {
        let _ = event;
        let _ = state;
        let _ = focus;
        None
    }
}

} // verus!
