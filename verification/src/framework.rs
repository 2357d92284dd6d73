//! The routing decisions of an application loop.
//!
//! An application's loop draws its core component, then waits for the next event: either an input
//! event of the terminal or a message that another thread sent. This module decides what becomes
//! of each: an input event that the exit test accepts ends the loop; any other input event goes to
//! the core component, and a message it answers with goes to the message handler; a message from
//! another thread goes to the message handler directly.
use vstd::prelude::*;

use crate::event::Event;

verus! {

/// What an application loop receives.
pub enum FrameworkEvent<M> {
    /// An input event of the terminal.
    RatatuiEvent(Event),
    /// A message that causes a change of state.
    AppMessage(M),
}

/// What the loop does with what it received.
pub enum Route<M> {
    /// End the loop.
    Exit,
    /// Hand the input event to the core component.
    Forward(Event),
    /// Hand the message to the message handler.
    Handle(M),
}

/// What the loop does with what the core component answered to an input event.
pub enum Reaction<M> {
    /// Hand the message to the message handler.
    Handle(M),
    /// Nothing to do: draw again and wait for the next event.
    Idle,
}

/// Whether `route` is a possible decision for `received` with the exit test `is_exit`: a message
/// is handled; an input event ends the loop where the exit test accepts it, and goes to the core
/// component where it does not.
pub open spec fn routes<M, X: Fn(&Event) -> bool>(
    received: FrameworkEvent<M>,
    is_exit: X,
    route: Route<M>,
) -> bool {
    match received {
        FrameworkEvent::AppMessage(m) => route == Route::Handle(m),
        FrameworkEvent::RatatuiEvent(e) => exists|exit: bool|
            #[trigger] call_ensures(is_exit, (&e,), exit) && if exit {
                route is Exit
            } else {
                route == Route::<M>::Forward(e)
            },
    }
}

/// Decides what becomes of `received`; the exit test is asked about input events only.
pub fn route<M, X: Fn(&Event) -> bool>(received: FrameworkEvent<M>, is_exit: &X) -> (r: Route<M>)
    requires
        forall|e: &Event| #[trigger] call_requires(*is_exit, (e,)),
    ensures
        routes(received, *is_exit, r),
{
    match received {
        FrameworkEvent::RatatuiEvent(event) => {
            let exit = is_exit(&event);
            if exit {
                Route::Exit
            } else {
                Route::Forward(event)
            }
        },
        FrameworkEvent::AppMessage(message) => Route::Handle(message),
    }
}

/// Decides what becomes of the core component's answer to an input event: a message goes to the
/// message handler; without one there is nothing to do.
pub fn react<M>(reply: Option<M>) -> (r: Reaction<M>)
    ensures
        match reply {
            Some(m) => r == Reaction::Handle(m),
            None => r is Idle,
        },
{
    match reply {
        Some(m) => Reaction::Handle(m),
        None => Reaction::Idle,
    }
}

/// Messages from other threads never end the loop and reach the handler unchanged.
pub proof fn lemma_messages_are_handled<M, X: Fn(&Event) -> bool>(m: M, is_exit: X, r: Route<M>)
    requires
        routes(FrameworkEvent::AppMessage(m), is_exit, r),
    ensures
        r == Route::Handle(m),
{
}

/// An input event either ends the loop or reaches the core component unchanged; it never reaches
/// the message handler directly.
pub proof fn lemma_input_events_are_forwarded<M, X: Fn(&Event) -> bool>(
    e: Event,
    is_exit: X,
    r: Route<M>,
)
    requires
        routes(FrameworkEvent::<M>::RatatuiEvent(e), is_exit, r),
    ensures
        r is Exit || r == Route::<M>::Forward(e),
{
}

/// The exit test alone decides whether an input event ends the loop: where it refuses the event,
/// the event goes to the core component unchanged; where it accepts it, the loop ends.
pub proof fn lemma_exit_test_decides<M, X: Fn(&Event) -> bool>(
    e: Event,
    is_exit: X,
    exit: bool,
    r: Route<M>,
)
    requires
        routes(FrameworkEvent::<M>::RatatuiEvent(e), is_exit, r),
        forall|b: bool| #[trigger] call_ensures(is_exit, (&e,), b) ==> b == exit,
    ensures
        !exit ==> r == Route::<M>::Forward(e),
        exit ==> r is Exit,
{
}

} // verus!
