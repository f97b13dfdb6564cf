//! The control-plane mapping of raw input to control events.
//!
//! The keyboard and signal listeners feed everything they see through these
//! functions; the sequencer then consumes one merged stream of
//! [`ControlEvent`]s.

use vstd::prelude::*;
use crate::sequencer::ControlEvent;

verus! {

/// A keystroke, as far as the control plane distinguishes them.
#[derive(Clone, Copy, PartialEq, Eq, Structural, Debug)]
pub enum Key {
    /// The space bar.
    Space,
    /// The letter `q`.
    LowerQ,
    /// The escape key.
    Esc,
    /// Any other key.
    Other,
}

/// An operating-system signal, as far as the control plane cares.
#[derive(Clone, Copy, PartialEq, Eq, Structural, Debug)]
pub enum Signal {
    /// SIGHUP.
    Hangup,
    /// SIGINT.
    Interrupt,
    /// SIGTERM.
    Terminate,
}

/// Space toggles pause; `q` and Esc quit; every other key is discarded.
pub fn control_of_key(k: Key) -> (r: Option<ControlEvent>)
    ensures
        r == match k {
            Key::Space => Some(ControlEvent::Toggle),
            Key::LowerQ => Some(ControlEvent::Quit),
            Key::Esc => Some(ControlEvent::Quit),
            Key::Other => None::<ControlEvent>,
        },
{
    match k {
        Key::Space => Some(ControlEvent::Toggle),
        Key::LowerQ => Some(ControlEvent::Quit),
        Key::Esc => Some(ControlEvent::Quit),
        Key::Other => None,
    }
}

/// SIGHUP toggles pause; SIGINT and SIGTERM quit.
pub fn control_of_signal(s: Signal) -> (r: ControlEvent)
    ensures
        r == match s {
            Signal::Hangup => ControlEvent::Toggle,
            Signal::Interrupt => ControlEvent::Quit,
            Signal::Terminate => ControlEvent::Quit,
        },
{
    match s {
        Signal::Hangup => ControlEvent::Toggle,
        Signal::Interrupt => ControlEvent::Quit,
        Signal::Terminate => ControlEvent::Quit,
    }
}

} // verus!
