//! Unified input events the runtime hands to user handlers, and the host
//! platform descriptors. An event wraps its arguments together with a
//! cancellation flag a handler may raise to prevent default processing.

use vstd::prelude::*;
use crate::numeric::Numeric;

verus! {

/// Marker for structures insertable into a per-stack store. Stored objects
/// must be unique for any given stack: use a local type for each purpose
/// rather than one that could be reused elsewhere.
pub trait Store: 'static {

}

/// The host operating system.
#[derive(Clone, Copy, Debug, PartialEq, Eq, Structural)]
pub enum OS {
    Mac,
    Linux,
    Windows,
    Android,
    IPhone,
    Unknown,
}

impl Default for OS {
    fn default() -> (r: Self)
        ensures
            r == OS::Unknown,
    {
        OS::Unknown
    }
}

/// The host platform family.
#[derive(Clone, Copy, Debug, PartialEq, Eq, Structural)]
pub enum Platform {
    Web,
    Native,
    Unknown,
}

impl Default for Platform {
    fn default() -> (r: Self)
        ensures
            r == Platform::Unknown,
    {
        Platform::Unknown
    }
}

/// The coordinate space of the host window.
pub struct Window;

/// An event delivered to handlers: the arguments plus a cancellation flag.
/// The flag is a plain field, so a clone carries its own copy: cancelling
/// one event does not cancel clones made earlier. (A flag shared across
/// clones would need interior mutability, which has no verified counterpart
/// here; dispatch should hand each handler the same event value rather than
/// clones.)
#[derive(Clone)]
pub struct Event<T> {
    pub args: T,
    cancelled: bool,
}

impl<T> Event<T> {
    /// Whether a handler asked to prevent default processing.
    pub closed spec fn cancelled_spec(self) -> bool {
        self.cancelled
    }

    /// The wrapped arguments.
    pub closed spec fn args_spec(self) -> T {
        self.args
    }

    pub fn new(args: T) -> (r: Self)
        ensures
            !r.cancelled_spec(),
            r.args_spec() == args,
    {
        Event { args, cancelled: false }
    }

    /// Prevent the default processing of this event.
    pub fn prevent_default(&mut self)
        ensures
            final(self).cancelled_spec(),
            final(self).args_spec() == old(self).args_spec(),
    {
        self.cancelled = true;
    }

    /// Whether default processing was prevented.
    pub fn cancelled(&self) -> (r: bool)
        ensures
            r == self.cancelled_spec(),
    {
        self.cancelled
    }
}

/// Common properties in keyboard events.
#[derive(Clone)]
pub struct KeyboardEventArgs {
    pub key: String,
    pub modifiers: Vec<ModifierKey>,
    pub is_repeat: bool,
}

/// User is pressing a key.
#[derive(Clone)]
pub struct KeyDown {
    pub keyboard: KeyboardEventArgs,
}

/// User has released a key.
#[derive(Clone)]
pub struct KeyUp {
    pub keyboard: KeyboardEventArgs,
}

/// User presses a key that displays a character.
#[derive(Clone)]
pub struct KeyPress {
    pub keyboard: KeyboardEventArgs,
}

/// The mouse button an event speaks of.
#[derive(Clone, Copy, Debug, PartialEq, Eq, Structural)]
pub enum MouseButton {
    Left,
    Right,
    Middle,
    Unknown,
}

/// A modifier key held during an event.
#[derive(Clone, Copy, Debug, PartialEq, Eq, Structural)]
pub enum ModifierKey {
    Shift,
    Control,
    Alt,
    Command,
}

/// A click or a one-finger tap, whichever the platform delivers; useful
/// when both should land in one handler.
#[derive(Clone, Copy, Debug, PartialEq, Eq, Structural)]
pub struct Clap {
    pub x: Numeric,
    pub y: Numeric,
}

/// A frame translated vertically or horizontally, by touch, mouse or
/// keyboard.
#[derive(Clone, Copy, Debug, PartialEq, Eq, Structural)]
pub struct Scroll {
    pub delta_x: Numeric,
    pub delta_y: Numeric,
}

/// A single touch point.
#[derive(Clone, Copy, Debug, PartialEq, Eq, Structural)]
pub struct Touch {
    pub x: Numeric,
    pub y: Numeric,
    pub identifier: i64,
    pub delta_x: Numeric,
    pub delta_y: Numeric,
}

/// The user touched an element.
#[derive(Clone)]
pub struct TouchStart {
    pub touches: Vec<Touch>,
}

/// The user moved while touching an element.
#[derive(Clone)]
pub struct TouchMove {
    pub touches: Vec<Touch>,
}

/// The user stopped touching an element.
#[derive(Clone)]
pub struct TouchEnd {
    pub touches: Vec<Touch>,
}

/// Common properties in mouse events.
#[derive(Clone)]
pub struct MouseEventArgs {
    pub x: Numeric,
    pub y: Numeric,
    pub button: MouseButton,
    pub modifiers: Vec<ModifierKey>,
}

/// A mouse button clicked over an element.
#[derive(Clone)]
pub struct Click {
    pub mouse: MouseEventArgs,
}

/// A payload dropped onto an element.
#[derive(Clone)]
pub struct Drop {
    pub x: Numeric,
    pub y: Numeric,
    pub name: String,
    pub mime_type: String,
    pub data: Vec<u8>,
}

/// A mouse button double-clicked over an element.
#[derive(Clone)]
pub struct DoubleClick {
    pub mouse: MouseEventArgs,
}

/// The mouse moved while over an element.
#[derive(Clone)]
pub struct MouseMove {
    pub mouse: MouseEventArgs,
}

/// The wheel scrolled over an element.
#[derive(Clone)]
pub struct Wheel {
    pub x: Numeric,
    pub y: Numeric,
    pub delta_x: Numeric,
    pub delta_y: Numeric,
    pub modifiers: Vec<ModifierKey>,
}

/// A mouse button pressed over an element.
#[derive(Clone)]
pub struct MouseDown {
    pub mouse: MouseEventArgs,
}

/// A mouse button released over an element.
#[derive(Clone)]
pub struct MouseUp {
    pub mouse: MouseEventArgs,
}

/// The mouse moved onto an element.
#[derive(Clone)]
pub struct MouseOver {
    pub mouse: MouseEventArgs,
}

/// The mouse moved away from an element.
#[derive(Clone)]
pub struct MouseOut {
    pub mouse: MouseEventArgs,
}

/// The context menu opened over an element.
#[derive(Clone)]
pub struct ContextMenu {
    pub mouse: MouseEventArgs,
}

/// A checkbox toggled.
#[derive(Clone)]
pub struct CheckboxChange {
    pub checked: bool,
}

/// Text typed into a text input.
#[derive(Clone)]
pub struct TextInput {
    pub text: String,
}

/// A textbox's content settled.
#[derive(Clone)]
pub struct TextboxChange {
    pub text: String,
}

/// Text typed into a textbox.
#[derive(Clone)]
pub struct TextboxInput {
    pub text: String,
}

/// A button clicked.
#[derive(Clone)]
pub struct ButtonClick {}

/// A timeline a component may drive its properties from.
pub struct Timeline {
    pub playhead_position: usize,
    pub frame_count: usize,
    pub is_playing: bool,
}

} // verus!
