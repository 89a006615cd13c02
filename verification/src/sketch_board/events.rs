//! Messages that the sketch board receives and sends.
use vstd::prelude::*;

use crate::configuration::Action;
use crate::math::{Scalar, Vec2D};
use crate::sketch_board::image::{PixelBuffer, RenderedImage};
use crate::style::{Color, Size};
use crate::tools::Tools;

verus! {

/// The state of the modifier keys and mouse buttons, one bit each.
#[derive(Debug, Clone, Copy, PartialEq, Eq, Structural)]
pub struct ModifierType {
    pub bits: u32,
}

pub const SHIFT_MASK: u32 = 1;

pub const CONTROL_MASK: u32 = 4;

pub const ALT_MASK: u32 = 8;

pub const BUTTON1_MASK: u32 = 256;

impl ModifierType {
    /// All bits of `mask` are set.
    pub open spec fn spec_contains(self, mask: u32) -> bool {
        self.bits & mask == mask
    }

    /// Some bit of `mask` is set.
    pub open spec fn spec_intersects(self, mask: u32) -> bool {
        self.bits & mask != 0
    }

    pub fn contains(self, mask: u32) -> (r: bool)
        ensures
            r == self.spec_contains(mask),
    {
        self.bits & mask == mask
    }

    pub fn intersects(self, mask: u32) -> (r: bool)
        ensures
            r == self.spec_intersects(mask),
    {
        self.bits & mask != 0
    }

    pub fn is_empty(self) -> (r: bool)
        ensures
            r == (self.bits == 0),
    {
        self.bits == 0
    }
}

#[derive(Debug, Clone, Copy, PartialEq, Eq, PartialOrd, Ord, Structural)]
pub enum MouseButton {
    Primary,
    Secondary,
    Middle,
}

#[derive(Debug, Clone, Copy, PartialEq, Eq, Structural)]
pub enum MouseEventType {
    BeginDrag,
    EndDrag,
    UpdateDrag,
    Click,
    Scroll,
    PointerPos,
    Release,
}

#[derive(Debug, Clone, Copy)]
pub struct MouseEventMsg<S> {
    pub type_: MouseEventType,
    pub button: MouseButton,
    pub modifier: ModifierType,
    pub pos: Vec2D<S>,
    pub n_pressed: i32,
    pub release: bool,
}

/// A key press: the symbol that the layout gives to the key, the hardware code
/// of the key, and the modifiers.
#[derive(Debug, Clone, Copy)]
pub struct KeyEventMsg {
    pub key: u32,
    pub code: u32,
    pub modifier: ModifierType,
}

/// A part of a text that an input method is still composing.
#[derive(Debug, Clone)]
pub struct PreeditSpan {
    pub start: usize,
    pub end: usize,
    pub selected: bool,
    pub underlined: bool,
}

#[derive(Debug, Clone)]
pub enum TextEventMsg {
    Commit(String),
    Preedit { text: String, cursor_chars: Option<usize>, spans: Vec<PreeditSpan> },
    PreeditEnd,
}

#[derive(Debug, Clone)]
pub enum InputEvent<S> {
    Mouse(MouseEventMsg<S>),
    Key(KeyEventMsg),
    KeyRelease(KeyEventMsg),
    Text(TextEventMsg),
}

/// What the user asks for on the toolbars.
#[derive(Debug, Clone)]
pub enum ToolbarEvent<S> {
    ToolSelected(Tools),
    ColorSelected(Color),
    SizeSelected(Size),
    Redo,
    Undo,
    SaveFile,
    SaveFileAs,
    CopyClipboard,
    ToggleFill,
    AnnotationSizeChanged(S),
    Reset,
    Resize,
    OriginalScale,
}

#[derive(Debug, Clone)]
pub enum SketchBoardInput<S> {
    InputEvent(InputEvent<S>),
    ToolbarEvent(ToolbarEvent<S>),
    RenderResult(RenderedImage, Vec<Action>),
    RenderResultFollowup(Option<PixelBuffer>, Vec<Action>, Option<String>),
    CommitEvent(TextEventMsg),
    Refresh,
    Exit,
    ScaleFactorChanged,
    Output(SketchBoardOutput),
}

#[derive(Debug, Clone)]
pub enum SketchBoardOutput {
    ToggleToolbarsDisplay,
    ToolSwitchShortcut(Tools),
    ColorSwitchShortcut(u64),
    DimensionsUpdate(Option<(i32, i32)>),
}

pub const BUTTON_PRIMARY: u32 = 1;

pub const BUTTON_MIDDLE: u32 = 2;

pub const BUTTON_SECONDARY: u32 = 3;

/// The button with the given number. Unknown numbers count as the primary button.
pub open spec fn button_of(value: u32) -> MouseButton {
    if value == BUTTON_MIDDLE {
        MouseButton::Middle
    } else if value == BUTTON_SECONDARY {
        MouseButton::Secondary
    } else {
        MouseButton::Primary
    }
}

impl From<u32> for MouseButton {
    fn from(value: u32) -> (r: Self) {
        if value == BUTTON_PRIMARY {
            MouseButton::Primary
        } else if value == BUTTON_MIDDLE {
            MouseButton::Middle
        } else if value == BUTTON_SECONDARY {
            MouseButton::Secondary
        } else {
            MouseButton::Primary
        }
    }
}

impl vstd::std_specs::convert::FromSpecImpl<u32> for MouseButton {
    open spec fn obeys_from_spec() -> bool {
        true
    }

    open spec fn from_spec(value: u32) -> Self {
        button_of(value)
    }
}

impl KeyEventMsg {
    pub fn new(key: u32, code: u32, modifier: ModifierType) -> (r: Self)
        ensures
            r == (KeyEventMsg { key, code, modifier }),
    {
        KeyEventMsg { key, code, modifier }
    }
}

impl<S: Scalar> SketchBoardInput<S> {
    pub fn new_mouse_event(
        event_type: MouseEventType,
        button: u32,
        n_pressed: i32,
        modifier: ModifierType,
        pos: Vec2D<S>,
        release: bool,
    ) -> (r: Self)
        ensures
            r == SketchBoardInput::InputEvent(
                InputEvent::Mouse(
                    (MouseEventMsg {
                        type_: event_type,
                        button: button_of(button),
                        modifier,
                        pos,
                        n_pressed,
                        release,
                    }),
                ),
            ),
    {
        SketchBoardInput::InputEvent(
            InputEvent::Mouse(
                MouseEventMsg {
                    type_: event_type,
                    button: MouseButton::from(button),
                    n_pressed,
                    modifier,
                    pos,
                    release,
                },
            ),
        )
    }

    pub fn new_key_event(event: KeyEventMsg) -> (r: Self)
        ensures
            r == SketchBoardInput::<S>::InputEvent(InputEvent::Key(event)),
    {
        SketchBoardInput::InputEvent(InputEvent::Key(event))
    }

    pub fn new_key_release_event(event: KeyEventMsg) -> (r: Self)
        ensures
            r == SketchBoardInput::<S>::InputEvent(InputEvent::KeyRelease(event)),
    {
        SketchBoardInput::InputEvent(InputEvent::KeyRelease(event))
    }

    pub fn new_text_event(event: TextEventMsg) -> (r: Self)
        ensures
            r == SketchBoardInput::<S>::InputEvent(InputEvent::Text(event)),
    {
        SketchBoardInput::InputEvent(InputEvent::Text(event))
    }

    pub fn new_commit_event(event: TextEventMsg) -> (r: Self)
        ensures
            r == SketchBoardInput::<S>::CommitEvent(event),
    {
        SketchBoardInput::CommitEvent(event)
    }

    /// A turn of the wheel. The distance travels in the `y` coordinate.
    pub fn new_scroll_event(delta_y: S) -> (r: Self)
        ensures
            r == SketchBoardInput::InputEvent(
                InputEvent::Mouse(
                    (MouseEventMsg {
                        type_: MouseEventType::Scroll,
                        button: MouseButton::Middle,
                        modifier: ModifierType { bits: 0 },
                        pos: Vec2D { x: S::spec_from_int(0), y: delta_y },
                        n_pressed: 0,
                        release: false,
                    }),
                ),
            ),
    {
        SketchBoardInput::InputEvent(
            InputEvent::Mouse(
                MouseEventMsg {
                    type_: MouseEventType::Scroll,
                    button: MouseButton::Middle,
                    n_pressed: 0,
                    modifier: ModifierType { bits: 0 },
                    pos: Vec2D::new(S::from_int(0), delta_y),
                    release: false,
                },
            ),
        )
    }
}

/// The buttons are numbered from one: primary, middle, secondary.
pub proof fn lemma_numbers_of_buttons(value: u32)
    ensures
        button_of(value) is Middle <==> value == 2,
        button_of(value) is Secondary <==> value == 3,
        button_of(value) is Primary <==> value != 2 && value != 3,
{
}

} // verus!
