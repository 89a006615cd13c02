//! Keyboard shortcuts.
use vstd::prelude::*;

use crate::sketch_board::events::{
    KeyEventMsg, ModifierType, ALT_MASK, CONTROL_MASK, SHIFT_MASK,
};

verus! {

pub const KEY_C: u32 = 99;

pub const KEY_D: u32 = 100;

pub const KEY_I: u32 = 105;

pub const KEY_S: u32 = 115;

pub const KEY_T: u32 = 116;

pub const KEY_Y: u32 = 121;

pub const KEY_Z: u32 = 122;

/// The arrow symbols of the APL keyboard. The cursor keys have other symbols.
pub const KEY_LEFT_SYMBOL: u32 = 2299;

pub const KEY_UP_SYMBOL: u32 = 2300;

pub const KEY_RIGHT_SYMBOL: u32 = 2301;

pub const KEY_DOWN_SYMBOL: u32 = 2302;

pub const KEY_RETURN: u32 = 65293;

pub const KEY_ESCAPE: u32 = 65307;

pub const KEY_LEFT: u32 = 65361;

pub const KEY_UP: u32 = 65362;

pub const KEY_RIGHT: u32 = 65363;

pub const KEY_DOWN: u32 = 65364;

pub const KEY_KP_ENTER: u32 = 65421;

pub const KEY_DELETE: u32 = 65535;

/// A key by its place on the keyboard, named after the symbol that it has in the
/// US layout.
#[derive(Debug, Clone, Copy, PartialEq, Eq, Structural)]
pub enum KeyMappingId {
    UsC,
    UsD,
    UsI,
    UsS,
    UsT,
    UsY,
    UsZ,
    ArrowLeft,
    ArrowRight,
    ArrowUp,
    ArrowDown,
}

/// The number that the Linux kernel gives to a key.
pub open spec fn spec_evdev_code(id: KeyMappingId) -> u16 {
    match id {
        KeyMappingId::UsC => 0x2e,
        KeyMappingId::UsD => 0x20,
        KeyMappingId::UsI => 0x17,
        KeyMappingId::UsS => 0x1f,
        KeyMappingId::UsT => 0x14,
        KeyMappingId::UsY => 0x15,
        KeyMappingId::UsZ => 0x2c,
        KeyMappingId::ArrowLeft => 0x69,
        KeyMappingId::ArrowRight => 0x6a,
        KeyMappingId::ArrowUp => 0x67,
        KeyMappingId::ArrowDown => 0x6c,
    }
}

/// Looks a key up with `KeyMap::from` of the crate `keycode`. Its table gives the
/// kernel's number for each of these keys as `spec_evdev_code` does.
#[verifier::external_body]
fn evdev_code(id: KeyMappingId) -> (r: u16)
    ensures
        r == spec_evdev_code(id),
{
    keycode::KeyMap::from(match id {
        KeyMappingId::UsC => keycode::KeyMappingId::UsC,
        KeyMappingId::UsD => keycode::KeyMappingId::UsD,
        KeyMappingId::UsI => keycode::KeyMappingId::UsI,
        KeyMappingId::UsS => keycode::KeyMappingId::UsS,
        KeyMappingId::UsT => keycode::KeyMappingId::UsT,
        KeyMappingId::UsY => keycode::KeyMappingId::UsY,
        KeyMappingId::UsZ => keycode::KeyMappingId::UsZ,
        KeyMappingId::ArrowLeft => keycode::KeyMappingId::ArrowLeft,
        KeyMappingId::ArrowRight => keycode::KeyMappingId::ArrowRight,
        KeyMappingId::ArrowUp => keycode::KeyMappingId::ArrowUp,
        KeyMappingId::ArrowDown => keycode::KeyMappingId::ArrowDown,
    }).evdev
}

/// Hardware codes lie this far above the numbers of the kernel.
pub const CODE_OFFSET: u16 = 8;

impl KeyEventMsg {
    /// The number that the kernel gives to the key that was pressed.
    pub open spec fn kernel_code(self) -> int {
        let code = self.code as u16;
        if code >= CODE_OFFSET {
            code - CODE_OFFSET
        } else {
            code - CODE_OFFSET + 0x1_0000
        }
    }

    pub open spec fn spec_is_one_of(self, key: u32, code: KeyMappingId) -> bool {
        self.key == key || self.kernel_code() == spec_evdev_code(code)
    }

    pub open spec fn with(self, mask: u32) -> bool {
        self.modifier.bits == mask
    }

    /// Matches a key by its symbol or by its place. The modifiers are not considered.
    pub fn is_one_of(&self, key: u32, code: KeyMappingId) -> (r: bool)
        ensures
            r == self.spec_is_one_of(key, code),
    {
        self.key == key || (self.code as u16).wrapping_sub(CODE_OFFSET) == evdev_code(code)
    }
}

#[derive(Debug, Clone, Copy, PartialEq, Eq, Structural)]
pub enum PanDirection {
    Left,
    Right,
    Up,
    Down,
}

/// What a key press asks for.
#[derive(Debug, Clone, Copy, PartialEq, Eq, Structural)]
pub enum Shortcut {
    Undo,
    Redo,
    ToggleToolbars,
    SaveFile,
    SaveFileAs,
    CopyAndExit,
    CopyFilepath,
    Inspector,
    /// Pan the image; an arrow that is not a cursor key gives no direction.
    Pan(Option<PanDirection>),
    Reset,
    Escape,
    Enter,
    Nothing,
}

/// The direction of a cursor key.
pub open spec fn spec_pan_direction(key: u32) -> Option<PanDirection> {
    if key == KEY_LEFT {
        Some(PanDirection::Left)
    } else if key == KEY_RIGHT {
        Some(PanDirection::Right)
    } else if key == KEY_UP {
        Some(PanDirection::Up)
    } else if key == KEY_DOWN {
        Some(PanDirection::Down)
    } else {
        None
    }
}

pub open spec fn is_arrow(ke: KeyEventMsg) -> bool {
    ||| ke.spec_is_one_of(KEY_LEFT_SYMBOL, KeyMappingId::ArrowLeft)
    ||| ke.spec_is_one_of(KEY_RIGHT_SYMBOL, KeyMappingId::ArrowRight)
    ||| ke.spec_is_one_of(KEY_UP_SYMBOL, KeyMappingId::ArrowUp)
    ||| ke.spec_is_one_of(KEY_DOWN_SYMBOL, KeyMappingId::ArrowDown)
}

/// The shortcut with Control alone. The symbol `y` counts before the place of the
/// key, so that redo is where it is expected on layouts that swap `y` and `z`.
pub open spec fn control_shortcut(ke: KeyEventMsg) -> Shortcut {
    if ke.key == KEY_Y {
        Shortcut::Redo
    } else if ke.spec_is_one_of(KEY_Z, KeyMappingId::UsZ) {
        Shortcut::Undo
    } else if ke.spec_is_one_of(KEY_Y, KeyMappingId::UsY) {
        Shortcut::Redo
    } else if ke.spec_is_one_of(KEY_T, KeyMappingId::UsT) {
        Shortcut::ToggleToolbars
    } else if ke.spec_is_one_of(KEY_S, KeyMappingId::UsS) {
        Shortcut::SaveFile
    } else if ke.spec_is_one_of(KEY_C, KeyMappingId::UsC) {
        Shortcut::CopyAndExit
    } else {
        Shortcut::Nothing
    }
}

/// What a key press asks for. The modifiers have to match exactly.
pub open spec fn spec_shortcut(ke: KeyEventMsg) -> Shortcut {
    if ke.with(CONTROL_MASK) {
        control_shortcut(ke)
    } else if ke.with(CONTROL_MASK | SHIFT_MASK) {
        if ke.spec_is_one_of(KEY_S, KeyMappingId::UsS) {
            Shortcut::SaveFileAs
        } else if ke.spec_is_one_of(KEY_D, KeyMappingId::UsD) || ke.spec_is_one_of(
            KEY_I,
            KeyMappingId::UsI,
        ) {
            Shortcut::Inspector
        } else {
            Shortcut::Nothing
        }
    } else if ke.with(CONTROL_MASK | ALT_MASK) {
        if ke.spec_is_one_of(KEY_C, KeyMappingId::UsC) {
            Shortcut::CopyFilepath
        } else {
            Shortcut::Nothing
        }
    } else if ke.with(ALT_MASK) {
        if is_arrow(ke) {
            Shortcut::Pan(spec_pan_direction(ke.key))
        } else {
            Shortcut::Nothing
        }
    } else if ke.with(0) {
        if ke.key == KEY_DELETE {
            Shortcut::Reset
        } else if ke.key == KEY_ESCAPE {
            Shortcut::Escape
        } else if ke.key == KEY_RETURN || ke.key == KEY_KP_ENTER {
            Shortcut::Enter
        } else {
            Shortcut::Nothing
        }
    } else {
        Shortcut::Nothing
    }
}

fn pan_direction(key: u32) -> (r: Option<PanDirection>)
    ensures
        r == spec_pan_direction(key),
{
    if key == KEY_LEFT {
        Some(PanDirection::Left)
    } else if key == KEY_RIGHT {
        Some(PanDirection::Right)
    } else if key == KEY_UP {
        Some(PanDirection::Up)
    } else if key == KEY_DOWN {
        Some(PanDirection::Down)
    } else {
        None
    }
}

/// The masks that shortcuts use are different from each other.
proof fn lemma_masks_differ()
    ensures
        CONTROL_MASK | SHIFT_MASK == 5,
        CONTROL_MASK | ALT_MASK == 12,
{
    assert(4u32 | 1u32 == 5) by (bit_vector);
    assert(4u32 | 8u32 == 12) by (bit_vector);
}

/// What a key press asks for.
pub fn shortcut(ke: &KeyEventMsg) -> (r: Shortcut)
    ensures
        r == spec_shortcut(*ke),
{
    proof {
        lemma_masks_differ();
    }
    let modifier = ke.modifier;
    let control = ModifierType { bits: CONTROL_MASK };
    let control_shift = ModifierType { bits: CONTROL_MASK | SHIFT_MASK };
    let control_alt = ModifierType { bits: CONTROL_MASK | ALT_MASK };
    let alt = ModifierType { bits: ALT_MASK };
    if ke.key == KEY_Y && modifier == control {
        Shortcut::Redo
    } else if ke.is_one_of(KEY_Z, KeyMappingId::UsZ) && modifier == control {
        Shortcut::Undo
    } else if ke.is_one_of(KEY_Y, KeyMappingId::UsY) && modifier == control {
        Shortcut::Redo
    } else if ke.is_one_of(KEY_T, KeyMappingId::UsT) && modifier == control {
        Shortcut::ToggleToolbars
    } else if ke.is_one_of(KEY_S, KeyMappingId::UsS) && modifier == control {
        Shortcut::SaveFile
    } else if ke.is_one_of(KEY_S, KeyMappingId::UsS) && modifier == control_shift {
        Shortcut::SaveFileAs
    } else if ke.is_one_of(KEY_C, KeyMappingId::UsC) && modifier == control {
        Shortcut::CopyAndExit
    } else if ke.is_one_of(KEY_C, KeyMappingId::UsC) && modifier == control_alt {
        Shortcut::CopyFilepath
    } else if (ke.is_one_of(KEY_D, KeyMappingId::UsD) || ke.is_one_of(KEY_I, KeyMappingId::UsI))
        && modifier == control_shift {
        Shortcut::Inspector
    } else if (ke.is_one_of(KEY_LEFT_SYMBOL, KeyMappingId::ArrowLeft) || ke.is_one_of(
        KEY_RIGHT_SYMBOL,
        KeyMappingId::ArrowRight,
    ) || ke.is_one_of(KEY_UP_SYMBOL, KeyMappingId::ArrowUp) || ke.is_one_of(
        KEY_DOWN_SYMBOL,
        KeyMappingId::ArrowDown,
    )) && modifier == alt {
        Shortcut::Pan(pan_direction(ke.key))
    } else if modifier.is_empty() && ke.key == KEY_DELETE {
        Shortcut::Reset
    } else if modifier.is_empty() && ke.key == KEY_ESCAPE {
        Shortcut::Escape
    } else if modifier.is_empty() && (ke.key == KEY_RETURN || ke.key == KEY_KP_ENTER) {
        Shortcut::Enter
    } else {
        Shortcut::Nothing
    }
}

/// With Control, a key with the symbol `y` redoes and one with the symbol `z`
/// undoes, wherever the layout puts it.
pub proof fn lemma_symbols_of_undo_and_redo(code: u32)
    ensures
        spec_shortcut(
            (KeyEventMsg { key: KEY_Y, code, modifier: ModifierType { bits: CONTROL_MASK } }),
        ) == Shortcut::Redo,
        spec_shortcut(
            (KeyEventMsg { key: KEY_Z, code, modifier: ModifierType { bits: CONTROL_MASK } }),
        ) == Shortcut::Undo,
{
}

/// Each shortcut has its modifiers, and with any others it does nothing.
pub proof fn lemma_modifiers_of_shortcuts(ke: KeyEventMsg)
    ensures
        ({
            let bits = ke.modifier.bits;
            match spec_shortcut(ke) {
                Shortcut::Undo | Shortcut::Redo | Shortcut::ToggleToolbars => bits == 4,
                Shortcut::SaveFile | Shortcut::CopyAndExit => bits == 4,
                Shortcut::SaveFileAs | Shortcut::Inspector => bits == 5,
                Shortcut::CopyFilepath => bits == 12,
                Shortcut::Pan(_) => bits == 8,
                Shortcut::Reset | Shortcut::Escape | Shortcut::Enter => bits == 0,
                Shortcut::Nothing => true,
            }
        }),
{
    lemma_masks_differ();
}

/// The key is none of those that shortcuts know by their symbols.
pub open spec fn has_foreign_symbol(ke: KeyEventMsg) -> bool {
    &&& ke.key != KEY_C && ke.key != KEY_D && ke.key != KEY_I && ke.key != KEY_S
    &&& ke.key != KEY_T && ke.key != KEY_Y && ke.key != KEY_Z
    &&& ke.key != KEY_LEFT_SYMBOL && ke.key != KEY_RIGHT_SYMBOL
    &&& ke.key != KEY_UP_SYMBOL && ke.key != KEY_DOWN_SYMBOL
}

/// On a layout without the symbols of the shortcuts, the places of the keys count: the
/// hardware codes are those of the US layout.
pub proof fn lemma_places_of_shortcuts(ke: KeyEventMsg)
    requires
        has_foreign_symbol(ke),
        8 <= ke.code <= 0xffff,
    ensures
        ({
            let (bits, shortcut) = (ke.modifier.bits, spec_shortcut(ke));
            &&& shortcut is Undo <==> bits == 4 && ke.code == 52
            &&& shortcut is Redo <==> bits == 4 && ke.code == 29
            &&& shortcut is ToggleToolbars <==> bits == 4 && ke.code == 28
            &&& shortcut is SaveFile <==> bits == 4 && ke.code == 39
            &&& shortcut is CopyAndExit <==> bits == 4 && ke.code == 54
            &&& shortcut is SaveFileAs <==> bits == 5 && ke.code == 39
            &&& shortcut is Inspector <==> bits == 5 && (ke.code == 40 || ke.code == 31)
            &&& shortcut is CopyFilepath <==> bits == 12 && ke.code == 54
            &&& shortcut is Pan <==> bits == 8 && (ke.code == 113 || ke.code == 114 || ke.code
                == 111 || ke.code == 116)
        }),
{
    lemma_masks_differ();
    assert(ke.code as u16 == ke.code);
}

/// The key stands at none of the places that shortcuts know.
pub open spec fn has_foreign_place(code: u32) -> bool {
    &&& 117 <= code <= 0xffff
}

/// A key at a foreign place counts by its symbol.
pub proof fn lemma_symbols_of_shortcuts(key: u32, code: u32, bits: u32)
    requires
        has_foreign_place(code),
    ensures
        ({
            let shortcut = spec_shortcut(
                KeyEventMsg { key, code, modifier: ModifierType { bits } },
            );
            &&& shortcut is Undo <==> bits == 4 && key == 0x7a
            &&& shortcut is Redo <==> bits == 4 && key == 0x79
            &&& shortcut is ToggleToolbars <==> bits == 4 && key == 0x74
            &&& shortcut is SaveFile <==> bits == 4 && key == 0x73
            &&& shortcut is CopyAndExit <==> bits == 4 && key == 0x63
            &&& shortcut is SaveFileAs <==> bits == 5 && key == 0x73
            &&& shortcut is Inspector <==> bits == 5 && (key == 0x64 || key == 0x69)
            &&& shortcut is CopyFilepath <==> bits == 12 && key == 0x63
            &&& shortcut is Reset <==> bits == 0 && key == 0xffff
            &&& shortcut is Escape <==> bits == 0 && key == 0xff1b
            &&& shortcut is Enter <==> bits == 0 && (key == 0xff0d || key == 0xff8d)
        }),
{
    lemma_masks_differ();
    assert(code as u16 == code);
}

/// The cursor keys pan in their direction, whatever code they have among those of the
/// cursor keys.
pub proof fn lemma_cursor_keys_pan(code: u32)
    requires
        code == 113 || code == 114 || code == 111 || code == 116,
    ensures
        ({
            let pan = |key: u32|
                spec_shortcut(
                    KeyEventMsg { key, code, modifier: ModifierType { bits: ALT_MASK } },
                );
            &&& pan(0xff51) == Shortcut::Pan(Some(PanDirection::Left))
            &&& pan(0xff53) == Shortcut::Pan(Some(PanDirection::Right))
            &&& pan(0xff52) == Shortcut::Pan(Some(PanDirection::Up))
            &&& pan(0xff54) == Shortcut::Pan(Some(PanDirection::Down))
        }),
{
    lemma_masks_differ();
    assert(code as u16 == code);
}

} // verus!
