//! Physical keys as the keyboard source reports them.
//!
//! A key is a `device_query::Keycode`. The engine reads two things from it,
//! both through the functions below: whether two keys are the same, and the
//! text the key is displayed with. Which keys count as modifiers is decided
//! from that text.

use vstd::prelude::*;
use device_query::Keycode;
use crate::event::SodKatModifier;
use crate::text::str_eq;

verus! {

/// `device_query::Keycode`, a plain enumeration of keys. Its variants are
/// not read here.
#[verifier::external_type_specification]
#[verifier::external_body]
pub struct ExKeycode(device_query::Keycode);

/// The text that `Keycode`'s `Display` impl writes for a key: the name of
/// its variant, such as `LControl` or `S`.
pub uninterp spec fn keycode_text(key: Keycode) -> Seq<char>;

/// Calls `to_string` on a `Keycode`, which runs its `Display` impl. The
/// contract names the result; it depends on the key alone.
#[verifier::external_body]
pub(crate) fn keycode_name(key: &Keycode) -> (r: String)
    ensures
        r@ == keycode_text(*key),
{
    key.to_string()
}

/// Calls `Keycode`'s `==`, which holds exactly between a key and itself.
#[verifier::external_body]
pub(crate) fn same_key(a: &Keycode, b: &Keycode) -> (r: bool)
    ensures
        r == (*a == *b),
{
    a == b
}

/// The modifier that a key with display text `name` stands for, if any. The
/// left and the right key of a pair stand for the same modifier.
pub open spec fn name_modifier(name: Seq<char>) -> Option<SodKatModifier> {
    if name == "LControl"@ || name == "RControl"@ {
        Some(SodKatModifier::CONTROL)
    } else if name == "LShift"@ || name == "RShift"@ {
        Some(SodKatModifier::SHIFT)
    } else if name == "LAlt"@ || name == "RAlt"@ {
        Some(SodKatModifier::ALT)
    } else if name == "LMeta"@ || name == "RMeta"@ {
        Some(SodKatModifier::META)
    } else {
        None
    }
}

/// The modifier that `key` stands for, if any.
pub open spec fn key_modifier(key: Keycode) -> Option<SodKatModifier> {
    name_modifier(keycode_text(key))
}

/// True when `key` is one of the modifier keys.
pub open spec fn is_modifier(key: Keycode) -> bool {
    key_modifier(key) is Some
}

/// Maps a key's display text to the modifier it stands for.
pub fn modifier_from_name(name: &str) -> (r: Option<SodKatModifier>)
    ensures
        r == name_modifier(name@),
{
    if str_eq(name, "LControl") || str_eq(name, "RControl") {
        Some(SodKatModifier::CONTROL)
    } else if str_eq(name, "LShift") || str_eq(name, "RShift") {
        Some(SodKatModifier::SHIFT)
    } else if str_eq(name, "LAlt") || str_eq(name, "RAlt") {
        Some(SodKatModifier::ALT)
    } else if str_eq(name, "LMeta") || str_eq(name, "RMeta") {
        Some(SodKatModifier::META)
    } else {
        None
    }
}

/// Maps a key to the modifier it stands for.
pub fn modifier_of(key: &Keycode) -> (r: Option<SodKatModifier>)
    ensures
        r == key_modifier(*key),
{
    let name: String = keycode_name(key);
    modifier_from_name(name.as_str())
}

/// Decides whether `key` is a modifier key.
pub fn is_modifier_key(key: &Keycode) -> (r: bool)
    ensures
        r == is_modifier(*key),
{
    modifier_of(key).is_some()
}

/// Hands back `key` unless it is a modifier key.
pub fn filter_key(key: &Keycode) -> (r: Option<Keycode>)
    ensures
        r == if is_modifier(*key) {
            None
        } else {
            Some(*key)
        },
{
    if is_modifier_key(key) {
        None
    } else {
        Some(*key)
    }
}

} // verus!
