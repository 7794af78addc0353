//! Key events, the modifiers that accompany them, and their canonical
//! encoding: the string that binding patterns are compared with.

use vstd::prelude::*;
use vstd::seq_lib::to_multiset_contains;
use device_query::Keycode;
use crate::key::{is_modifier, keycode_name, keycode_text};
use crate::pattern::{
    is_modifier_code, is_modifier_prefix, lemma_token_end_is_first_delimiter, step_end, steps,
    CODE_SEPARATOR, DELIMITER,
};
use crate::text::{chars_of, join, lowercase, push_char, push_chars, str_views, to_lowercase};

verus! {

/// Whether a key went down or came up.
#[derive(Debug, Clone, Copy, PartialEq, Eq, PartialOrd, Ord, Structural)]
pub enum SodKatState {
    Press,
    Release,
}

/// A modifier held while another key changes state.
#[derive(Debug, Clone, Copy, PartialEq, Eq, Structural)]
pub enum SodKatModifier {
    ALT,
    SHIFT,
    CONTROL,
    META,
}

impl SodKatModifier {
    /// The single-letter code of the modifier. Codes sort in the canonical
    /// order: Alt, Control, Meta, Shift.
    pub open spec fn code(self) -> char {
        match self {
            SodKatModifier::ALT => 'A',
            SodKatModifier::SHIFT => 'S',
            SodKatModifier::CONTROL => 'C',
            SodKatModifier::META => 'M',
        }
    }

    /// The name shown to users.
    pub open spec fn label(self) -> Seq<char> {
        match self {
            SodKatModifier::ALT => "Alt"@,
            SodKatModifier::SHIFT => "Shift"@,
            SodKatModifier::CONTROL => "Ctrl"@,
            SodKatModifier::META => "Meta"@,
        }
    }

    /// Returns the single-letter code.
    pub fn letter(&self) -> (r: char)
        ensures
            r == self.code(),
            is_modifier_code(r),
    {
        match self {
            SodKatModifier::ALT => 'A',
            SodKatModifier::SHIFT => 'S',
            SodKatModifier::CONTROL => 'C',
            SodKatModifier::META => 'M',
        }
    }

    /// Returns the name shown to users.
    pub fn name(&self) -> (r: &'static str)
        ensures
            r@ == self.label(),
    {
        match self {
            SodKatModifier::ALT => "Alt",
            SodKatModifier::SHIFT => "Shift",
            SodKatModifier::CONTROL => "Ctrl",
            SodKatModifier::META => "Meta",
        }
    }
}

/// A key going down or coming up, with the modifiers held at that moment.
#[derive(Debug, PartialEq, Eq)]
pub struct GlobalSodKatEvent {
    pub keycode: Keycode,
    pub state: SodKatState,
    pub modifier: Vec<SodKatModifier>,
}

/// An event as contracts see it.
pub struct GlobalSodKatEventView {
    pub keycode: Keycode,
    pub state: SodKatState,
    pub modifier: Seq<SodKatModifier>,
}

impl View for GlobalSodKatEvent {
    type V = GlobalSodKatEventView;

    open spec fn view(&self) -> GlobalSodKatEventView {
        GlobalSodKatEventView {
            keycode: self.keycode,
            state: self.state,
            modifier: self.modifier@,
        }
    }
}

impl Clone for GlobalSodKatEvent {
    fn clone(&self) -> (r: Self)
        ensures
            r@ == self@,
    {
        GlobalSodKatEvent {
            keycode: self.keycode,
            state: self.state,
            modifier: self.modifier.clone(),
        }
    }
}

/// The form of an event handed to consumers that need plain values.
#[derive(Debug, Clone, PartialEq, Eq)]
pub struct GlobalSodKatPayload<'a> {
    pub keycode: String,
    pub is_pressed: bool,
    pub modifier: Vec<&'a str>,
}

/// The code of `m` as a one-element list when `mods` holds `m`, else nothing.
pub open spec fn code_if_held(mods: Seq<SodKatModifier>, m: SodKatModifier) -> Seq<Seq<char>> {
    if mods.contains(m) {
        seq![seq![m.code()]]
    } else {
        Seq::empty()
    }
}

/// The codes of the modifiers that occur in `mods`, each once, in canonical
/// order. Only the set of modifiers in `mods` matters.
pub open spec fn held_codes(mods: Seq<SodKatModifier>) -> Seq<Seq<char>> {
    code_if_held(mods, SodKatModifier::ALT) + code_if_held(mods, SodKatModifier::CONTROL)
        + code_if_held(mods, SodKatModifier::META) + code_if_held(mods, SodKatModifier::SHIFT)
}

/// The canonical modifier prefix: the held codes joined by `-`.
pub open spec fn modifier_prefix(mods: Seq<SodKatModifier>) -> Seq<char> {
    join(held_codes(mods), CODE_SEPARATOR)
}

/// The canonical encoding of a key name with its modifiers: the name alone
/// when no modifier is held, else the prefix, one space, and the name.
pub open spec fn encode(mods: Seq<SodKatModifier>, key: Seq<char>) -> Seq<char> {
    if modifier_prefix(mods).len() == 0 {
        key
    } else {
        modifier_prefix(mods) + seq![DELIMITER] + key
    }
}

/// The display names of `mods`, in the order listed.
pub open spec fn labels(mods: Seq<SodKatModifier>) -> Seq<Seq<char>> {
    mods.map_values(|m: SodKatModifier| m.label())
}

impl GlobalSodKatEventView {
    /// The canonical encoding of the event: its modifiers and the lowercase
    /// display text of its key.
    pub open spec fn token(self) -> Seq<char> {
        encode(self.modifier, lowercase(keycode_text(self.keycode)))
    }

    /// The event as shown to users: the modifier prefix in brackets, a
    /// space, and the display text of the key.
    pub open spec fn display(self) -> Seq<char> {
        seq!['['] + modifier_prefix(self.modifier) + seq![']', ' '] + keycode_text(self.keycode)
    }

    /// True when the event is one the transition detector may emit: its key
    /// is no modifier key and no modifier is listed twice.
    pub open spec fn well_formed(self) -> bool {
        !is_modifier(self.keycode) && self.modifier.no_duplicates()
    }
}

/// The encoding does not depend on the order in which the modifiers are
/// listed: two lists that are permutations of each other encode alike.
pub proof fn encoding_ignores_order(
    a: Seq<SodKatModifier>,
    b: Seq<SodKatModifier>,
    key: Seq<char>,
)
    requires
        a.to_multiset() == b.to_multiset(),
    ensures
        modifier_prefix(a) == modifier_prefix(b),
        encode(a, key) == encode(b, key),
{
    assert forall|m: SodKatModifier| a.contains(m) == b.contains(m) by {
        to_multiset_contains(a, m);
        to_multiset_contains(b, m);
    }
    encoding_depends_on_set(a, b, key);
}

/// The encoding depends only on which modifiers are held, not on how often
/// or where each is listed.
pub proof fn encoding_depends_on_set(
    a: Seq<SodKatModifier>,
    b: Seq<SodKatModifier>,
    key: Seq<char>,
)
    requires
        forall|m: SodKatModifier| a.contains(m) == b.contains(m),
    ensures
        modifier_prefix(a) == modifier_prefix(b),
        encode(a, key) == encode(b, key),
{
}

/// The encoding of a key whose name holds no space is a pattern of exactly
/// one step.
pub proof fn encoding_is_one_step(mods: Seq<SodKatModifier>, key: Seq<char>)
    requires
        !key.contains(DELIMITER),
    ensures
        steps(encode(mods, key)) == seq![encode(mods, key)],
{
    let e = encode(mods, key);
    let prefix = modifier_prefix(mods);
    lemma_modifier_prefix(mods);
    if prefix.len() == 0 {
        lemma_token_end_is_first_delimiter(e, 0, e.len() as int);
    } else {
        let n = prefix.len() as int;
        lemma_token_end_is_first_delimiter(e, 0, n);
        lemma_token_end_is_first_delimiter(e, n + 1, e.len() as int);
    }
    assert(e.subrange(0, e.len() as int) == e);
}

/// True when every part is a single modifier code.
pub open spec fn all_codes(parts: Seq<Seq<char>>) -> bool {
    forall|i: int|
        0 <= i < parts.len() ==> (#[trigger] parts[i]).len() == 1 && is_modifier_code(parts[i][0])
}

/// Joining one more part: the separator comes between, never first.
pub proof fn lemma_join_push(parts: Seq<Seq<char>>, last: Seq<char>, sep: char)
    ensures
        join(parts.push(last), sep) == if parts.len() == 0 {
            last
        } else {
            join(parts, sep) + seq![sep] + last
        },
    decreases parts.len(),
{
    let all = parts.push(last);
    if parts.len() == 0 {
    } else if parts.len() == 1 {
        assert(all.drop_first() == seq![last]);
        assert(join(seq![last], sep) == last);
    } else {
        assert(all.drop_first() == parts.drop_first().push(last));
        lemma_join_push(parts.drop_first(), last, sep);
        assert(join(all, sep) == parts[0] + seq![sep] + (join(parts.drop_first(), sep) + seq![sep]
            + last));
        assert(join(all, sep) == (parts[0] + seq![sep] + join(parts.drop_first(), sep)) + seq![sep]
            + last);
    }
}

/// Codes joined by `-` form a modifier prefix of odd length.
pub proof fn lemma_joined_codes(parts: Seq<Seq<char>>)
    requires
        all_codes(parts),
    ensures
        join(parts, CODE_SEPARATOR).len() == if parts.len() == 0 {
            0
        } else {
            2 * parts.len() - 1
        },
        parts.len() > 0 ==> is_modifier_prefix(join(parts, CODE_SEPARATOR)),
    decreases parts.len(),
{
    if parts.len() >= 1 {
        let front = parts.drop_last();
        assert(parts == front.push(parts.last()));
        lemma_join_push(front, parts.last(), CODE_SEPARATOR);
        lemma_joined_codes(front);
    }
}

/// The held codes are modifier codes, at most four of them.
pub proof fn lemma_held_codes(mods: Seq<SodKatModifier>)
    ensures
        all_codes(held_codes(mods)),
        held_codes(mods).len() <= 4,
        held_codes(mods).len() == 0 <==> mods.len() == 0,
{
    if mods.len() > 0 {
        assert(mods.contains(mods[0]));
    }
}

/// The prefix is empty exactly when no modifier is held; otherwise it is a
/// modifier prefix in the sense of the pattern grammar.
pub proof fn lemma_modifier_prefix(mods: Seq<SodKatModifier>)
    ensures
        modifier_prefix(mods).len() == 0 <==> mods.len() == 0,
        mods.len() > 0 ==> is_modifier_prefix(modifier_prefix(mods)),
        forall|i: int| 0 <= i < modifier_prefix(mods).len() ==> modifier_prefix(mods)[i] != DELIMITER,
{
    lemma_held_codes(mods);
    lemma_joined_codes(held_codes(mods));
}

/// Display names and the canonical prefix of a list of modifiers.
pub trait FormatModifiers {
    /// The display name of each modifier, in the order listed.
    fn to_vec(&self) -> Vec<&str>;

    /// The canonical modifier prefix.
    fn format(&self) -> String;
}

/// Decides whether `mods` lists `m`.
pub fn holds(mods: &Vec<SodKatModifier>, m: SodKatModifier) -> (r: bool)
    ensures
        r == mods@.contains(m),
{
    let mut i: usize = 0;
    while i < mods.len()
        invariant
            i <= mods.len(),
            forall|j: int| 0 <= j < i ==> mods@[j] != m,
        decreases mods.len() - i,
    {
        if mods[i] == m {
            return true;
        }
        i += 1;
    }
    false
}

/// Appends the code of `m` to `out` when `mods` holds it, with a separator
/// when a code came before.
fn push_code_if_held(
    out: &mut String,
    mods: &Vec<SodKatModifier>,
    m: SodKatModifier,
    Ghost(parts): Ghost<Seq<Seq<char>>>,
)
    requires
        old(out)@ == join(parts, CODE_SEPARATOR),
        all_codes(parts),
    ensures
        final(out)@ == join(parts + code_if_held(mods@, m), CODE_SEPARATOR),
        all_codes(parts + code_if_held(mods@, m)),
{
    if holds(mods, m) {
        proof {
            lemma_joined_codes(parts);
            lemma_join_push(parts, seq![m.code()], CODE_SEPARATOR);
            assert(parts + code_if_held(mods@, m) == parts.push(seq![m.code()]));
        }
        if !out.as_str().is_empty() {
            push_char(out, CODE_SEPARATOR);
        }
        push_char(out, m.letter());
    }
}

impl FormatModifiers for Vec<SodKatModifier> {
    fn to_vec(&self) -> (r: Vec<&str>)
        ensures
            str_views(r@) == labels(self@),
    {
        let mut out: Vec<&str> = Vec::new();
        let mut i: usize = 0;
        while i < self.len()
            invariant
                i <= self.len(),
                str_views(out@) == labels(self@.take(i as int)),
            decreases self.len() - i,
        {
            let ghost before = str_views(out@);
            let name: &'static str = self[i].name();
            out.push(name);
            assert(str_views(out@) == before.push(name@));
            i += 1;
        }
        out
    }

    fn format(&self) -> (r: String)
        ensures
            r@ == modifier_prefix(self@),
    {
        let mut out = String::new();
        let ghost none: Seq<Seq<char>> = Seq::empty();
        let ghost a = code_if_held(self@, SodKatModifier::ALT);
        let ghost c = code_if_held(self@, SodKatModifier::CONTROL);
        let ghost m = code_if_held(self@, SodKatModifier::META);
        push_code_if_held(&mut out, self, SodKatModifier::ALT, Ghost(none));
        push_code_if_held(&mut out, self, SodKatModifier::CONTROL, Ghost(a));
        push_code_if_held(&mut out, self, SodKatModifier::META, Ghost(a + c));
        push_code_if_held(&mut out, self, SodKatModifier::SHIFT, Ghost(a + c + m));
        out
    }
}

/// Builds the canonical encoding of a key name with its modifiers.
pub fn encode_key(modifier: &Vec<SodKatModifier>, key: &str) -> (r: String)
    ensures
        r@ == encode(modifier@, key@),
{
    let mut out: String = modifier.format();
    if !out.as_str().is_empty() {
        push_char(&mut out, DELIMITER);
    }
    let tail: Vec<char> = chars_of(key);
    push_chars(&mut out, &tail);
    out
}

impl GlobalSodKatEvent {
    /// Builds the canonical encoding that binding patterns are compared
    /// with.
    pub fn tokenize(&self) -> (r: String)
        ensures
            r@ == self@.token(),
    {
        let name: String = keycode_name(&self.keycode);
        let binding: String = to_lowercase(name.as_str());
        encode_key(&self.modifier, binding.as_str())
    }

    /// Projects the event to plain values.
    pub fn to_payload(&self) -> (r: GlobalSodKatPayload<'_>)
        ensures
            r.keycode@ == keycode_text(self.keycode),
            r.is_pressed == (self.state == SodKatState::Press),
            str_views(r.modifier@) == labels(self.modifier@),
    {
        GlobalSodKatPayload {
            keycode: keycode_name(&self.keycode),
            is_pressed: self.state == SodKatState::Press,
            modifier: self.modifier.to_vec(),
        }
    }

    /// Renders the event for display.
    pub fn to_string(&self) -> (r: String)
        ensures
            r@ == self@.display(),
    {
        let mut out = String::new();
        push_char(&mut out, '[');
        let prefix: String = self.modifier.format();
        let inner: Vec<char> = chars_of(prefix.as_str());
        push_chars(&mut out, &inner);
        push_char(&mut out, ']');
        push_char(&mut out, ' ');
        let name: String = keycode_name(&self.keycode);
        let tail: Vec<char> = chars_of(name.as_str());
        push_chars(&mut out, &tail);
        out
    }
}

} // verus!
