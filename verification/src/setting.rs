//! The binding table and the resolver that matches events against it.
//!
//! Resolution is a state machine with one piece of state, the pending chord.
//! While idle, the first binding in table order that the focused application
//! may use and whose first step equals the event's encoding decides: a
//! one-step binding is the result, a longer one arms the chord and consumes
//! the event. While armed, the stored prefix, one space and the event's
//! encoding are compared with whole patterns, regardless of scope, and the
//! resolver is idle again afterwards, match or not.

use vstd::prelude::*;
use crate::event::GlobalSodKatEvent;
use crate::pattern::{lemma_first_step, lemma_two_steps, split_steps, steps, DELIMITER};
use crate::text::{chars_of, push_char, push_chars, str_eq, str_views, views};

verus! {

/// One binding: a pattern, the applications it is limited to, and the
/// identifier of what it triggers.
#[derive(Debug, Clone, PartialEq, Eq)]
pub struct SodKatKey {
    /// One or two encoded steps separated by a space.
    pub key: String,
    /// Lowercase application names; empty means every application.
    pub scope: Vec<String>,
    /// Identifier of the action.
    pub function: String,
}

/// A binding as contracts see it.
pub struct SodKatKeyView {
    pub key: Seq<char>,
    pub scope: Seq<Seq<char>>,
    pub function: Seq<char>,
}

impl View for SodKatKey {
    type V = SodKatKeyView;

    open spec fn view(&self) -> SodKatKeyView {
        SodKatKeyView {
            key: self.key@,
            scope: views(self.scope@),
            function: self.function@,
        }
    }
}

/// The loaded configuration: the binding table with its header.
#[derive(Debug, Clone, PartialEq, Eq)]
pub struct Setting {
    pub app_name: String,
    pub version: String,
    /// Bindings in table order; earlier entries win.
    pub keys: Vec<SodKatKey>,
}

/// A configuration as contracts see it.
pub struct SettingView {
    pub app_name: Seq<char>,
    pub version: Seq<char>,
    pub keys: Seq<SodKatKeyView>,
}

impl View for Setting {
    type V = SettingView;

    open spec fn view(&self) -> SettingView {
        SettingView {
            app_name: self.app_name@,
            version: self.version@,
            keys: self.keys@.map_values(|k: SodKatKey| k@),
        }
    }
}

/// The pending chord: idle, or armed with the encoding of the event that
/// matched the first step of a binding.
#[derive(Debug)]
pub struct ComboState {
    combo: bool,
    key: String,
}

impl View for ComboState {
    /// `None` while idle, `Some(prefix)` while armed.
    type V = Option<Seq<char>>;

    closed spec fn view(&self) -> Option<Seq<char>> {
        if self.combo {
            Some(self.key@)
        } else {
            None
        }
    }
}

impl ComboState {
    /// An idle state.
    pub fn new() -> (r: Self)
        ensures
            r@ is None,
    {
        ComboState { combo: false, key: String::new() }
    }

    /// Arms the chord with `key` as the committed prefix.
    pub fn set(&mut self, key: String)
        ensures
            final(self)@ == Some(key@),
    {
        self.combo = true;
        self.key = key;
    }

    /// Returns to idle.
    pub fn reset(&mut self)
        ensures
            final(self)@ is None,
    {
        self.combo = false;
        self.key = String::new();
    }

    /// True while a chord is armed.
    pub fn is_armed(&self) -> (r: bool)
        ensures
            r == (self@ is Some),
    {
        self.combo
    }

    /// The committed prefix while armed.
    pub fn prefix(&self) -> (r: Option<&String>)
        ensures
            match r {
                Some(p) => self@ == Some(p@),
                None => self@ is None,
            },
    {
        if self.combo {
            Some(&self.key)
        } else {
            None
        }
    }

    /// Returns to idle and hands out the prefix that was committed.
    fn take_prefix(&mut self) -> (r: String)
        requires
            old(self)@ is Some,
        ensures
            old(self)@ == Some(r@),
            final(self)@ is None,
    {
        let mut prefix = String::new();
        std::mem::swap(&mut self.key, &mut prefix);
        self.combo = false;
        prefix
    }
}

/// True when a binding with `scope` may be used while `window` has focus:
/// the binding is global, the focused application is unknown, or it is
/// listed.
pub open spec fn scope_accepts(window: Seq<char>, scope: Seq<Seq<char>>) -> bool {
    window.len() == 0 || scope.len() == 0 || scope.contains(window)
}

/// True when `k` has exactly one step and it equals `enc`.
pub open spec fn completes(k: SodKatKeyView, enc: Seq<char>) -> bool {
    steps(k.key).len() == 1 && k.key == enc
}

/// True when `k` has more than one step and the first equals `enc`.
pub open spec fn begins(k: SodKatKeyView, enc: Seq<char>) -> bool {
    steps(k.key).len() > 1 && steps(k.key)[0] == enc
}

/// True when `k` takes part in resolving `enc` from the idle state.
pub open spec fn eligible(k: SodKatKeyView, enc: Seq<char>, window: Seq<char>) -> bool {
    scope_accepts(window, k.scope) && (completes(k, enc) || begins(k, enc))
}

/// The least index at or after `from` whose binding takes part in
/// resolving `enc` from the idle state.
pub open spec fn first_eligible_from(
    table: Seq<SodKatKeyView>,
    enc: Seq<char>,
    window: Seq<char>,
    from: int,
) -> Option<int>
    decreases table.len() - from,
{
    if from >= table.len() {
        None
    } else if eligible(table[from], enc, window) {
        Some(from)
    } else {
        first_eligible_from(table, enc, window, from + 1)
    }
}

/// The index of the first binding that takes part in resolving `enc` from
/// the idle state.
pub open spec fn first_eligible(
    table: Seq<SodKatKeyView>,
    enc: Seq<char>,
    window: Seq<char>,
) -> Option<int> {
    first_eligible_from(table, enc, window, 0)
}

/// The least index at or after `from` whose whole pattern is `candidate`.
pub open spec fn first_with_pattern_from(
    table: Seq<SodKatKeyView>,
    candidate: Seq<char>,
    from: int,
) -> Option<int>
    decreases table.len() - from,
{
    if from >= table.len() {
        None
    } else if table[from].key == candidate {
        Some(from)
    } else {
        first_with_pattern_from(table, candidate, from + 1)
    }
}

/// The index of the first binding whose whole pattern is `candidate`.
pub open spec fn first_with_pattern(table: Seq<SodKatKeyView>, candidate: Seq<char>) -> Option<
    int,
> {
    first_with_pattern_from(table, candidate, 0)
}

/// The configuration used when none could be loaded: one global binding.
pub open spec fn default_setting() -> SettingView {
    SettingView {
        app_name: "SodKat"@,
        version: "1.0.0"@,
        keys: seq![
            SodKatKeyView { key: "C-S-A s"@, scope: Seq::empty(), function: "do_something"@ },
        ],
    }
}

/// What the armed resolver compares with whole patterns.
pub open spec fn chord_candidate(prefix: Seq<char>, enc: Seq<char>) -> Seq<char> {
    prefix + seq![DELIMITER] + enc
}

/// The outcome of resolving one event.
pub struct Resolution {
    /// Index of the matching binding in the table, if any.
    pub hit: Option<int>,
    /// The chord state afterwards.
    pub state: Option<Seq<char>>,
}

/// One step of the resolver: from the table, the chord state, the event's
/// encoding and the focused application to the match and the next state.
pub open spec fn resolve(
    table: Seq<SodKatKeyView>,
    state: Option<Seq<char>>,
    enc: Seq<char>,
    window: Seq<char>,
) -> Resolution {
    match state {
        Some(prefix) => Resolution {
            hit: first_with_pattern(table, chord_candidate(prefix, enc)),
            state: None,
        },
        None => match first_eligible(table, enc, window) {
            None => Resolution { hit: None, state: None },
            Some(i) => if completes(table[i], enc) {
                Resolution { hit: Some(i), state: None }
            } else {
                Resolution { hit: None, state: Some(enc) }
            },
        },
    }
}

/// From `from` on, the first eligible binding is eligible and nothing
/// between `from` and it is.
pub proof fn lemma_first_eligible_from(
    table: Seq<SodKatKeyView>,
    enc: Seq<char>,
    window: Seq<char>,
    from: int,
)
    requires
        0 <= from,
    ensures
        match first_eligible_from(table, enc, window, from) {
            Some(i) => from <= i < table.len() && eligible(table[i], enc, window) && forall|j: int|
                from <= j < i ==> !eligible(#[trigger] table[j], enc, window),
            None => forall|j: int|
                from <= j < table.len() ==> !eligible(#[trigger] table[j], enc, window),
        },
    decreases table.len() - from,
{
    if from < table.len() && !eligible(table[from], enc, window) {
        lemma_first_eligible_from(table, enc, window, from + 1);
    }
}

/// The first eligible binding is eligible and nothing before it is.
pub proof fn lemma_first_eligible(table: Seq<SodKatKeyView>, enc: Seq<char>, window: Seq<char>)
    ensures
        match first_eligible(table, enc, window) {
            Some(i) => 0 <= i < table.len() && eligible(table[i], enc, window) && forall|j: int|
                0 <= j < i ==> !eligible(#[trigger] table[j], enc, window),
            None => forall|j: int|
                0 <= j < table.len() ==> !eligible(#[trigger] table[j], enc, window),
        },
{
    lemma_first_eligible_from(table, enc, window, 0);
}

/// From `from` on, the first binding with a pattern has it and nothing
/// between `from` and it does.
pub proof fn lemma_first_with_pattern_from(
    table: Seq<SodKatKeyView>,
    candidate: Seq<char>,
    from: int,
)
    requires
        0 <= from,
    ensures
        match first_with_pattern_from(table, candidate, from) {
            Some(i) => from <= i < table.len() && table[i].key == candidate && forall|j: int|
                from <= j < i ==> (#[trigger] table[j]).key != candidate,
            None => forall|j: int|
                from <= j < table.len() ==> (#[trigger] table[j]).key != candidate,
        },
    decreases table.len() - from,
{
    if from < table.len() && table[from].key != candidate {
        lemma_first_with_pattern_from(table, candidate, from + 1);
    }
}

/// The first binding with a pattern has it and nothing before it does.
pub proof fn lemma_first_with_pattern(table: Seq<SodKatKeyView>, candidate: Seq<char>)
    ensures
        match first_with_pattern(table, candidate) {
            Some(i) => 0 <= i < table.len() && table[i].key == candidate && forall|j: int|
                0 <= j < i ==> (#[trigger] table[j]).key != candidate,
            None => forall|j: int| 0 <= j < table.len() ==> (#[trigger] table[j]).key != candidate,
        },
{
    lemma_first_with_pattern_from(table, candidate, 0);
}

/// A scan that found nothing eligible before `from` may resume there.
proof fn lemma_first_eligible_resume(
    table: Seq<SodKatKeyView>,
    enc: Seq<char>,
    window: Seq<char>,
    from: int,
)
    requires
        0 <= from <= table.len(),
        forall|j: int| 0 <= j < from ==> !eligible(#[trigger] table[j], enc, window),
    ensures
        first_eligible(table, enc, window) == first_eligible_from(table, enc, window, from),
    decreases from,
{
    if from > 0 {
        lemma_first_eligible_resume(table, enc, window, from - 1);
    }
}

/// A scan that found no binding with the pattern before `from` may resume
/// there.
proof fn lemma_first_with_pattern_resume(
    table: Seq<SodKatKeyView>,
    candidate: Seq<char>,
    from: int,
)
    requires
        0 <= from <= table.len(),
        forall|j: int| 0 <= j < from ==> (#[trigger] table[j]).key != candidate,
    ensures
        first_with_pattern(table, candidate) == first_with_pattern_from(table, candidate, from),
    decreases from,
{
    if from > 0 {
        lemma_first_with_pattern_resume(table, candidate, from - 1);
    }
}

/// The chord state after a resolution: armed only when the resolver was
/// idle and a binding of more than one step, accepted for the focused
/// application, begins with the event; the event then yields nothing and
/// its encoding is the committed prefix. Whenever a binding is returned the
/// resolver is idle.
pub proof fn armed_only_by_a_first_step(
    table: Seq<SodKatKeyView>,
    state: Option<Seq<char>>,
    enc: Seq<char>,
    window: Seq<char>,
)
    ensures
        resolve(table, state, enc, window).hit is Some ==> resolve(table, state, enc, window).state
            is None,
        resolve(table, state, enc, window).hit matches Some(i) ==> 0 <= i < table.len(),
        resolve(table, state, enc, window).state is Some ==> {
            &&& state is None
            &&& resolve(table, state, enc, window).state == Some(enc)
            &&& exists|i: int|
                0 <= i < table.len() && begins(#[trigger] table[i], enc) && scope_accepts(
                    window,
                    table[i].scope,
                )
        },
{
    lemma_first_eligible(table, enc, window);
    if let Some(prefix) = state {
        lemma_first_with_pattern(table, chord_candidate(prefix, enc));
    }
}

/// Resolving the same encoding twice from the idle state gives the same
/// outcome both times, provided the first resolution armed no chord.
pub proof fn idle_resolution_repeats(
    table: Seq<SodKatKeyView>,
    enc: Seq<char>,
    window: Seq<char>,
)
    requires
        resolve(table, None, enc, window).state is None,
    ensures
        resolve(table, resolve(table, None, enc, window).state, enc, window) == resolve(
            table,
            None,
            enc,
            window,
        ),
{
}

/// A chord completes: when the binding at `i` has the two steps `first` and
/// `second` and is the first to take part in resolving `first`, then
/// resolving `first` yields nothing and arms the chord, and resolving
/// `second` next, whatever has focus by then, yields the first binding
/// with the pattern of `i` and leaves the resolver idle.
pub proof fn chord_round_trip(
    table: Seq<SodKatKeyView>,
    i: int,
    first: Seq<char>,
    second: Seq<char>,
    window: Seq<char>,
    next_window: Seq<char>,
)
    requires
        0 <= i < table.len(),
        steps(table[i].key) == seq![first, second],
        first_eligible(table, first, window) == Some(i),
    ensures
        resolve(table, None, first, window) == (Resolution { hit: None, state: Some(first) }),
        resolve(table, Some(first), second, next_window).state is None,
        resolve(table, Some(first), second, next_window).hit matches Some(j) && 0 <= j <= i
            && table[j].key == table[i].key,
        (forall|j: int| 0 <= j < i ==> (#[trigger] table[j]).key != table[i].key) ==> resolve(
            table,
            Some(first),
            second,
            next_window,
        ).hit == Some(i),
{
    lemma_two_steps(table[i].key);
    lemma_first_with_pattern(table, chord_candidate(first, second));
}

/// A chord decays: whatever event follows the arming one, the resolver is
/// idle afterwards; the event yields nothing unless it completes a pattern,
/// and the event after it is resolved as from the idle state.
pub proof fn chord_decays(
    table: Seq<SodKatKeyView>,
    prefix: Seq<char>,
    enc: Seq<char>,
    window: Seq<char>,
    next: Seq<char>,
    next_window: Seq<char>,
)
    ensures
        resolve(table, Some(prefix), enc, window).state is None,
        (forall|j: int|
            0 <= j < table.len() ==> (#[trigger] table[j]).key != chord_candidate(prefix, enc))
            ==> resolve(table, Some(prefix), enc, window).hit is None,
        resolve(table, resolve(table, Some(prefix), enc, window).state, next, next_window)
            == resolve(table, None, next, next_window),
{
    lemma_first_with_pattern(table, chord_candidate(prefix, enc));
}

/// Scope filtering: a binding limited to one application is accepted for
/// that application and when the focused application is unknown, and for no
/// other; a binding with an empty scope is accepted always. For a table of
/// one single-step binding, acceptance decides whether its pattern resolves.
pub proof fn scope_decides(k: SodKatKeyView, name: Seq<char>, window: Seq<char>)
    ensures
        k.scope == seq![name] ==> (scope_accepts(window, k.scope) <==> window.len() == 0 || window
            == name),
        k.scope.len() == 0 ==> scope_accepts(window, k.scope),
        steps(k.key).len() == 1 ==> resolve(seq![k], None, k.key, window).hit == if scope_accepts(
            window,
            k.scope,
        ) {
            Some(0int)
        } else {
            None
        },
{
    if k.scope == seq![name] {
        if window == name {
            assert(k.scope[0] == window);
        }
    }
    lemma_first_eligible(seq![k], k.key, window);
    lemma_first_step(k.key);
}

/// Table order decides: of two bindings with the same single-step pattern,
/// the earlier of which is accepted for the focused application, the later
/// one is never the result of resolving that pattern, and the earlier one
/// is the result when no binding before it takes part.
pub proof fn earlier_binding_wins(table: Seq<SodKatKeyView>, i: int, j: int, window: Seq<char>)
    requires
        0 <= i < j < table.len(),
        table[i].key == table[j].key,
        steps(table[i].key).len() == 1,
        scope_accepts(window, table[i].scope),
    ensures
        resolve(table, None, table[i].key, window).hit != Some(j),
        (forall|h: int| 0 <= h < i ==> !eligible(#[trigger] table[h], table[i].key, window))
            ==> resolve(table, None, table[i].key, window) == (Resolution {
            hit: Some(i),
            state: None,
        }),
{
    lemma_first_eligible(table, table[i].key, window);
}

impl Default for Setting {
    /// The configuration written on first run: one global binding.
    fn default() -> (r: Self)
        ensures
            r@ == default_setting(),
    {
        let mut keys: Vec<SodKatKey> = Vec::new();
        let only = SodKatKey {
            key: "C-S-A s".to_owned(),
            scope: Vec::new(),
            function: "do_something".to_owned(),
        };
        assert(only@.scope == Seq::<Seq<char>>::empty());
        keys.push(only);
        let r = Setting { app_name: "SodKat".to_owned(), version: "1.0.0".to_owned(), keys };
        assert(r@.keys == default_setting().keys);
        r
    }
}

impl Setting {
    /// The configuration to run with: what was loaded, or the default when
    /// nothing could be loaded.
    pub fn new(loaded: Option<Setting>) -> (r: Self)
        ensures
            match loaded {
                Some(s) => r == s,
                None => r@ == default_setting(),
            },
    {
        match loaded {
            Some(s) => s,
            None => Setting::default(),
        }
    }

    /// Decides whether a binding with `scope` may be used while
    /// `window_name` has focus.
    pub fn filter_scope(&self, window_name: &String, scope: &Vec<String>) -> (r: bool)
        ensures
            r == scope_accepts(window_name@, views(scope@)),
    {
        if window_name.as_str().is_empty() || scope.len() == 0 {
            return true;
        }
        let ghost names = views(scope@);
        let mut i: usize = 0;
        while i < scope.len()
            invariant
                i <= scope.len(),
                names == views(scope@),
                forall|j: int| 0 <= j < i ==> names[j] != window_name@,
            decreases scope.len() - i,
        {
            if scope[i] == *window_name {
                assert(names[i as int] == window_name@);
                return true;
            }
            i += 1;
        }
        false
    }

    /// Splits a pattern into its steps.
    pub fn split_code<'a>(&self, input: &'a str) -> (r: Vec<&'a str>)
        ensures
            str_views(r@) == steps(input@),
            r.len() >= 1,
    {
        split_steps(input)
    }

    /// Resolves an event against the table. `combo` is the chord state before
    /// and after; `window_name` names the focused application and is empty
    /// when it is unknown.
    pub fn find(&self, combo: &mut ComboState, ev: &GlobalSodKatEvent, window_name: String) -> (r:
        Option<&SodKatKey>)
        ensures
            final(combo)@ == resolve(self@.keys, old(combo)@, ev@.token(), window_name@).state,
            r == match resolve(self@.keys, old(combo)@, ev@.token(), window_name@).hit {
                Some(i) => Some(&self.keys@[i]),
                None => None,
            },
    {
        let keys: String = ev.tokenize();
        self.find_code(combo, keys.as_str(), &window_name)
    }

    /// The first binding whose whole pattern is `candidate`.
    fn find_pattern(&self, candidate: &String) -> (r: Option<&SodKatKey>)
        ensures
            r == match first_with_pattern(self@.keys, candidate@) {
                Some(i) => Some(&self.keys@[i]),
                None => None,
            },
    {
        let ghost table = self@.keys;
        let mut i: usize = 0;
        while i < self.keys.len()
            invariant
                i <= self.keys.len(),
                table == self@.keys,
                forall|j: int| 0 <= j < i ==> (#[trigger] table[j]).key != candidate@,
            decreases self.keys.len() - i,
        {
            proof {
                lemma_first_with_pattern_resume(table, candidate@, i as int);
            }
            if self.keys[i].key == *candidate {
                return Some(&self.keys[i]);
            }
            i += 1;
        }
        proof {
            lemma_first_with_pattern_resume(table, candidate@, i as int);
        }
        None
    }

    /// Resolves an event, given by its canonical encoding `keys`, against
    /// the table. `combo` is the chord state before and after.
    pub fn find_code(&self, combo: &mut ComboState, keys: &str, window_name: &String) -> (r:
        Option<&SodKatKey>)
        ensures
            final(combo)@ == resolve(self@.keys, old(combo)@, keys@, window_name@).state,
            r == match resolve(self@.keys, old(combo)@, keys@, window_name@).hit {
                Some(i) => Some(&self.keys@[i]),
                None => None,
            },
    {
        let ghost table = self@.keys;
        if combo.is_armed() {
            let mut candidate: String = combo.take_prefix();
            let ghost prefix = candidate@;
            push_char(&mut candidate, DELIMITER);
            let tail: Vec<char> = chars_of(keys);
            push_chars(&mut candidate, &tail);
            assert(candidate@ == chord_candidate(prefix, keys@));
            return self.find_pattern(&candidate);
        }
        let mut i: usize = 0;
        while i < self.keys.len()
            invariant
                i <= self.keys.len(),
                table == self@.keys,
                combo@ is None,
                old(combo)@ is None,
                forall|j: int| 0 <= j < i ==> !eligible(#[trigger] table[j], keys@, window_name@),
            decreases self.keys.len() - i,
        {
            proof {
                lemma_first_eligible_resume(table, keys@, window_name@, i as int);
            }
            let k: &SodKatKey = &self.keys[i];
            if self.filter_scope(window_name, &k.scope) {
                let split_key: Vec<&str> = self.split_code(k.key.as_str());
                if split_key.len() > 1 {
                    if str_eq(split_key[0], keys) {
                        combo.set(keys.to_owned());
                        return None;
                    }
                } else if str_eq(k.key.as_str(), keys) {
                    return Some(k);
                }
            }
            i += 1;
        }
        proof {
            lemma_first_eligible_resume(table, keys@, window_name@, i as int);
        }
        None
    }
}

} // verus!
