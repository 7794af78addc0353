//! The grammar of binding patterns.
//!
//! A pattern is a sequence of steps separated by one space. A step is a key
//! name, optionally preceded by a modifier prefix and one space. A modifier
//! prefix is a run of the codes `A`, `C`, `M`, `S` joined by `-`. Key names
//! are lowercase, so a leading token made of modifier codes can only be a
//! prefix: `"C s"` is one step, `"c s"` is two.

use vstd::prelude::*;
use vstd::string::StrSliceExecFns;
use crate::text::{chars_of, join, str_views};

verus! {

/// Separates the steps of a pattern, and a modifier prefix from its key.
pub const DELIMITER: char = ' ';

/// Separates the codes inside a modifier prefix.
pub const CODE_SEPARATOR: char = '-';

/// True for the four single-letter modifier codes.
pub open spec fn is_modifier_code(c: char) -> bool {
    c == 'A' || c == 'C' || c == 'M' || c == 'S'
}

/// True when `t` is one or more modifier codes joined by `-`.
pub open spec fn is_modifier_prefix(t: Seq<char>) -> bool {
    &&& t.len() % 2 == 1
    &&& forall|i: int|
        0 <= i < t.len() ==> if i % 2 == 0 {
            is_modifier_code(#[trigger] t[i])
        } else {
            t[i] == CODE_SEPARATOR
        }
}

/// Index of the first delimiter of `p` at or after `from`; `p.len()` when
/// there is none.
pub open spec fn token_end(p: Seq<char>, from: int) -> int
    decreases p.len() - from,
{
    if from >= p.len() {
        p.len() as int
    } else if p[from] == DELIMITER {
        from
    } else {
        token_end(p, from + 1)
    }
}

/// Index just past the step of `p` that starts at `from`: past the key, and
/// past the modifier prefix before it when there is one.
pub open spec fn step_end(p: Seq<char>, from: int) -> int {
    let t = token_end(p, from);
    if t < p.len() && is_modifier_prefix(p.subrange(from, t)) {
        token_end(p, t + 1)
    } else {
        t
    }
}

/// The steps of `p` from index `from` on.
pub open spec fn steps_from(p: Seq<char>, from: int) -> Seq<Seq<char>>
    decreases p.len() - from,
{
    let e = step_end(p, from);
    if e < from || e >= p.len() {
        seq![p.subrange(from, p.len() as int)]
    } else {
        seq![p.subrange(from, e)] + steps_from(p, e + 1)
    }
}

/// The steps of a pattern, in order. Every pattern has at least one; the
/// empty pattern has one empty step.
pub open spec fn steps(p: Seq<char>) -> Seq<Seq<char>> {
    steps_from(p, 0)
}

/// `token_end` stays inside the pattern, stops on a delimiter, and skips none.
pub proof fn lemma_token_end(p: Seq<char>, from: int)
    requires
        0 <= from <= p.len(),
    ensures
        from <= token_end(p, from) <= p.len(),
        token_end(p, from) < p.len() ==> p[token_end(p, from)] == DELIMITER,
        forall|i: int| from <= i < token_end(p, from) ==> p[i] != DELIMITER,
    decreases p.len() - from,
{
    if from < p.len() && p[from] != DELIMITER {
        lemma_token_end(p, from + 1);
    }
}

/// A step ends inside the pattern, at its end or on a delimiter.
pub proof fn lemma_step_end(p: Seq<char>, from: int)
    requires
        0 <= from <= p.len(),
    ensures
        from <= step_end(p, from) <= p.len(),
        step_end(p, from) < p.len() ==> p[step_end(p, from)] == DELIMITER,
{
    lemma_token_end(p, from);
    let t = token_end(p, from);
    if t < p.len() {
        lemma_token_end(p, t + 1);
    }
}

/// A stretch without a delimiter is one token.
pub proof fn lemma_token_end_is_first_delimiter(p: Seq<char>, from: int, to: int)
    requires
        0 <= from <= to <= p.len(),
        forall|i: int| from <= i < to ==> p[i] != DELIMITER,
        to < p.len() ==> p[to] == DELIMITER,
    ensures
        token_end(p, from) == to,
    decreases to - from,
{
    if from < to {
        lemma_token_end_is_first_delimiter(p, from + 1, to);
    }
}

/// Joining the steps from `from` on gives back the rest of the pattern.
pub proof fn lemma_steps_from_join(p: Seq<char>, from: int)
    requires
        0 <= from <= p.len(),
    ensures
        steps_from(p, from).len() >= 1,
        join(steps_from(p, from), DELIMITER) == p.subrange(from, p.len() as int),
    decreases p.len() - from,
{
    lemma_step_end(p, from);
    let e = step_end(p, from);
    if e < p.len() {
        lemma_steps_from_join(p, e + 1);
        assert(steps_from(p, from).drop_first() == steps_from(p, e + 1));
    }
}

/// Joining the steps of a pattern with the delimiter gives back the pattern.
pub proof fn lemma_steps_join(p: Seq<char>)
    ensures
        steps(p).len() >= 1,
        join(steps(p), DELIMITER) == p,
{
    lemma_steps_from_join(p, 0);
}

/// A pattern with two steps is the first step, the delimiter, the second.
pub proof fn lemma_two_steps(p: Seq<char>)
    requires
        steps(p).len() == 2,
    ensures
        p == steps(p)[0] + seq![DELIMITER] + steps(p)[1],
{
    lemma_steps_join(p);
    assert(join(steps(p).drop_first(), DELIMITER) == steps(p)[1]);
}

/// A pattern with more than one step starts with its first step and the
/// delimiter, and a pattern with one step is that step.
pub proof fn lemma_first_step(p: Seq<char>)
    ensures
        steps(p)[0].len() <= p.len(),
        steps(p)[0] == p.subrange(0, steps(p)[0].len() as int),
        steps(p).len() == 1 <==> steps(p)[0] == p,
        steps(p).len() > 1 ==> steps(p)[0].len() < p.len() && p[steps(p)[0].len() as int]
            == DELIMITER,
{
    lemma_step_end(p, 0);
    let e = step_end(p, 0);
    if e < p.len() {
        lemma_steps_from_join(p, e + 1);
    }
    assert(p.subrange(0, p.len() as int) == p);
}

/// Decides whether `c` is a modifier code.
fn is_code(c: char) -> (r: bool)
    ensures
        r == is_modifier_code(c),
{
    c == 'A' || c == 'C' || c == 'M' || c == 'S'
}

/// Decides whether `p[from..to]` is a modifier prefix.
fn is_prefix_token(p: &Vec<char>, from: usize, to: usize) -> (r: bool)
    requires
        from <= to <= p.len(),
    ensures
        r == is_modifier_prefix(p@.subrange(from as int, to as int)),
{
    let ghost t = p@.subrange(from as int, to as int);
    if (to - from) % 2 != 1 {
        return false;
    }
    let mut i: usize = from;
    while i < to
        invariant
            from <= i <= to <= p.len(),
            t == p@.subrange(from as int, to as int),
            forall|j: int|
                0 <= j < i - from ==> if j % 2 == 0 {
                    is_modifier_code(#[trigger] t[j])
                } else {
                    t[j] == CODE_SEPARATOR
                },
        decreases to - i,
    {
        let c: char = p[i];
        let ok: bool = if (i - from) % 2 == 0 {
            is_code(c)
        } else {
            c == CODE_SEPARATOR
        };
        assert(t[i - from] == c);
        if !ok {
            return false;
        }
        i += 1;
    }
    true
}

/// Finds the first delimiter at or after `from`.
fn find_token_end(p: &Vec<char>, from: usize) -> (r: usize)
    requires
        from <= p.len(),
    ensures
        r == token_end(p@, from as int),
        from <= r <= p.len(),
{
    let mut i: usize = from;
    while i < p.len() && p[i] != DELIMITER
        invariant
            from <= i <= p.len(),
            token_end(p@, i as int) == token_end(p@, from as int),
        decreases p.len() - i,
    {
        i += 1;
    }
    i
}

/// Finds the end of the step that starts at `from`.
fn find_step_end(p: &Vec<char>, from: usize) -> (r: usize)
    requires
        from <= p.len(),
    ensures
        r == step_end(p@, from as int),
        from <= r <= p.len(),
{
    let t: usize = find_token_end(p, from);
    if t < p.len() && is_prefix_token(p, from, t) {
        find_token_end(p, t + 1)
    } else {
        t
    }
}

/// Splits a pattern into its steps.
pub fn split_steps<'a>(input: &'a str) -> (r: Vec<&'a str>)
    ensures
        str_views(r@) == steps(input@),
        r.len() >= 1,
{
    let p: Vec<char> = chars_of(input);
    let mut out: Vec<&'a str> = Vec::new();
    let mut from: usize = 0;
    loop
        invariant_except_break
            steps(p@) == str_views(out@) + steps_from(p@, from as int),
        invariant
            p@ == input@,
            from <= p.len(),
        ensures
            str_views(out@) == steps(p@),
            out.len() >= 1,
        decreases p.len() - from,
    {
        let e: usize = find_step_end(&p, from);
        if e >= p.len() {
            let last: &'a str = input.substring_char(from, p.len());
            out.push(last);
            break;
        }
        let step: &'a str = input.substring_char(from, e);
        out.push(step);
        from = e + 1;
    }
    out
}

} // verus!
