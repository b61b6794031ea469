//! The commands that work on a branch stack, and how the argument of `push`
//! is read: `+N` and `-N` rotate the stack, anything else names a branch.
use vstd::prelude::*;

use crate::stack_file::chars_of;

verus! {

/// Which way a rotation turns the stack.
#[derive(Debug, Clone, Copy, PartialEq, Eq, Structural)]
pub enum RotateDirection {
    /// Brings entries from the bottom to the top (`+N`).
    Up,
    /// Sends entries from the top to the bottom (`-N`).
    Down,
}

/// The commands on a branch stack, with what each needs.
#[derive(Debug)]
pub enum Action {
    /// Save the current branch on the stack and switch to the named one.
    Push(String),
    /// Show the current branch and the stack.
    List,
    /// Take the top of the stack off and switch to it.
    Pop,
    /// Turn the stack, with the current branch on top, and switch to the new
    /// top.
    Rotate(RotateDirection, usize),
}

/// `c` is an ASCII decimal digit.
pub open spec fn is_digit(c: char) -> bool {
    '0' <= c <= '9'
}

/// The number that the decimal digits `d` write.
pub open spec fn digits_value(d: Seq<char>) -> nat
    decreases d.len(),
{
    if d.len() == 0 {
        0
    } else {
        digits_value(d.drop_last()) * 10 + (d.last() as nat - '0' as nat) as nat
    }
}

/// Every character of `d` is a decimal digit.
pub open spec fn all_digits(d: Seq<char>) -> bool {
    forall|i: int| 0 <= i < d.len() ==> is_digit(#[trigger] d[i])
}

/// `s` without the one `+` that may lead it.
pub open spec fn unsigned_part(s: Seq<char>) -> Seq<char> {
    if s.len() > 0 && s[0] == '+' {
        s.drop_first()
    } else {
        s
    }
}

/// What `usize::from_str` makes of `s`: an optional `+`, then one or more
/// ASCII digits whose value fits in a `usize`.
pub open spec fn parsed_usize(s: Seq<char>) -> Option<usize> {
    let d = unsigned_part(s);
    if d.len() > 0 && all_digits(d) && digits_value(d) <= usize::MAX {
        Some(digits_value(d) as usize)
    } else {
        None
    }
}

/// The rotation that a `push` argument asks for: `+` or `-` followed by a
/// count.
pub open spec fn rotation_of(s: Seq<char>) -> Option<(RotateDirection, usize)> {
    if s.len() > 0 && (s[0] == '+' || s[0] == '-') {
        match parsed_usize(s.drop_first()) {
            Some(n) => Some(
                (
                    if s[0] == '+' {
                        RotateDirection::Up
                    } else {
                        RotateDirection::Down
                    },
                    n,
                ),
            ),
            None => None,
        }
    } else {
        None
    }
}

proof fn lemma_digits_value_grows(d: Seq<char>, i: int)
    requires
        0 <= i <= d.len(),
        all_digits(d),
    ensures
        digits_value(d.take(i)) <= digits_value(d),
    decreases d.len() - i,
{
    if i < d.len() {
        let longer = d.take(i + 1);
        assert(longer.drop_last() =~= d.take(i));
        lemma_digits_value_grows(d, i + 1);
    } else {
        assert(d.take(i) =~= d);
    }
}

/// The count written by `chars[from..]`, as `usize::from_str` reads it.
fn parse_count(chars: &Vec<char>, from: usize) -> (r: Option<usize>)
    requires
        from <= chars.len(),
    ensures
        r == parsed_usize(chars@.subrange(from as int, chars.len() as int)),
{
    let ghost s = chars@.subrange(from as int, chars.len() as int);
    let mut start = from;
    if start < chars.len() && chars[start] == '+' {
        start = start + 1;
    }
    let ghost d = chars@.subrange(start as int, chars.len() as int);
    assert(d =~= unsigned_part(s));
    if start == chars.len() {
        return None;
    }
    let mut value: usize = 0;
    let mut i = start;
    while i < chars.len()
        invariant
            from <= start < chars.len(),
            start <= i <= chars.len(),
            s == chars@.subrange(from as int, chars.len() as int),
            d == chars@.subrange(start as int, chars.len() as int),
            d == unsigned_part(s),
            forall|k: int| 0 <= k < i - start ==> is_digit(#[trigger] d[k]),
            value == digits_value(d.take(i - start)),
        decreases chars.len() - i,
    {
        let c = chars[i];
        if !('0' <= c && c <= '9') {
            assert(d[i - start] == c);
            assert(!is_digit(d[i - start]));
            return None;
        }
        let digit = (c as u32 - '0' as u32) as usize;
        assert(d.take(i + 1 - start).drop_last() =~= d.take(i - start));
        assert(d.take(i + 1 - start).last() == c);
        let grown = match value.checked_mul(10) {
            Some(tens) => tens.checked_add(digit),
            None => None,
        };
        match grown {
            Some(v) => {
                value = v;
            },
            None => {
                proof {
                    assert(digits_value(d.take(i + 1 - start)) > usize::MAX);
                    if all_digits(d) {
                        lemma_digits_value_grows(d, i + 1 - start);
                    }
                }
                return None;
            },
        }
        i = i + 1;
    }
    assert(d.take(i - start) =~= d);
    Some(value)
}

/// Reads a rotation from a `push` argument: `+N` turns the stack up and
/// `-N` down, where `N` is what `usize::from_str` reads; anything else is
/// no rotation.
pub fn parse_rotation(input: &str) -> (r: Option<(RotateDirection, usize)>)
    ensures
        r == rotation_of(input@),
{
    let chars = chars_of(input);
    if chars.len() == 0 {
        return None;
    }
    let direction = if chars[0] == '+' {
        RotateDirection::Up
    } else if chars[0] == '-' {
        RotateDirection::Down
    } else {
        return None;
    };
    assert(chars@.subrange(1, chars@.len() as int) =~= input@.drop_first());
    match parse_count(&chars, 1) {
        Some(n) => Some((direction, n)),
        None => None,
    }
}

impl Action {
    /// What `push <argument>` asks for: the rotation it writes, or else a
    /// switch to the branch that it names.
    pub fn from_push_argument(argument: &str) -> (r: Action)
        ensures
            match rotation_of(argument@) {
                Some((direction, n)) => r == Action::Rotate(direction, n),
                None => r matches Action::Push(name) && name@ == argument@,
            },
    {
        match parse_rotation(argument) {
            Some((direction, n)) => Action::Rotate(direction, n),
            None => Action::Push(argument.to_owned()),
        }
    }
}

} // verus!
