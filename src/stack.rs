//! The branch stack: an ordered list of branch names, top first, that lives
//! in a file between commands.
//!
//! Reading and writing the file is left to the caller; the stack is built
//! from the file's text and hands back the text to write.
use std::collections::VecDeque;
use std::path::PathBuf;

use vstd::prelude::*;
use vstd::std_specs::iter::IteratorSpec;

use crate::errors::BranchStackError;
use crate::stack_file::{entries_of, parse_entries, render, render_entries};

verus! {

/// std's owned file system path. The stack only keeps it for its caller.
#[verifier::external_type_specification]
#[verifier::external_body]
pub struct ExPathBuf(std::path::PathBuf);

/// `s` with `x` on top.
pub open spec fn pushed(s: Seq<Seq<char>>, x: Seq<char>) -> Seq<Seq<char>> {
    seq![x] + s
}

/// What popping `s` returns, and what it leaves.
pub open spec fn popped(s: Seq<Seq<char>>) -> (Option<Seq<char>>, Seq<Seq<char>>) {
    if s.len() == 0 {
        (None, s)
    } else {
        (Some(s[0]), s.drop_first())
    }
}

/// `s` after its bottom `n + 1` entries have moved, in their order, to the
/// top.
pub open spec fn rotated_up(s: Seq<Seq<char>>, n: nat) -> Seq<Seq<char>>
    recommends
        n < s.len(),
{
    let cut = s.len() - (n + 1);
    s.subrange(cut, s.len() as int) + s.take(cut)
}

/// `s` after its top `n` entries have moved, in their order, to the bottom.
pub open spec fn rotated_down(s: Seq<Seq<char>>, n: nat) -> Seq<Seq<char>>
    recommends
        n < s.len(),
{
    s.subrange(n as int, s.len() as int) + s.take(n as int)
}

/// `s` with its bottom entry moved to the top.
pub open spec fn bottom_to_top(s: Seq<Seq<char>>) -> Seq<Seq<char>> {
    seq![s.last()] + s.drop_last()
}

/// `s` with its top entry moved to the bottom.
pub open spec fn top_to_bottom(s: Seq<Seq<char>>) -> Seq<Seq<char>> {
    s.drop_first().push(s[0])
}

/// `s` after `k` moves of its bottom entry to the top.
pub open spec fn bottom_to_top_times(s: Seq<Seq<char>>, k: nat) -> Seq<Seq<char>>
    decreases k,
{
    if k == 0 {
        s
    } else {
        bottom_to_top(bottom_to_top_times(s, (k - 1) as nat))
    }
}

/// `s` after `k` moves of its top entry to the bottom.
pub open spec fn top_to_bottom_times(s: Seq<Seq<char>>, k: nat) -> Seq<Seq<char>>
    decreases k,
{
    if k == 0 {
        s
    } else {
        top_to_bottom(top_to_bottom_times(s, (k - 1) as nat))
    }
}

proof fn lemma_bottom_to_top_times(s: Seq<Seq<char>>, k: nat)
    requires
        k <= s.len(),
    ensures
        bottom_to_top_times(s, k) == s.subrange(s.len() - k, s.len() as int) + s.take(
            s.len() - k,
        ),
    decreases k,
{
    if k == 0 {
        assert(s.subrange(s.len() as int, s.len() as int) + s.take(s.len() as int) =~= s);
    } else {
        lemma_bottom_to_top_times(s, (k - 1) as nat);
        assert(bottom_to_top(
            s.subrange(s.len() - (k - 1), s.len() as int) + s.take(s.len() - (k - 1)),
        ) =~= s.subrange(s.len() - k, s.len() as int) + s.take(s.len() - k));
    }
}

proof fn lemma_top_to_bottom_times(s: Seq<Seq<char>>, k: nat)
    requires
        k <= s.len(),
    ensures
        top_to_bottom_times(s, k) == s.subrange(k as int, s.len() as int) + s.take(k as int),
    decreases k,
{
    if k == 0 {
        assert(s.subrange(0, s.len() as int) + s.take(0) =~= s);
    } else {
        lemma_top_to_bottom_times(s, (k - 1) as nat);
        assert(top_to_bottom(s.subrange(k - 1, s.len() as int) + s.take(k - 1)) =~= s.subrange(
            k as int,
            s.len() as int,
        ) + s.take(k as int));
    }
}

/// Rotating up by `n` is moving the bottom entry to the top `n + 1` times.
pub proof fn lemma_rotated_up_is_repeated_moves(s: Seq<Seq<char>>, n: nat)
    requires
        n < s.len(),
    ensures
        rotated_up(s, n) == bottom_to_top_times(s, n + 1),
{
    lemma_bottom_to_top_times(s, n + 1);
}

/// Rotating down by `n` is moving the top entry to the bottom `n` times.
pub proof fn lemma_rotated_down_is_repeated_moves(s: Seq<Seq<char>>, n: nat)
    requires
        n < s.len(),
    ensures
        rotated_down(s, n) == top_to_bottom_times(s, n),
{
    lemma_top_to_bottom_times(s, n);
}

/// `s` after `xs` have been pushed on it, first to last.
pub open spec fn push_all(s: Seq<Seq<char>>, xs: Seq<Seq<char>>) -> Seq<Seq<char>>
    decreases xs.len(),
{
    if xs.len() == 0 {
        s
    } else {
        pushed(push_all(s, xs.drop_last()), xs.last())
    }
}

/// What `n` pops of `s` return, in order, and what they leave.
pub open spec fn pop_times(s: Seq<Seq<char>>, n: nat) -> (Seq<Seq<char>>, Seq<Seq<char>>)
    decreases n,
{
    if n == 0 {
        (Seq::empty(), s)
    } else {
        let (top, rest) = popped(s);
        let (more, left) = pop_times(rest, (n - 1) as nat);
        match top {
            Some(x) => (seq![x] + more, left),
            None => (more, left),
        }
    }
}

/// Last in, first out: after pushing `xs` on any stack, as many pops return
/// `xs` in reverse order and leave the stack as it was.
pub proof fn lemma_last_in_first_out(s: Seq<Seq<char>>, xs: Seq<Seq<char>>)
    ensures
        pop_times(push_all(s, xs), xs.len()) == (xs.reverse(), s),
    decreases xs.len(),
{
    if xs.len() > 0 {
        let init = xs.drop_last();
        lemma_last_in_first_out(s, init);
        assert(pushed(push_all(s, init), xs.last()).drop_first() =~= push_all(s, init));
        assert(seq![xs.last()] + init.reverse() =~= xs.reverse());
    }
}

/// A stack of branch names that is kept in a file.
pub struct FileStack {
    filename: PathBuf,
    stack: VecDeque<String>,
}

impl View for FileStack {
    type V = Seq<Seq<char>>;

    /// The entries, top first.
    closed spec fn view(&self) -> Seq<Seq<char>> {
        self.stack.deep_view()
    }
}

impl FileStack {
    /// The file that the stack is kept in.
    pub closed spec fn file(&self) -> PathBuf {
        self.filename
    }

    /// The stack kept in `filename`, given what the file holds: `None` where
    /// there is no such file, which holds an empty stack.
    pub fn new(filename: PathBuf, contents: Option<String>) -> (r: FileStack)
        ensures
            r.file() == filename,
            r@ == match contents {
                Some(text) => entries_of(text@),
                None => Seq::empty(),
            },
    {
        let stack = match contents {
            Some(text) => parse_entries(text.as_str()),
            None => VecDeque::new(),
        };
        FileStack { filename, stack }
    }

    /// The file that the stack is kept in.
    pub fn filename(&self) -> (r: &PathBuf)
        ensures
            *r == self.file(),
    {
        &self.filename
    }

    /// The text to write to the file so that it holds this stack.
    pub fn contents(&self) -> (r: String)
        ensures
            r@ == render(self@),
    {
        render_entries(&self.stack)
    }

    /// The number of entries.
    pub fn len(&self) -> (r: usize)
        ensures
            r == self@.len(),
    {
        self.stack.len()
    }

    /// Puts `item` on top.
    pub fn push(&mut self, item: String)
        ensures
            final(self)@ == pushed(old(self)@, item@),
            final(self).file() == old(self).file(),
    {
        self.stack.push_front(item);
        assert(self.stack.deep_view() =~= pushed(old(self).stack.deep_view(), item@));
    }

    /// Takes the top entry off and returns it; `None` on an empty stack.
    pub fn pop(&mut self) -> (r: Option<String>)
        ensures
            (r.deep_view(), final(self)@) == popped(old(self)@),
            final(self).file() == old(self).file(),
    {
        let r = self.stack.pop_front();
        assert(self.stack.deep_view() =~= popped(old(self).stack.deep_view()).1);
        r
    }

    /// A copy of the top entry; `None` on an empty stack.
    pub fn peek(&self) -> (r: Option<String>)
        ensures
            r.deep_view() == popped(self@).0,
    {
        if self.stack.len() == 0 {
            None
        } else {
            Some(self.stack[0].clone())
        }
    }

    /// Moves the bottom `n + 1` entries, in their order, to the top, as
    /// `pushd +n` does: the entry `n` places above the bottom comes on top.
    /// A stack of fewer than `n + 1` entries is left as it is, with
    /// `NoStackEntry`.
    pub fn rotate_up(&mut self, n: usize) -> (r: Result<(), BranchStackError>)
        ensures
            final(self).file() == old(self).file(),
            n < old(self)@.len() ==> r is Ok && final(self)@ == rotated_up(old(self)@, n as nat),
            n >= old(self)@.len() ==> r == Err::<(), BranchStackError>(
                BranchStackError::NoStackEntry,
            ) && final(self)@ == old(self)@,
    {
        let len = self.stack.len();
        if n < len {
            let ghost s = self.stack@;
            let mut moved: usize = 0;
            while moved <= n
                invariant
                    n < len,
                    len == s.len(),
                    moved <= n + 1,
                    self.filename == old(self).filename,
                    self.stack@ == s.subrange(len - moved, len as int) + s.take(len - moved),
                decreases n + 1 - moved,
            {
                if let Some(item) = self.stack.pop_back() {
                    self.stack.push_front(item);
                }
                assert(self.stack@ =~= s.subrange(len - (moved + 1), len as int) + s.take(
                    len - (moved + 1),
                ));
                moved = moved + 1;
            }
            assert(self.stack.deep_view() =~= rotated_up(old(self).stack.deep_view(), n as nat));
            Ok(())
        } else {
            Err(BranchStackError::NoStackEntry)
        }
    }

    /// Moves the top `n` entries, in their order, to the bottom, as
    /// `pushd -n` does. A stack of `n` entries or fewer is left as it is,
    /// with `NoStackEntry`.
    pub fn rotate_down(&mut self, n: usize) -> (r: Result<(), BranchStackError>)
        ensures
            final(self).file() == old(self).file(),
            n < old(self)@.len() ==> r is Ok && final(self)@ == rotated_down(old(self)@, n as nat),
            n >= old(self)@.len() ==> r == Err::<(), BranchStackError>(
                BranchStackError::NoStackEntry,
            ) && final(self)@ == old(self)@,
    {
        let len = self.stack.len();
        if n < len {
            let ghost s = self.stack@;
            let mut moved: usize = 0;
            while moved < n
                invariant
                    n < len,
                    len == s.len(),
                    moved <= n,
                    self.filename == old(self).filename,
                    self.stack@ == s.subrange(moved as int, len as int) + s.take(moved as int),
                decreases n - moved,
            {
                if let Some(item) = self.stack.pop_front() {
                    self.stack.push_back(item);
                }
                assert(self.stack@ =~= s.subrange(moved + 1, len as int) + s.take(moved + 1));
                moved = moved + 1;
            }
            assert(self.stack.deep_view() =~= rotated_down(old(self).stack.deep_view(), n as nat));
            Ok(())
        } else {
            Err(BranchStackError::NoStackEntry)
        }
    }

    /// The entries from the top down, without taking them off.
    pub fn iter(&self) -> (r: std::collections::vec_deque::Iter<'_, String>)
        ensures
            r.remaining().len() == self@.len(),
            forall|i: int| 0 <= i < self@.len() ==> (#[trigger] r.remaining()[i])@ == self@[i],
    {
        self.stack.iter()
    }
}

} // verus!
