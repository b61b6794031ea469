//! The text form of a branch stack: one name per line, top first, each line
//! followed by a newline. Reading splits at newlines and trims each line of
//! surrounding white space.
use std::collections::VecDeque;

use vstd::prelude::*;

verus! {

/// Unicode's `White_Space` property, the set that `char::is_whitespace`
/// and `str::trim` go by.
pub open spec fn is_white_space(c: char) -> bool {
    let u = c as u32;
    ||| 0x09 <= u <= 0x0d
    ||| u == 0x20
    ||| u == 0x85
    ||| u == 0xa0
    ||| u == 0x1680
    ||| 0x2000 <= u <= 0x200a
    ||| u == 0x2028
    ||| u == 0x2029
    ||| u == 0x202f
    ||| u == 0x205f
    ||| u == 0x3000
}

/// `s` without its leading white space.
pub open spec fn trim_start(s: Seq<char>) -> Seq<char>
    decreases s.len(),
{
    if s.len() > 0 && is_white_space(s[0]) {
        trim_start(s.drop_first())
    } else {
        s
    }
}

/// `s` without its trailing white space.
pub open spec fn trim_end(s: Seq<char>) -> Seq<char>
    decreases s.len(),
{
    if s.len() > 0 && is_white_space(s.last()) {
        trim_end(s.drop_last())
    } else {
        s
    }
}

/// `s` without white space at either end.
pub open spec fn trim(s: Seq<char>) -> Seq<char> {
    trim_end(trim_start(s))
}

/// The pieces of `s` between newlines, in order: one more than `s` has
/// newlines.
pub open spec fn split_at_newlines(s: Seq<char>) -> Seq<Seq<char>>
    decreases s.len(),
{
    if s.len() == 0 {
        seq![Seq::empty()]
    } else {
        let pieces = split_at_newlines(s.drop_last());
        if s.last() == '\n' {
            pieces.push(Seq::empty())
        } else {
            pieces.update(pieces.len() - 1, pieces.last().push(s.last()))
        }
    }
}

/// The lines of `s`: the final newline is optional, so an empty last piece
/// is no line.
pub open spec fn lines(s: Seq<char>) -> Seq<Seq<char>> {
    let pieces = split_at_newlines(s);
    if pieces.last().len() == 0 {
        pieces.drop_last()
    } else {
        pieces
    }
}

/// The entries that a stack file holds, top first. A carriage return is
/// white space, so lines that end in `\r\n` read as those that end in `\n`.
pub open spec fn entries_of(text: Seq<char>) -> Seq<Seq<char>> {
    lines(text).map_values(|line: Seq<char>| trim(line))
}

/// The text of a stack file that holds `entries`, top first.
pub open spec fn render(entries: Seq<Seq<char>>) -> Seq<char>
    decreases entries.len(),
{
    if entries.len() == 0 {
        Seq::empty()
    } else {
        render(entries.drop_last()) + entries.last() + seq!['\n']
    }
}

proof fn lemma_split_not_empty(s: Seq<char>)
    ensures
        split_at_newlines(s).len() >= 1,
    decreases s.len(),
{
    if s.len() > 0 {
        lemma_split_not_empty(s.drop_last());
    }
}

/// No character of `s` is a newline.
pub open spec fn has_no_newline(s: Seq<char>) -> bool {
    forall|k: int| 0 <= k < s.len() ==> s[k] != '\n'
}

/// `s` can stand as an entry in a stack file and read back unchanged.
pub open spec fn is_stored_form(s: Seq<char>) -> bool {
    has_no_newline(s) && trim(s) == s
}

proof fn lemma_split_append_line(a: Seq<char>, b: Seq<char>)
    requires
        has_no_newline(b),
    ensures
        split_at_newlines(a + b) == split_at_newlines(a).update(
            split_at_newlines(a).len() - 1,
            split_at_newlines(a).last() + b,
        ),
    decreases b.len(),
{
    lemma_split_not_empty(a);
    let pieces = split_at_newlines(a);
    if b.len() == 0 {
        assert(a + b =~= a);
        assert(pieces.last() + b =~= pieces.last());
        assert(pieces.update(pieces.len() - 1, pieces.last() + b) =~= pieces);
    } else {
        lemma_split_append_line(a, b.drop_last());
        assert((a + b).drop_last() =~= a + b.drop_last());
        assert((a + b).last() == b.last());
        assert((pieces.last() + b.drop_last()).push(b.last()) =~= pieces.last() + b);
        assert(split_at_newlines(a + b) =~= pieces.update(pieces.len() - 1, pieces.last() + b));
    }
}

proof fn lemma_split_render(entries: Seq<Seq<char>>)
    requires
        forall|k: int| 0 <= k < entries.len() ==> has_no_newline(#[trigger] entries[k]),
    ensures
        split_at_newlines(render(entries)) == entries.push(Seq::empty()),
    decreases entries.len(),
{
    if entries.len() == 0 {
        assert(split_at_newlines(render(entries)) =~= entries.push(Seq::empty()));
    } else {
        let init = entries.drop_last();
        let body = render(init) + entries.last();
        lemma_split_render(init);
        lemma_split_append_line(render(init), entries.last());
        assert(Seq::<char>::empty() + entries.last() =~= entries.last());
        assert(split_at_newlines(body) =~= entries);
        assert((body + seq!['\n']).drop_last() =~= body);
        assert(split_at_newlines(render(entries)) =~= entries.push(Seq::empty()));
    }
}

/// Writing entries in their stored form to a stack file and reading it back
/// gives the same entries in the same order.
pub proof fn lemma_render_then_parse(entries: Seq<Seq<char>>)
    requires
        forall|k: int| 0 <= k < entries.len() ==> is_stored_form(#[trigger] entries[k]),
    ensures
        entries_of(render(entries)) == entries,
{
    lemma_split_render(entries);
    assert(lines(render(entries)) =~= entries);
    assert(entries_of(render(entries)) =~= entries);
}

proof fn lemma_split_has_no_newline(s: Seq<char>)
    ensures
        forall|k: int|
            0 <= k < split_at_newlines(s).len() ==> has_no_newline(
                #[trigger] split_at_newlines(s)[k],
            ),
    decreases s.len(),
{
    lemma_split_not_empty(s);
    if s.len() > 0 {
        lemma_split_has_no_newline(s.drop_last());
        lemma_split_not_empty(s.drop_last());
        let pieces = split_at_newlines(s.drop_last());
        if s.last() != '\n' {
            let grown = pieces.last().push(s.last());
            assert(has_no_newline(pieces[pieces.len() - 1]));
            assert(has_no_newline(grown));
        }
    }
}

proof fn lemma_trim_start_shape(s: Seq<char>)
    ensures
        trim_start(s).len() <= s.len(),
        trim_start(s) == s.subrange(s.len() - trim_start(s).len(), s.len() as int),
        trim_start(s).len() == 0 || !is_white_space(trim_start(s)[0]),
    decreases s.len(),
{
    if s.len() > 0 && is_white_space(s[0]) {
        lemma_trim_start_shape(s.drop_first());
        let t = trim_start(s);
        assert(s.drop_first().subrange(
            s.drop_first().len() - t.len(),
            s.drop_first().len() as int,
        ) =~= s.subrange(s.len() - t.len(), s.len() as int));
    } else {
        assert(s.subrange(0, s.len() as int) =~= s);
    }
}

proof fn lemma_trim_end_shape(s: Seq<char>)
    ensures
        trim_end(s).len() <= s.len(),
        trim_end(s) == s.take(trim_end(s).len() as int),
        trim_end(s).len() == 0 || !is_white_space(trim_end(s).last()),
    decreases s.len(),
{
    if s.len() > 0 && is_white_space(s.last()) {
        lemma_trim_end_shape(s.drop_last());
        let t = trim_end(s);
        assert(s.drop_last().take(t.len() as int) =~= s.take(t.len() as int));
    } else {
        assert(s.take(s.len() as int) =~= s);
    }
}

/// Trimming twice trims no more than trimming once.
proof fn lemma_trim_idempotent(s: Seq<char>)
    ensures
        trim(trim(s)) == trim(s),
{
    let y = trim_start(s);
    let z = trim_end(y);
    lemma_trim_start_shape(s);
    lemma_trim_end_shape(y);
    if z.len() == 0 {
        assert(trim_start(z) == z);
        assert(trim_end(z) == z);
    } else {
        assert(z[0] == y[0]);
        assert(trim_start(z) == z);
        assert(trim_end(z) == z);
    }
}

/// A piece of text without newlines keeps none once trimmed.
proof fn lemma_trim_has_no_newline(s: Seq<char>)
    requires
        has_no_newline(s),
    ensures
        has_no_newline(trim(s)),
{
    let y = trim_start(s);
    lemma_trim_start_shape(s);
    lemma_trim_end_shape(y);
    let z = trim_end(y);
    assert forall|k: int| 0 <= k < z.len() implies z[k] != '\n' by {
        assert(z[k] == y[k]);
        assert(y[k] == s[s.len() - y.len() + k]);
    }
}

/// Every entry read from a stack file is in its stored form.
pub proof fn lemma_parsed_entries_are_stored_form(text: Seq<char>)
    ensures
        forall|k: int|
            0 <= k < entries_of(text).len() ==> is_stored_form(#[trigger] entries_of(text)[k]),
{
    lemma_split_has_no_newline(text);
    lemma_split_not_empty(text);
    assert forall|k: int| 0 <= k < entries_of(text).len() implies is_stored_form(
        #[trigger] entries_of(text)[k],
    ) by {
        let line = lines(text)[k];
        assert(line == split_at_newlines(text)[k]);
        lemma_trim_has_no_newline(line);
        lemma_trim_idempotent(line);
    }
}

/// A stack read from a file and written back without change reads back as
/// the same entries in the same order.
pub proof fn lemma_stack_file_round_trip(text: Seq<char>)
    ensures
        entries_of(render(entries_of(text))) == entries_of(text),
{
    lemma_parsed_entries_are_stored_form(text);
    lemma_render_then_parse(entries_of(text));
}

fn is_white_space_char(c: char) -> (r: bool)
    ensures
        r == is_white_space(c),
{
    let u = c as u32;
    (0x09 <= u && u <= 0x0d) || u == 0x20 || u == 0x85 || u == 0xa0 || u == 0x1680 || (0x2000
        <= u && u <= 0x200a) || u == 0x2028 || u == 0x2029 || u == 0x202f || u == 0x205f || u
        == 0x3000
}

/// The bounds of what is left of `chars[lo..hi]` once trimmed.
fn trimmed_range(chars: &Vec<char>, lo: usize, hi: usize) -> (r: (usize, usize))
    requires
        lo <= hi <= chars.len(),
    ensures
        lo <= r.0 <= r.1 <= hi,
        chars@.subrange(r.0 as int, r.1 as int) == trim(chars@.subrange(lo as int, hi as int)),
{
    let mut a = lo;
    while a < hi && is_white_space_char(chars[a])
        invariant
            lo <= a <= hi <= chars.len(),
            trim_start(chars@.subrange(lo as int, hi as int)) == trim_start(
                chars@.subrange(a as int, hi as int),
            ),
        decreases hi - a,
    {
        assert(chars@.subrange(a as int, hi as int).drop_first() =~= chars@.subrange(
            a + 1,
            hi as int,
        ));
        a = a + 1;
    }
    let ghost kept = chars@.subrange(a as int, hi as int);
    assert(trim_start(kept) == kept);
    let mut b = hi;
    while b > a && is_white_space_char(chars[b - 1])
        invariant
            lo <= a <= b <= hi <= chars.len(),
            trim_end(chars@.subrange(a as int, hi as int)) == trim_end(
                chars@.subrange(a as int, b as int),
            ),
        decreases b - a,
    {
        assert(chars@.subrange(a as int, b as int).drop_last() =~= chars@.subrange(
            a as int,
            b - 1,
        ));
        b = b - 1;
    }
    (a, b)
}

/// The characters of `s`, in order.
pub(crate) fn chars_of(s: &str) -> (r: Vec<char>)
    ensures
        r@ == s@,
{
    let mut r: Vec<char> = Vec::new();
    for c in it: s.chars()
        invariant
            r@ == it.seq().take(it.index() as int),
    {
        r.push(c);
    }
    r
}

/// Reads the entries of a stack file, top first: one per line, trimmed of
/// white space at both ends.
pub fn parse_entries(text: &str) -> (r: VecDeque<String>)
    ensures
        r.deep_view() == entries_of(text@),
{
    let chars = chars_of(text);
    let n = chars.len();
    let mut r: VecDeque<String> = VecDeque::new();
    let ghost mut done: Seq<Seq<char>> = Seq::empty();
    let mut start: usize = 0;
    let mut i: usize = 0;
    assert(chars@.take(0) =~= Seq::<char>::empty());
    assert(split_at_newlines(Seq::<char>::empty()) == seq![Seq::<char>::empty()]);
    assert(chars@.subrange(0, 0) =~= Seq::<char>::empty());
    while i < n
        invariant
            n == chars.len(),
            chars@ == text@,
            start <= i <= n,
            split_at_newlines(chars@.take(i as int)) == done.push(
                chars@.subrange(start as int, i as int),
            ),
            r@.len() == done.len(),
            forall|k: int| 0 <= k < done.len() ==> (#[trigger] r@[k])@ == trim(done[k]),
        decreases n - i,
    {
        let ghost prefix = chars@.take(i as int);
        assert(chars@.take(i + 1).drop_last() =~= prefix);
        assert(chars@.take(i + 1).last() == chars@[i as int]);
        if chars[i] == '\n' {
            let (a, b) = trimmed_range(&chars, start, i);
            r.push_back(text.substring_char(a, b).to_owned());
            proof {
                done = done.push(chars@.subrange(start as int, i as int));
            }
            start = i + 1;
            assert(chars@.subrange(start as int, i + 1) =~= Seq::<char>::empty());
        } else {
            assert(chars@.subrange(start as int, i + 1) =~= chars@.subrange(
                start as int,
                i as int,
            ).push(chars@[i as int]));
        }
        i = i + 1;
    }
    assert(chars@.take(n as int) =~= chars@);
    if start < n {
        let (a, b) = trimmed_range(&chars, start, n);
        r.push_back(text.substring_char(a, b).to_owned());
        proof {
            done = done.push(chars@.subrange(start as int, n as int));
        }
    } else {
        assert(done.push(chars@.subrange(start as int, n as int)).drop_last() =~= done);
    }
    assert(r.deep_view() =~= done.map_values(|line: Seq<char>| trim(line)));
    r
}

/// The text of a stack file that holds `entries`, top first.
pub fn render_entries(entries: &VecDeque<String>) -> (r: String)
    ensures
        r@ == render(entries.deep_view()),
{
    let mut r = String::new();
    let n = entries.len();
    let mut i: usize = 0;
    while i < n
        invariant
            n == entries@.len(),
            i <= n,
            r@ == render(entries.deep_view().take(i as int)),
        decreases n - i,
    {
        let ghost before = entries.deep_view().take(i as int);
        assert(entries.deep_view().take(i + 1).drop_last() =~= before);
        r.append(entries[i].as_str());
        r.append("\n");
        proof {
            reveal_strlit("\n");
        }
        assert(r@ =~= render(before) + entries.deep_view()[i as int] + seq!['\n']);
        i = i + 1;
    }
    assert(entries.deep_view().take(n as int) =~= entries.deep_view());
    r
}

} // verus!
