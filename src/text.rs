//! Character-level helpers on strings: collecting characters, cutting
//! substrings by character index, prefix and suffix tests.
use vstd::prelude::*;
use vstd::std_specs::iter::IteratorSpec;
use vstd::string::StrSliceExecFns;
use vstd::string::StringExecFns;
use crate::seqs::{first_index, lemma_first_index};

verus! {

/// The characters of `s`, in order.
pub fn chars_of(s: &str) -> (r: Vec<char>)
    ensures
        r@ == s@,
{
    broadcast use vstd::string::group_string_axioms;

    let mut r: Vec<char> = Vec::new();
    for c in it: s.chars()
        invariant
            r@ == it.seq().take(it.index() as int),
            it.seq() == s@,
    {
        r.push(c);
    }
    r
}


/// The views of a sequence of strings.
pub open spec fn views_of(v: Seq<String>) -> Seq<Seq<char>> {
    v.map_values(|l: String| l@)
}

/// A line feed.
pub open spec fn is_newline(c: char) -> bool {
    c == '\n'
}

/// Position of the first line feed in `s`, or `s.len()` when there is none.
pub open spec fn line_end(s: Seq<char>) -> nat {
    first_index(s, |c: char| is_newline(c))
}

/// A line without the carriage return of a `\r\n` ending.
pub open spec fn strip_cr(l: Seq<char>) -> Seq<char> {
    if l.len() > 0 && l.last() == '\r' {
        l.drop_last()
    } else {
        l
    }
}

/// The lines of a text: split at each `\n`, a `\r` before the `\n` dropped, and
/// no empty line after a final `\n`.
pub open spec fn split_lines(s: Seq<char>) -> Seq<Seq<char>>
    decreases s.len(),
{
    if s.len() == 0 {
        seq![]
    } else {
        let i = line_end(s);
        if i >= s.len() {
            seq![s]
        } else {
            seq![strip_cr(s.take(i as int))] + split_lines(s.skip((i + 1) as int))
        }
    }
}

/// The text made of the given lines, each one ended by `\n`.
pub open spec fn text_of_lines(ls: Seq<Seq<char>>) -> Seq<char>
    decreases ls.len(),
{
    if ls.len() == 0 {
        seq![]
    } else {
        ls[0] + seq!['\n'] + text_of_lines(ls.drop_first())
    }
}

/// A line that comes back unchanged when written with `text_of_lines` and read
/// with `split_lines`: no line feed in it, and no carriage return at its end.
pub open spec fn plain_line(l: Seq<char>) -> bool {
    &&& forall|k: int| 0 <= k < l.len() ==> l[k] != '\n'
    &&& !(l.len() > 0 && l.last() == '\r')
}

proof fn lemma_split_at_newline(t: Seq<char>, k: int)
    requires
        0 <= k < t.len(),
        t[k] == '\n',
        forall|j: int| 0 <= j < k ==> t[j] != '\n',
    ensures
        split_lines(t) == seq![strip_cr(t.take(k))] + split_lines(t.skip(k + 1)),
{
    lemma_first_index(t, |c: char| is_newline(c), k);
}

proof fn lemma_split_last_line(t: Seq<char>)
    requires
        t.len() > 0,
        forall|j: int| 0 <= j < t.len() ==> t[j] != '\n',
    ensures
        split_lines(t) == seq![t],
{
    lemma_first_index(t, |c: char| is_newline(c), t.len() as int);
}

/// Writing lines and splitting the text again gives the same lines.
pub proof fn lemma_split_text_of_lines(ls: Seq<Seq<char>>)
    requires
        forall|i: int| 0 <= i < ls.len() ==> plain_line(#[trigger] ls[i]),
    ensures
        split_lines(text_of_lines(ls)) == ls,
    decreases ls.len(),
{
    if ls.len() > 0 {
        let l = ls[0];
        let rest = ls.drop_first();
        let t = text_of_lines(ls);
        assert(plain_line(l));
        assert forall|i: int| 0 <= i < rest.len() implies plain_line(#[trigger] rest[i]) by {
            assert(rest[i] == ls[i + 1]);
        }
        lemma_split_text_of_lines(rest);
        assert(t == l + seq!['\n'] + text_of_lines(rest));
        assert(t[l.len() as int] == '\n');
        assert forall|j: int| 0 <= j < l.len() implies t[j] != '\n' by {
            assert(t[j] == l[j]);
        }
        lemma_split_at_newline(t, l.len() as int);
        assert(t.take(l.len() as int) =~= l);
        assert(t.skip((l.len() + 1) as int) =~= text_of_lines(rest));
        assert(seq![l] + rest =~= ls);
    }
}

/// `text_of_lines` of a concatenation is the concatenation of the texts.
pub proof fn lemma_text_of_lines_concat(a: Seq<Seq<char>>, b: Seq<Seq<char>>)
    ensures
        text_of_lines(a + b) == text_of_lines(a) + text_of_lines(b),
    decreases a.len(),
{
    if a.len() == 0 {
        assert(a + b =~= b);
        assert(text_of_lines(a) + text_of_lines(b) =~= text_of_lines(b));
    } else {
        lemma_text_of_lines_concat(a.drop_first(), b);
        assert((a + b).drop_first() =~= a.drop_first() + b);
        assert(text_of_lines(a + b) =~= text_of_lines(a) + text_of_lines(b));
    }
}

/// The lines of `s`, as `split_lines` describes them.
pub fn lines(s: &str) -> (r: Vec<String>)
    ensures
        views_of(r@) == split_lines(s@),
{
    let cs = chars_of(s);
    let n = cs.len();
    let mut out: Vec<String> = Vec::new();
    let mut start: usize = 0;
    let mut i: usize = 0;
    proof {
        assert(s@.skip(0) =~= s@);
        assert(views_of(out@) + split_lines(s@) =~= split_lines(s@));
    }
    while i < n
        invariant
            start <= i <= n,
            n == cs@.len(),
            cs@ == s@,
            forall|k: int| start <= k < i ==> cs@[k] != '\n',
            views_of(out@) + split_lines(s@.skip(start as int)) == split_lines(s@),
        decreases n - i,
    {
        if cs[i] == '\n' {
            let end: usize = if i > start && cs[i - 1] == '\r' {
                i - 1
            } else {
                i
            };
            let line = String::from_str(s.substring_char(start, end));
            proof {
                let t = s@.skip(start as int);
                let k = i - start;
                lemma_split_at_newline(t, k);
                assert(t.skip(k + 1) =~= s@.skip(i + 1));
                assert(line@ =~= strip_cr(t.take(k)));
                assert(views_of(out@.push(line)) =~= views_of(out@).push(line@));
                assert(views_of(out@).push(line@) + split_lines(s@.skip(i + 1)) =~= views_of(out@)
                    + split_lines(t));
            }
            out.push(line);
            start = i + 1;
        }
        i = i + 1;
    }
    if start < n {
        let line = String::from_str(s.substring_char(start, n));
        proof {
            let t = s@.skip(start as int);
            lemma_split_last_line(t);
            assert(line@ =~= t);
            assert(views_of(out@.push(line)) =~= views_of(out@) + split_lines(t));
        }
        out.push(line);
    } else {
        proof {
            assert(views_of(out@) + split_lines(s@.skip(start as int)) =~= views_of(out@));
        }
    }
    out
}

} // verus!
