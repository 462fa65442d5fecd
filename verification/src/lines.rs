//! Splitting a text buffer into lines.
//!
//! A line ends at a `'\n'` or at a `"\r\n"` pair; the terminator is not part
//! of the line, and a terminator on the last line is optional, so a trailing
//! newline does not produce a spurious empty final line.  `lines_of` is the
//! mathematical splitting; `split_lines` is the verified implementation,
//! which hands out borrowed slices of the original buffer.

use vstd::prelude::*;

verus! {

/// Position of the first `'\n'` in `s`, or `s.len()` if there is none.
pub open spec fn first_newline(s: Seq<char>) -> nat
    decreases s.len(),
{
    if s.len() == 0 {
        0
    } else if s[0] == '\n' {
        0
    } else {
        1 + first_newline(s.drop_first())
    }
}

/// A line with its terminating `'\n'` removed also loses a final `'\r'`,
/// so that a `"\r\n"` terminator leaves the line clean.
pub open spec fn strip_cr(line: Seq<char>) -> Seq<char> {
    if line.len() > 0 && line[line.len() - 1] == '\r' {
        line.drop_last()
    } else {
        line
    }
}

/// The lines of `s`, in document order.
pub open spec fn lines_of(s: Seq<char>) -> Seq<Seq<char>>
    decreases s.len(),
{
    if s.len() == 0 {
        seq![]
    } else {
        let i = first_newline(s);
        if i < s.len() {
            seq![strip_cr(s.subrange(0, i as int))] + lines_of(
                s.subrange(i as int + 1, s.len() as int),
            )
        } else {
            seq![s]
        }
    }
}

/// A position before which there is no `'\n'`, and which is either the end
/// of `s` or holds a `'\n'`, is `first_newline`.
pub proof fn lemma_first_newline_at(s: Seq<char>, m: int)
    requires
        0 <= m <= s.len(),
        forall|j: int| 0 <= j < m ==> s[j] != '\n',
        m < s.len() ==> s[m] == '\n',
    ensures
        first_newline(s) == m,
    decreases s.len(),
{
    if s.len() == 0 {
    } else if s[0] == '\n' {
        assert(m == 0);
    } else {
        assert(m >= 1);
        let d = s.drop_first();
        assert forall|j: int| 0 <= j < m - 1 implies d[j] != '\n' by {
            assert(d[j] == s[j + 1]);
        }
        assert(m - 1 < d.len() ==> d[m - 1] == s[m]);
        lemma_first_newline_at(d, m - 1);
    }
}

/// Unfolding step of `lines_of` at the first newline, located at `m`.
pub proof fn lemma_lines_of_step(s: Seq<char>, m: int)
    requires
        0 <= m < s.len(),
        forall|j: int| 0 <= j < m ==> s[j] != '\n',
        s[m] == '\n',
    ensures
        lines_of(s) == seq![strip_cr(s.subrange(0, m))] + lines_of(
            s.subrange(m + 1, s.len() as int),
        ),
{
    lemma_first_newline_at(s, m);
}

/// A non-empty text without any `'\n'` is a single line, kept as it is.
pub proof fn lemma_lines_of_whole(s: Seq<char>)
    requires
        s.len() > 0,
        forall|j: int| 0 <= j < s.len() ==> s[j] != '\n',
    ensures
        lines_of(s) == seq![s],
{
    lemma_first_newline_at(s, s.len() as int);
}

/// An empty text has no lines.
pub proof fn lemma_lines_of_empty()
    ensures
        lines_of(Seq::<char>::empty()) == Seq::<Seq<char>>::empty(),
{
    assert(lines_of(Seq::<char>::empty()) =~= Seq::<Seq<char>>::empty());
}

/// Split `content` into its lines, as borrowed slices of `content`.
pub fn split_lines<'a>(content: &'a str) -> (lines: Vec<&'a str>)
    ensures
        lines@.len() == lines_of(content@).len(),
        forall|k: int| 0 <= k < lines@.len() ==> lines@[k]@ == lines_of(content@)[k],
{
    let n = content.unicode_len();
    let ghost total = lines_of(content@);
    let mut lines: Vec<&'a str> = Vec::new();
    let mut start: usize = 0;
    let mut i: usize = 0;
    proof {
        assert(content@.subrange(0, n as int) =~= content@);
        assert(total.skip(0) =~= total);
    }
    while i < n
        invariant
            start <= i <= n,
            n == content@.len(),
            total == lines_of(content@),
            lines@.len() <= total.len(),
            forall|j: int| start <= j < i ==> content@[j] != '\n',
            forall|k: int| 0 <= k < lines@.len() ==> lines@[k]@ == total[k],
            lines_of(content@.subrange(start as int, n as int)) == total.skip(
                lines@.len() as int,
            ),
        decreases n - i,
    {
        if content.get_char(i) == '\n' {
            let end = if i > start && content.get_char(i - 1) == '\r' {
                i - 1
            } else {
                i
            };
            let line = content.substring_char(start, end);
            proof {
                let rest = content@.subrange(start as int, n as int);
                let m = i - start;
                assert forall|j: int| 0 <= j < m implies rest[j] != '\n' by {
                    assert(rest[j] == content@[start + j]);
                }
                assert(rest[m as int] == content@[i as int]);
                lemma_lines_of_step(rest, m as int);
                assert(rest.subrange(0, m as int) =~= content@.subrange(start as int, i as int));
                assert(strip_cr(content@.subrange(start as int, i as int)) =~= content@.subrange(
                    start as int,
                    end as int,
                ));
                assert(rest.subrange(m as int + 1, rest.len() as int) =~= content@.subrange(
                    i as int + 1,
                    n as int,
                ));
                let tail = lines_of(content@.subrange(i as int + 1, n as int));
                assert(lines_of(rest) == seq![line@] + tail);
                let el = lines@.len() as int;
                assert(total.skip(el) == seq![line@] + tail);
                assert(total.skip(el).len() == total.len() - el);
                assert((seq![line@] + tail).len() == 1 + tail.len());
                assert(total.len() == el + 1 + tail.len());
                assert(total.skip(el)[0] == total[el]);
                assert(total[el] == line@);
                assert forall|k: int| 0 <= k < tail.len() implies total.skip(el + 1)[k]
                    == tail[k] by {
                    assert(total.skip(el + 1)[k] == total[el + 1 + k]);
                    assert(total.skip(el)[k + 1] == total[el + 1 + k]);
                    assert((seq![line@] + tail)[k + 1] == tail[k]);
                }
                assert(total.skip(el + 1) =~= tail);
            }
            lines.push(line);
            start = i + 1;
        }
        i = i + 1;
    }
    if start < n {
        let line = content.substring_char(start, n);
        proof {
            let rest = content@.subrange(start as int, n as int);
            assert forall|j: int| 0 <= j < rest.len() implies rest[j] != '\n' by {
                assert(rest[j] == content@[start + j]);
            }
            lemma_lines_of_whole(rest);
            let el = lines@.len() as int;
            assert(total.skip(el) == seq![line@]);
            assert(total.len() == el + 1);
            assert(total.skip(el)[0] == total[el]);
            assert(total[el] == line@);
        }
        lines.push(line);
    } else {
        proof {
            assert(content@.subrange(start as int, n as int) =~= Seq::<char>::empty());
            lemma_lines_of_empty();
            assert(total.skip(lines@.len() as int).len() == 0);
        }
    }
    lines
}

} // verus!
