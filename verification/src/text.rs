//! Splitting message text into display lines.

use vstd::prelude::*;

verus! {

/// Index of the first `'\n'` in `s`, or `s.len()` when there is none.
pub open spec fn first_newline(s: Seq<char>) -> nat
    decreases s.len(),
{
    if s.len() == 0 {
        0
    } else if s[0] == '\n' {
        0
    } else {
        1 + first_newline(s.drop_first())
    }
}

/// A line with one trailing carriage return removed, if it has one.
pub open spec fn without_cr(line: Seq<char>) -> Seq<char> {
    if line.len() > 0 && line.last() == '\r' {
        line.drop_last()
    } else {
        line
    }
}

/// The lines of `s`: split at `'\n'`, with the `'\r'` of a `"\r\n"` ending dropped,
/// and no empty last line after a final line ending.
pub open spec fn text_lines(s: Seq<char>) -> Seq<Seq<char>>
    decreases s.len(),
{
    if s.len() == 0 {
        seq![]
    } else {
        let i = first_newline(s);
        if i >= s.len() {
            seq![s]
        } else {
            seq![without_cr(s.take(i as int))] + text_lines(s.skip(i + 1 as int))
        }
    }
}

proof fn lemma_first_newline_at(t: Seq<char>, k: int)
    requires
        0 <= k < t.len(),
        t[k] == '\n',
        forall|j: int| 0 <= j < k ==> t[j] != '\n',
    ensures
        first_newline(t) == k,
    decreases k,
{
    if k > 0 {
        lemma_first_newline_at(t.drop_first(), k - 1);
    }
}

proof fn lemma_first_newline_none(t: Seq<char>)
    requires
        forall|j: int| 0 <= j < t.len() ==> t[j] != '\n',
    ensures
        first_newline(t) == t.len(),
    decreases t.len(),
{
    if t.len() > 0 {
        lemma_first_newline_none(t.drop_first());
    }
}

/// The lines of `s` as `str::lines` yields them.
pub fn split_lines(s: &str) -> (lines: Vec<String>)
    ensures
        lines@.len() == text_lines(s@).len(),
        forall|i: int| 0 <= i < lines@.len() ==> #[trigger] lines@[i]@ == text_lines(s@)[i],
{
    let n = s.unicode_len();
    let mut lines: Vec<String> = Vec::new();
    let ghost mut done: Seq<Seq<char>> = seq![];
    let mut start: usize = 0;
    let mut pos: usize = 0;
    proof {
        assert(s@.skip(0) =~= s@);
        assert(done + text_lines(s@) =~= text_lines(s@));
    }
    while pos < n
        invariant
            n == s@.len(),
            start <= pos <= n,
            forall|j: int| start <= j < pos ==> s@[j] != '\n',
            lines@.len() == done.len(),
            forall|i: int| 0 <= i < lines@.len() ==> #[trigger] lines@[i]@ == done[i],
            done + text_lines(s@.skip(start as int)) == text_lines(s@),
        decreases n - pos,
    {
        let c = s.get_char(pos);
        if c == '\n' {
            let end: usize = if pos > start && s.get_char(pos - 1) == '\r' {
                pos - 1
            } else {
                pos
            };
            let piece = s.substring_char(start, end);
            let line = String::from_str(piece);
            proof {
                let t = s@.skip(start as int);
                let k = pos - start;
                assert forall|j: int| 0 <= j < k implies t[j] != '\n' by {
                    assert(t[j] == s@[start + j]);
                }
                lemma_first_newline_at(t, k as int);
                assert(t.take(k as int) =~= s@.subrange(start as int, pos as int));
                assert(without_cr(t.take(k as int)) =~= s@.subrange(start as int, end as int));
                assert(t.skip(k + 1) =~= s@.skip(pos + 1));
                assert(text_lines(t) == seq![without_cr(t.take(k as int))] + text_lines(
                    t.skip(k + 1),
                ));
                assert(done.push(line@) + text_lines(s@.skip(pos + 1)) =~= done
                    + text_lines(t));
                done = done.push(line@);
            }
            lines.push(line);
            start = pos + 1;
        }
        pos = pos + 1;
    }
    if start < n {
        let piece = s.substring_char(start, n);
        let line = String::from_str(piece);
        proof {
            let t = s@.skip(start as int);
            assert forall|j: int| 0 <= j < t.len() implies t[j] != '\n' by {
                assert(t[j] == s@[start + j]);
            }
            lemma_first_newline_none(t);
            assert(t =~= s@.subrange(start as int, n as int));
            assert(done.push(line@) =~= done + text_lines(t));
            done = done.push(line@);
        }
        lines.push(line);
    } else {
        proof {
            assert(s@.skip(start as int) =~= Seq::<char>::empty());
            assert(done + text_lines(s@.skip(start as int)) =~= done);
        }
    }
    lines
}

} // verus!
