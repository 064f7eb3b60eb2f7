//! The tail of a log: the last lines of a file, joined by newlines.

use vstd::prelude::*;
use vstd::string::*;

verus! {

/// The text of each line, in order.
pub open spec fn line_views(lines: Seq<String>) -> Seq<Seq<char>> {
    Seq::new(lines.len(), |i: int| lines[i]@)
}

/// The lines written one after the other with a single newline between
/// neighbours: none before the first, none after the last.
pub open spec fn join_lines(lines: Seq<Seq<char>>) -> Seq<char>
    decreases lines.len(),
{
    if lines.len() == 0 {
        Seq::empty()
    } else if lines.len() == 1 {
        lines[0]
    } else {
        join_lines(lines.drop_last()) + seq!['\n'] + lines.last()
    }
}

/// Index of the first line that a tail of at most `max_lines` lines keeps.
pub open spec fn tail_start(total: nat, max_lines: nat) -> nat {
    if total > max_lines {
        (total - max_lines) as nat
    } else {
        0
    }
}

/// The last `min(max_lines, lines.len())` lines, in file order.
pub open spec fn tail_window(lines: Seq<Seq<char>>, max_lines: nat) -> Seq<Seq<char>> {
    lines.subrange(tail_start(lines.len(), max_lines) as int, lines.len() as int)
}

/// What a tail of `lines` limited to `max_lines` reads as.
pub open spec fn tail_text(lines: Seq<Seq<char>>, max_lines: nat) -> Seq<char> {
    join_lines(tail_window(lines, max_lines))
}

/// Joins the last `max_lines` lines of `lines` (all of them when there are
/// fewer) with newlines.
pub fn tail_lines(lines: &Vec<String>, max_lines: usize) -> (out: String)
    ensures
        out@ == tail_text(line_views(lines@), max_lines as nat),
{
    let n: usize = lines.len();
    let start: usize = if n > max_lines { n - max_lines } else { 0 };
    let ghost all = line_views(lines@);
    let mut out = String::new();
    let mut i: usize = start;
    proof {
        assert(all.subrange(start as int, start as int) =~= Seq::<Seq<char>>::empty());
    }
    while i < n
        invariant
            start <= i <= n,
            n == lines.len(),
            all == line_views(lines@),
            out@ == join_lines(all.subrange(start as int, i as int)),
        decreases n - i,
    {
        let ghost before = all.subrange(start as int, i as int);
        let ghost after = all.subrange(start as int, i as int + 1);
        proof {
            reveal_strlit("\n");
            assert(after.drop_last() =~= before);
            assert(after.last() == lines@[i as int]@);
            assert("\n"@ =~= seq!['\n']);
        }
        if i > start {
            out.append("\n");
        } else {
            proof {
                assert(before.len() == 0);
                assert(out@ =~= Seq::<char>::empty());
            }
        }
        out.append(lines[i].as_str());
        proof {
            if i > start {
                assert(out@ =~= join_lines(before) + seq!['\n'] + after.last());
            } else {
                assert(after.len() == 1);
                assert(out@ =~= after[0]);
            }
        }
        i += 1;
    }
    out
}

/// A tail holds `min(max_lines, lines.len())` lines, and they are the last
/// lines of the file in file order.
pub proof fn lemma_tail_window(lines: Seq<Seq<char>>, max_lines: nat)
    ensures
        tail_window(lines, max_lines).len() == if max_lines < lines.len() {
            max_lines
        } else {
            lines.len()
        },
        forall|i: int|
            0 <= i < tail_window(lines, max_lines).len() ==> #[trigger] tail_window(
                lines,
                max_lines,
            )[i] == lines[lines.len() - tail_window(lines, max_lines).len() + i],
{
}

/// A tail of no lines is the empty text.
pub proof fn lemma_tail_of_zero(lines: Seq<Seq<char>>)
    ensures
        tail_text(lines, 0) == Seq::<char>::empty(),
{
    assert(tail_window(lines, 0).len() == 0);
}

/// A limit that the file does not reach leaves every line in.
pub proof fn lemma_tail_of_all(lines: Seq<Seq<char>>, max_lines: nat)
    requires
        lines.len() <= max_lines,
    ensures
        tail_text(lines, max_lines) == join_lines(lines),
{
    assert(tail_window(lines, max_lines) =~= lines);
}

/// A tail of an empty file is the empty text, whatever the limit.
pub proof fn lemma_tail_of_empty(max_lines: nat)
    ensures
        tail_text(Seq::<Seq<char>>::empty(), max_lines) == Seq::<char>::empty(),
{
    assert(tail_window(Seq::<Seq<char>>::empty(), max_lines).len() == 0);
}

} // verus!
