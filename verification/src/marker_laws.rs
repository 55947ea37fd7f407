//! Lemmas behind the stability of the checks that put lines between two
//! marker lines: where the markers are found once the lines are in place.
use vstd::prelude::*;

use crate::text::{first_index, is_blank, is_first_occurrence, lemma_first_index, occurs_at, trim_end};
use crate::utils::{append_text, marker_positions, replaced_between};

verus! {

/// Text added after the first occurrence of a pattern does not move it.
pub proof fn lemma_first_index_extended(x: Seq<char>, t: Seq<char>, y: Seq<char>)
    requires
        first_index(x, y) is Some,
    ensures
        first_index(x + t, y) == first_index(x, y),
{
    lemma_first_index(x, y);
    let p = first_index(x, y)->Some_0;
    let xt = x + t;
    assert(xt.subrange(p, p + y.len()) =~= x.subrange(p, p + y.len()));
    assert forall|j: int| 0 <= j < p implies !occurs_at(xt, y, j) by {
        if occurs_at(xt, y, j) {
            assert(xt.subrange(j, j + y.len()) =~= x.subrange(j, j + y.len()));
            assert(occurs_at(x, y, j));
        }
    }
    assert(is_first_occurrence(xt, y, p));
    lemma_first_index(xt, y);
}

/// Text whose markers are first found around `lines` is left as it is by
/// putting `lines` between them, also with more text added at its end.
pub proof fn lemma_replaced_in_place(
    n: Seq<char>,
    t: Seq<char>,
    start: Seq<char>,
    end: Seq<char>,
    lines: Seq<char>,
    p: int,
)
    requires
        marker_positions(n, start, end) == Some((p, p + start.len() + lines.len())),
        n.subrange(p + start.len(), p + start.len() + lines.len()) == lines,
    ensures
        replaced_between(n + t, start, end, lines) == n + t,
{
    reveal(marker_positions);
    reveal(replaced_between);
    lemma_first_index_extended(n, t, start);
    lemma_first_index_extended(n, t, end);
    lemma_first_index(n, start);
    lemma_first_index(n, end);
    let q = p + start.len() + lines.len();
    let nt = n + t;
    assert(marker_positions(nt, start, end) == Some((p, q)));
    assert(nt.take(p + start.len()) + lines + nt.skip(q) =~= nt) by {
        assert forall|k: int| 0 <= k < lines.len() implies lines[k] == nt[p + start.len() + k] by {
            assert(n.subrange(p + start.len(), q)[k] == n[p + start.len() + k]);
        }
    }
}

/// In the text with `lines` put after the start marker at `p`, the end marker
/// stands at no place before the one that follows the lines.
proof fn lemma_no_end_before(
    c: Seq<char>,
    start: Seq<char>,
    end: Seq<char>,
    lines: Seq<char>,
    p: int,
    q: int,
    j: int,
)
    requires
        occurs_at(c, start, p),
        occurs_at(c, end, q),
        p < q,
        forall|i: int| 0 <= i < q ==> !occurs_at(c, end, i),
        end.len() <= start.len(),
        forall|o: int| 0 <= o < start.len() + lines.len() ==> !occurs_at(start + lines + end, end, o),
        0 <= j < p + start.len() + lines.len(),
    ensures
        !occurs_at(c.take(p + start.len()) + lines + c.skip(q), end, j),
{
    let n = c.take(p + start.len()) + lines + c.skip(q);
    let ls = start.len();
    let le = end.len();
    let ll = lines.len();
    let blk = start + lines + end;
    if occurs_at(n, end, j) {
        if j < p {
            assert(n.subrange(j, j + le) =~= c.subrange(j, j + le));
            assert(occurs_at(c, end, j));
        } else {
            let o = j - p;
            assert forall|k: int| 0 <= k < le implies #[trigger] n.subrange(j, j + le)[k]
                == blk.subrange(o, o + le)[k] by {
                if o + k < ls {
                    assert(c.subrange(p, p + ls)[o + k] == c[p + o + k]);
                } else if o + k >= ls + ll {
                    assert(c.subrange(q, q + le)[o + k - ls - ll] == c[q + o + k - ls - ll]);
                }
            }
            assert(n.subrange(j, j + le) =~= blk.subrange(o, o + le));
            assert(occurs_at(blk, end, o));
        }
    }
}

/// When the markers are found in the text, putting `lines` between them
/// leaves the markers found around `lines`, given that the end marker is no
/// longer than the start marker and is first found in the block of the start
/// marker, the lines and the end marker at its own place.
pub proof fn lemma_markers_found_again(
    c: Seq<char>,
    start: Seq<char>,
    end: Seq<char>,
    lines: Seq<char>,
)
    requires
        marker_positions(c, start, end) is Some,
        start.len() > 0,
        end.len() <= start.len(),
        first_index(start + lines + end, end) == Some((start.len() + lines.len()) as int),
    ensures
        ({
            let p = marker_positions(c, start, end)->Some_0.0;
            let n = replaced_between(c, start, end, lines);
            &&& marker_positions(n, start, end) == Some((p, p + start.len() + lines.len()))
            &&& n.subrange(p + start.len(), p + start.len() + lines.len()) == lines
        }),
{
    reveal(marker_positions);
    reveal(replaced_between);
    let (p, q) = marker_positions(c, start, end)->Some_0;
    let ls = start.len();
    let le = end.len();
    let ll = lines.len();
    let n = replaced_between(c, start, end, lines);
    assert(n == c.take(p + ls) + lines + c.skip(q));
    lemma_first_index(c, start);
    lemma_first_index(c, end);
    let blk = start + lines + end;
    lemma_first_index(blk, end);
    // the start marker
    assert(n.subrange(p, p + ls) =~= c.subrange(p, p + ls));
    assert forall|j: int| 0 <= j < p implies !occurs_at(n, start, j) by {
        if occurs_at(n, start, j) {
            assert(n.subrange(j, j + ls) =~= c.subrange(j, j + ls));
            assert(occurs_at(c, start, j));
        }
    }
    assert(is_first_occurrence(n, start, p));
    lemma_first_index(n, start);
    // the end marker
    let bq = p + ls + ll;
    assert(n.subrange(bq, bq + le) =~= c.subrange(q, q + le));
    assert forall|j: int| 0 <= j < bq implies !occurs_at(n, end, j) by {
        lemma_no_end_before(c, start, end, lines, p, q, j);
    }
    assert(is_first_occurrence(n, end, bq));
    lemma_first_index(n, end);
    assert(n.subrange(p + ls, bq) =~= lines);
}


/// Appended text that is not blank ends what it was appended to.
proof fn lemma_append_ends_with(c: Seq<char>, blk: Seq<char>)
    requires
        !is_blank(blk),
    ensures
        append_text(c, blk).len() >= blk.len(),
        append_text(c, blk).skip(append_text(c, blk).len() - blk.len()) == blk,
{
    let new = append_text(c, blk);
    if !is_blank(c) {
        let pre = trim_end(c) + seq!['\n'];
        assert(new == pre + blk);
        assert(new.skip(pre.len() as int) =~= blk);
    } else {
        assert(new.skip(0) =~= blk);
    }
}

/// When no marker pair is found, the markers and the lines are appended: the
/// lines stand right after the appended start marker.
pub proof fn lemma_appended_block(c: Seq<char>, start: Seq<char>, end: Seq<char>, lines: Seq<char>)
    requires
        marker_positions(c, start, end) is None,
        marker_positions(replaced_between(c, start, end, lines), start, end) is Some,
    ensures
        ({
            let new = replaced_between(c, start, end, lines);
            let p = new.len() - (start + lines + end).len();
            &&& p >= 0
            &&& new.subrange(p + start.len(), p + start.len() + lines.len()) == lines
        }),
{
    reveal(replaced_between);
    let blk = start + lines + end;
    let new = replaced_between(c, start, end, lines);
    assert(new == append_text(c, blk));
    if is_blank(blk) {
        assert(new == c);
    }
    lemma_append_ends_with(c, blk);
    let p = new.len() - blk.len();
    let ls = start.len() as int;
    let ll = lines.len() as int;
    assert forall|k: int| 0 <= k < ll implies #[trigger] new.subrange(p + ls, p + ls + ll)[k]
        == lines[k] by {
        assert(new.skip(p)[ls + k] == blk[ls + k]);
    }
    assert(new.subrange(p + ls, p + ls + ll) =~= lines);
}


/// Putting `lines` between the markers leaves them found around the lines,
/// when they were found before, or when the ones appended are found first;
/// the result is where the start marker is found.
pub proof fn lemma_markers_stable(c: Seq<char>, start: Seq<char>, end: Seq<char>, lines: Seq<char>) -> (p: int)
    requires
        start.len() > 0,
        end.len() <= start.len(),
        first_index(start + lines + end, end) == Some((start.len() + lines.len()) as int),
        ({
            let new = replaced_between(c, start, end, lines);
            ||| marker_positions(c, start, end) is Some
            ||| marker_positions(new, start, end) == Some(
                (
                    new.len() - (start + lines + end).len(),
                    new.len() - end.len(),
                ),
            )
        }),
    ensures
        marker_positions(replaced_between(c, start, end, lines), start, end) == Some(
            (p, p + start.len() + lines.len()),
        ),
        replaced_between(c, start, end, lines).subrange(
            p + start.len(),
            p + start.len() + lines.len(),
        ) == lines,
{
    if marker_positions(c, start, end) is Some {
        lemma_markers_found_again(c, start, end, lines);
        marker_positions(c, start, end)->Some_0.0
    } else {
        lemma_appended_block(c, start, end, lines);
        replaced_between(c, start, end, lines).len() - (start + lines + end).len()
    }
}

/// The first occurrence of a pattern is also the first one in a prefix of the
/// text that holds it.
pub proof fn lemma_first_index_in_prefix(x: Seq<char>, y: Seq<char>, k: int)
    requires
        first_index(x, y) matches Some(p) && p + y.len() <= k <= x.len(),
    ensures
        first_index(x.take(k), y) == first_index(x, y),
{
    lemma_first_index(x, y);
    let p = first_index(x, y)->Some_0;
    let xk = x.take(k);
    assert(xk.subrange(p, p + y.len()) =~= x.subrange(p, p + y.len()));
    assert forall|j: int| 0 <= j < p implies !occurs_at(xk, y, j) by {
        if occurs_at(xk, y, j) {
            assert(xk.subrange(j, j + y.len()) =~= x.subrange(j, j + y.len()));
            assert(occurs_at(x, y, j));
        }
    }
    assert(is_first_occurrence(xk, y, p));
    lemma_first_index(xk, y);
}

/// A text from a place where a pattern stands is the pattern and what follows.
proof fn lemma_skip_at(c: Seq<char>, y: Seq<char>, j: int)
    requires
        occurs_at(c, y, j),
    ensures
        c.skip(j) == y + c.skip(j + y.len()),
{
    assert forall|k: int| 0 <= k < y.len() implies #[trigger] c.skip(j)[k] == y[k] by {
        assert(c.subrange(j, j + y.len())[k] == c[j + k]);
    }
    assert(c.skip(j) =~= y + c.skip(j + y.len()));
}

/// Putting `lines` between markers found at `i` and `j`, where the end marker
/// is first found right after the lines in what comes up to it, leaves the
/// markers found around the lines.
pub proof fn lemma_replaced_markers(c: Seq<char>, start: Seq<char>, end: Seq<char>, lines: Seq<char>, i: int, j: int)
    requires
        start.len() > 0,
        first_index(c, start) == Some(i),
        first_index(c, end) == Some(j),
        i < j,
        first_index(c.take(i + start.len()) + lines + end, end) == Some(i + start.len() + lines.len()),
    ensures
        marker_positions(c, start, end) == Some((i, j)),
        replaced_between(c, start, end, lines) == c.take(i + start.len()) + lines + c.skip(j),
        marker_positions(replaced_between(c, start, end, lines), start, end) == Some(
            (i, i + start.len() + lines.len()),
        ),
{
    let ls = start.len() as int;
    let head = c.take(i + ls);
    let n = head + lines + c.skip(j);
    let pre = head + lines + end;
    let rest = c.skip(j + end.len());
    assert(marker_positions(c, start, end) == Some((i, j))) by {
        reveal(marker_positions);
    }
    assert(replaced_between(c, start, end, lines) == n) by {
        reveal(replaced_between);
    }
    assert(first_index(n, end) == Some(i + ls + lines.len())) by {
        lemma_first_index(c, end);
        lemma_skip_at(c, end, j);
        assert(n =~= pre + rest);
        lemma_first_index_extended(pre, rest, end);
    }
    assert(first_index(n, start) == Some(i)) by {
        lemma_first_index(c, start);
        lemma_first_index_in_prefix(c, start, i + ls);
        assert(n =~= head + (lines + c.skip(j)));
        lemma_first_index_extended(head, lines + c.skip(j), start);
    }
    assert(marker_positions(n, start, end) == Some((i, i + ls + lines.len()))) by {
        reveal(marker_positions);
    }
}

} // verus!
