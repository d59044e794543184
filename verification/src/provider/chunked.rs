//! Thinking blocks stripped chunk by chunk: when a reply streams in
//! pieces, the visible text shown piece by piece is the visible text of the
//! whole reply, provided no tag is cut by a chunk boundary and every block
//! is closed by the end.

use crate::provider::openai_compat::{
    close_tag_len, closed_after, content_step, has_open_block, has_close_from, inside_from, opens_at,
    open_tag_len, strip_thinking_blocks, visible_from,
};
use crate::text::{occurs_at, occurs_in};
use vstd::prelude::*;

verus! {

/// No `<thinking` or `</thinking>` occurs in `s`: its blocks use the short
/// tags `<think>` and `</think>` only.
pub open spec fn short_tags_only(s: Seq<char>) -> bool {
    !occurs_in(s, "<thinking"@) && !occurs_in(s, "</thinking>"@)
}

/// No `<think>` or `</think>` in `s` is cut by position `b`.
pub open spec fn tags_whole_at(s: Seq<char>, b: int) -> bool {
    &&& forall|i: int| #[trigger] occurs_at(s, "<think>"@, i) ==> !(i < b && b < i + 7)
    &&& forall|i: int| #[trigger] occurs_at(s, "</think>"@, i) ==> !(i < b && b < i + 8)
}

/// Every `<think>` in `s` is followed, later, by a `</think>`.
pub open spec fn blocks_closed(s: Seq<char>) -> bool {
    forall|i: int|
        #[trigger] occurs_at(s, "<think>"@, i) ==> exists|j: int|
            i + 7 <= j && #[trigger] occurs_at(s, "</think>"@, j)
}

/// The chunks of a reply, joined in order.
pub open spec fn joined(chunks: Seq<Seq<char>>) -> Seq<char>
    decreases chunks.len(),
{
    if chunks.len() == 0 {
        Seq::empty()
    } else {
        joined(chunks.drop_last()) + chunks.last()
    }
}

/// The text of an optional emission, empty when nothing was emitted.
pub open spec fn emitted_text(e: Option<Seq<char>>) -> Seq<char> {
    match e {
        Some(v) => v,
        None => Seq::empty(),
    }
}

/// The pending tail and everything shown after the chunks went through
/// [`content_step`] one by one, stripping on, from an empty tail.
pub open spec fn run_deltas(chunks: Seq<Seq<char>>) -> (Seq<char>, Seq<char>)
    decreases chunks.len(),
{
    if chunks.len() == 0 {
        (Seq::empty(), Seq::empty())
    } else {
        let prev = run_deltas(chunks.drop_last());
        let step = content_step(true, prev.0, chunks.last());
        (step.0, prev.1 + emitted_text(step.1))
    }
}

proof fn lemma_occurs_concat(a: Seq<char>, b: Seq<char>, p: Seq<char>)
    ensures
        forall|i: int| #[trigger] occurs_at(a, p, i) ==> occurs_at(a + b, p, i),
        forall|i: int|
            #[trigger] occurs_at(a + b, p, i) && i + p.len() <= a.len() ==> occurs_at(a, p, i),
        forall|j: int| #[trigger] occurs_at(b, p, j) ==> occurs_at(a + b, p, a.len() + j),
        forall|i: int|
            #[trigger] occurs_at(a + b, p, i) && a.len() <= i ==> occurs_at(b, p, i - a.len()),
{
    assert forall|i: int| #[trigger] occurs_at(a, p, i) implies occurs_at(a + b, p, i) by {
        assert((a + b).subrange(i, i + p.len()) =~= a.subrange(i, i + p.len()));
    }
    assert forall|i: int|
        #[trigger] occurs_at(a + b, p, i) && i + p.len() <= a.len() implies occurs_at(a, p, i) by {
        assert((a + b).subrange(i, i + p.len()) =~= a.subrange(i, i + p.len()));
    }
    assert forall|j: int| #[trigger] occurs_at(b, p, j) implies occurs_at(a + b, p, a.len() + j) by {
        assert((a + b).subrange(a.len() + j, a.len() + j + p.len()) =~= b.subrange(j, j + p.len()));
    }
    assert forall|i: int| #[trigger] occurs_at(a + b, p, i) && a.len() <= i implies occurs_at(
        b,
        p,
        i - a.len(),
    ) by {
        assert((a + b).subrange(i, i + p.len()) =~= b.subrange(i - a.len(), i - a.len() + p.len()));
    }
}

/// Under short tags only, the tag lengths are those of `<think>` and
/// `</think>`.
proof fn lemma_short_tag_lens(s: Seq<char>)
    requires
        short_tags_only(s),
    ensures
        forall|i: int| #[trigger] open_tag_len(s, i) == (if occurs_at(s, "<think>"@, i) { 7int } else { 0int }),
        forall|j: int| #[trigger] close_tag_len(s, j) == (if occurs_at(s, "</think>"@, j) { 8int } else { 0int }),
{
    reveal_strlit("<thinking>");
    reveal_strlit("<thinking");
    reveal_strlit("</thinking>");
    assert forall|i: int| #[trigger] open_tag_len(s, i) == (if occurs_at(s, "<think>"@, i) { 7int } else { 0int }) by {
        if occurs_at(s, "<thinking>"@, i) {
            assert(s.subrange(i, i + 9) =~= s.subrange(i, i + 10).subrange(0, 9));
            assert("<thinking>"@.subrange(0, 9) =~= "<thinking"@);
            assert(occurs_at(s, "<thinking"@, i));
        }
    }
}

/// The tag lengths in `a + b` past `a` are those of `b`.
proof fn lemma_tags_shift(a: Seq<char>, b: Seq<char>)
    ensures
        forall|j: int| 0 <= j ==> #[trigger] open_tag_len(a + b, a.len() + j) == open_tag_len(b, j),
        forall|j: int| 0 <= j ==> #[trigger] close_tag_len(a + b, a.len() + j) == close_tag_len(b, j),
        forall|j: int| 0 <= j ==> #[trigger] has_close_from(a + b, a.len() + j) == has_close_from(b, j),
{
    lemma_occurs_concat(a, b, "<thinking>"@);
    lemma_occurs_concat(a, b, "<think>"@);
    lemma_occurs_concat(a, b, "</thinking>"@);
    lemma_occurs_concat(a, b, "</think>"@);
    assert forall|j: int| 0 <= j implies #[trigger] open_tag_len(a + b, a.len() + j) == open_tag_len(b, j) by {
        assert(occurs_at(a + b, "<thinking>"@, a.len() + j) ==> occurs_at(b, "<thinking>"@, a.len() + j - a.len()));
        assert(occurs_at(a + b, "<think>"@, a.len() + j) ==> occurs_at(b, "<think>"@, a.len() + j - a.len()));
    }
    assert forall|j: int| 0 <= j implies #[trigger] close_tag_len(a + b, a.len() + j) == close_tag_len(b, j) by {
        assert(occurs_at(a + b, "</thinking>"@, a.len() + j) ==> occurs_at(b, "</thinking>"@, a.len() + j - a.len()));
        assert(occurs_at(a + b, "</think>"@, a.len() + j) ==> occurs_at(b, "</think>"@, a.len() + j - a.len()));
    }
    assert forall|j: int| 0 <= j implies #[trigger] has_close_from(a + b, a.len() + j) == has_close_from(b, j) by {
        if has_close_from(b, j) {
            let m = choose|m: int| j <= m && #[trigger] close_tag_len(b, m) > 0;
            assert(close_tag_len(b, m) > 0);
            assert(m >= 0);
            assert(close_tag_len(a + b, a.len() + m) == close_tag_len(b, m));
        }
        if has_close_from(a + b, a.len() + j) {
            let m = choose|m: int| a.len() + j <= m && #[trigger] close_tag_len(a + b, m) > 0;
            assert(close_tag_len(a + b, a.len() + (m - a.len())) == close_tag_len(b, m - a.len()));
            assert(close_tag_len(b, m - a.len()) > 0);
        }
    }
}

proof fn lemma_shift_visible(a: Seq<char>, b: Seq<char>, j: int)
    requires
        0 <= j,
    ensures
        visible_from(a + b, a.len() + j) == visible_from(b, j),
    decreases b.len() - j, 1int,
{
    lemma_tags_shift(a, b);
    if j < b.len() {
        let ol = open_tag_len(b, j);
        assert(open_tag_len(a + b, a.len() + j) == ol);
        assert(has_close_from(a + b, a.len() + j + ol) == has_close_from(b, j + ol)) by {
            if ol > 0 {
                assert(has_close_from(a + b, a.len() + (j + ol)) == has_close_from(b, j + ol));
            }
        }
        if ol > 0 && has_close_from(b, j + ol) {
            reveal_strlit("<thinking>");
            reveal_strlit("<think>");
            lemma_shift_inside(a, b, j + ol);
        } else {
            lemma_shift_visible(a, b, j + 1);
            assert((a + b)[a.len() + j] == b[j]);
            assert(visible_from(a + b, a.len() + j) == seq![(a + b)[a.len() + j]] + visible_from(a + b, a.len() + j + 1));
        }
    }
}

proof fn lemma_shift_inside(a: Seq<char>, b: Seq<char>, j: int)
    requires
        0 <= j,
    ensures
        inside_from(a + b, a.len() + j) == inside_from(b, j),
    decreases b.len() - j, 0int,
{
    lemma_tags_shift(a, b);
    if j < b.len() {
        let cl = close_tag_len(b, j);
        assert(close_tag_len(a + b, a.len() + j) == cl);
        if cl > 0 {
            reveal_strlit("</thinking>");
            reveal_strlit("</think>");
            lemma_shift_visible(a, b, j + cl);
        } else {
            lemma_shift_inside(a, b, j + 1);
        }
    }
}

/// Short tags only carries over to a prefix and a suffix.
proof fn lemma_short_tags_parts(a: Seq<char>, b: Seq<char>)
    requires
        short_tags_only(a + b),
    ensures
        short_tags_only(a),
        short_tags_only(b),
{
    lemma_occurs_concat(a, b, "<thinking"@);
    lemma_occurs_concat(a, b, "</thinking>"@);
    if occurs_in(a, "<thinking"@) {
        let i = choose|i: int| #[trigger] occurs_at(a, "<thinking"@, i);
        assert(occurs_at(a + b, "<thinking"@, i));
    }
    if occurs_in(a, "</thinking>"@) {
        let i = choose|i: int| #[trigger] occurs_at(a, "</thinking>"@, i);
        assert(occurs_at(a + b, "</thinking>"@, i));
    }
    if occurs_in(b, "<thinking"@) {
        let i = choose|i: int| #[trigger] occurs_at(b, "<thinking"@, i);
        assert(occurs_at(a + b, "<thinking"@, a.len() + i));
    }
    if occurs_in(b, "</thinking>"@) {
        let i = choose|i: int| #[trigger] occurs_at(b, "</thinking>"@, i);
        assert(occurs_at(a + b, "</thinking>"@, a.len() + i));
    }
}

/// Before the cut, the tag lengths in `a + b` are those of `a`.
proof fn lemma_tags_prefix(a: Seq<char>, b: Seq<char>)
    requires
        short_tags_only(a + b),
        tags_whole_at(a + b, a.len() as int),
    ensures
        forall|i: int| 0 <= i < a.len() ==> #[trigger] open_tag_len(a + b, i) == open_tag_len(a, i),
        forall|i: int| 0 <= i < a.len() ==> #[trigger] close_tag_len(a + b, i) == close_tag_len(a, i),
{
    lemma_short_tags_parts(a, b);
    lemma_short_tag_lens(a + b);
    lemma_short_tag_lens(a);
    lemma_occurs_concat(a, b, "<think>"@);
    lemma_occurs_concat(a, b, "</think>"@);
    reveal_strlit("<think>");
    reveal_strlit("</think>");
    assert forall|i: int| 0 <= i < a.len() implies #[trigger] open_tag_len(a + b, i) == open_tag_len(a, i) by {
        assert(open_tag_len(a + b, i) == (if occurs_at(a + b, "<think>"@, i) { 7int } else { 0int }));
        assert(open_tag_len(a, i) == (if occurs_at(a, "<think>"@, i) { 7int } else { 0int }));
        if occurs_at(a + b, "<think>"@, i) && i + 7 > a.len() {
            assert(!(i < a.len() && a.len() < i + 7));
        }
    }
    assert forall|i: int| 0 <= i < a.len() implies #[trigger] close_tag_len(a + b, i) == close_tag_len(a, i) by {
        assert(close_tag_len(a + b, i) == (if occurs_at(a + b, "</think>"@, i) { 8int } else { 0int }));
        assert(close_tag_len(a, i) == (if occurs_at(a, "</think>"@, i) { 8int } else { 0int }));
        if occurs_at(a + b, "</think>"@, i) && i + 8 > a.len() {
            assert(!(i < a.len() && a.len() < i + 8));
        }
    }
}

proof fn lemma_prefix_visible(a: Seq<char>, b: Seq<char>, i: int)
    requires
        0 <= i <= a.len(),
        short_tags_only(a + b),
        tags_whole_at(a + b, a.len() as int),
        blocks_closed(a),
    ensures
        visible_from(a + b, i) == visible_from(a, i) + visible_from(a + b, a.len() as int),
    decreases a.len() - i, 1int,
{
    if i < a.len() {
        lemma_tags_prefix(a, b);
        lemma_short_tags_parts(a, b);
        lemma_short_tag_lens(a);
        lemma_occurs_concat(a, b, "</think>"@);
        reveal_strlit("<think>");
        reveal_strlit("</think>");
        reveal_strlit("<thinking>");
        reveal_strlit("</thinking>");
        let ol = open_tag_len(a, i);
        assert(open_tag_len(a + b, i) == ol);
        if ol > 0 {
            assert(occurs_at(a, "<think>"@, i));
            let m = choose|m: int| i + 7 <= m && #[trigger] occurs_at(a, "</think>"@, m);
            assert(close_tag_len(a, m) > 0);
            assert(has_close_from(a, i + ol));
            assert(occurs_at(a + b, "</think>"@, m));
            assert(close_tag_len(a + b, m) > 0) by {
                lemma_short_tag_lens(a + b);
            }
            assert(has_close_from(a + b, i + ol));
            lemma_prefix_inside(a, b, i + ol, m);
        } else {
            lemma_prefix_visible(a, b, i + 1);
            assert((a + b)[i] == a[i]);
            assert(visible_from(a, i) == seq![a[i]] + visible_from(a, i + 1));
            assert(visible_from(a + b, i) == seq![(a + b)[i]] + visible_from(a + b, i + 1));
            assert(visible_from(a + b, i) =~= visible_from(a, i) + visible_from(a + b, a.len() as int));
        }
    } else {
        assert(visible_from(a, i) =~= Seq::<char>::empty());
        assert(visible_from(a + b, i) =~= visible_from(a, i) + visible_from(a + b, a.len() as int));
    }
}

proof fn lemma_prefix_inside(a: Seq<char>, b: Seq<char>, j: int, m: int)
    requires
        0 <= j <= m,
        occurs_at(a, "</think>"@, m),
        short_tags_only(a + b),
        tags_whole_at(a + b, a.len() as int),
        blocks_closed(a),
    ensures
        inside_from(a + b, j) == inside_from(a, j) + visible_from(a + b, a.len() as int),
    decreases a.len() - j, 0int,
{
    lemma_tags_prefix(a, b);
    lemma_short_tags_parts(a, b);
    lemma_short_tag_lens(a);
    reveal_strlit("</think>");
    reveal_strlit("</thinking>");
    assert(j < a.len());
    let cl = close_tag_len(a, j);
    assert(close_tag_len(a + b, j) == cl);
    if cl > 0 {
        assert(occurs_at(a, "</think>"@, j));
        lemma_prefix_visible(a, b, j + cl);
    } else {
        assert(j != m) by {
            if j == m {
                assert(close_tag_len(a, j) == 8);
            }
        }
        lemma_prefix_inside(a, b, j + 1, m);
    }
}

/// Stripping `a + b` strips `a` and `b` apart when no tag is cut at the
/// join and every block that opens in `a` closes in `a`.
proof fn lemma_strip_split(a: Seq<char>, b: Seq<char>)
    requires
        short_tags_only(a + b),
        tags_whole_at(a + b, a.len() as int),
        blocks_closed(a),
    ensures
        strip_thinking_blocks(a + b) == strip_thinking_blocks(a) + strip_thinking_blocks(b),
{
    lemma_prefix_visible(a, b, 0);
    lemma_shift_visible(a, b, 0);
}

/// A text with short tags only and no open block has every block closed.
proof fn lemma_closed_when_not_open(t: Seq<char>)
    requires
        short_tags_only(t),
        !has_open_block(t),
    ensures
        blocks_closed(t),
{
    reveal_strlit("<think>");
    reveal_strlit("</think>");
    reveal_strlit("</thinking>");
    assert forall|i: int| #[trigger] occurs_at(t, "<think>"@, i) implies exists|j: int|
        i + 7 <= j && #[trigger] occurs_at(t, "</think>"@, j) by {
        assert(opens_at(t, i));
        assert(closed_after(t, i));
        let sub = t.subrange(i, t.len() as int);
        if occurs_in(sub, "</thinking>"@) {
            let p = choose|p: int| #[trigger] occurs_at(sub, "</thinking>"@, p);
            assert(t.subrange(i + p, i + p + 11) =~= sub.subrange(p, p + 11));
            assert(occurs_at(t, "</thinking>"@, i + p));
            assert(false);
        }
        let p = choose|p: int| #[trigger] occurs_at(sub, "</think>"@, p);
        assert(t.subrange(i + p, i + p + 8) =~= sub.subrange(p, p + 8));
        assert(occurs_at(t, "</think>"@, i + p));
        assert(p >= 7) by {
            assert(t[i + p] == '<') by {
                assert(t.subrange(i + p, i + p + 8)[0] == '<');
            }
            if p == 0 {
                assert(t.subrange(i, i + 8)[1] == '/');
                assert(t.subrange(i, i + 7)[1] == 't');
            } else if p < 7 {
                assert(t.subrange(i, i + 7)[p] == t[i + p]);
            }
        }
    }
}

/// Closed blocks on both sides of an uncut join stay closed.
proof fn lemma_closed_concat(a: Seq<char>, b: Seq<char>)
    requires
        blocks_closed(a),
        blocks_closed(b),
        tags_whole_at(a + b, a.len() as int),
    ensures
        blocks_closed(a + b),
{
    lemma_occurs_concat(a, b, "<think>"@);
    lemma_occurs_concat(a, b, "</think>"@);
    reveal_strlit("<think>");
    assert forall|i: int| #[trigger] occurs_at(a + b, "<think>"@, i) implies exists|j: int|
        i + 7 <= j && #[trigger] occurs_at(a + b, "</think>"@, j) by {
        if i + 7 <= a.len() {
            assert(occurs_at(a, "<think>"@, i));
            let m = choose|m: int| i + 7 <= m && #[trigger] occurs_at(a, "</think>"@, m);
            assert(occurs_at(a + b, "</think>"@, m));
        } else if a.len() <= i {
            assert(occurs_at(b, "<think>"@, i - a.len()));
            let m = choose|m: int| i - a.len() + 7 <= m && #[trigger] occurs_at(b, "</think>"@, m);
            assert(occurs_at(a + b, "</think>"@, a.len() + m));
        } else {
            assert(!(i < a.len() && a.len() < i + 7));
        }
    }
}

/// Short tags only, and no tag cut, carry over from the joined chunks to
/// the chunks without the last one.
proof fn lemma_hyps_drop_last(chunks: Seq<Seq<char>>)
    requires
        chunks.len() > 0,
        short_tags_only(joined(chunks)),
        forall|k: int| 0 <= k <= chunks.len() ==> tags_whole_at(joined(chunks), #[trigger] joined(chunks.take(k)).len() as int),
    ensures
        short_tags_only(joined(chunks.drop_last())),
        forall|k: int| 0 <= k <= chunks.drop_last().len() ==> tags_whole_at(
            joined(chunks.drop_last()),
            #[trigger] joined(chunks.drop_last().take(k)).len() as int,
        ),
{
    let pre = chunks.drop_last();
    let a = joined(pre);
    let c = chunks.last();
    assert(joined(chunks) == a + c);
    lemma_short_tags_parts(a, c);
    lemma_occurs_concat(a, c, "<think>"@);
    lemma_occurs_concat(a, c, "</think>"@);
    assert forall|k: int| 0 <= k <= pre.len() implies tags_whole_at(a, #[trigger] joined(pre.take(k)).len() as int) by {
        assert(pre.take(k) =~= chunks.take(k));
        assert(tags_whole_at(joined(chunks), joined(chunks.take(k)).len() as int));
    }
}

/// After the chunks go through one by one, the joined text is a closed
/// prefix (the chunks up to some `j`) followed by the pending tail, what
/// was shown is the stripped prefix, and the tail is empty or holds an
/// open block.
proof fn lemma_run(chunks: Seq<Seq<char>>) -> (j: int)
    requires
        short_tags_only(joined(chunks)),
        forall|k: int| 0 <= k <= chunks.len() ==> tags_whole_at(joined(chunks), #[trigger] joined(chunks.take(k)).len() as int),
    ensures
        0 <= j <= chunks.len(),
        joined(chunks) == joined(chunks.take(j)) + run_deltas(chunks).0,
        run_deltas(chunks).1 == strip_thinking_blocks(joined(chunks.take(j))),
        blocks_closed(joined(chunks.take(j))),
        run_deltas(chunks).0.len() == 0 || has_open_block(run_deltas(chunks).0),
    decreases chunks.len(),
{
    if chunks.len() == 0 {
        assert(chunks.take(0) =~= chunks);
        reveal_strlit("<think>");
        assert(strip_thinking_blocks(Seq::<char>::empty()) =~= Seq::<char>::empty());
        assert(joined(chunks) =~= joined(chunks.take(0)) + run_deltas(chunks).0);
        0
    } else {
        let pre = chunks.drop_last();
        lemma_hyps_drop_last(chunks);
        let j0 = lemma_run(pre);
        assert(pre.take(j0) =~= chunks.take(j0));
        let p = joined(chunks.take(j0));
        let t = run_deltas(pre).0;
        let c = chunks.last();
        let t1 = t + c;
        assert(joined(chunks) =~= p + t1);
        if has_open_block(t1) {
            assert(run_deltas(chunks).0 == t1);
            assert(run_deltas(chunks).1 == run_deltas(pre).1 + emitted_text(None));
            assert(run_deltas(chunks).1 =~= run_deltas(pre).1);
            j0
        } else {
            let n = chunks.len() as int;
            assert(chunks.take(n) =~= chunks);
            assert(tags_whole_at(joined(chunks), joined(chunks.take(j0)).len() as int));
            lemma_short_tags_parts(p, t1);
            lemma_strip_split(p, t1);
            lemma_closed_when_not_open(t1);
            lemma_closed_concat(p, t1);
            let vis = strip_thinking_blocks(t1);
            assert(emitted_text(content_step(true, t, c).1) =~= vis);
            assert(run_deltas(chunks).0 =~= Seq::<char>::empty());
            assert(joined(chunks) =~= joined(chunks.take(n)) + run_deltas(chunks).0);
            n
        }
    }
}

/// Where every block of `p + t` is closed, no block is open in `t`.
proof fn lemma_no_open_tail(p: Seq<char>, t: Seq<char>)
    requires
        short_tags_only(p + t),
        blocks_closed(p + t),
    ensures
        !has_open_block(t),
{
    if has_open_block(t) {
        lemma_short_tags_parts(p, t);
        reveal_strlit("<think>");
        reveal_strlit("</think>");
        reveal_strlit("<thinking");
        let k = choose|k: int| #[trigger] opens_at(t, k) && !closed_after(t, k);
        assert(!occurs_at(t, "<thinking"@, k));
        assert(occurs_at(t, "<think>"@, k));
        lemma_occurs_concat(p, t, "<think>"@);
        lemma_occurs_concat(p, t, "</think>"@);
        assert(occurs_at(p + t, "<think>"@, p.len() + k));
        let m = choose|m: int| p.len() + k + 7 <= m && #[trigger] occurs_at(p + t, "</think>"@, m);
        assert(occurs_at(t, "</think>"@, m - p.len()));
        let sub = t.subrange(k, t.len() as int);
        assert(sub.subrange(m - p.len() - k, m - p.len() - k + 8) =~= t.subrange(m - p.len(), m - p.len() + 8));
        assert(occurs_at(sub, "</think>"@, m - p.len() - k));
    }
}

/// A reply streamed in chunks shows, piece by piece, exactly its visible
/// text as a whole, and nothing stays pending at the end, when its blocks
/// use the tags `<think>` and `</think>` only, no chunk boundary cuts a
/// tag, and every `<think>` is closed by a later `</think>`.
pub proof fn lemma_chunked_strip_is_whole_strip(chunks: Seq<Seq<char>>)
    requires
        short_tags_only(joined(chunks)),
        forall|k: int| 0 <= k <= chunks.len() ==> tags_whole_at(joined(chunks), #[trigger] joined(chunks.take(k)).len() as int),
        blocks_closed(joined(chunks)),
    ensures
        run_deltas(chunks).0.len() == 0,
        run_deltas(chunks).1 == strip_thinking_blocks(joined(chunks)),
{
    let j = lemma_run(chunks);
    let p = joined(chunks.take(j));
    let t = run_deltas(chunks).0;
    if t.len() > 0 {
        lemma_no_open_tail(p, t);
    }
    assert(joined(chunks) =~= p);
}

} // verus!
