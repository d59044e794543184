//! The OpenAI-compatible stream logic shared by OpenAI, MiniMax and Ollama:
//! thinking-tag stripping across chunk boundaries and the translation of
//! wire chunks into stream events.

use crate::provider::types::{EventView, ModelInfo, StreamEvent, Usage};
use crate::text::{chars_occur_at, chars_of, chars_rfind, is_last_occurrence, occurs_at, occurs_in, push_str, string_from_chars};
use vstd::prelude::*;

verus! {

// ---------------------------------------------------------------------
// Thinking blocks
// ---------------------------------------------------------------------
/// Length of the opening tag `<thinking>` or `<think>` at `i`, or 0.
pub open spec fn open_tag_len(s: Seq<char>, i: int) -> int {
    if occurs_at(s, "<thinking>"@, i) {
        10
    } else if occurs_at(s, "<think>"@, i) {
        7
    } else {
        0
    }
}

/// Length of the closing tag `</thinking>` or `</think>` at `j`, or 0.
pub open spec fn close_tag_len(s: Seq<char>, j: int) -> int {
    if occurs_at(s, "</thinking>"@, j) {
        11
    } else if occurs_at(s, "</think>"@, j) {
        8
    } else {
        0
    }
}

/// Some closing tag starts at or after `from`.
pub open spec fn has_close_from(s: Seq<char>, from: int) -> bool {
    exists|j: int| from <= j && #[trigger] close_tag_len(s, j) > 0
}

/// The visible text of `s` from position `i` on: a thinking block runs
/// from an opening tag to the first closing tag after it and is dropped
/// whole; an opening tag with no closing tag after it is ordinary text.
pub open spec fn visible_from(s: Seq<char>, i: int) -> Seq<char>
    decreases s.len() - i, 1int,
{
    if i < 0 || i >= s.len() {
        Seq::empty()
    } else if open_tag_len(s, i) > 0 && has_close_from(s, i + open_tag_len(s, i)) {
        proof {
            reveal_strlit("<thinking>");
            reveal_strlit("<think>");
        }
        inside_from(s, i + open_tag_len(s, i))
    } else {
        seq![s[i]] + visible_from(s, i + 1)
    }
}

/// The visible text after the thinking block that is open at `j`.
pub open spec fn inside_from(s: Seq<char>, j: int) -> Seq<char>
    decreases s.len() - j, 0int,
{
    if j < 0 || j >= s.len() {
        Seq::empty()
    } else if close_tag_len(s, j) > 0 {
        proof {
            reveal_strlit("</thinking>");
            reveal_strlit("</think>");
        }
        visible_from(s, j + close_tag_len(s, j))
    } else {
        inside_from(s, j + 1)
    }
}

/// `s` with every complete thinking block removed.
pub open spec fn strip_thinking_blocks(s: Seq<char>) -> Seq<char> {
    visible_from(s, 0)
}

/// An opening tag starts at `k`: `<think>`, or `<thinking` (which
/// `<thinking>` begins with).
pub open spec fn opens_at(t: Seq<char>, k: int) -> bool {
    occurs_at(t, "<think>"@, k) || occurs_at(t, "<thinking"@, k)
}

/// A closing tag, `</think>` or `</thinking>`, occurs in `t` from `k` on.
pub open spec fn closed_after(t: Seq<char>, k: int) -> bool {
    let after = t.subrange(k, t.len() as int);
    occurs_in(after, "</think>"@) || occurs_in(after, "</thinking>"@)
}

/// The tail is mid-block: some opening tag, of either form, has no closing
/// tag after it.
pub open spec fn has_open_block(t: Seq<char>) -> bool {
    exists|k: int| #[trigger] opens_at(t, k) && !closed_after(t, k)
}

proof fn lemma_inside_to_close(s: Seq<char>, from: int, j: int)
    requires
        0 <= from <= j < s.len(),
        close_tag_len(s, j) > 0,
        forall|k: int| from <= k < j ==> close_tag_len(s, k) == 0,
    ensures
        inside_from(s, from) == visible_from(s, j + close_tag_len(s, j)),
    decreases j - from,
{
    if from < j {
        lemma_inside_to_close(s, from + 1, j);
    }
}

fn lit(s: &str) -> (v: Vec<char>)
    ensures
        v@ == s@,
{
    chars_of(s)
}

fn open_len(s: &[char], i: usize) -> (n: usize)
    ensures
        n == open_tag_len(s@, i as int),
{
    if chars_occur_at(s, lit("<thinking>").as_slice(), i) {
        proof {
            reveal_strlit("<thinking>");
        }
        10
    } else if chars_occur_at(s, lit("<think>").as_slice(), i) {
        proof {
            reveal_strlit("<think>");
        }
        7
    } else {
        0
    }
}

fn close_len(s: &[char], j: usize) -> (n: usize)
    ensures
        n == close_tag_len(s@, j as int),
{
    if chars_occur_at(s, lit("</thinking>").as_slice(), j) {
        proof {
            reveal_strlit("</thinking>");
        }
        11
    } else if chars_occur_at(s, lit("</think>").as_slice(), j) {
        proof {
            reveal_strlit("</think>");
        }
        8
    } else {
        0
    }
}

fn find_close(s: &[char], from: usize) -> (r: Option<usize>)
    ensures
        match r {
            Some(j) => from <= j < s.len() && close_tag_len(s@, j as int) > 0 && forall|k: int|
                from <= k < j ==> close_tag_len(s@, k) == 0,
            None => !has_close_from(s@, from as int),
        },
{
    let mut j: usize = from;
    while j < s.len()
        invariant
            from <= j,
            forall|k: int| from <= k < j ==> close_tag_len(s@, k) == 0,
        decreases s.len() - j,
    {
        if close_len(s, j) > 0 {
            return Some(j);
        }
        j = j + 1;
    }
    proof {
        assert forall|k: int| from <= k implies #[trigger] close_tag_len(s@, k) == 0 by {
            if k >= s@.len() {
                reveal_strlit("</thinking>");
                reveal_strlit("</think>");
            }
        }
    }
    None
}

/// Removes every complete thinking block from `s`.
pub fn strip_thinking(s: &[char]) -> (r: Vec<char>)
    ensures
        r@ == strip_thinking_blocks(s@),
{
    let mut out: Vec<char> = Vec::new();
    let mut i: usize = 0;
    while i < s.len()
        invariant
            i <= s.len(),
            out@ + visible_from(s@, i as int) == strip_thinking_blocks(s@),
        decreases s.len() - i,
    {
        let ol = open_len(s, i);
        if ol > 0 {
            proof {
                reveal_strlit("<thinking>");
                reveal_strlit("<think>");
            }
            match find_close(s, i + ol) {
                Some(j) => {
                    let cl = close_len(s, j);
                    proof {
                        lemma_inside_to_close(s@, i + ol, j as int);
                        reveal_strlit("</thinking>");
                        reveal_strlit("</think>");
                    }
                    i = j + cl;
                    continue ;
                },
                None => {},
            }
        }
        let ghost before = out@;
        out.push(s[i]);
        proof {
            assert(out@ + visible_from(s@, i + 1) =~= before + visible_from(s@, i as int));
        }
        i = i + 1;
    }
    proof {
        assert(out@ =~= out@ + visible_from(s@, i as int));
    }
    out
}

fn suffix(s: &Vec<char>, k: usize) -> (r: Vec<char>)
    requires
        k <= s.len(),
    ensures
        r@ == s@.subrange(k as int, s.len() as int),
{
    let mut r: Vec<char> = Vec::new();
    let mut i: usize = k;
    while i < s.len()
        invariant
            k <= i <= s.len(),
            r@ == s@.subrange(k as int, i as int),
        decreases s.len() - i,
    {
        r.push(s[i]);
        proof {
            assert(r@ =~= s@.subrange(k as int, i + 1));
        }
        i = i + 1;
    }
    r
}

proof fn lemma_closed_after_earlier(t: Seq<char>, j: int, k: int)
    requires
        0 <= j <= k <= t.len(),
        closed_after(t, k),
    ensures
        closed_after(t, j),
{
    let a = t.subrange(k, t.len() as int);
    let b = t.subrange(j, t.len() as int);
    assert forall|p: Seq<char>, i: int| #[trigger] occurs_at(a, p, i) implies occurs_at(b, p, i + (k - j)) by {
        assert(b.subrange(i + (k - j), i + (k - j) + p.len()) =~= a.subrange(i, i + p.len()));
    }
    if occurs_in(a, "</think>"@) {
        let i = choose|i: int| #[trigger] occurs_at(a, "</think>"@, i);
        assert(occurs_at(b, "</think>"@, i + (k - j)));
    } else {
        let i = choose|i: int| #[trigger] occurs_at(a, "</thinking>"@, i);
        assert(occurs_at(b, "</thinking>"@, i + (k - j)));
    }
}

/// Whether the text holds an opening tag, of either form, that no closing
/// tag follows. Only the last opening tag needs looking at: a closing tag
/// after it follows every earlier one too.
pub fn open_block_pending(t: &Vec<char>) -> (r: bool)
    ensures
        r == has_open_block(t@),
{
    let think = lit("<think>");
    let thinking = lit("<thinking");
    let k1 = chars_rfind(t.as_slice(), think.as_slice());
    let k2 = chars_rfind(t.as_slice(), thinking.as_slice());
    let k: usize = match (k1, k2) {
        (None, None) => {
            proof {
                assert forall|k: int| !#[trigger] opens_at(t@, k) by {
                    assert(!occurs_at(t@, "<think>"@, k));
                    assert(!occurs_at(t@, "<thinking"@, k));
                }
            }
            return false;
        },
        (Some(a), None) => a,
        (None, Some(b)) => b,
        (Some(a), Some(b)) => if a < b {
            b
        } else {
            a
        },
    };
    proof {
        reveal_strlit("<think>");
        reveal_strlit("<thinking");
        assert(opens_at(t@, k as int));
        assert(k <= t@.len());
        assert forall|j: int| #[trigger] opens_at(t@, j) implies j <= k by {
            if occurs_at(t@, "<think>"@, j) {
                assert(k1 is Some);
            } else {
                assert(k2 is Some);
            }
        }
    }
    let after = suffix(t, k);
    let c1 = crate::text::chars_contain(after.as_slice(), lit("</think>").as_slice());
    let c2 = crate::text::chars_contain(after.as_slice(), lit("</thinking>").as_slice());
    proof {
        if c1 || c2 {
            assert(closed_after(t@, k as int));
            assert forall|j: int| #[trigger] opens_at(t@, j) implies closed_after(t@, j) by {
                assert(0 <= j);
                lemma_closed_after_earlier(t@, j, k as int);
            }
        } else {
            assert(opens_at(t@, k as int) && !closed_after(t@, k as int));
        }
    }
    !c1 && !c2
}

/// One content delta against the pending tail: the new tail and the
/// visible text emitted, if any.
pub open spec fn content_step(strip: bool, tail: Seq<char>, raw: Seq<char>) -> (Seq<char>, Option<Seq<char>>) {
    if !strip {
        (tail, Some(raw))
    } else {
        let t = tail + raw;
        if has_open_block(t) {
            (t, None)
        } else {
            let vis = strip_thinking_blocks(t);
            (Seq::empty(), if vis.len() == 0 { None } else { Some(vis) })
        }
    }
}

/// The record of emitted visible content, kept when stripping.
pub open spec fn buffered(strip: bool, buf: Seq<char>, emitted: Option<Seq<char>>) -> Seq<char> {
    match emitted {
        Some(v) if strip => buf + v,
        _ => buf,
    }
}

/// Stream-level state of an OpenAI-compatible reply.
pub struct CompatStreamState {
    pub strip_thinking: bool,
    pub has_reasoning: bool,
    /// Content received since the last visible emission; holds an open
    /// thinking block until its closing tag arrives.
    pub thinking_tail: String,
    /// Everything emitted as visible content so far.
    pub content_buf: String,
    pub usage: Option<Usage>,
}

impl CompatStreamState {
    /// A fresh state.
    pub fn new(strip_thinking: bool, has_reasoning: bool) -> (r: Self)
        ensures
            r.strip_thinking == strip_thinking,
            r.has_reasoning == has_reasoning,
            r.thinking_tail@.len() == 0,
            r.content_buf@.len() == 0,
            r.usage is None,
    {
        CompatStreamState {
            strip_thinking,
            has_reasoning,
            thinking_tail: String::new(),
            content_buf: String::new(),
            usage: None,
        }
    }

    /// Processes one content delta. With stripping off, the delta is
    /// visible as it is. With stripping on, the delta joins the pending
    /// tail; while a thinking block is open nothing is emitted, otherwise
    /// the tail minus its complete thinking blocks is emitted (`None` when
    /// that is empty) and the tail is cleared.
    pub fn process_content_delta(&mut self, raw: &str) -> (r: Option<String>)
        ensures
            final(self).strip_thinking == old(self).strip_thinking,
            final(self).has_reasoning == old(self).has_reasoning,
            final(self).usage == old(self).usage,
            ({
                let (tail, emitted) = content_step(old(self).strip_thinking, old(self).thinking_tail@, raw@);
                &&& final(self).thinking_tail@ == tail
                &&& final(self).content_buf@ == buffered(old(self).strip_thinking, old(self).content_buf@, emitted)
                &&& match r {
                    Some(v) => emitted == Some(v@),
                    None => emitted is None,
                }
            }),
    {
        if !self.strip_thinking {
            return Some(raw.to_owned());
        }
        push_str(&mut self.thinking_tail, raw);
        let t = chars_of(self.thinking_tail.as_str());
        if open_block_pending(&t) {
            return None;
        }
        let vis = strip_thinking(t.as_slice());
        self.thinking_tail = String::new();
        if vis.len() == 0 {
            None
        } else {
            let visible = string_from_chars(vis.as_slice());
            push_str(&mut self.content_buf, visible.as_str());
            Some(visible)
        }
    }
}

// ---------------------------------------------------------------------
// Wire chunks
// ---------------------------------------------------------------------
/// Configuration shared by every OpenAI-compatible provider.
#[derive(Debug, Clone)]
pub struct OpenAICompatConfig {
    pub label: String,
    pub base_url: String,
    pub api_key: String,
    pub default_model: String,
    pub extra_models: Vec<ModelInfo>,
    /// Strip `<thinking>...</thinking>` tags from delta text (MiniMax).
    pub strip_thinking_tags: bool,
    /// Whether the provider emits a `reasoning` channel beside `content`.
    pub has_reasoning_channel: bool,
}

/// One SSE chunk from the wire.
#[derive(Debug)]
pub struct WireChunk {
    pub choices: Vec<WireChoice>,
    pub usage: Option<WireUsage>,
}

/// One choice of a chunk.
#[derive(Debug)]
pub struct WireChoice {
    pub delta: WireDelta,
    pub finish_reason: Option<String>,
}

/// The delta carried by a choice.
#[derive(Debug)]
pub struct WireDelta {
    pub content: Option<String>,
    pub reasoning: Option<String>,
    pub tool_calls: Option<Vec<WireToolCall>>,
}

/// A tool-call fragment.
#[derive(Debug)]
pub struct WireToolCall {
    pub id: Option<String>,
    pub index: Option<usize>,
    pub function: Option<WireFunction>,
}

/// The function part of a tool-call fragment.
#[derive(Debug)]
pub struct WireFunction {
    pub name: Option<String>,
    pub arguments: Option<String>,
}

/// Token counts reported on the wire.
#[derive(Debug)]
pub struct WireUsage {
    pub prompt_tokens: Option<u32>,
    pub completion_tokens: Option<u32>,
}

/// The text of an optional string, empty when absent.
pub open spec fn text_or_empty(o: Option<String>) -> Seq<char> {
    match o {
        Some(s) => s@,
        None => Seq::empty(),
    }
}

/// The events of one tool-call fragment: a start when it carries an id,
/// then a delta when it carries arguments. A missing index counts as 0.
pub open spec fn tool_call_events(tc: WireToolCall) -> Seq<EventView> {
    let idx: nat = match tc.index {
        Some(i) => i as nat,
        None => 0,
    };
    let start = match tc.id {
        Some(id) => seq![
            EventView::ToolCallStart {
                id: id@,
                name: match tc.function {
                    Some(f) => text_or_empty(f.name),
                    None => Seq::empty(),
                },
                index: idx,
            },
        ],
        None => Seq::empty(),
    };
    let delta = match tc.function {
        Some(f) => match f.arguments {
            Some(a) => seq![EventView::ToolCallDelta { index: idx, arguments_delta: a@ }],
            None => Seq::empty(),
        },
        None => Seq::empty(),
    };
    start + delta
}

/// The events of a list of tool-call fragments, in order.
pub open spec fn tool_calls_events(tcs: Seq<WireToolCall>) -> Seq<EventView>
    decreases tcs.len(),
{
    if tcs.len() == 0 {
        Seq::empty()
    } else {
        tool_calls_events(tcs.drop_last()) + tool_call_events(tcs.last())
    }
}

/// What the choices of a chunk have produced so far.
pub struct ChunkAcc {
    pub events: Seq<EventView>,
    pub tail: Seq<char>,
    pub buf: Seq<char>,
    pub done: bool,
}

/// One choice: its reasoning (when the provider has that channel), its
/// visible content, its tool-call fragments, and `Done` when it carries a
/// finish reason, after which the chunk is over.
pub open spec fn choice_step(
    strip: bool,
    has_reasoning: bool,
    usage: Option<Usage>,
    acc: ChunkAcc,
    c: WireChoice,
) -> ChunkAcc {
    if acc.done {
        acc
    } else {
        let e1 = match c.delta.reasoning {
            Some(r) if has_reasoning && r@.len() > 0 => seq![EventView::ReasoningDelta { text: r@ }],
            _ => Seq::empty(),
        };
        let (tail1, emitted) = match c.delta.content {
            Some(x) => content_step(strip, acc.tail, x@),
            None => (acc.tail, None),
        };
        let buf1 = buffered(strip, acc.buf, emitted);
        let e2 = match emitted {
            Some(v) => seq![EventView::Delta { text: v }],
            None => Seq::empty(),
        };
        let e3 = match c.delta.tool_calls {
            Some(tcs) => tool_calls_events(tcs@),
            None => Seq::empty(),
        };
        let e4 = match c.finish_reason {
            Some(r) => seq![EventView::Done { stop_reason: r@, usage }],
            None => Seq::empty(),
        };
        ChunkAcc {
            events: acc.events + e1 + e2 + e3 + e4,
            tail: tail1,
            buf: buf1,
            done: c.finish_reason is Some,
        }
    }
}

/// All choices of a chunk, in order.
pub open spec fn choices_acc(
    strip: bool,
    has_reasoning: bool,
    usage: Option<Usage>,
    acc0: ChunkAcc,
    cs: Seq<WireChoice>,
) -> ChunkAcc
    decreases cs.len(),
{
    if cs.len() == 0 {
        acc0
    } else {
        choice_step(
            strip,
            has_reasoning,
            usage,
            choices_acc(strip, has_reasoning, usage, acc0, cs.drop_last()),
            cs.last(),
        )
    }
}

/// The usage after a chunk: the chunk's counts (missing ones as 0) when it
/// reports usage, the previous usage otherwise.
pub open spec fn usage_after(prev: Option<Usage>, u: Option<WireUsage>) -> Option<Usage> {
    match u {
        Some(w) => Some(
            Usage {
                input_tokens: match w.prompt_tokens {
                    Some(n) => n,
                    None => 0,
                },
                output_tokens: match w.completion_tokens {
                    Some(n) => n,
                    None => 0,
                },
                reasoning_tokens: None,
            },
        ),
        None => prev,
    }
}

/// Whether an event ends a stream: `Done` or `Error`.
pub open spec fn is_terminal(e: EventView) -> bool {
    e is Done || e is Error
}

/// No event before the last ends the stream, and `over` says whether the
/// last one does.
pub open spec fn ends_at_most_once(evs: Seq<EventView>, over: bool) -> bool {
    &&& forall|i: int| 0 <= i < evs.len() - 1 ==> !is_terminal(#[trigger] evs[i])
    &&& over <==> (evs.len() > 0 && is_terminal(evs.last()))
}

proof fn lemma_tool_calls_not_terminal(tcs: Seq<WireToolCall>)
    ensures
        forall|i: int| 0 <= i < tool_calls_events(tcs).len() ==> !is_terminal(
            #[trigger] tool_calls_events(tcs)[i],
        ),
    decreases tcs.len(),
{
    if tcs.len() > 0 {
        lemma_tool_calls_not_terminal(tcs.drop_last());
        let a = tool_calls_events(tcs.drop_last());
        let b = tool_call_events(tcs.last());
        assert(tool_calls_events(tcs) == a + b);
        assert forall|i: int| 0 <= i < (a + b).len() implies !is_terminal(#[trigger] (a + b)[i]) by {
            if i >= a.len() {
                assert((a + b)[i] == b[i - a.len()]);
            } else {
                assert((a + b)[i] == a[i]);
            }
        }
    }
}

#[verifier::spinoff_prover]
#[verifier::rlimit(40)]
proof fn lemma_choices_end_once(
    strip: bool,
    hr: bool,
    usage: Option<Usage>,
    acc0: ChunkAcc,
    cs: Seq<WireChoice>,
)
    requires
        !acc0.done,
        forall|i: int| 0 <= i < acc0.events.len() ==> !is_terminal(#[trigger] acc0.events[i]),
    ensures
        ends_at_most_once(
            choices_acc(strip, hr, usage, acc0, cs).events,
            choices_acc(strip, hr, usage, acc0, cs).done,
        ),
    decreases cs.len(),
{
    if cs.len() == 0 {
    } else {
        lemma_choices_end_once(strip, hr, usage, acc0, cs.drop_last());
        let prev = choices_acc(strip, hr, usage, acc0, cs.drop_last());
        let c = cs.last();
        if !prev.done {
            let e1 = match c.delta.reasoning {
                Some(r) if hr && r@.len() > 0 => seq![EventView::ReasoningDelta { text: r@ }],
                _ => Seq::<EventView>::empty(),
            };
            let (tail1, emitted) = match c.delta.content {
                Some(x) => content_step(strip, prev.tail, x@),
                None => (prev.tail, None),
            };
            let e2 = match emitted {
                Some(v) => seq![EventView::Delta { text: v }],
                None => Seq::<EventView>::empty(),
            };
            let e3 = match c.delta.tool_calls {
                Some(tcs) => tool_calls_events(tcs@),
                None => Seq::<EventView>::empty(),
            };
            let e4 = match c.finish_reason {
                Some(r) => seq![EventView::Done { stop_reason: r@, usage }],
                None => Seq::<EventView>::empty(),
            };
            match c.delta.tool_calls {
                Some(tcs) => lemma_tool_calls_not_terminal(tcs@),
                None => {},
            }
            let body = prev.events + e1 + e2 + e3;
            assert forall|i: int| 0 <= i < body.len() implies !is_terminal(#[trigger] body[i]) by {
                if i < prev.events.len() {
                    assert(body[i] == prev.events[i]);
                } else if i < prev.events.len() + e1.len() {
                    assert(body[i] == e1[i - prev.events.len()]);
                } else if i < prev.events.len() + e1.len() + e2.len() {
                    assert(body[i] == e2[i - prev.events.len() - e1.len()]);
                } else {
                    assert(body[i] == e3[i - prev.events.len() - e1.len() - e2.len()]);
                }
            }
            let next = choices_acc(strip, hr, usage, acc0, cs);
            assert(next.events == body + e4);
            assert(next.done == c.finish_reason is Some);
            assert forall|i: int| 0 <= i < next.events.len() - 1 implies !is_terminal(
                #[trigger] next.events[i],
            ) by {
                assert(next.events[i] == body[i]);
            }
            if c.finish_reason is None {
                assert(next.events == body);
                if body.len() > 0 {
                    assert(!is_terminal(body[body.len() - 1]));
                }
            }
        }
    }
}

/// The events of a stream driven step by step, in order.
pub open spec fn stream_events(steps: Seq<(Seq<EventView>, bool)>) -> Seq<EventView>
    decreases steps.len(),
{
    if steps.len() == 0 {
        Seq::empty()
    } else {
        stream_events(steps.drop_last()) + steps.last().0
    }
}

proof fn lemma_no_terminal_before_end(steps: Seq<(Seq<EventView>, bool)>)
    requires
        forall|k: int| 0 <= k < steps.len() ==> ends_at_most_once(#[trigger] steps[k].0, steps[k].1),
        forall|k: int| 0 <= k < steps.len() ==> !(#[trigger] steps[k].1),
    ensures
        forall|i: int| 0 <= i < stream_events(steps).len() ==> !is_terminal(#[trigger] stream_events(steps)[i]),
    decreases steps.len(),
{
    if steps.len() > 0 {
        let pre = steps.drop_last();
        assert forall|k: int| 0 <= k < pre.len() implies ends_at_most_once(#[trigger] pre[k].0, pre[k].1)
            && !pre[k].1 by {
            assert(pre[k] == steps[k]);
        }
        lemma_no_terminal_before_end(pre);
        let a = stream_events(pre);
        let b = steps.last().0;
        assert(ends_at_most_once(steps[steps.len() - 1].0, steps[steps.len() - 1].1));
        assert(!steps[steps.len() - 1].1);
        assert forall|i: int| 0 <= i < (a + b).len() implies !is_terminal(#[trigger] (a + b)[i]) by {
            if i < a.len() {
                assert((a + b)[i] == a[i]);
            } else {
                assert((a + b)[i] == b[i - a.len()]);
                if i - a.len() == b.len() - 1 {
                    assert(b.last() == b[i - a.len()]);
                }
            }
        }
    }
}

/// A stream that is driven step by step (one SSE message through
/// [`CompatStreamState::on_message`], or one transport failure or the close
/// through the functions that give its single event), where every step
/// ends at most once and the driver stops at the first step that ends the
/// stream, carries exactly one terminal event, and it comes last.
pub proof fn lemma_stream_ends_once(steps: Seq<(Seq<EventView>, bool)>)
    requires
        steps.len() > 0,
        forall|k: int| 0 <= k < steps.len() ==> ends_at_most_once(#[trigger] steps[k].0, steps[k].1),
        forall|k: int| 0 <= k < steps.len() - 1 ==> !(#[trigger] steps[k].1),
        steps.last().1,
    ensures
        stream_events(steps).len() > 0,
        is_terminal(stream_events(steps).last()),
        forall|i: int| 0 <= i < stream_events(steps).len() - 1 ==> !is_terminal(#[trigger] stream_events(steps)[i]),
{
    let pre = steps.drop_last();
    assert forall|k: int| 0 <= k < pre.len() implies ends_at_most_once(#[trigger] pre[k].0, pre[k].1)
        && !pre[k].1 by {
        assert(pre[k] == steps[k]);
    }
    lemma_no_terminal_before_end(pre);
    let a = stream_events(pre);
    let b = steps.last().0;
    assert(ends_at_most_once(steps[steps.len() - 1].0, steps[steps.len() - 1].1));
    assert(stream_events(steps) == a + b);
    assert((a + b).last() == b.last());
    assert forall|i: int| 0 <= i < (a + b).len() - 1 implies !is_terminal(#[trigger] (a + b)[i]) by {
        if i < a.len() {
            assert((a + b)[i] == a[i]);
        } else {
            assert((a + b)[i] == b[i - a.len()]);
        }
    }
}

/// Every `Done` among the events reports the usage `usage`.
pub open spec fn dones_carry(evs: Seq<EventView>, usage: Option<Usage>) -> bool {
    forall|i: int| 0 <= i < evs.len() ==> (#[trigger] evs[i] matches EventView::Done { usage: u, .. }
        ==> u == usage)
}

#[verifier::spinoff_prover]
#[verifier::rlimit(40)]
proof fn lemma_choices_done_usage(
    strip: bool,
    hr: bool,
    usage: Option<Usage>,
    acc0: ChunkAcc,
    cs: Seq<WireChoice>,
)
    requires
        dones_carry(acc0.events, usage),
    ensures
        dones_carry(choices_acc(strip, hr, usage, acc0, cs).events, usage),
    decreases cs.len(),
{
    if cs.len() > 0 {
        lemma_choices_done_usage(strip, hr, usage, acc0, cs.drop_last());
        let prev = choices_acc(strip, hr, usage, acc0, cs.drop_last());
        let c = cs.last();
        if !prev.done {
            let e1 = match c.delta.reasoning {
                Some(r) if hr && r@.len() > 0 => seq![EventView::ReasoningDelta { text: r@ }],
                _ => Seq::<EventView>::empty(),
            };
            let (tail1, emitted) = match c.delta.content {
                Some(x) => content_step(strip, prev.tail, x@),
                None => (prev.tail, None),
            };
            let e2 = match emitted {
                Some(v) => seq![EventView::Delta { text: v }],
                None => Seq::<EventView>::empty(),
            };
            let e3 = match c.delta.tool_calls {
                Some(tcs) => tool_calls_events(tcs@),
                None => Seq::<EventView>::empty(),
            };
            let e4 = match c.finish_reason {
                Some(r) => seq![EventView::Done { stop_reason: r@, usage }],
                None => Seq::<EventView>::empty(),
            };
            match c.delta.tool_calls {
                Some(tcs) => lemma_tool_calls_not_terminal(tcs@),
                None => {},
            }
            let all = prev.events + e1 + e2 + e3 + e4;
            assert(choices_acc(strip, hr, usage, acc0, cs).events == all);
            assert forall|i: int| 0 <= i < all.len() implies (#[trigger] all[i] matches EventView::Done {
                usage: u,
                ..
            } ==> u == usage) by {
                let n0 = prev.events.len();
                let n1 = n0 + e1.len();
                let n2 = n1 + e2.len();
                let n3 = n2 + e3.len();
                if i < n0 {
                    assert(all[i] == prev.events[i]);
                } else if i < n1 {
                    assert(all[i] == e1[i - n0]);
                } else if i < n2 {
                    assert(all[i] == e2[i - n1]);
                } else if i < n3 {
                    assert(all[i] == e3[i - n2]);
                    assert(!is_terminal(e3[i - n2]));
                } else {
                    assert(all[i] == e4[i - n3]);
                }
            }
        }
    }
}

/// A chunk that reports no usage keeps the usage reported before it; a
/// chunk that reports usage replaces it, missing counts as 0. So after
/// any chunks, the usage is the last one reported.
pub proof fn lemma_usage_is_last_reported(prev: Option<Usage>, u: Option<WireUsage>)
    ensures
        u is None ==> usage_after(prev, u) == prev,
        u matches Some(w) ==> (usage_after(prev, u) matches Some(x) && x.reasoning_tokens is None
            && (w.prompt_tokens matches Some(n) ==> x.input_tokens == n) && (w.prompt_tokens is None
            ==> x.input_tokens == 0) && (w.completion_tokens matches Some(n) ==> x.output_tokens
            == n) && (w.completion_tokens is None ==> x.output_tokens == 0)),
{
}

/// Two chunks in a row: the second keeps the first one's usage unless it
/// reports its own.
pub proof fn lemma_usage_survives_a_silent_chunk(prev: Option<Usage>, w: WireUsage)
    ensures
        usage_after(usage_after(prev, Some(w)), None) == usage_after(prev, Some(w)),
        usage_after(prev, Some(w)) is Some,
{
}

proof fn lemma_done_stays(
    strip: bool,
    hr: bool,
    usage: Option<Usage>,
    acc0: ChunkAcc,
    cs: Seq<WireChoice>,
    i: int,
)
    requires
        0 <= i <= cs.len(),
        choices_acc(strip, hr, usage, acc0, cs.take(i)).done,
    ensures
        choices_acc(strip, hr, usage, acc0, cs) == choices_acc(strip, hr, usage, acc0, cs.take(i)),
    decreases cs.len() - i,
{
    if i == cs.len() {
        assert(cs.take(i) =~= cs);
    } else {
        assert(cs.take(i + 1).drop_last() =~= cs.take(i));
        assert(cs.take(i + 1).last() == cs[i]);
        assert(choices_acc(strip, hr, usage, acc0, cs.take(i + 1)) == choices_acc(
            strip,
            hr,
            usage,
            acc0,
            cs.take(i),
        ));
        lemma_done_stays(strip, hr, usage, acc0, cs, i + 1);
    }
}

fn push_tool_call_events(out: &mut Vec<StreamEvent>, tcs: &Vec<WireToolCall>)
    ensures
        final(out)@.map_values(|e: StreamEvent| e@) == old(out)@.map_values(|e: StreamEvent| e@)
            + tool_calls_events(tcs@),
{
    let mut i: usize = 0;
    while i < tcs.len()
        invariant
            i <= tcs.len(),
            out@.map_values(|e: StreamEvent| e@) == old(out)@.map_values(|e: StreamEvent| e@)
                + tool_calls_events(tcs@.take(i as int)),
        decreases tcs.len() - i,
    {
        let ghost before = out@.map_values(|e: StreamEvent| e@);
        let tc = &tcs[i];
        let idx: usize = match tc.index {
            Some(k) => k,
            None => 0,
        };
        match &tc.id {
            Some(id) => {
                let name = match &tc.function {
                    Some(f) => match &f.name {
                        Some(n) => n.clone(),
                        None => String::new(),
                    },
                    None => String::new(),
                };
                out.push(StreamEvent::ToolCallStart { id: id.clone(), name, index: idx });
            },
            None => {},
        }
        match &tc.function {
            Some(f) => match &f.arguments {
                Some(a) => {
                    out.push(StreamEvent::ToolCallDelta { index: idx, arguments_delta: a.clone() });
                },
                None => {},
            },
            None => {},
        }
        proof {
            assert(tcs@.take(i + 1).drop_last() =~= tcs@.take(i as int));
            assert(tcs@.take(i + 1).last() == tcs@[i as int]);
            assert(out@.map_values(|e: StreamEvent| e@) =~= before + tool_call_events(tcs@[i as int]));
        }
        i = i + 1;
    }
    proof {
        assert(tcs@.take(tcs.len() as int) =~= tcs@);
    }
}

/// The first `n` characters of `s`.
pub fn first_chars(s: &str, n: usize) -> (r: String)
    ensures
        r@ == (if s@.len() <= n {
            s@
        } else {
            s@.take(n as int)
        }),
{
    let v = chars_of(s);
    if v.len() <= n {
        string_from_chars(v.as_slice())
    } else {
        let mut r = String::new();
        let mut i: usize = 0;
        while i < n
            invariant
                i <= n < v.len(),
                r@ == v@.take(i as int),
            decreases n - i,
        {
            crate::text::push_char(&mut r, v[i]);
            proof {
                assert(r@ =~= v@.take(i + 1));
            }
            i = i + 1;
        }
        r
    }
}

impl CompatStreamState {
    /// One SSE message. `data` is its payload; `chunk` is that payload parsed
    /// as a wire chunk, or `None` when it did not parse. `[DONE]` ends the
    /// stream; an unparsable payload is skipped; a chunk updates the usage and
    /// yields the events of its choices. The flag says whether the stream is
    /// over: at most one terminal event comes, last, exactly when it is. Every
    /// `Done` reports the usage of the last chunk that carried one.
    pub fn on_message(&mut self, data: &str, chunk: Option<WireChunk>) -> (r: (Vec<StreamEvent>, bool))
        ensures
            final(self).strip_thinking == old(self).strip_thinking,
            final(self).has_reasoning == old(self).has_reasoning,
            data@ == "[DONE]"@ ==> {
                &&& r.0@.map_values(|e: StreamEvent| e@) == seq![
                    EventView::Done { stop_reason: "stop"@, usage: old(self).usage },
                ]
                &&& r.1
                &&& *final(self) == *old(self)
            },
            data@ != "[DONE]"@ && chunk is None ==> {
                &&& r.0@.len() == 0
                &&& !r.1
                &&& *final(self) == *old(self)
            },
            ends_at_most_once(r.0@.map_values(|e: StreamEvent| e@), r.1),
            dones_carry(r.0@.map_values(|e: StreamEvent| e@), final(self).usage),
            chunk matches Some(c) ==> (c.usage is None ==> final(self).usage == old(self).usage),
            chunk is None ==> final(self).usage == old(self).usage,
            data@ != "[DONE]"@ && chunk is Some ==> {
                let c = chunk->0;
                let usage = usage_after(old(self).usage, c.usage);
                let acc = choices_acc(
                    old(self).strip_thinking,
                    old(self).has_reasoning,
                    usage,
                    ChunkAcc {
                        events: Seq::empty(),
                        tail: old(self).thinking_tail@,
                        buf: old(self).content_buf@,
                        done: false,
                    },
                    c.choices@,
                );
                &&& r.0@.map_values(|e: StreamEvent| e@) == acc.events
                &&& r.1 == acc.done
                &&& final(self).usage == usage
                &&& final(self).thinking_tail@ == acc.tail
                &&& final(self).content_buf@ == acc.buf
            },
    {
        let mut events: Vec<StreamEvent> = Vec::new();
        if crate::conversation::same_text(data, "[DONE]") {
            let mut stop = String::new();
            push_str(&mut stop, "stop");
            events.push(StreamEvent::Done { stop_reason: stop, usage: self.usage });
            proof {
                assert(events@.map_values(|e: StreamEvent| e@) =~= seq![
                    EventView::Done { stop_reason: "stop"@, usage: old(self).usage },
                ]);
            }
            return (events, true);
        }
        let c = match chunk {
            Some(c) => c,
            None => {
                return (events, false);
            },
        };
        match &c.usage {
            Some(u) => {
                self.usage = Some(
                    Usage {
                        input_tokens: match u.prompt_tokens {
                            Some(n) => n,
                            None => 0,
                        },
                        output_tokens: match u.completion_tokens {
                            Some(n) => n,
                            None => 0,
                        },
                        reasoning_tokens: None,
                    },
                );
            },
            None => {},
        }
        let ghost usage = self.usage;
        assert(usage == usage_after(old(self).usage, c.usage));
        let ghost acc0 = ChunkAcc {
            events: Seq::empty(),
            tail: old(self).thinking_tail@,
            buf: old(self).content_buf@,
            done: false,
        };
        let ghost cs = c.choices@;
        proof {
            lemma_choices_end_once(self.strip_thinking, self.has_reasoning, usage, acc0, cs);
            lemma_choices_done_usage(self.strip_thinking, self.has_reasoning, usage, acc0, cs);
        }
        let mut i: usize = 0;
        while i < c.choices.len()
            invariant
                i <= c.choices.len(),
                cs == c.choices@,
                data@ != "[DONE]"@,
                chunk matches Some(cc) && cc.choices@ == cs && usage == usage_after(
                    old(self).usage,
                    cc.usage,
                ),
                usage == self.usage,
                acc0 == (ChunkAcc {
                    events: Seq::empty(),
                    tail: old(self).thinking_tail@,
                    buf: old(self).content_buf@,
                    done: false,
                }),
                self.strip_thinking == old(self).strip_thinking,
                self.has_reasoning == old(self).has_reasoning,
                ({
                    let acc = choices_acc(self.strip_thinking, self.has_reasoning, usage, acc0, cs.take(i as int));
                    &&& !acc.done
                    &&& events@.map_values(|e: StreamEvent| e@) == acc.events
                    &&& self.thinking_tail@ == acc.tail
                    &&& self.content_buf@ == acc.buf
                }),
            decreases c.choices.len() - i,
        {
            let ghost prev = choices_acc(self.strip_thinking, self.has_reasoning, usage, acc0, cs.take(i as int));
            proof {
                assert(cs.take(i + 1).drop_last() =~= cs.take(i as int));
                assert(cs.take(i + 1).last() == cs[i as int]);
                assert(prev == ChunkAcc {
                    events: events@.map_values(|e: StreamEvent| e@),
                    tail: self.thinking_tail@,
                    buf: self.content_buf@,
                    done: false,
                });
            }
            let done = self.process_choice(&c.choices[i], &mut events);
            proof {
                let next = choices_acc(self.strip_thinking, self.has_reasoning, usage, acc0, cs.take(i + 1));
                assert(next == choice_step(self.strip_thinking, self.has_reasoning, usage, prev, cs[i as int]));
            }
            if done {
                proof {
                    lemma_done_stays(self.strip_thinking, self.has_reasoning, usage, acc0, cs, i + 1);
                    lemma_choices_end_once(self.strip_thinking, self.has_reasoning, usage, acc0, cs);
                    lemma_choices_done_usage(self.strip_thinking, self.has_reasoning, usage, acc0, cs);
                }
                return (events, true);
            }
            i = i + 1;
        }
        proof {
            assert(cs.take(c.choices.len() as int) =~= cs);
        }
        (events, false)
    }

    fn process_choice(&mut self, choice: &WireChoice, events: &mut Vec<StreamEvent>) -> (done: bool)
        ensures
            final(self).strip_thinking == old(self).strip_thinking,
            final(self).has_reasoning == old(self).has_reasoning,
            final(self).usage == old(self).usage,
            ({
                let acc = ChunkAcc {
                    events: old(events)@.map_values(|e: StreamEvent| e@),
                    tail: old(self).thinking_tail@,
                    buf: old(self).content_buf@,
                    done: false,
                };
                let st = choice_step(old(self).strip_thinking, old(self).has_reasoning, old(self).usage, acc, *choice);
                &&& final(events)@.map_values(|e: StreamEvent| e@) == st.events
                &&& final(self).thinking_tail@ == st.tail
                &&& final(self).content_buf@ == st.buf
                &&& done == st.done
            }),
    {
        let ghost ev0 = events@.map_values(|e: StreamEvent| e@);
        if self.has_reasoning {
            match &choice.delta.reasoning {
                Some(r) => {
                    if !r.as_str().is_empty() {
                        events.push(StreamEvent::ReasoningDelta { text: r.clone() });
                    }
                },
                None => {},
            }
        }
        let ghost ev1 = events@.map_values(|e: StreamEvent| e@);
        match &choice.delta.content {
            Some(x) => {
                match self.process_content_delta(x.as_str()) {
                    Some(visible) => {
                        events.push(StreamEvent::Delta { text: visible });
                    },
                    None => {},
                }
            },
            None => {},
        }
        let ghost ev2 = events@.map_values(|e: StreamEvent| e@);
        match &choice.delta.tool_calls {
            Some(tcs) => {
                push_tool_call_events(events, tcs);
            },
            None => {},
        }
        let ghost ev3 = events@.map_values(|e: StreamEvent| e@);
        proof {
            let ch = *choice;
            let e1 = match ch.delta.reasoning {
                Some(r) if self.has_reasoning && r@.len() > 0 => seq![EventView::ReasoningDelta { text: r@ }],
                _ => Seq::<EventView>::empty(),
            };
            let (tail1, emitted) = match ch.delta.content {
                Some(x) => content_step(self.strip_thinking, old(self).thinking_tail@, x@),
                None => (old(self).thinking_tail@, None),
            };
            let e2 = match emitted {
                Some(v) => seq![EventView::Delta { text: v }],
                None => Seq::<EventView>::empty(),
            };
            let e3 = match ch.delta.tool_calls {
                Some(tcs) => tool_calls_events(tcs@),
                None => Seq::<EventView>::empty(),
            };
            assert(ev1 =~= ev0 + e1);
            assert(ev2 =~= ev1 + e2);
            assert(ev3 =~= ev2 + e3);
        }
        match &choice.finish_reason {
            Some(reason) => {
                events.push(StreamEvent::Done { stop_reason: reason.clone(), usage: self.usage });
                proof {
                    assert(events@.map_values(|e: StreamEvent| e@) =~= ev3.push(
                        EventView::Done { stop_reason: reason@, usage: self.usage },
                    ));
                }
                true
            },
            None => false,
        }
    }

    /// The event when the stream ends without a `Done`.
    pub fn on_stream_closed(&self) -> (e: StreamEvent)
        ensures
            e@ == (EventView::Done { stop_reason: "stream_closed"@, usage: self.usage }),
    {
        let mut stop = String::new();
        push_str(&mut stop, "stream_closed");
        StreamEvent::Done { stop_reason: stop, usage: self.usage }
    }
}

/// The event for an HTTP error reply: the status line and the first 500
/// characters of the body; retriable for server errors and 429.
pub fn http_error_event(status_line: &str, status_code: u16, body: &str) -> (e: StreamEvent)
    ensures
        e@ == (EventView::Error {
            message: "HTTP "@ + status_line@ + " — "@ + (if body@.len() <= 500 {
                body@
            } else {
                body@.take(500)
            }),
            retriable: (500 <= status_code <= 599) || status_code == 429,
        }),
{
    let mut m = String::new();
    push_str(&mut m, "HTTP ");
    push_str(&mut m, status_line);
    push_str(&mut m, " — ");
    let b = first_chars(body, 500);
    push_str(&mut m, b.as_str());
    StreamEvent::Error {
        message: m,
        retriable: (500 <= status_code && status_code <= 599) || status_code == 429,
    }
}

/// The event for a reply with the wrong content type.
pub fn content_type_error_event(body: &str) -> (e: StreamEvent)
    ensures
        e@ == (EventView::Error {
            message: "invalid content-type — "@ + (if body@.len() <= 500 {
                body@
            } else {
                body@.take(500)
            }),
            retriable: false,
        }),
{
    let mut m = String::new();
    push_str(&mut m, "invalid content-type — ");
    let b = first_chars(body, 500);
    push_str(&mut m, b.as_str());
    StreamEvent::Error { message: m, retriable: false }
}

/// The event for any other transport failure.
pub fn transport_error_event(message: &str) -> (e: StreamEvent)
    ensures
        e@ == (EventView::Error { message: "SSE error: "@ + message@, retriable: true }),
{
    let mut m = String::new();
    push_str(&mut m, "SSE error: ");
    push_str(&mut m, message);
    StreamEvent::Error { message: m, retriable: true }
}

} // verus!
