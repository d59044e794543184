//! SSE wire-format helpers.

use crate::conversation::same_text;
use crate::error::{HubError, HubResult};
use crate::mcp::{trim_text, trimmed};
use crate::text::{chars_of, starts_with, string_from_chars};
use vstd::prelude::*;
use vstd::utf8::{decode_utf8, valid_utf8};

verus! {

/// Marker for an SSE byte stream in signatures.
pub struct SseStream;

/// `std::str::from_utf8`: the text when the bytes are valid UTF-8,
/// `None` otherwise.
#[verifier::external_body]
fn utf8_text(bytes: &[u8]) -> (r: Option<&str>)
    ensures
        match r {
            Some(s) => valid_utf8(bytes@) && s@ == decode_utf8(bytes@),
            None => !valid_utf8(bytes@),
        },
{
    match std::str::from_utf8(bytes) {
        Ok(s) => Some(s),
        Err(_) => None,
    }
}

/// The pieces of `s` between `\n` characters, as `str::split('\n')` gives
/// them.
pub open spec fn split_lines(s: Seq<char>) -> Seq<Seq<char>>
    decreases s.len(),
{
    if s.len() == 0 {
        seq![Seq::empty()]
    } else {
        let ls = split_lines(s.drop_last());
        if s.last() == '\n' {
            ls.push(Seq::empty())
        } else {
            ls.update(ls.len() - 1, ls.last().push(s.last()))
        }
    }
}

/// The payloads of the `data: ` lines among `ls`, without the prefix.
pub open spec fn data_lines(ls: Seq<Seq<char>>) -> Seq<Seq<char>>
    decreases ls.len(),
{
    if ls.len() == 0 {
        Seq::empty()
    } else {
        let before = data_lines(ls.drop_last());
        if starts_with(ls.last(), "data: "@) {
            before.push(ls.last().skip(6))
        } else {
            before
        }
    }
}

proof fn lemma_split_lines_nonempty(s: Seq<char>)
    ensures
        split_lines(s).len() >= 1,
    decreases s.len(),
{
    if s.len() > 0 {
        lemma_split_lines_nonempty(s.drop_last());
    }
}

/// The text of a byte buffer split into lines: empty for an empty buffer
/// or one that is not valid UTF-8.
pub open spec fn buffer_text(buf: Seq<u8>) -> Seq<char> {
    if valid_utf8(buf) {
        decode_utf8(buf)
    } else {
        Seq::empty()
    }
}

/// The `data: ` payloads (without the prefix) among the first `drain_to`
/// lines of an SSE buffer; nothing for an empty buffer.
pub fn data_payloads(buf: &[u8], drain_to: usize) -> (out: Vec<String>)
    ensures
        buf@.len() == 0 ==> out@.len() == 0,
        buf@.len() > 0 ==> out@.map_values(|s: String| s@) == data_lines(
            split_lines(buffer_text(buf@)).take(
                if drain_to < split_lines(buffer_text(buf@)).len() {
                    drain_to as int
                } else {
                    split_lines(buffer_text(buf@)).len() as int
                },
            ),
        ),
{
    let mut out: Vec<String> = Vec::new();
    if buf.len() == 0 {
        return out;
    }
    let text = match utf8_text(buf) {
        Some(s) => chars_of(s),
        None => Vec::new(),
    };
    proof {
        assert(text@ == buffer_text(buf@));
    }
    let mut lines: Vec<Vec<char>> = Vec::new();
    lines.push(Vec::new());
    let mut i: usize = 0;
    while i < text.len()
        invariant
            i <= text.len(),
            lines@.len() >= 1,
            lines@.map_values(|l: Vec<char>| l@) == split_lines(text@.take(i as int)),
        decreases text.len() - i,
    {
        let ghost before = lines@.map_values(|l: Vec<char>| l@);
        proof {
            assert(text@.take(i + 1).drop_last() =~= text@.take(i as int));
            assert(text@.take(i + 1).last() == text@[i as int]);
        }
        if text[i] == '\n' {
            lines.push(Vec::new());
            proof {
                assert(lines@.map_values(|l: Vec<char>| l@) =~= before.push(Seq::empty()));
            }
        } else {
            let last = lines.len() - 1;
            let mut cur = lines.remove(last);
            cur.push(text[i]);
            lines.push(cur);
            proof {
                assert(lines@.map_values(|l: Vec<char>| l@) =~= before.update(
                    before.len() - 1,
                    before.last().push(text@[i as int]),
                ));
            }
        }
        i = i + 1;
    }
    proof {
        assert(text@.take(text.len() as int) =~= text@);
    }
    let ghost ls = lines@.map_values(|l: Vec<char>| l@);
    let n: usize = if drain_to < lines.len() {
        drain_to
    } else {
        lines.len()
    };
    let prefix = chars_of("data: ");
    let mut k: usize = 0;
    while k < n
        invariant
            k <= n <= lines.len(),
            ls == lines@.map_values(|l: Vec<char>| l@),
            prefix@ == "data: "@,
            out@.map_values(|s: String| s@) == data_lines(ls.take(k as int)),
        decreases n - k,
    {
        let ghost before = out@.map_values(|s: String| s@);
        proof {
            assert(ls.take(k + 1).drop_last() =~= ls.take(k as int));
            assert(ls.take(k + 1).last() == ls[k as int]);
            reveal_strlit("data: ");
        }
        let line = &lines[k];
        if crate::text::chars_occur_at(line.as_slice(), prefix.as_slice(), 0) {
            let mut rest: Vec<char> = Vec::new();
            let mut j: usize = 6;
            while j < line.len()
                invariant
                    6 <= j <= line.len(),
                    rest@ == line@.subrange(6, j as int),
                decreases line.len() - j,
            {
                rest.push(line[j]);
                proof {
                    assert(rest@ =~= line@.subrange(6, j + 1));
                }
                j = j + 1;
            }
            out.push(string_from_chars(rest.as_slice()));
            proof {
                assert(line@.subrange(6, line@.len() as int) =~= line@.skip(6));
                assert(out@.map_values(|s: String| s@) =~= before.push(ls[k as int].skip(6)));
            }
        }
        k = k + 1;
    }
    out
}

/// The JSON text of one SSE `data:` payload: the payload trimmed of white
/// space. An empty payload or the `[DONE]` marker carries no JSON and is a
/// configuration error.
pub fn sse_payload(data: &str) -> (r: HubResult<String>)
    ensures
        (trimmed(data@).len() == 0 || trimmed(data@) == "[DONE]"@) ==> (r matches Err(
            HubError::Config(m),
        ) && m@ == "empty SSE payload"@),
        !(trimmed(data@).len() == 0 || trimmed(data@) == "[DONE]"@) ==> (r matches Ok(t)
            && t@ == trimmed(data@)),
{
    let t = trim_text(data);
    if t.is_empty() || same_text(t, "[DONE]") {
        Err(HubError::Config("empty SSE payload".to_owned()))
    } else {
        Ok(t.to_owned())
    }
}

} // verus!
