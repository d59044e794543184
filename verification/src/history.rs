//! Records of the local chat history and the default session title.

use crate::text::{chars_of, push_str, string_from_chars};
use vstd::prelude::*;

verus! {

/// One stored turn of a session.
#[derive(Debug, Clone)]
pub struct Turn {
    pub session_id: String,
    pub seq: i64,
    pub role: String,
    pub content: String,
    pub reasoning: Option<String>,
    /// JSON-encoded tool-call trace for assistant turns.
    pub tool_trace: Option<String>,
    pub ts: i64,
}

/// One stored session.
#[derive(Debug, Clone)]
pub struct Session {
    pub id: String,
    pub title: String,
    pub created_at: i64,
    pub updated_at: i64,
}

/// The title a new session gets: `對話 ` and the first eight characters of
/// its id, or `新對話` for an empty id.
pub open spec fn session_title(session_id: Seq<char>) -> Seq<char> {
    if session_id.len() == 0 {
        "新對話"@
    } else if session_id.len() <= 8 {
        "對話 "@ + session_id
    } else {
        "對話 "@ + session_id.take(8)
    }
}

/// The default title of a session.
pub fn default_title(session_id: &str) -> (r: String)
    ensures
        r@ == session_title(session_id@),
{
    let v = chars_of(session_id);
    if v.len() == 0 {
        return "新對話".to_owned();
    }
    let mut head: Vec<char> = Vec::new();
    let mut i: usize = 0;
    while i < v.len() && i < 8
        invariant
            i <= v.len(),
            i <= 8,
            head@ == v@.take(i as int),
        decreases 8 - i,
    {
        head.push(v[i]);
        proof {
            assert(head@ =~= v@.take(i + 1));
        }
        i = i + 1;
    }
    let mut r = String::new();
    push_str(&mut r, "對話 ");
    let trimmed = string_from_chars(head.as_slice());
    push_str(&mut r, trimmed.as_str());
    proof {
        if v.len() <= 8 {
            assert(v@.take(i as int) =~= v@);
        }
    }
    r
}

} // verus!
