//! What the language-model side of the generation workload decides: the
//! reasoning markup it strips, the JSON it frames, the context it assembles.

pub mod agent;
pub mod context_builder;
pub mod prompt;

use vstd::prelude::*;

use crate::text::{chars_of, push_char, substring, trim, trim_spec};

verus! {

/// One file of a generation reply: where it goes, relative to the project,
/// and its text.
pub struct FileModifyResult {
    pub file_path: String,
    pub file_content: String,
}

/// What a question asks for, in the classifier's first vocabulary.
#[derive(Debug, Clone, Copy, PartialEq, Eq, Structural)]
pub enum Intent {
    ModifyFile,
    ExecuteSQL,
    Other,
}

impl Intent {
    /// The intent that `s`, trimmed of white space, names exactly; `None` for
    /// any other text.
    pub fn parse(s: &str) -> (r: Option<Intent>)
        ensures
            r == (if trim_spec(s@) == "ModifyFile"@ {
                Some(Intent::ModifyFile)
            } else if trim_spec(s@) == "ExecuteSQL"@ {
                Some(Intent::ExecuteSQL)
            } else if trim_spec(s@) == "Other"@ {
                Some(Intent::Other)
            } else {
                None
            }),
    {
        let t = trim(s);
        if t == String::from_str("ModifyFile") {
            Some(Intent::ModifyFile)
        } else if t == String::from_str("ExecuteSQL") {
            Some(Intent::ExecuteSQL)
        } else if t == String::from_str("Other") {
            Some(Intent::Other)
        } else {
            None
        }
    }
}

/// Whether a text parses as one JSON value.
pub uninterp spec fn json_valid(s: Seq<char>) -> bool;

/// Relies on `serde_json::from_str` into `serde_json::Value`: whether the
/// text is one well-formed JSON value, which depends on the text alone.
#[verifier::external_body]
fn is_json(s: &str) -> (r: bool)
    ensures
        r == json_valid(s@),
{
    serde_json::from_str::<serde_json::Value>(s).is_ok()
}

/// Position `i` holds the first `c` of `s`.
pub open spec fn is_first(s: Seq<char>, c: char, i: int) -> bool {
    0 <= i < s.len() && s[i] == c && forall|j: int| 0 <= j < i ==> s[j] != c
}

/// Position `i` holds the last `c` of `s`.
pub open spec fn is_last(s: Seq<char>, c: char, i: int) -> bool {
    0 <= i < s.len() && s[i] == c && forall|j: int| i < j < s.len() ==> s[j] != c
}

pub open spec fn first_index(s: Seq<char>, c: char) -> Option<int> {
    if exists|i: int| is_first(s, c, i) {
        Some(choose|i: int| is_first(s, c, i))
    } else {
        None
    }
}

pub open spec fn last_index(s: Seq<char>, c: char) -> Option<int> {
    if exists|i: int| is_last(s, c, i) {
        Some(choose|i: int| is_last(s, c, i))
    } else {
        None
    }
}

/// Where the JSON of a reply starts: its first `[`, or else its first `{`.
pub open spec fn json_start(s: Seq<char>) -> Option<int> {
    if first_index(s, '[') is Some {
        first_index(s, '[')
    } else {
        first_index(s, '{')
    }
}

/// Where the JSON of a reply ends: its last `]`, or else its last `}`.
pub open spec fn json_end(s: Seq<char>) -> Option<int> {
    if last_index(s, ']') is Some {
        last_index(s, ']')
    } else {
        last_index(s, '}')
    }
}

/// The span from the start to the end of the JSON, both included, where both
/// are found and the start comes first.
pub open spec fn json_span(s: Seq<char>) -> Option<Seq<char>> {
    match (json_start(s), json_end(s)) {
        (Some(a), Some(b)) => if a <= b {
            Some(s.subrange(a, b + 1))
        } else {
            None
        },
        _ => None,
    }
}

/// A control character (general category Cc).
pub open spec fn is_control(c: char) -> bool {
    (c as u32) <= 0x1f || (0x7f <= (c as u32) <= 0x9f)
}

/// Characters kept when a span is cleaned: all but the control characters,
/// line feed and tab excepted.
pub open spec fn kept_in_json(c: char) -> bool {
    !is_control(c) || c == '\n' || c == '\t'
}

/// The JSON of a reply: its span as it is if that parses, else the span
/// without control characters if that parses, else nothing.
pub open spec fn extracted_json(s: Seq<char>) -> Option<Seq<char>> {
    match json_span(s) {
        Some(t) => if json_valid(t) {
            Some(t)
        } else if json_valid(t.filter(|c: char| kept_in_json(c))) {
            Some(t.filter(|c: char| kept_in_json(c)))
        } else {
            None
        },
        None => None,
    }
}

fn find_first(s: &Vec<char>, c: char) -> (r: Option<usize>)
    ensures
        r == (match first_index(s@, c) {
            Some(i) => Some(i as usize),
            None => None,
        }),
        r is Some ==> r->0 < s.len(),
{
    let mut i: usize = 0;
    while i < s.len()
        invariant
            i <= s.len(),
            forall|j: int| 0 <= j < i ==> s@[j] != c,
        decreases s.len() - i,
    {
        if s[i] == c {
            proof {
                assert(is_first(s@, c, i as int));
                let k = choose|k: int| is_first(s@, c, k);
                assert(k == i);
            }
            return Some(i);
        }
        i = i + 1;
    }
    None
}

fn find_last(s: &Vec<char>, c: char) -> (r: Option<usize>)
    ensures
        r == (match last_index(s@, c) {
            Some(i) => Some(i as usize),
            None => None,
        }),
        r is Some ==> r->0 < s.len(),
{
    let mut i: usize = s.len();
    while i > 0
        invariant
            i <= s.len(),
            forall|j: int| i <= j < s.len() ==> s@[j] != c,
        decreases i,
    {
        if s[i - 1] == c {
            proof {
                assert(is_last(s@, c, i - 1));
                let k = choose|k: int| is_last(s@, c, k);
                assert(k == i - 1);
            }
            return Some(i - 1);
        }
        i = i - 1;
    }
    None
}

fn control(c: char) -> (r: bool)
    ensures
        r == is_control(c),
{
    let u = c as u32;
    u <= 0x1f || (0x7f <= u && u <= 0x9f)
}

/// The JSON held in a model reply, found by its outer brackets and checked
/// to parse; `None` where the reply holds none.
pub fn extract_json_from_llm_response(response: &str) -> (r: Option<String>)
    ensures
        match r {
            Some(t) => extracted_json(response@) == Some(t@),
            None => extracted_json(response@) is None,
        },
{
    let cs = chars_of(response);
    let start = match find_first(&cs, '[') {
        Some(i) => i,
        None => match find_first(&cs, '{') {
            Some(i) => i,
            None => return None,
        },
    };
    let end = match find_last(&cs, ']') {
        Some(i) => i,
        None => match find_last(&cs, '}') {
            Some(i) => i,
            None => return None,
        },
    };
    if start > end {
        return None;
    }
    let span = substring(&cs, start, end + 1);
    if is_json(span.as_str()) {
        return Some(span);
    }
    let ghost t = cs@.subrange(start as int, end + 1);
    let ghost keep = |c: char| kept_in_json(c);
    let mut cleaned = String::new();
    let mut i: usize = start;
    while i <= end
        invariant
            start <= i <= end + 1,
            end < cs.len(),
            t == cs@.subrange(start as int, end + 1),
            keep == (|c: char| kept_in_json(c)),
            cleaned@ == t.subrange(0, i - start).filter(keep),
        decreases end + 1 - i,
    {
        let c = cs[i];
        proof {
            assert(t.subrange(0, i + 1 - start) =~= t.subrange(0, i - start).push(c));
            t.subrange(0, i - start).lemma_filter_push(c, keep);
        }
        if !control(c) || c == '\n' || c == '\t' {
            push_char(&mut cleaned, c);
        }
        i = i + 1;
    }
    assert(t.subrange(0, t.len() as int) =~= t);
    if is_json(cleaned.as_str()) {
        Some(cleaned)
    } else {
        None
    }
}

} // verus!
