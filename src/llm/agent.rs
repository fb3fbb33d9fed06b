//! The language-model provider settings, and the stripping of reasoning
//! markup from a model's reply.

use vstd::prelude::*;

use crate::task::TaskError;
use crate::text::{chars_of, lowercase, lowercase_of, push_char, substring};

verus! {

#[derive(Debug, Clone, Copy, PartialEq, Eq, Structural)]
pub enum LLMProviderType {
    OpenAI,
    Ollama,
}

/// The configured language-model provider.
#[derive(Debug, Clone)]
pub struct LLMProvider {
    pub name: LLMProviderType,
    pub base_url: String,
    pub api_key: String,
    pub model: String,
    pub max_tokens: Option<u32>,
}

/// The provider configuration that an agent is built from; a missing one is
/// `ConfigMissing`.
pub fn provider_config(conf: Option<String>) -> (r: Result<String, TaskError>)
    ensures
        match conf {
            Some(c) => r == Ok::<String, TaskError>(c),
            None => r == Err::<String, TaskError>(TaskError::ConfigMissing),
        },
{
    match conf {
        Some(c) => Ok(c),
        None => Err(TaskError::ConfigMissing),
    }
}

/// The at most `n` characters of `s` that start at position `i`.
pub open spec fn window(s: Seq<char>, i: int, n: int) -> Seq<char> {
    s.subrange(i, if i + n <= s.len() { i + n } else { s.len() as int })
}

/// Position `i` starts an opening reasoning tag, `<think>` in any case.
pub open spec fn opens_reasoning(s: Seq<char>, i: int) -> bool {
    s[i] == '<' && lowercase_of(window(s, i + 1, 6)) == "think>"@
}

/// Position `i` starts a closing reasoning tag, `</think>` in any case.
pub open spec fn closes_reasoning(s: Seq<char>, i: int) -> bool {
    s[i] == '<' && lowercase_of(window(s, i + 1, 7)) == "/think>"@
}

/// Position `i + k`, or the end of `s` if that comes first.
pub open spec fn past(s: Seq<char>, i: int, k: int) -> int {
    if i + k <= s.len() {
        i + k
    } else {
        s.len() as int
    }
}

/// What is left of `s` from position `i` on, inside a reasoning block or
/// not: tags are dropped, and so is every character inside a block. Blocks do
/// not nest, and one left open runs to the end.
pub open spec fn stripped_from(s: Seq<char>, i: int, inside: bool) -> Seq<char>
    decreases s.len() - i,
{
    if i < 0 || i >= s.len() {
        Seq::empty()
    } else if opens_reasoning(s, i) {
        stripped_from(s, past(s, i, 7), true)
    } else if closes_reasoning(s, i) {
        stripped_from(s, past(s, i, 8), false)
    } else if inside {
        stripped_from(s, i + 1, inside)
    } else {
        seq![s[i]] + stripped_from(s, i + 1, inside)
    }
}

pub open spec fn without_reasoning(s: Seq<char>) -> Seq<char> {
    stripped_from(s, 0, false)
}

proof fn lemma_untagged_from(s: Seq<char>, i: int)
    requires
        0 <= i <= s.len(),
        forall|j: int| 0 <= j < s.len() ==> !opens_reasoning(s, j) && !closes_reasoning(s, j),
    ensures
        stripped_from(s, i, false) == s.subrange(i, s.len() as int),
    decreases s.len() - i,
{
    if i < s.len() {
        lemma_untagged_from(s, i + 1);
        assert(seq![s[i]] + s.subrange(i + 1, s.len() as int) =~= s.subrange(i, s.len() as int));
    } else {
        assert(s.subrange(i, s.len() as int) =~= Seq::<char>::empty());
    }
}

/// A text with no reasoning tag in it comes out unchanged.
pub proof fn untagged_text_is_unchanged(s: Seq<char>)
    requires
        forall|j: int| 0 <= j < s.len() ==> !opens_reasoning(s, j) && !closes_reasoning(s, j),
    ensures
        without_reasoning(s) == s,
{
    lemma_untagged_from(s, 0);
    assert(s.subrange(0, s.len() as int) =~= s);
}

/// The reply with its `<think>...</think>` reasoning blocks taken out, in
/// one left-to-right scan.
pub fn remove_think_tags(response: &str) -> (r: String)
    ensures
        r@ == without_reasoning(response@),
{
    let cs = chars_of(response);
    let n = cs.len();
    let mut result = String::new();
    let mut in_think_tag = false;
    let mut i: usize = 0;
    let open_tag = String::from_str("think>");
    let close_tag = String::from_str("/think>");
    while i < n
        invariant
            n == cs@.len(),
            cs@ == response@,
            i <= n,
            open_tag@ == "think>"@,
            close_tag@ == "/think>"@,
            result@ + stripped_from(cs@, i as int, in_think_tag) == without_reasoning(cs@),
        decreases n - i,
    {
        let ghost s = cs@;
        let c = cs[i];
        let mut tag = false;
        if c == '<' {
            let end6 = if n - (i + 1) >= 6 { i + 7 } else { n };
            let ahead6 = lowercase(substring(&cs, i + 1, end6).as_str());
            if ahead6 == open_tag {
                assert(opens_reasoning(s, i as int));
                let next = if n - i >= 7 { i + 7 } else { n };
                in_think_tag = true;
                i = next;
                tag = true;
            } else {
                let end7 = if n - (i + 1) >= 7 { i + 8 } else { n };
                let ahead7 = lowercase(substring(&cs, i + 1, end7).as_str());
                if ahead7 == close_tag {
                    assert(closes_reasoning(s, i as int));
                    let next = if n - i >= 8 { i + 8 } else { n };
                    in_think_tag = false;
                    i = next;
                    tag = true;
                }
            }
        }
        if !tag {
            assert(!opens_reasoning(s, i as int));
            assert(!closes_reasoning(s, i as int));
            if !in_think_tag {
                let ghost prev = result@;
                push_char(&mut result, c);
                assert(result@ + stripped_from(s, i + 1, false) =~= prev + stripped_from(
                    s,
                    i as int,
                    false,
                ));
            }
            i = i + 1;
        }
    }
    result
}

} // verus!
