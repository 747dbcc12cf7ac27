//! What the analyzer answers.

use crate::chars;
use crate::json::Json;
use crate::text;
use vstd::prelude::*;

verus! {

/// What a tool answered.
#[derive(Debug)]
pub struct CallOutcome {
    pub text: String,
    pub is_error: bool,
}

/// A piece of an answer.
#[derive(Debug)]
pub enum ContentBlock {
    Text(String),
    /// A picture, a link or the like.
    Other,
}

/// The texts among the pieces, in order.
pub open spec fn texts(blocks: Seq<ContentBlock>) -> Seq<Seq<char>>
    decreases blocks.len(),
{
    if blocks.len() == 0 {
        Seq::empty()
    } else {
        match blocks.last() {
            ContentBlock::Text(t) => texts(blocks.drop_last()).push(t@),
            ContentBlock::Other => texts(blocks.drop_last()),
        }
    }
}

/// The text of an answer: its texts, one under the other.
pub fn extract_text(content: &Vec<ContentBlock>) -> (r: String)
    ensures
        r@ == chars::join(texts(content@), "\n"@),
{
    let mut parts: Vec<String> = Vec::new();
    let mut i: usize = 0;
    assert(parts.deep_view() =~= texts(content@.take(0)));
    while i < content.len()
        invariant
            i <= content@.len(),
            parts.deep_view() == texts(content@.take(i as int)),
        decreases content@.len() - i,
    {
        let ghost before = parts.deep_view();
        assert(content@.take(i + 1).drop_last() =~= content@.take(i as int));
        match &content[i] {
            ContentBlock::Text(t) => {
                parts.push(t.clone());
                assert(parts.deep_view() =~= before.push(t@));
            },
            ContentBlock::Other => {},
        }
        i = i + 1;
    }
    assert(content@.take(i as int) =~= content@);
    text::join(&parts, "\n")
}

/// An answer as it is handed on. One that does not say so is no error.
pub fn call_outcome(content: &Vec<ContentBlock>, is_error: Option<bool>) -> (r: CallOutcome)
    ensures
        r.text@ == chars::join(texts(content@), "\n"@),
        r.is_error == (is_error == Some(true)),
{
    CallOutcome {
        text: extract_text(content),
        is_error: match is_error {
            Some(b) => b,
            None => false,
        },
    }
}

/// The arguments of a call: the fields of an object; none where something else is given.
pub fn call_arguments(args: Json) -> (r: Vec<(String, Json)>)
    ensures
        match args {
            Json::Object(fields) => r == fields,
            _ => r@.len() == 0,
        },
{
    match args {
        Json::Object(fields) => fields,
        _ => Vec::new(),
    }
}

/// The options with which the analyzer is started.
pub fn worker_args(xmx_gb: u32, jar_path: &str) -> (r: Vec<String>)
    ensures
        r.deep_view() == seq!["-Xmx"@ + chars::dec(xmx_gb as nat) + "g"@, "-jar"@, jar_path@],
{
    let mut heap = text::owned("-Xmx");
    heap.append(text::dec(xmx_gb as u64).as_str());
    heap.append("g");
    let mut r: Vec<String> = Vec::new();
    r.push(heap);
    r.push(text::owned("-jar"));
    r.push(text::owned(jar_path));
    assert(r.deep_view() =~= seq![
        "-Xmx"@ + chars::dec(xmx_gb as nat) + "g"@,
        "-jar"@,
        jar_path@,
    ]);
    r
}

} // verus!
