//! ACP (Agent Client Protocol) prompts: the text of a prompt, the request it
//! becomes, and the chunks streamed back.
use vstd::prelude::*;
use crate::codex::{opt_str_view, ResponseStreamEvent};
use crate::openai::{is_plain_message, ChatCompletionRequest, Message, MessageContent};
use crate::proxy::{inject_skill_context, spec_skills_message_text};
use crate::text::{join, owned, seq_join, views};

verus! {

broadcast use vstd::string::group_string_axioms;

/// A content block of an ACP prompt, as far as the proxy reads it.
#[derive(Clone, Debug)]
pub enum PromptBlock {
    /// A text block.
    Text(String),
    /// Any other block (image, audio, resource, ...).
    Other,
}

/// The texts of the text blocks, in order.
pub open spec fn prompt_texts(blocks: Seq<PromptBlock>) -> Seq<Seq<char>>
    decreases blocks.len(),
{
    if blocks.len() == 0 {
        Seq::empty()
    } else {
        prompt_texts(blocks.drop_last()) + match blocks.last() {
            PromptBlock::Text(t) => seq![t@],
            PromptBlock::Other => Seq::empty(),
        }
    }
}

/// The plain text of a prompt: its text blocks joined by line feeds.
pub fn extract_prompt_text(blocks: &Vec<PromptBlock>) -> (r: String)
    ensures
        r@ == seq_join(prompt_texts(blocks@), "\n"@),
{
    let mut texts: Vec<String> = Vec::new();
    let mut i: usize = 0;
    while i < blocks.len()
        invariant
            i <= blocks.len(),
            views(texts@) == prompt_texts(blocks@.take(i as int)),
        decreases blocks.len() - i,
    {
        proof {
            assert(blocks@.take(i + 1).drop_last() =~= blocks@.take(i as int));
        }
        match &blocks[i] {
            PromptBlock::Text(t) => {
                let ghost before = texts@;
                texts.push(owned(t.as_str()));
                proof {
                    assert(views(texts@) =~= views(before) + seq![t@]);
                }
            },
            PromptBlock::Other => {
                assert(views(texts@) =~= views(texts@) + Seq::<Seq<char>>::empty());
            },
        }
        i = i + 1;
    }
    assert(blocks@.take(blocks.len() as int) =~= blocks@);
    join(&texts, "\n")
}

/// The streaming request a prompt becomes: the selected skills as a system
/// message (when any), then the prompt as the user message, on the proxy's
/// default model or `gpt-5.3-codex`.
pub fn acp_chat_request(user_text: &str, skill_contents: &Vec<String>, default_model: Option<&str>) -> (r: ChatCompletionRequest)
    ensures
        r.model@ == match opt_str_view(default_model) {
            Some(d) => d,
            None => "gpt-5.3-codex"@,
        },
        skill_contents@.len() == 0 ==> r.messages@.len() == 1
            && is_plain_message(r.messages@[0], "user"@, user_text@),
        skill_contents@.len() > 0 ==> r.messages@.len() == 2
            && is_plain_message(r.messages@[0], "system"@, spec_skills_message_text(views(skill_contents@)))
            && is_plain_message(r.messages@[1], "user"@, user_text@),
        r.stream,
        r.max_tokens is None && r.temperature is None && r.top_p is None && r.stop is None,
        r.system is None && r.user is None && r.tools is None && r.tool_choice is None,
        r.parallel_tool_calls is None,
{
    let user_msg = Message {
        role: owned("user"),
        content: MessageContent::Text(owned(user_text)),
        tool_call_id: None,
        tool_calls: None,
        name: None,
    };
    let mut messages: Vec<Message> = Vec::new();
    messages.push(user_msg);
    let model = match default_model {
        Some(d) => owned(d),
        None => owned("gpt-5.3-codex"),
    };
    let mut req = ChatCompletionRequest {
        model,
        messages,
        stream: true,
        max_tokens: None,
        temperature: None,
        top_p: None,
        stop: None,
        system: None,
        user: None,
        tools: None,
        tool_choice: None,
        parallel_tool_calls: None,
    };
    inject_skill_context(&mut req, skill_contents);
    proof {
        if skill_contents@.len() > 0 {
            assert(req.messages@[1] == req.messages@.skip(1)[0]);
        }
    }
    req
}

/// The text of an event that the client should see as a message chunk:
/// a non-empty text delta.
pub open spec fn spec_message_chunk(e: ResponseStreamEvent) -> Option<Seq<char>> {
    match e {
        ResponseStreamEvent::ResponseOutputTextDelta { delta, .. } => if delta@.len() > 0 {
            Some(delta@)
        } else {
            None
        },
        _ => None,
    }
}

/// The chunk an event sends to the client, if any.
pub fn message_chunk(e: &ResponseStreamEvent) -> (r: Option<String>)
    ensures
        crate::codex::opt_view(r) == spec_message_chunk(*e),
{
    match e {
        ResponseStreamEvent::ResponseOutputTextDelta { delta, .. } => if delta.as_str().is_empty() {
            None
        } else {
            Some(owned(delta.as_str()))
        },
        _ => None,
    }
}

} // verus!
