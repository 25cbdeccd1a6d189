//! AG-UI streaming: the five lifecycle events of a run and how a Responses
//! API stream becomes them.
use vstd::prelude::*;
use crate::codex::ResponseStreamEvent;
use crate::json::{json_entries_view, push_entry, Json, JsonV};
use crate::openai::{ChatCompletionRequest, Message};
use crate::text::owned;

verus! {

broadcast use vstd::string::group_string_axioms;

/// The AG-UI lifecycle events emitted on `POST /ag-ui/stream`.
#[derive(Debug)]
pub enum AguiEvent {
    /// Once, at the start of a run.
    RunStarted { run_id: String },
    /// Once, when the assistant begins its text.
    TextMessageStart { message_id: String },
    /// For each non-empty text chunk.
    TextMessageContent { message_id: String, delta: String },
    /// Once, when the text is complete.
    TextMessageEnd { message_id: String },
    /// Once, at the end of a run.
    RunFinished { run_id: String },
}

/// The body of an AG-UI request: OpenAI-style messages and an optional model.
#[derive(Debug)]
pub struct AguiRequest {
    pub messages: Vec<Message>,
    pub model: Option<String>,
}

/// The abstract form of an event.
pub enum AguiEventV {
    RunStarted(Seq<char>),
    TextMessageStart(Seq<char>),
    TextMessageContent(Seq<char>, Seq<char>),
    TextMessageEnd(Seq<char>),
    RunFinished(Seq<char>),
}

impl View for AguiEvent {
    type V = AguiEventV;

    open spec fn view(&self) -> AguiEventV {
        match self {
            AguiEvent::RunStarted { run_id } => AguiEventV::RunStarted(run_id@),
            AguiEvent::TextMessageStart { message_id } => AguiEventV::TextMessageStart(message_id@),
            AguiEvent::TextMessageContent { message_id, delta } => AguiEventV::TextMessageContent(message_id@, delta@),
            AguiEvent::TextMessageEnd { message_id } => AguiEventV::TextMessageEnd(message_id@),
            AguiEvent::RunFinished { run_id } => AguiEventV::RunFinished(run_id@),
        }
    }
}

/// The views of a sequence of events.
pub open spec fn agui_views(v: Seq<AguiEvent>) -> Seq<AguiEventV> {
    v.map_values(|e: AguiEvent| e@)
}

/// The JSON form of an event: `type` in upper snake case, then its fields.
pub open spec fn spec_agui_json(e: AguiEventV) -> JsonV {
    match e {
        AguiEventV::RunStarted(r) => JsonV::Object(seq![
            ("type"@, JsonV::Str("RUN_STARTED"@)), ("run_id"@, JsonV::Str(r))]),
        AguiEventV::TextMessageStart(m) => JsonV::Object(seq![
            ("type"@, JsonV::Str("TEXT_MESSAGE_START"@)), ("message_id"@, JsonV::Str(m))]),
        AguiEventV::TextMessageContent(m, d) => JsonV::Object(seq![
            ("type"@, JsonV::Str("TEXT_MESSAGE_CONTENT"@)), ("message_id"@, JsonV::Str(m)), ("delta"@, JsonV::Str(d))]),
        AguiEventV::TextMessageEnd(m) => JsonV::Object(seq![
            ("type"@, JsonV::Str("TEXT_MESSAGE_END"@)), ("message_id"@, JsonV::Str(m))]),
        AguiEventV::RunFinished(r) => JsonV::Object(seq![
            ("type"@, JsonV::Str("RUN_FINISHED"@)), ("run_id"@, JsonV::Str(r))]),
    }
}

impl AguiEvent {
    /// The JSON object sent as the `data` of the event's SSE frame.
    pub fn to_json(&self) -> (r: Json)
        ensures
            r@ == spec_agui_json(self@),
    {
        let mut es: Vec<(String, Json)> = Vec::new();
        proof {
            crate::json::lemma_entries_empty();
        }
        match self {
            AguiEvent::RunStarted { run_id } => {
                push_entry(&mut es, "type", Json::string("RUN_STARTED"));
                push_entry(&mut es, "run_id", Json::string(run_id.as_str()));
            },
            AguiEvent::TextMessageStart { message_id } => {
                push_entry(&mut es, "type", Json::string("TEXT_MESSAGE_START"));
                push_entry(&mut es, "message_id", Json::string(message_id.as_str()));
            },
            AguiEvent::TextMessageContent { message_id, delta } => {
                push_entry(&mut es, "type", Json::string("TEXT_MESSAGE_CONTENT"));
                push_entry(&mut es, "message_id", Json::string(message_id.as_str()));
                push_entry(&mut es, "delta", Json::string(delta.as_str()));
            },
            AguiEvent::TextMessageEnd { message_id } => {
                push_entry(&mut es, "type", Json::string("TEXT_MESSAGE_END"));
                push_entry(&mut es, "message_id", Json::string(message_id.as_str()));
            },
            AguiEvent::RunFinished { run_id } => {
                push_entry(&mut es, "type", Json::string("RUN_FINISHED"));
                push_entry(&mut es, "run_id", Json::string(run_id.as_str()));
            },
        }
        let r = Json::Object(es);
        assert(json_entries_view(es@) =~= match spec_agui_json(self@) {
            JsonV::Object(e) => e,
            _ => Seq::empty(),
        });
        r
    }
}

/// The model an AG-UI run uses: the request's, else the proxy default, else
/// `gpt-5.3-codex`.
pub open spec fn spec_agui_model(model: Option<Seq<char>>, default_model: Option<Seq<char>>) -> Seq<char> {
    match model {
        Some(m) => m,
        None => match default_model {
            Some(d) => d,
            None => "gpt-5.3-codex"@,
        },
    }
}

/// The streaming chat request an AG-UI request stands for: its messages and
/// model, nothing else set.
pub fn agui_chat_request(body: AguiRequest, default_model: Option<&str>) -> (r: ChatCompletionRequest)
    ensures
        r.model@ == spec_agui_model(crate::codex::opt_view(body.model), crate::codex::opt_str_view(default_model)),
        r.messages == body.messages,
        r.stream,
        r.max_tokens is None && r.temperature is None && r.top_p is None && r.stop is None,
        r.system is None && r.user is None && r.tools is None && r.tool_choice is None,
        r.parallel_tool_calls is None,
{
    let model = match body.model {
        Some(m) => m,
        None => match default_model {
            Some(d) => owned(d),
            None => owned("gpt-5.3-codex"),
        },
    };
    ChatCompletionRequest {
        model,
        messages: body.messages,
        stream: true,
        max_tokens: None,
        temperature: None,
        top_p: None,
        stop: None,
        system: None,
        user: None,
        tools: None,
        tool_choice: None,
        parallel_tool_calls: None,
    }
}

/// The events that open a run.
pub fn agui_preamble(run_id: &str, message_id: &str) -> (r: Vec<AguiEvent>)
    ensures
        agui_views(r@) == seq![AguiEventV::RunStarted(run_id@), AguiEventV::TextMessageStart(message_id@)],
{
    let mut v: Vec<AguiEvent> = Vec::new();
    v.push(AguiEvent::RunStarted { run_id: owned(run_id) });
    v.push(AguiEvent::TextMessageStart { message_id: owned(message_id) });
    assert(agui_views(v@) =~= seq![AguiEventV::RunStarted(run_id@), AguiEventV::TextMessageStart(message_id@)]);
    v
}

/// The events that close a run.
pub fn agui_epilogue(run_id: &str, message_id: &str) -> (r: Vec<AguiEvent>)
    ensures
        agui_views(r@) == seq![AguiEventV::TextMessageEnd(message_id@), AguiEventV::RunFinished(run_id@)],
{
    let mut v: Vec<AguiEvent> = Vec::new();
    v.push(AguiEvent::TextMessageEnd { message_id: owned(message_id) });
    v.push(AguiEvent::RunFinished { run_id: owned(run_id) });
    assert(agui_views(v@) =~= seq![AguiEventV::TextMessageEnd(message_id@), AguiEventV::RunFinished(run_id@)]);
    v
}

/// The events of a run whose upstream request failed: started, then finished.
pub fn agui_failed_run(run_id: &str) -> (r: Vec<AguiEvent>)
    ensures
        agui_views(r@) == seq![AguiEventV::RunStarted(run_id@), AguiEventV::RunFinished(run_id@)],
{
    let mut v: Vec<AguiEvent> = Vec::new();
    v.push(AguiEvent::RunStarted { run_id: owned(run_id) });
    v.push(AguiEvent::RunFinished { run_id: owned(run_id) });
    assert(agui_views(v@) =~= seq![AguiEventV::RunStarted(run_id@), AguiEventV::RunFinished(run_id@)]);
    v
}

/// The content events of a stream batch: one per non-empty text delta, in order.
pub open spec fn spec_content_events(message_id: Seq<char>, es: Seq<ResponseStreamEvent>) -> Seq<AguiEventV>
    decreases es.len(),
{
    if es.len() == 0 {
        Seq::empty()
    } else {
        spec_content_events(message_id, es.drop_last()) + match es.last() {
            ResponseStreamEvent::ResponseOutputTextDelta { delta, .. } => if delta@.len() > 0 {
                seq![AguiEventV::TextMessageContent(message_id, delta@)]
            } else {
                Seq::empty()
            },
            _ => Seq::empty(),
        }
    }
}

/// Turns the text deltas of parsed stream events into content events.
pub fn agui_content_events(message_id: &str, events: &Vec<ResponseStreamEvent>) -> (r: Vec<AguiEvent>)
    ensures
        agui_views(r@) == spec_content_events(message_id@, events@),
{
    let mut out: Vec<AguiEvent> = Vec::new();
    let mut i: usize = 0;
    while i < events.len()
        invariant
            i <= events.len(),
            agui_views(out@) == spec_content_events(message_id@, events@.take(i as int)),
        decreases events.len() - i,
    {
        proof {
            assert(events@.take(i + 1).drop_last() =~= events@.take(i as int));
        }
        match &events[i] {
            ResponseStreamEvent::ResponseOutputTextDelta { delta, .. } => {
                if !delta.as_str().is_empty() {
                    let ghost before = out@;
                    out.push(AguiEvent::TextMessageContent { message_id: owned(message_id), delta: owned(delta.as_str()) });
                    proof {
                        assert(agui_views(out@) =~= agui_views(before).push(
                            AguiEventV::TextMessageContent(message_id@, delta@)));
                    }
                } else {
                    assert(agui_views(out@) =~= spec_content_events(message_id@, events@.take(i + 1)));
                }
            },
            _ => {
                assert(agui_views(out@) =~= spec_content_events(message_id@, events@.take(i + 1)));
            },
        }
        i = i + 1;
    }
    assert(events@.take(events.len() as int) =~= events@);
    out
}

/// A run's events are bracketed: whatever batches the stream delivers, the run
/// emitted as preamble, content events and epilogue starts with `RUN_STARTED`
/// and `TEXT_MESSAGE_START`, ends with `TEXT_MESSAGE_END` and `RUN_FINISHED`,
/// and carries between them only non-empty content of the same message.
pub proof fn law_agui_run_bracketed(run_id: Seq<char>, message_id: Seq<char>, es: Seq<ResponseStreamEvent>)
    ensures
        ({
            let body = spec_content_events(message_id, es);
            let run = seq![AguiEventV::RunStarted(run_id), AguiEventV::TextMessageStart(message_id)]
                + body + seq![AguiEventV::TextMessageEnd(message_id), AguiEventV::RunFinished(run_id)];
            &&& run.len() == body.len() + 4
            &&& run[0] == AguiEventV::RunStarted(run_id)
            &&& run[1] == AguiEventV::TextMessageStart(message_id)
            &&& run[run.len() - 2] == AguiEventV::TextMessageEnd(message_id)
            &&& run[run.len() - 1] == AguiEventV::RunFinished(run_id)
            &&& forall|i: int| 2 <= i < run.len() - 2 ==> (#[trigger] run[i] matches AguiEventV::TextMessageContent(m, d)
                && m == message_id && d.len() > 0)
        }),
{
    lemma_content_events_shape(message_id, es);
    let body = spec_content_events(message_id, es);
    let run = seq![AguiEventV::RunStarted(run_id), AguiEventV::TextMessageStart(message_id)]
        + body + seq![AguiEventV::TextMessageEnd(message_id), AguiEventV::RunFinished(run_id)];
    assert forall|i: int| 2 <= i < run.len() - 2 implies (#[trigger] run[i] matches AguiEventV::TextMessageContent(m, d)
        && m == message_id && d.len() > 0) by {
        assert(run[i] == body[i - 2]);
    }
}

proof fn lemma_content_events_shape(message_id: Seq<char>, es: Seq<ResponseStreamEvent>)
    ensures
        forall|i: int| 0 <= i < spec_content_events(message_id, es).len() ==>
            (#[trigger] spec_content_events(message_id, es)[i] matches AguiEventV::TextMessageContent(m, d)
                && m == message_id && d.len() > 0),
    decreases es.len(),
{
    if es.len() > 0 {
        lemma_content_events_shape(message_id, es.drop_last());
        let a = spec_content_events(message_id, es.drop_last());
        let t = spec_content_events(message_id, es);
        assert forall|i: int| 0 <= i < t.len() implies (#[trigger] t[i] matches AguiEventV::TextMessageContent(m, d)
            && m == message_id && d.len() > 0) by {
            if i < a.len() {
                assert(t[i] == a[i]);
            }
        }
    }
}

} // verus!
