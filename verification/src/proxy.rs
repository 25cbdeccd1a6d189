//! The decisions of the proxy's request path: consuming a Responses API event
//! stream into a Chat Completions response, translating streamed events into
//! `chat.completion.chunk`s, and reading Chat Completions responses.
use vstd::prelude::*;
use crate::codex::{
    BackendProfile, ModelTarget, model_available, model_target_view, opt_json_view, resolve_model,
    spec_model_available, spec_profile_name, spec_resolve_model,
    OutputItemFull, OutputItemMeta, PendingFunctionCall, ResponseStreamEvent, map_finish_reason,
    opt_str_view, opt_view, spec_map_finish_reason,
};
use crate::hooks::{HookEvent, HookEventV, hooks_view};
use crate::json::{
    Json, JsonV, json_as_str, json_as_u64, json_at, json_index, json_seq_view, json_view, lemma_entries_empty,
    lemma_seq_view, push_elem,
};
use crate::error::{ProxyError, spec_error_message};
use crate::mcp_client::{McpToolSchema, spec_tool_json};
use crate::openai::{
    ChatCompletionRequest, ChatCompletionResponse, Choice, Message, MessageContent, ResponseMessage,
    ToolCall, Usage,
};
use crate::text::{concat, join, owned, seq_join, str_eq, views};

verus! {

/// The mathematical form of a function call being accumulated.
pub struct PendingV {
    pub output_index: u32,
    pub call_id: Seq<char>,
    pub name: Seq<char>,
    pub arguments: Seq<char>,
}

pub open spec fn pending_view(c: PendingFunctionCall) -> PendingV {
    PendingV { output_index: c.output_index, call_id: c.call_id@, name: c.name@, arguments: c.arguments@ }
}

/// The state of a non-streaming response being assembled from Responses API events.
pub struct AccumulatorV {
    pub response_id: Seq<char>,
    pub text: Seq<char>,
    pub finish_reason: Seq<char>,
    pub input_tokens: u32,
    pub output_tokens: u32,
    pub calls: Seq<PendingV>,
}

/// Assembles a non-streaming Chat Completions response from the events of a
/// Responses API stream. Function calls are kept in the order in which they
/// were first announced, one per output index.
#[derive(Debug)]
pub struct ResponseAccumulator {
    pub response_id: String,
    pub text: String,
    pub finish_reason: String,
    pub input_tokens: u32,
    pub output_tokens: u32,
    pub calls: Vec<PendingFunctionCall>,
}

impl View for ResponseAccumulator {
    type V = AccumulatorV;

    open spec fn view(&self) -> AccumulatorV {
        AccumulatorV {
            response_id: self.response_id@,
            text: self.text@,
            finish_reason: self.finish_reason@,
            input_tokens: self.input_tokens,
            output_tokens: self.output_tokens,
            calls: self.calls@.map_values(|c: PendingFunctionCall| pending_view(c)),
        }
    }
}

/// The state before any event: no id, no text, finish reason `stop`, no usage, no calls.
pub open spec fn spec_initial() -> AccumulatorV {
    AccumulatorV {
        response_id: Seq::empty(),
        text: Seq::empty(),
        finish_reason: "stop"@,
        input_tokens: 0,
        output_tokens: 0,
        calls: Seq::empty(),
    }
}

/// No two accumulated calls share an output index.
pub open spec fn calls_unique(calls: Seq<PendingV>) -> bool {
    forall|i: int, j: int|
        0 <= i < calls.len() && 0 <= j < calls.len() && i != j ==> calls[i].output_index != calls[j].output_index
}

/// The position of the call with output index `idx`, if any.
pub open spec fn find_call(calls: Seq<PendingV>, idx: u32) -> Option<int> {
    if exists|i: int| 0 <= i < calls.len() && calls[i].output_index == idx {
        Some(choose|i: int| 0 <= i < calls.len() && calls[i].output_index == idx)
    } else {
        None
    }
}

pub open spec fn is_function_call(t: Option<String>) -> bool {
    match t {
        Some(s) => s@ == "function_call"@,
        None => false,
    }
}

pub open spec fn or_empty(o: Option<String>) -> Seq<char> {
    match o {
        Some(s) => s@,
        None => Seq::empty(),
    }
}

pub open spec fn or_keep(o: Option<String>, keep: Seq<char>) -> Seq<char> {
    match o {
        Some(s) => s@,
        None => keep,
    }
}

/// The state after one event.
pub open spec fn spec_step(s: AccumulatorV, e: ResponseStreamEvent) -> AccumulatorV {
    match e {
        ResponseStreamEvent::ResponseCreated { response } => AccumulatorV { response_id: response.id@, ..s },
        ResponseStreamEvent::ResponseOutputItemAdded { output_index, item } => {
            if is_function_call(item.item_type) {
                let c = PendingV {
                    output_index,
                    call_id: or_empty(item.call_id),
                    name: or_empty(item.name),
                    arguments: Seq::empty(),
                };
                AccumulatorV {
                    calls: match find_call(s.calls, output_index) {
                        Some(i) => s.calls.update(i, c),
                        None => s.calls.push(c),
                    },
                    ..s
                }
            } else {
                s
            }
        },
        ResponseStreamEvent::ResponseFunctionCallArgumentsDelta { output_index, delta } => {
            match find_call(s.calls, output_index) {
                Some(i) => AccumulatorV {
                    calls: s.calls.update(i, PendingV { arguments: s.calls[i].arguments + delta@, ..s.calls[i] }),
                    ..s
                },
                None => s,
            }
        },
        ResponseStreamEvent::ResponseFunctionCallArgumentsDone { output_index, arguments } => {
            match find_call(s.calls, output_index) {
                Some(i) => AccumulatorV {
                    calls: s.calls.update(i, PendingV { arguments: arguments@, ..s.calls[i] }),
                    ..s
                },
                None => s,
            }
        },
        ResponseStreamEvent::ResponseOutputItemDone { output_index, item } => {
            if is_function_call(item.item_type) {
                match find_call(s.calls, output_index) {
                    Some(i) => AccumulatorV {
                        calls: s.calls.update(i, PendingV {
                            output_index: s.calls[i].output_index,
                            call_id: or_keep(item.call_id, s.calls[i].call_id),
                            name: or_keep(item.name, s.calls[i].name),
                            arguments: or_keep(item.arguments, s.calls[i].arguments),
                        }),
                        ..s
                    },
                    None => s,
                }
            } else {
                s
            }
        },
        ResponseStreamEvent::ResponseOutputTextDelta { delta, .. } => AccumulatorV { text: s.text + delta@, ..s },
        ResponseStreamEvent::ResponseDone { response } => AccumulatorV {
            response_id: if s.response_id.len() == 0 { response.id@ } else { s.response_id },
            finish_reason: spec_map_finish_reason(opt_view(response.status)),
            input_tokens: match response.usage { Some(u) => u.input_tokens, None => s.input_tokens },
            output_tokens: match response.usage { Some(u) => u.output_tokens, None => s.output_tokens },
            ..s
        },
        _ => s,
    }
}

/// The lifecycle events fired for one stream event.
pub open spec fn spec_step_hooks(s: AccumulatorV, e: ResponseStreamEvent) -> Seq<HookEventV> {
    match e {
        ResponseStreamEvent::ResponseOutputItemAdded { output_index, item } => {
            if is_function_call(item.item_type) {
                seq![HookEventV::ToolCallStart { name: or_empty(item.name), call_id: or_empty(item.call_id) }]
            } else {
                Seq::empty()
            }
        },
        ResponseStreamEvent::ResponseFunctionCallArgumentsDelta { output_index, delta } => {
            match find_call(s.calls, output_index) {
                Some(i) => seq![HookEventV::ToolCallArgs { call_id: s.calls[i].call_id, args_delta: delta@ }],
                None => Seq::empty(),
            }
        },
        ResponseStreamEvent::ResponseOutputTextDelta { delta, .. } => seq![HookEventV::TextDelta { delta: delta@ }],
        ResponseStreamEvent::ResponseDone { response } => seq![HookEventV::ResponseComplete {
            finish_reason: spec_map_finish_reason(opt_view(response.status)),
        }],
        _ => Seq::empty(),
    }
}

fn is_function_call_exec(t: &Option<String>) -> (b: bool)
    ensures
        b == is_function_call(*t),
{
    match t {
        Some(s) => str_eq(s.as_str(), "function_call"),
        None => false,
    }
}

fn take_or_empty(o: Option<String>) -> (r: String)
    ensures
        r@ == or_empty(o),
{
    match o {
        Some(s) => s,
        None => String::new(),
    }
}

fn single_hook(e: HookEvent) -> (r: Vec<HookEvent>)
    ensures
        hooks_view(r@) == seq![e@],
{
    let mut v: Vec<HookEvent> = Vec::new();
    v.push(e);
    assert(hooks_view(v@) =~= seq![e@]);
    v
}

fn no_hooks() -> (r: Vec<HookEvent>)
    ensures
        hooks_view(r@) == Seq::<HookEventV>::empty(),
{
    let v: Vec<HookEvent> = Vec::new();
    assert(hooks_view(v@) =~= Seq::<HookEventV>::empty());
    v
}

impl ResponseAccumulator {
    /// No two accumulated calls share an output index.
    pub open spec fn wf(&self) -> bool {
        calls_unique(self@.calls)
    }

    /// The empty state.
    pub fn new() -> (r: ResponseAccumulator)
        ensures
            r@ == spec_initial(),
            r.wf(),
    {
        let r = ResponseAccumulator {
            response_id: String::new(),
            text: String::new(),
            finish_reason: owned("stop"),
            input_tokens: 0,
            output_tokens: 0,
            calls: Vec::new(),
        };
        assert(r@.calls =~= Seq::<PendingV>::empty());
        r
    }

    /// The position of the call with output index `idx`.
    fn find(&self, idx: u32) -> (r: Option<usize>)
        requires
            self.wf(),
        ensures
            match r {
                Some(i) => find_call(self@.calls, idx) == Some(i as int),
                None => find_call(self@.calls, idx) is None,
            },
    {
        let mut i: usize = 0;
        while i < self.calls.len()
            invariant
                i <= self.calls.len(),
                self.wf(),
                forall|k: int| 0 <= k < i ==> self@.calls[k].output_index != idx,
            decreases self.calls.len() - i,
        {
            if self.calls[i].output_index == idx {
                proof {
                    assert(self@.calls[i as int].output_index == idx);
                    let j = choose|j: int| 0 <= j < self@.calls.len() && self@.calls[j].output_index == idx;
                    assert(j == i);
                }
                return Some(i);
            }
            i = i + 1;
        }
        None
    }

    fn set_call(&mut self, i: usize, c: PendingFunctionCall)
        requires
            i < old(self).calls@.len(),
        ensures
            final(self)@ == (AccumulatorV { calls: old(self)@.calls.update(i as int, pending_view(c)), ..old(self)@ }),
    {
        let ghost cv = pending_view(c);
        self.calls.set(i, c);
        proof {
            assert(self@.calls =~= old(self)@.calls.update(i as int, cv));
        }
    }

    /// Applies one stream event and returns the lifecycle events it fires.
    pub fn step(&mut self, event: ResponseStreamEvent) -> (hooks: Vec<HookEvent>)
        requires
            old(self).wf(),
        ensures
            final(self).wf(),
            final(self)@ == spec_step(old(self)@, event),
            hooks_view(hooks@) == spec_step_hooks(old(self)@, event),
    {
        let ghost e0 = event;
        match event {
            ResponseStreamEvent::ResponseCreated { response } => {
                self.response_id = response.id;
                no_hooks()
            },
            ResponseStreamEvent::ResponseOutputItemAdded { output_index, item } => {
                if is_function_call_exec(&item.item_type) {
                    let call_id = take_or_empty(item.call_id);
                    let name = take_or_empty(item.name);
                    let hook = HookEvent::ToolCallStart { name: name.clone(), call_id: call_id.clone() };
                    let c = PendingFunctionCall { output_index, call_id, name, arguments: String::new() };
                    match self.find(output_index) {
                        Some(i) => {
                            self.set_call(i, c);
                            proof {
                                assert forall|a: int, b: int| 0 <= a < self@.calls.len() && 0 <= b < self@.calls.len() && a != b
                                    implies self@.calls[a].output_index != self@.calls[b].output_index by {
                                    if a != i && b != i {
                                        assert(old(self)@.calls[a] == self@.calls[a]);
                                    }
                                }
                            }
                        },
                        None => {
                            self.calls.push(c);
                            proof {
                                assert(self@.calls =~= old(self)@.calls.push(pending_view(c)));
                            }
                        },
                    }
                    single_hook(hook)
                } else {
                    no_hooks()
                }
            },
            ResponseStreamEvent::ResponseFunctionCallArgumentsDelta { output_index, delta } => {
                match self.find(output_index) {
                    Some(i) => {
                        let hook = HookEvent::ToolCallArgs { call_id: self.calls[i].call_id.clone(), args_delta: delta.clone() };
                        let old_c = &self.calls[i];
                        let c = PendingFunctionCall {
                            output_index: old_c.output_index,
                            call_id: old_c.call_id.clone(),
                            name: old_c.name.clone(),
                            arguments: concat(old_c.arguments.as_str(), delta.as_str()),
                        };
                        self.set_call(i, c);
                        assert(self.wf()) by {
                            assert forall|a: int, b: int| 0 <= a < self@.calls.len() && 0 <= b < self@.calls.len() && a != b
                                implies self@.calls[a].output_index != self@.calls[b].output_index by {
                                assert(self@.calls[a].output_index == old(self)@.calls[a].output_index);
                                assert(self@.calls[b].output_index == old(self)@.calls[b].output_index);
                            }
                        }
                        single_hook(hook)
                    },
                    None => no_hooks(),
                }
            },
            ResponseStreamEvent::ResponseFunctionCallArgumentsDone { output_index, arguments } => {
                match self.find(output_index) {
                    Some(i) => {
                        let old_c = &self.calls[i];
                        let c = PendingFunctionCall {
                            output_index: old_c.output_index,
                            call_id: old_c.call_id.clone(),
                            name: old_c.name.clone(),
                            arguments,
                        };
                        self.set_call(i, c);
                        assert(self.wf()) by {
                            assert forall|a: int, b: int| 0 <= a < self@.calls.len() && 0 <= b < self@.calls.len() && a != b
                                implies self@.calls[a].output_index != self@.calls[b].output_index by {
                                assert(self@.calls[a].output_index == old(self)@.calls[a].output_index);
                                assert(self@.calls[b].output_index == old(self)@.calls[b].output_index);
                            }
                        }
                    },
                    None => {},
                }
                no_hooks()
            },
            ResponseStreamEvent::ResponseOutputItemDone { output_index, item } => {
                if is_function_call_exec(&item.item_type) {
                    match self.find(output_index) {
                        Some(i) => {
                            let old_c = &self.calls[i];
                            let call_id = match item.call_id { Some(x) => x, None => old_c.call_id.clone() };
                            let name = match item.name { Some(x) => x, None => old_c.name.clone() };
                            let arguments = match item.arguments { Some(x) => x, None => old_c.arguments.clone() };
                            let c = PendingFunctionCall { output_index: old_c.output_index, call_id, name, arguments };
                            self.set_call(i, c);
                            assert(self.wf()) by {
                                assert forall|a: int, b: int| 0 <= a < self@.calls.len() && 0 <= b < self@.calls.len() && a != b
                                    implies self@.calls[a].output_index != self@.calls[b].output_index by {
                                    assert(self@.calls[a].output_index == old(self)@.calls[a].output_index);
                                    assert(self@.calls[b].output_index == old(self)@.calls[b].output_index);
                                }
                            }
                        },
                        None => {},
                    }
                }
                no_hooks()
            },
            ResponseStreamEvent::ResponseOutputTextDelta { delta, .. } => {
                self.text.append(delta.as_str());
                single_hook(HookEvent::TextDelta { delta })
            },
            ResponseStreamEvent::ResponseDone { response } => {
                if self.response_id.as_str().is_empty() {
                    self.response_id = response.id;
                }
                let finish = match &response.status {
                    Some(st) => map_finish_reason(Some(st.as_str())),
                    None => map_finish_reason(None),
                };
                self.finish_reason = finish.clone();
                match response.usage {
                    Some(u) => {
                        self.input_tokens = u.input_tokens;
                        self.output_tokens = u.output_tokens;
                    },
                    None => {},
                }
                single_hook(HookEvent::ResponseComplete { finish_reason: finish })
            },
            _ => no_hooks(),
        }
    }
}


/// The state after a sequence of events.
pub open spec fn spec_run(s: AccumulatorV, es: Seq<ResponseStreamEvent>) -> AccumulatorV
    decreases es.len(),
{
    if es.len() == 0 {
        s
    } else {
        spec_step(spec_run(s, es.drop_last()), es.last())
    }
}

/// The lifecycle events fired over a sequence of events, in order.
pub open spec fn spec_run_hooks(s: AccumulatorV, es: Seq<ResponseStreamEvent>) -> Seq<HookEventV>
    decreases es.len(),
{
    if es.len() == 0 {
        Seq::empty()
    } else {
        spec_run_hooks(s, es.drop_last()) + spec_step_hooks(spec_run(s, es.drop_last()), es.last())
    }
}

/// The concatenated text deltas of a sequence of events.
pub open spec fn spec_text_deltas(es: Seq<ResponseStreamEvent>) -> Seq<char>
    decreases es.len(),
{
    if es.len() == 0 {
        Seq::empty()
    } else {
        spec_text_deltas(es.drop_last()) + match es.last() {
            ResponseStreamEvent::ResponseOutputTextDelta { delta, .. } => delta@,
            _ => Seq::empty(),
        }
    }
}

/// The finish reason reported: `tool_calls` replaces `stop` when calls were made.
pub open spec fn spec_response_finish_reason(s: AccumulatorV) -> Seq<char> {
    if s.calls.len() > 0 && s.finish_reason == "stop"@ {
        "tool_calls"@
    } else {
        s.finish_reason
    }
}

/// The tool calls reported, in the order they were first announced.
pub open spec fn spec_response_tool_calls(s: AccumulatorV) -> Option<Seq<(Seq<char>, Seq<char>, Seq<char>, Seq<char>)>> {
    if s.calls.len() > 0 {
        Some(s.calls.map_values(|c: PendingV| (c.call_id, "function"@, c.name, c.arguments)))
    } else {
        None
    }
}

/// The assistant text reported: `None` when there was none.
pub open spec fn spec_response_content(s: AccumulatorV) -> Option<Seq<char>> {
    if s.text.len() == 0 {
        None
    } else {
        Some(s.text)
    }
}

pub open spec fn opt_tool_calls_view(o: Option<Vec<ToolCall>>) -> Option<Seq<(Seq<char>, Seq<char>, Seq<char>, Seq<char>)>> {
    match o {
        Some(v) => Some(crate::openai::tool_calls_view(v@)),
        None => None,
    }
}

/// The non-streaming response assembled from state `s`.
pub open spec fn response_matches(r: ChatCompletionResponse, s: AccumulatorV, model: Seq<char>, created: u64) -> bool {
    &&& r.id@ == "chatcmpl-"@ + s.response_id
    &&& r.object@ == "chat.completion"@
    &&& r.created == created
    &&& r.model@ == model
    &&& r.choices@.len() == 1
    &&& r.choices@[0].index == 0
    &&& r.choices@[0].message.role@ == "assistant"@
    &&& opt_view(r.choices@[0].message.content) == spec_response_content(s)
    &&& opt_tool_calls_view(r.choices@[0].message.tool_calls) == spec_response_tool_calls(s)
    &&& r.choices@[0].finish_reason@ == spec_response_finish_reason(s)
    &&& r.usage.prompt_tokens == s.input_tokens
    &&& r.usage.completion_tokens == s.output_tokens
    &&& r.usage.total_tokens == s.input_tokens + s.output_tokens
}

impl ResponseAccumulator {
    /// The non-streaming Chat Completions response for the accumulated events.
    pub fn finish(self, model: String, created: u64) -> (r: ChatCompletionResponse)
        requires
            self.input_tokens + self.output_tokens <= u32::MAX,
        ensures
            response_matches(r, self@, model@, created),
    {
        let ghost s = self@;
        let has_calls = self.calls.len() > 0;
        let finish_reason = if has_calls && str_eq(self.finish_reason.as_str(), "stop") {
            owned("tool_calls")
        } else {
            self.finish_reason
        };
        let tool_calls = if has_calls {
            let mut out: Vec<ToolCall> = Vec::new();
            let mut calls = self.calls;
            let ghost orig = calls@;
            let mut i: usize = 0;
            assert(orig.skip(0) =~= orig);
            assert(crate::openai::tool_calls_view(out@) =~= orig.take(0).map_values(
                |c: PendingFunctionCall| (c.call_id@, "function"@, c.name@, c.arguments@)));
            while calls.len() > 0
                invariant
                    i + calls@.len() == orig.len(),
                    orig.len() <= usize::MAX,
                    calls@ == orig.skip(i as int),
                    crate::openai::tool_calls_view(out@) == orig.take(i as int).map_values(
                        |c: PendingFunctionCall| (c.call_id@, "function"@, c.name@, c.arguments@),
                    ),
                decreases calls@.len(),
            {
                let ghost prev = calls@;
                let c = calls.remove(0);
                let ghost cv = c;
                assert(cv == prev[0]);
                assert(prev[0] == orig[i as int]);
                let t = c.into_tool_call();
                let ghost before = out@;
                out.push(t);
                i = i + 1;
                proof {
                    assert(calls@ =~= orig.skip(i as int));
                    assert(orig[i - 1] == cv);
                    assert(crate::openai::tool_call_view(t) == (cv.call_id@, "function"@, cv.name@, cv.arguments@));
                    assert(orig.take(i as int) =~= orig.take(i - 1).push(cv));
                    assert(crate::openai::tool_calls_view(out@) =~= crate::openai::tool_calls_view(before).push(crate::openai::tool_call_view(t)));
                    assert(crate::openai::tool_calls_view(out@) =~= orig.take(i as int).map_values(
                        |c: PendingFunctionCall| (c.call_id@, "function"@, c.name@, c.arguments@),
                    ));
                }
            }
            proof {
                assert(orig.take(i as int) =~= orig);
                assert(crate::openai::tool_calls_view(out@) =~= s.calls.map_values(|c: PendingV| (c.call_id, "function"@, c.name, c.arguments)));
            }
            Some(out)
        } else {
            None
        };
        let content = if self.text.as_str().is_empty() {
            None
        } else {
            Some(self.text)
        };
        let message = ResponseMessage { role: "assistant", content, tool_calls };
        let choice = Choice { index: 0, message, finish_reason };
        let mut choices: Vec<Choice> = Vec::new();
        choices.push(choice);
        ChatCompletionResponse {
            id: concat("chatcmpl-", self.response_id.as_str()),
            object: "chat.completion",
            created,
            model,
            choices,
            usage: Usage {
                prompt_tokens: self.input_tokens,
                completion_tokens: self.output_tokens,
                total_tokens: self.input_tokens + self.output_tokens,
            },
        }
    }
}

/// Consumes a whole event stream, returning the final state and the lifecycle
/// events to fire, in order.
pub fn accumulate(events: Vec<ResponseStreamEvent>) -> (r: (ResponseAccumulator, Vec<HookEvent>))
    ensures
        r.0.wf(),
        r.0@ == spec_run(spec_initial(), events@),
        hooks_view(r.1@) == spec_run_hooks(spec_initial(), events@),
{
    let mut acc = ResponseAccumulator::new();
    let mut hooks: Vec<HookEvent> = Vec::new();
    let mut events = events;
    let ghost orig = events@;
    let mut i: usize = 0;
    assert(hooks_view(hooks@) =~= Seq::<HookEventV>::empty());
    assert(orig.skip(0) =~= orig);
    assert(orig.take(0) =~= Seq::<ResponseStreamEvent>::empty());
    let n = events.len();
    assert(n == orig.len());
    while events.len() > 0
        invariant
            i + events@.len() == orig.len(),
            orig.len() <= usize::MAX,
            events@ == orig.skip(i as int),
            acc.wf(),
            acc@ == spec_run(spec_initial(), orig.take(i as int)),
            hooks_view(hooks@) == spec_run_hooks(spec_initial(), orig.take(i as int)),
        decreases events@.len(),
    {
        let e = events.remove(0);
        let ghost ev = e;
        let ghost before = hooks_view(hooks@);
        let mut h = acc.step(e);
        let ghost hv = hooks_view(h@);
        hooks.append(&mut h);
        i = i + 1;
        proof {
            assert(events@ =~= orig.skip(i as int));
            assert(orig.take(i as int).drop_last() =~= orig.take(i - 1));
            assert(orig.take(i as int).last() == ev);
            assert(hooks_view(hooks@) =~= before + hv);
        }
    }
    assert(orig.take(i as int) =~= orig);
    (acc, hooks)
}

/// The text of the assembled response is exactly the text deltas of the
/// stream, in stream order.
pub proof fn law_text_is_concatenated_deltas(es: Seq<ResponseStreamEvent>)
    ensures
        spec_run(spec_initial(), es).text == spec_text_deltas(es),
    decreases es.len(),
{
    if es.len() > 0 {
        law_text_is_concatenated_deltas(es.drop_last());
    }
}

/// The `tool` messages of a request, each reported as a submitted tool result
/// (`unknown` when it names no call).
pub open spec fn spec_tool_result_hooks(msgs: Seq<crate::openai::Message>) -> Seq<HookEventV>
    decreases msgs.len(),
{
    if msgs.len() == 0 {
        Seq::empty()
    } else {
        spec_tool_result_hooks(msgs.drop_last()) + if msgs.last().role@ == "tool"@ {
            seq![HookEventV::ToolResultSubmitted {
                call_id: match msgs.last().tool_call_id { Some(id) => id@, None => "unknown"@ },
            }]
        } else {
            Seq::empty()
        }
    }
}

/// The tool-result events fired for the messages of a request.
pub fn tool_result_hooks(msgs: &Vec<crate::openai::Message>) -> (r: Vec<HookEvent>)
    ensures
        hooks_view(r@) == spec_tool_result_hooks(msgs@),
{
    let mut out: Vec<HookEvent> = Vec::new();
    let mut i: usize = 0;
    assert(hooks_view(out@) =~= Seq::<HookEventV>::empty());
    while i < msgs.len()
        invariant
            i <= msgs.len(),
            hooks_view(out@) == spec_tool_result_hooks(msgs@.take(i as int)),
        decreases msgs.len() - i,
    {
        let m = &msgs[i];
        proof {
            assert(msgs@.take(i + 1).drop_last() =~= msgs@.take(i as int));
        }
        if str_eq(m.role.as_str(), "tool") {
            let call_id = match &m.tool_call_id {
                Some(id) => id.clone(),
                None => owned("unknown"),
            };
            let ghost before = out@;
            let e = HookEvent::ToolResultSubmitted { call_id };
            out.push(e);
            proof {
                assert(hooks_view(out@) =~= hooks_view(before).push(e@));
            }
        }
        i = i + 1;
    }
    assert(msgs@.take(msgs.len() as int) =~= msgs@);
    out
}


// ---------------------------------------------------------------------------
// Streaming conversion: Responses API events -> chat.completion.chunk
// ---------------------------------------------------------------------------

/// What a translated chunk carries.
pub enum ChunkKind {
    /// The opening chunk announcing the assistant role.
    Role,
    /// The header of a tool call: its position, id and function name.
    ToolCallStart { index: u32, call_id: Seq<char>, name: Seq<char> },
    /// A fragment of a tool call's arguments.
    ToolCallArgs { index: u32, delta: Seq<char> },
    /// A fragment of assistant text.
    Content(Seq<char>),
    /// The closing chunk with its finish reason.
    Finish(Seq<char>),
}

/// The state of a stream conversion: for each function-call output index,
/// its position in the `tool_calls` array and its call id.
pub struct TranslatorV {
    pub call_index: Seq<(u32, u32)>,
    pub call_ids: Seq<(u32, Seq<char>)>,
}

/// Translates one Responses API stream into `chat.completion.chunk`s that all
/// share one completion id, creation time and model.
#[derive(Debug)]
pub struct StreamTranslator {
    pub id: String,
    pub created: u64,
    pub model: String,
    pub call_index: Vec<(u32, u32)>,
    pub call_ids: Vec<(u32, String)>,
}

impl View for StreamTranslator {
    type V = TranslatorV;

    open spec fn view(&self) -> TranslatorV {
        TranslatorV {
            call_index: self.call_index@,
            call_ids: self.call_ids@.map_values(|p: (u32, String)| (p.0, p.1@)),
        }
    }
}

/// The position of key `k` in an association list, if any.
pub open spec fn assoc_find<V>(m: Seq<(u32, V)>, k: u32) -> Option<int> {
    if exists|i: int| 0 <= i < m.len() && m[i].0 == k {
        Some(choose|i: int| 0 <= i < m.len() && m[i].0 == k)
    } else {
        None
    }
}

/// `map.insert(k, v)`: replaces the value of `k`, or adds `(k, v)`.
pub open spec fn assoc_insert<V>(m: Seq<(u32, V)>, k: u32, v: V) -> Seq<(u32, V)> {
    match assoc_find(m, k) {
        Some(i) => m.update(i, (k, v)),
        None => m.push((k, v)),
    }
}

/// No key occurs twice.
pub open spec fn assoc_unique<V>(m: Seq<(u32, V)>) -> bool {
    forall|i: int, j: int| 0 <= i < m.len() && 0 <= j < m.len() && i != j ==> m[i].0 != m[j].0
}

/// The chunk emitted for an event, if any.
pub open spec fn spec_chunk_kind(s: TranslatorV, e: ResponseStreamEvent) -> Option<ChunkKind> {
    match e {
        ResponseStreamEvent::ResponseCreated { .. } => Some(ChunkKind::Role),
        ResponseStreamEvent::ResponseOutputItemAdded { output_index, item } => if is_function_call(item.item_type) {
            Some(ChunkKind::ToolCallStart {
                index: s.call_index.len() as u32,
                call_id: or_empty(item.call_id),
                name: or_empty(item.name),
            })
        } else {
            None
        },
        ResponseStreamEvent::ResponseFunctionCallArgumentsDelta { output_index, delta } => match assoc_find(s.call_index, output_index) {
            Some(i) => Some(ChunkKind::ToolCallArgs { index: s.call_index[i].1, delta: delta@ }),
            None => None,
        },
        ResponseStreamEvent::ResponseOutputItemDone { output_index, item } => if is_function_call(item.item_type)
            && assoc_find(s.call_index, output_index) is Some {
            Some(ChunkKind::Finish("tool_calls"@))
        } else {
            None
        },
        ResponseStreamEvent::ResponseOutputTextDelta { delta, .. } => Some(ChunkKind::Content(delta@)),
        ResponseStreamEvent::ResponseDone { response } => if s.call_index.len() == 0 {
            Some(ChunkKind::Finish(spec_map_finish_reason(opt_view(response.status))))
        } else {
            None
        },
        _ => None,
    }
}

/// The state after an event: a new function call gets the next array position.
pub open spec fn spec_translate_step(s: TranslatorV, e: ResponseStreamEvent) -> TranslatorV {
    match e {
        ResponseStreamEvent::ResponseOutputItemAdded { output_index, item } => if is_function_call(item.item_type) {
            TranslatorV {
                call_index: assoc_insert(s.call_index, output_index, s.call_index.len() as u32),
                call_ids: assoc_insert(s.call_ids, output_index, or_empty(item.call_id)),
            }
        } else {
            s
        },
        _ => s,
    }
}

/// The lifecycle events fired while streaming an event.
pub open spec fn spec_translate_hooks(s: TranslatorV, e: ResponseStreamEvent) -> Seq<HookEventV> {
    match e {
        ResponseStreamEvent::ResponseOutputItemAdded { output_index, item } => if is_function_call(item.item_type) {
            seq![HookEventV::ToolCallStart { name: or_empty(item.name), call_id: or_empty(item.call_id) }]
        } else {
            Seq::empty()
        },
        ResponseStreamEvent::ResponseFunctionCallArgumentsDelta { output_index, delta } => seq![HookEventV::ToolCallArgs {
            call_id: match assoc_find(s.call_ids, output_index) { Some(i) => s.call_ids[i].1, None => Seq::empty() },
            args_delta: delta@,
        }],
        ResponseStreamEvent::ResponseOutputTextDelta { delta, .. } => seq![HookEventV::TextDelta { delta: delta@ }],
        ResponseStreamEvent::ResponseDone { response } => seq![HookEventV::ResponseComplete {
            finish_reason: spec_map_finish_reason(opt_view(response.status)),
        }],
        _ => Seq::empty(),
    }
}

/// `c` is the chunk of kind `k` for the completion `id`/`created`/`model`.
pub open spec fn chunk_matches(c: crate::codex::ChatCompletionChunk, id: Seq<char>, created: u64, model: Seq<char>, k: ChunkKind) -> bool {
    &&& c.id@ == id
    &&& c.object@ == "chat.completion.chunk"@
    &&& c.created == created
    &&& c.model@ == model
    &&& c.choices@.len() == 1
    &&& c.choices@[0].index == 0
    &&& match k {
        ChunkKind::Role => {
            &&& c.choices@[0].delta.role matches Some(r) && r@ == "assistant"@
            &&& c.choices@[0].delta.content is None
            &&& c.choices@[0].delta.tool_calls is None
            &&& c.choices@[0].finish_reason is None
        },
        ChunkKind::ToolCallStart { index, call_id, name } => {
            &&& c.choices@[0].delta.role is None
            &&& c.choices@[0].delta.content is None
            &&& c.choices@[0].delta.tool_calls matches Some(tcs) && tcs@.len() == 1 && tcs@[0].index == index
                && opt_view(tcs@[0].id) == Some(call_id) && (tcs@[0].call_type matches Some(t) && t@ == "function"@)
                && opt_view(tcs@[0].function.name) == Some(name) && tcs@[0].function.arguments@ == Seq::<char>::empty()
            &&& c.choices@[0].finish_reason is None
        },
        ChunkKind::ToolCallArgs { index, delta } => {
            &&& c.choices@[0].delta.role is None
            &&& c.choices@[0].delta.content is None
            &&& c.choices@[0].delta.tool_calls matches Some(tcs) && tcs@.len() == 1 && tcs@[0].index == index
                && tcs@[0].id is None && tcs@[0].call_type is None
                && tcs@[0].function.name is None && tcs@[0].function.arguments@ == delta
            &&& c.choices@[0].finish_reason is None
        },
        ChunkKind::Content(d) => {
            &&& c.choices@[0].delta.role is None
            &&& opt_view(c.choices@[0].delta.content) == Some(d)
            &&& c.choices@[0].delta.tool_calls is None
            &&& c.choices@[0].finish_reason is None
        },
        ChunkKind::Finish(r) => {
            &&& c.choices@[0].delta.role is None
            &&& c.choices@[0].delta.content is None
            &&& c.choices@[0].delta.tool_calls is None
            &&& opt_view(c.choices@[0].finish_reason) == Some(r)
        },
    }
}

fn assoc_position<V>(m: &Vec<(u32, V)>, k: u32) -> (r: Option<usize>)
    ensures
        match r {
            Some(i) => i < m@.len() && m@[i as int].0 == k && assoc_find(m@, k) is Some,
            None => assoc_find(m@, k) is None,
        },
{
    let mut i: usize = 0;
    while i < m.len()
        invariant
            i <= m.len(),
            forall|j: int| 0 <= j < i ==> m@[j].0 != k,
        decreases m.len() - i,
    {
        if m[i].0 == k {
            assert(m@[i as int].0 == k);
            return Some(i);
        }
        i = i + 1;
    }
    None
}

proof fn lemma_assoc_find_unique<V>(m: Seq<(u32, V)>, k: u32, i: int)
    requires
        assoc_unique(m),
        0 <= i < m.len(),
        m[i].0 == k,
    ensures
        assoc_find(m, k) == Some(i),
{
    let j = choose|j: int| 0 <= j < m.len() && m[j].0 == k;
    assert(j == i);
}

/// The translator state after a run of events.
pub open spec fn spec_translate_run(s: TranslatorV, es: Seq<ResponseStreamEvent>) -> TranslatorV
    decreases es.len(),
{
    if es.len() == 0 {
        s
    } else {
        spec_translate_run(spec_translate_step(s, es[0]), es.drop_first())
    }
}

/// The output index an event announces a function call at, if it does.
pub open spec fn announced_call(e: ResponseStreamEvent) -> Option<u32> {
    match e {
        ResponseStreamEvent::ResponseOutputItemAdded { output_index, item } => if is_function_call(item.item_type) {
            Some(output_index)
        } else {
            None
        },
        _ => None,
    }
}

/// Every function call of `es` is announced once, at an output index that the
/// state `s` does not know yet.
pub open spec fn calls_announced_once(s: TranslatorV, es: Seq<ResponseStreamEvent>) -> bool {
    forall|i: int| #![trigger announced_call(es[i])]
        0 <= i < es.len() && announced_call(es[i]) is Some ==> {
            &&& assoc_find(s.call_index, announced_call(es[i])->0) is None
            &&& forall|j: int| #![trigger announced_call(es[j])]
                0 <= j < es.len() && j != i ==> announced_call(es[j]) != announced_call(es[i])
        }
}

/// The `tool_calls` positions are 0, 1, 2, ... in the order the calls were announced.
pub open spec fn positions_sequential(m: Seq<(u32, u32)>) -> bool {
    forall|i: int| 0 <= i < m.len() ==> #[trigger] m[i].1 == i
}

proof fn lemma_assoc_find_push<V>(m: Seq<(u32, V)>, k0: u32, v: V, k: u32)
    requires
        assoc_find(m, k) is None,
        k != k0,
    ensures
        assoc_find(m.push((k0, v)), k) is None,
{
    let p = m.push((k0, v));
    if exists|j: int| 0 <= j < p.len() && p[j].0 == k {
        let j = choose|j: int| 0 <= j < p.len() && p[j].0 == k;
        if j < m.len() {
            assert(m[j].0 == k);
        }
    }
}

/// Tool calls get their `tool_calls` positions in the order they are
/// announced: starting from a state whose positions are 0, 1, 2, ..., a run
/// of events in which each function call is announced once keeps the
/// positions 0, 1, 2, ..., each new call taking the next one (while the
/// positions fit in a `u32`).
pub proof fn law_tool_call_positions(s: TranslatorV, es: Seq<ResponseStreamEvent>)
    requires
        s.call_index.len() + es.len() <= u32::MAX,
        positions_sequential(s.call_index),
        calls_announced_once(s, es),
    ensures
        positions_sequential(spec_translate_run(s, es).call_index),
        spec_translate_run(s, es).call_index.len() >= s.call_index.len(),
        spec_translate_run(s, es).call_index.subrange(0, s.call_index.len() as int) == s.call_index,
    decreases es.len(),
{
    if es.len() > 0 {
        let e = es[0];
        let s1 = spec_translate_step(s, e);
        let rest = es.drop_first();
        assert(announced_call(es[0]) == announced_call(e));
        match announced_call(e) {
            Some(k0) => {
                assert(assoc_find(s.call_index, k0) is None);
                assert(s1.call_index == s.call_index.push((k0, s.call_index.len() as u32)));
                assert forall|i: int| 0 <= i < s1.call_index.len() implies #[trigger] s1.call_index[i].1 == i by {
                    if i < s.call_index.len() {
                        assert(s1.call_index[i] == s.call_index[i]);
                    }
                }
                assert forall|i: int| #![trigger announced_call(rest[i])]
                    0 <= i < rest.len() && announced_call(rest[i]) is Some implies {
                        &&& assoc_find(s1.call_index, announced_call(rest[i])->0) is None
                        &&& forall|j: int| #![trigger announced_call(rest[j])]
                            0 <= j < rest.len() && j != i ==> announced_call(rest[j]) != announced_call(rest[i])
                    } by {
                    assert(rest[i] == es[i + 1]);
                    assert(announced_call(es[i + 1]) is Some);
                    assert(announced_call(es[0]) != announced_call(es[i + 1]));
                    lemma_assoc_find_push(s.call_index, k0, s.call_index.len() as u32, announced_call(rest[i])->0);
                    assert forall|j: int| #![trigger announced_call(rest[j])]
                        0 <= j < rest.len() && j != i implies announced_call(rest[j]) != announced_call(rest[i]) by {
                        assert(rest[j] == es[j + 1]);
                        assert(announced_call(es[j + 1]) != announced_call(es[i + 1]));
                    }
                }
            },
            None => {
                assert(s1 == s) by {
                    match e {
                        ResponseStreamEvent::ResponseOutputItemAdded { output_index, item } => {},
                        _ => {},
                    }
                }
                assert forall|i: int| #![trigger announced_call(rest[i])]
                    0 <= i < rest.len() && announced_call(rest[i]) is Some implies {
                        &&& assoc_find(s1.call_index, announced_call(rest[i])->0) is None
                        &&& forall|j: int| #![trigger announced_call(rest[j])]
                            0 <= j < rest.len() && j != i ==> announced_call(rest[j]) != announced_call(rest[i])
                    } by {
                    assert(rest[i] == es[i + 1]);
                    assert(announced_call(es[i + 1]) is Some);
                    assert forall|j: int| #![trigger announced_call(rest[j])]
                        0 <= j < rest.len() && j != i implies announced_call(rest[j]) != announced_call(rest[i]) by {
                        assert(rest[j] == es[j + 1]);
                        assert(announced_call(es[j + 1]) != announced_call(es[i + 1]));
                    }
                }
            },
        }
        law_tool_call_positions(s1, rest);
        let r = spec_translate_run(s1, rest);
        assert(r == spec_translate_run(s, es));
        assert(r.call_index.subrange(0, s1.call_index.len() as int) == s1.call_index);
        assert(r.call_index.subrange(0, s.call_index.len() as int) =~= s1.call_index.subrange(0, s.call_index.len() as int));
        assert(s1.call_index.subrange(0, s.call_index.len() as int) =~= s.call_index);
    } else {
        assert(s.call_index.subrange(0, s.call_index.len() as int) =~= s.call_index);
    }
}

fn make_chunk(id: &String, created: u64, model: &String, delta: crate::codex::Delta, finish_reason: Option<String>) -> (c: crate::codex::ChatCompletionChunk)
    ensures
        c.id@ == id@,
        c.object@ == "chat.completion.chunk"@,
        c.created == created,
        c.model@ == model@,
        c.choices@.len() == 1,
        c.choices@[0].index == 0,
        c.choices@[0].delta == delta,
        c.choices@[0].finish_reason == finish_reason,
{
    let mut choices: Vec<crate::codex::ChunkChoice> = Vec::new();
    choices.push(crate::codex::ChunkChoice { index: 0, delta, finish_reason });
    crate::codex::ChatCompletionChunk {
        id: id.clone(),
        object: "chat.completion.chunk",
        created,
        model: model.clone(),
        choices,
    }
}

fn tool_delta(index: u32, id: Option<String>, call_type: Option<&'static str>, name: Option<String>, arguments: String) -> (d: crate::codex::Delta)
    ensures
        d.role is None,
        d.content is None,
        d.tool_calls matches Some(tcs) && tcs@.len() == 1 && tcs@[0].index == index && tcs@[0].id == id
            && tcs@[0].call_type == call_type && tcs@[0].function.name == name && tcs@[0].function.arguments == arguments,
{
    let mut tcs: Vec<crate::codex::ToolCallDelta> = Vec::new();
    tcs.push(crate::codex::ToolCallDelta {
        index,
        id,
        call_type,
        function: crate::codex::ToolCallFunctionDelta { name, arguments },
    });
    crate::codex::Delta { role: None, content: None, tool_calls: Some(tcs) }
}

fn empty_delta() -> (d: crate::codex::Delta)
    ensures
        d.role is None,
        d.content is None,
        d.tool_calls is None,
{
    crate::codex::Delta { role: None, content: None, tool_calls: None }
}

impl StreamTranslator {
    /// Each output index appears at most once in each map.
    pub open spec fn wf(&self) -> bool {
        assoc_unique(self@.call_index) && assoc_unique(self@.call_ids)
    }

    /// A translator for the completion `id` created at `created` for `model`.
    pub fn new(id: String, created: u64, model: String) -> (r: StreamTranslator)
        ensures
            r.id@ == id@,
            r.created == created,
            r.model@ == model@,
            r@.call_index.len() == 0,
            r@.call_ids.len() == 0,
            r.wf(),
    {
        let r = StreamTranslator { id, created, model, call_index: Vec::new(), call_ids: Vec::new() };
        assert(r@.call_ids =~= Seq::<(u32, Seq<char>)>::empty());
        r
    }

    /// Translates one event: returns the lifecycle events to fire and the chunk
    /// to send, if any.
    pub fn translate(&mut self, event: ResponseStreamEvent) -> (r: (Vec<HookEvent>, Option<crate::codex::ChatCompletionChunk>))
        requires
            old(self).wf(),
        ensures
            final(self).wf(),
            final(self).id == old(self).id,
            final(self).created == old(self).created,
            final(self).model == old(self).model,
            final(self)@ == spec_translate_step(old(self)@, event),
            hooks_view(r.0@) == spec_translate_hooks(old(self)@, event),
            match spec_chunk_kind(old(self)@, event) {
                Some(k) => r.1 matches Some(c) && chunk_matches(c, old(self).id@, old(self).created, old(self).model@, k),
                None => r.1 is None,
            },
    {
        match event {
            ResponseStreamEvent::ResponseCreated { .. } => {
                let d = crate::codex::Delta { role: Some("assistant"), content: None, tool_calls: None };
                (no_hooks(), Some(make_chunk(&self.id, self.created, &self.model, d, None)))
            },
            ResponseStreamEvent::ResponseOutputItemAdded { output_index, item } => {
                if is_function_call_exec(&item.item_type) {
                    let next = self.call_index.len() as u32;
                    let call_id = take_or_empty(item.call_id);
                    let name = take_or_empty(item.name);
                    let ghost ci0 = self@.call_ids;
                    match assoc_position(&self.call_index, output_index) {
                        Some(i) => {
                            proof { lemma_assoc_find_unique(self@.call_index, output_index, i as int); }
                            self.call_index.set(i, (output_index, next));
                            proof {
                                assert(self@.call_index =~= assoc_insert(old(self)@.call_index, output_index, next));
                                assert(assoc_unique(self@.call_index)) by {
                                    assert forall|a: int, b: int| 0 <= a < self@.call_index.len() && 0 <= b < self@.call_index.len() && a != b
                                        implies self@.call_index[a].0 != self@.call_index[b].0 by {
                                        assert(self@.call_index[a].0 == old(self)@.call_index[a].0);
                                        assert(self@.call_index[b].0 == old(self)@.call_index[b].0);
                                    }
                                }
                            }
                        },
                        None => {
                            self.call_index.push((output_index, next));
                            proof {
                                assert(self@.call_index =~= assoc_insert(old(self)@.call_index, output_index, next));
                            }
                        },
                    }
                    match assoc_position(&self.call_ids, output_index) {
                        Some(i) => {
                            proof {
                                assert(ci0[i as int].0 == output_index);
                                lemma_assoc_find_unique(ci0, output_index, i as int);
                            }
                            self.call_ids.set(i, (output_index, call_id.clone()));
                            proof {
                                assert(self@.call_ids =~= assoc_insert(ci0, output_index, call_id@));
                                assert(assoc_unique(self@.call_ids)) by {
                                    assert forall|a: int, b: int| 0 <= a < self@.call_ids.len() && 0 <= b < self@.call_ids.len() && a != b
                                        implies self@.call_ids[a].0 != self@.call_ids[b].0 by {
                                        assert(self@.call_ids[a].0 == ci0[a].0);
                                        assert(self@.call_ids[b].0 == ci0[b].0);
                                    }
                                }
                            }
                        },
                        None => {
                            proof {
                                assert(assoc_find(ci0, output_index) is None);
                            }
                            self.call_ids.push((output_index, call_id.clone()));
                            proof {
                                assert(self@.call_ids =~= assoc_insert(ci0, output_index, call_id@));
                                assert(assoc_unique(self@.call_ids)) by {
                                    assert forall|a: int, b: int| 0 <= a < self@.call_ids.len() && 0 <= b < self@.call_ids.len() && a != b
                                        implies self@.call_ids[a].0 != self@.call_ids[b].0 by {
                                        if a < ci0.len() && b < ci0.len() {
                                            assert(self@.call_ids[a].0 == ci0[a].0);
                                            assert(self@.call_ids[b].0 == ci0[b].0);
                                        } else if a < ci0.len() {
                                            assert(self@.call_ids[a].0 == ci0[a].0);
                                        } else if b < ci0.len() {
                                            assert(self@.call_ids[b].0 == ci0[b].0);
                                        }
                                    }
                                }
                            }
                        },
                    }
                    let hook = HookEvent::ToolCallStart { name: name.clone(), call_id: call_id.clone() };
                    let d = tool_delta(next, Some(call_id), Some("function"), Some(name), String::new());
                    let c = make_chunk(&self.id, self.created, &self.model, d, None);
                    (single_hook(hook), Some(c))
                } else {
                    (no_hooks(), None)
                }
            },
            ResponseStreamEvent::ResponseFunctionCallArgumentsDelta { output_index, delta } => {
                let hook_id = match assoc_position(&self.call_ids, output_index) {
                    Some(i) => {
                        proof { lemma_assoc_find_unique(self@.call_ids, output_index, i as int); }
                        self.call_ids[i].1.clone()
                    },
                    None => String::new(),
                };
                let hooks = single_hook(HookEvent::ToolCallArgs { call_id: hook_id, args_delta: delta.clone() });
                match assoc_position(&self.call_index, output_index) {
                    Some(i) => {
                        proof { lemma_assoc_find_unique(self@.call_index, output_index, i as int); }
                        let index = self.call_index[i].1;
                        let d = tool_delta(index, None, None, None, delta);
                        (hooks, Some(make_chunk(&self.id, self.created, &self.model, d, None)))
                    },
                    None => (hooks, None),
                }
            },
            ResponseStreamEvent::ResponseOutputItemDone { output_index, item } => {
                if is_function_call_exec(&item.item_type) {
                    match assoc_position(&self.call_index, output_index) {
                        Some(_) => {
                            let c = make_chunk(&self.id, self.created, &self.model, empty_delta(), Some(owned("tool_calls")));
                            (no_hooks(), Some(c))
                        },
                        None => (no_hooks(), None),
                    }
                } else {
                    (no_hooks(), None)
                }
            },
            ResponseStreamEvent::ResponseOutputTextDelta { delta, .. } => {
                let hooks = single_hook(HookEvent::TextDelta { delta: delta.clone() });
                let d = crate::codex::Delta { role: None, content: Some(delta), tool_calls: None };
                (hooks, Some(make_chunk(&self.id, self.created, &self.model, d, None)))
            },
            ResponseStreamEvent::ResponseDone { response } => {
                let finish = match &response.status {
                    Some(st) => map_finish_reason(Some(st.as_str())),
                    None => map_finish_reason(None),
                };
                let hooks = single_hook(HookEvent::ResponseComplete { finish_reason: finish.clone() });
                if self.call_index.len() == 0 {
                    (hooks, Some(make_chunk(&self.id, self.created, &self.model, empty_delta(), Some(finish))))
                } else {
                    (hooks, None)
                }
            },
            _ => (no_hooks(), None),
        }
    }
}


// ---------------------------------------------------------------------------
// Chat Completions backend responses
// ---------------------------------------------------------------------------

/// `body["choices"][0]`.
pub open spec fn cc_choice(body: JsonV) -> JsonV {
    json_at(json_index(body, "choices"@), 0)
}

/// `body["choices"][0]["message"]["content"].as_str()`.
pub open spec fn cc_content(body: JsonV) -> Option<Seq<char>> {
    json_as_str(json_index(json_index(cc_choice(body), "message"@), "content"@))
}

/// `body["choices"][0]["finish_reason"].as_str()`, `stop` by default.
pub open spec fn cc_finish_reason(body: JsonV) -> Seq<char> {
    match json_as_str(json_index(cc_choice(body), "finish_reason"@)) {
        Some(s) => s,
        None => "stop"@,
    }
}

/// The backend's finish reason is passed on: when the first choice of a Chat
/// Completions body carries a string `finish_reason`, the proxy reports that
/// string (in its response and its `ResponseComplete` hook); `stop` is
/// reported only when the first choice has no `finish_reason`.
pub proof fn law_backend_finish_reason_kept(body: JsonV, choices: Seq<JsonV>)
    requires
        crate::json::json_get(body, "choices"@) == Some(JsonV::Array(choices)),
        choices.len() > 0,
    ensures
        forall|f: Seq<char>| crate::json::json_get(choices[0], "finish_reason"@) == Some(JsonV::Str(f))
            ==> cc_finish_reason(body) == f,
        crate::json::json_get(choices[0], "finish_reason"@) is None ==> cc_finish_reason(body) == "stop"@,
{
    assert(cc_choice(body) == choices[0]);
}

/// `body["id"].as_str()`, empty by default.
pub open spec fn cc_id(body: JsonV) -> Seq<char> {
    match json_as_str(json_index(body, "id"@)) {
        Some(s) => s,
        None => Seq::empty(),
    }
}

/// `body["usage"][key].as_u64().unwrap_or(0) as u32`.
pub open spec fn cc_tokens(body: JsonV, key: Seq<char>) -> u32 {
    match json_as_u64(json_index(json_index(body, "usage"@), key)) {
        Some(n) => (n as u64) as u32,
        None => 0,
    }
}

/// The tool call read from one element of a `tool_calls` array, if it has an
/// `id` and a function `name`: (id, type or `function`, name, arguments or `{}`).
pub open spec fn cc_tool_call(tc: JsonV) -> Seq<(Seq<char>, Seq<char>, Seq<char>, Seq<char>)> {
    let id = json_as_str(json_index(tc, "id"@));
    let name = json_as_str(json_index(json_index(tc, "function"@), "name"@));
    if id is Some && name is Some {
        seq![(
            id.unwrap(),
            match json_as_str(json_index(tc, "type"@)) { Some(t) => t, None => "function"@ },
            name.unwrap(),
            match json_as_str(json_index(json_index(tc, "function"@), "arguments"@)) { Some(a) => a, None => "{}"@ },
        )]
    } else {
        Seq::empty()
    }
}

pub open spec fn cc_tool_call_list(a: Seq<JsonV>) -> Seq<(Seq<char>, Seq<char>, Seq<char>, Seq<char>)>
    decreases a.len(),
{
    if a.len() == 0 {
        Seq::empty()
    } else {
        cc_tool_call_list(a.drop_last()) + cc_tool_call(a.last())
    }
}

/// The tool calls of a Chat Completions `tool_calls` value: `None` unless it is
/// an array with at least one well-formed call.
pub open spec fn spec_parse_tool_calls(v: JsonV) -> Option<Seq<(Seq<char>, Seq<char>, Seq<char>, Seq<char>)>> {
    match v {
        JsonV::Array(a) => if cc_tool_call_list(a).len() == 0 { None } else { Some(cc_tool_call_list(a)) },
        _ => None,
    }
}

fn opt_index<'a>(o: Option<&'a Json>, key: &str) -> (r: Option<&'a Json>)
    ensures
        match r {
            Some(x) => x@ == json_index(match o { Some(j) => j@, None => JsonV::Null }, key@),
            None => json_index(match o { Some(j) => j@, None => JsonV::Null }, key@) == JsonV::Null,
        },
{
    match o {
        Some(j) => j.index(key),
        None => None,
    }
}

fn opt_str<'a>(o: Option<&'a Json>) -> (r: Option<&'a str>)
    ensures
        opt_str_view(r) == json_as_str(match o { Some(j) => j@, None => JsonV::Null }),
{
    match o {
        Some(j) => j.as_str(),
        None => None,
    }
}

fn str_or(o: Option<&str>, default: &str) -> (r: String)
    ensures
        r@ == match o { Some(s) => s@, None => default@ },
{
    match o {
        Some(s) => owned(s),
        None => owned(default),
    }
}

fn parse_tool_call(tc: &Json, out: &mut Vec<ToolCall>)
    ensures
        crate::openai::tool_calls_view(final(out)@) == crate::openai::tool_calls_view(old(out)@) + cc_tool_call(tc@),
{
    let id = opt_str(tc.index("id"));
    let func = tc.index("function");
    let name = opt_str(opt_index(func, "name"));
    match (id, name) {
        (Some(id), Some(name)) => {
            let t = ToolCall {
                id: owned(id),
                call_type: str_or(opt_str(tc.index("type")), "function"),
                function: crate::openai::ToolCallFunction {
                    name: owned(name),
                    arguments: str_or(opt_str(opt_index(func, "arguments")), "{}"),
                },
            };
            out.push(t);
            assert(crate::openai::tool_calls_view(final(out)@) =~= crate::openai::tool_calls_view(old(out)@) + cc_tool_call(tc@));
        },
        _ => {
            assert(crate::openai::tool_calls_view(out@) =~= crate::openai::tool_calls_view(out@) + cc_tool_call(tc@));
        },
    }
}

/// Reads the tool calls of a Chat Completions response message.
pub fn parse_chat_completions_tool_calls(value: &Json) -> (r: Option<Vec<ToolCall>>)
    ensures
        opt_tool_calls_view(r) == spec_parse_tool_calls(value@),
{
    match value {
        Json::Array(arr) => {
            let mut out: Vec<ToolCall> = Vec::new();
            let mut i: usize = 0;
            proof {
                lemma_seq_view(arr@);
                assert(crate::openai::tool_calls_view(out@) =~= Seq::empty());
            }
            let ghost av = json_seq_view(arr@);
            while i < arr.len()
                invariant
                    i <= arr.len(),
                    av == json_seq_view(arr@),
                    av.len() == arr@.len(),
                    forall|k: int| 0 <= k < arr@.len() ==> #[trigger] av[k] == json_view(arr@[k]),
                    crate::openai::tool_calls_view(out@) == cc_tool_call_list(av.take(i as int)),
                decreases arr.len() - i,
            {
                parse_tool_call(&arr[i], &mut out);
                proof {
                    assert(av.take(i + 1).drop_last() =~= av.take(i as int));
                    assert(av[i as int] == arr@[i as int]@);
                }
                i = i + 1;
            }
            proof {
                assert(av.take(arr.len() as int) =~= av);
            }
            if out.len() == 0 {
                None
            } else {
                Some(out)
            }
        },
        _ => None,
    }
}

/// The prompt and completion token counts reported by a Chat Completions response.
pub fn chat_completions_usage(body: &Json) -> (r: (u32, u32))
    ensures
        r.0 == cc_tokens(body@, "prompt_tokens"@),
        r.1 == cc_tokens(body@, "completion_tokens"@),
{
    let usage = body.index("usage");
    let p = match opt_index(usage, "prompt_tokens") {
        Some(v) => match v.as_u64() { Some(n) => n as u32, None => 0 },
        None => 0,
    };
    let c = match opt_index(usage, "completion_tokens") {
        Some(v) => match v.as_u64() { Some(n) => n as u32, None => 0 },
        None => 0,
    };
    (p, c)
}

/// Reads a Chat Completions backend response into the proxy's response, and
/// the completion event to fire.
pub fn parse_chat_completions_response(body: &Json, model: String, created: u64) -> (r: (ChatCompletionResponse, HookEvent))
    requires
        cc_tokens(body@, "prompt_tokens"@) + cc_tokens(body@, "completion_tokens"@) <= u32::MAX,
    ensures
        r.0.id@ == cc_id(body@),
        r.0.object@ == "chat.completion"@,
        r.0.created == created,
        r.0.model@ == model@,
        r.0.choices@.len() == 1,
        r.0.choices@[0].index == 0,
        r.0.choices@[0].message.role@ == "assistant"@,
        opt_view(r.0.choices@[0].message.content) == cc_content(body@),
        opt_tool_calls_view(r.0.choices@[0].message.tool_calls) == spec_parse_tool_calls(
            json_index(json_index(cc_choice(body@), "message"@), "tool_calls"@),
        ),
        r.0.choices@[0].finish_reason@ == cc_finish_reason(body@),
        r.0.usage.prompt_tokens == cc_tokens(body@, "prompt_tokens"@),
        r.0.usage.completion_tokens == cc_tokens(body@, "completion_tokens"@),
        r.0.usage.total_tokens == cc_tokens(body@, "prompt_tokens"@) + cc_tokens(body@, "completion_tokens"@),
        r.1@ == (HookEventV::ResponseComplete { finish_reason: cc_finish_reason(body@) }),
{
    let choice = opt_at(body.index("choices"), 0);
    let message = opt_index(choice, "message");
    let content = match opt_str(opt_index(message, "content")) {
        Some(s) => Some(owned(s)),
        None => None,
    };
    let finish_reason = str_or(opt_str(opt_index(choice, "finish_reason")), "stop");
    let response_id = str_or(opt_str(body.index("id")), "");
    proof {
        reveal_strlit("");
    }
    let (prompt_tokens, completion_tokens) = chat_completions_usage(body);
    let tool_calls = match opt_index(message, "tool_calls") {
        Some(v) => parse_chat_completions_tool_calls(v),
        None => None,
    };
    let hook = HookEvent::ResponseComplete { finish_reason: finish_reason.clone() };
    let mut choices: Vec<Choice> = Vec::new();
    choices.push(Choice {
        index: 0,
        message: ResponseMessage { role: "assistant", content, tool_calls },
        finish_reason,
    });
    let resp = ChatCompletionResponse {
        id: response_id,
        object: "chat.completion",
        created,
        model,
        choices,
        usage: Usage { prompt_tokens, completion_tokens, total_tokens: prompt_tokens + completion_tokens },
    };
    (resp, hook)
}

fn opt_at<'a>(o: Option<&'a Json>, i: usize) -> (r: Option<&'a Json>)
    ensures
        match r {
            Some(x) => x@ == json_at(match o { Some(j) => j@, None => JsonV::Null }, i as int),
            None => json_at(match o { Some(j) => j@, None => JsonV::Null }, i as int) == JsonV::Null,
        },
{
    match o {
        Some(j) => j.at(i),
        None => None,
    }
}


// ---------------------------------------------------------------------------
// Request preparation: availability, skill context, MCP tool schemas
// ---------------------------------------------------------------------------

/// The model of a request is served by the profile, or the request is refused
/// with `ModelNotAvailable` naming the resolved model and the profile.
pub fn check_model_available(model: &str, profile: BackendProfile) -> (r: Result<ModelTarget, ProxyError>)
    ensures
        r is Ok <==> spec_model_available(model@, profile),
        r matches Ok(t) ==> model_target_view(t) == spec_resolve_model(model@),
        r matches Err(e) ==> e matches ProxyError::ModelNotAvailable { model: m, profile: p }
            && m@ == spec_resolve_model(model@).0 && p@ == spec_profile_name(profile),
{
    let target = resolve_model(model);
    if model_available(&target, profile) {
        Ok(target)
    } else {
        Err(ProxyError::ModelNotAvailable { model: target.model_id, profile: owned(profile.name()) })
    }
}

/// The lifecycle event fired when a request is refused.
pub fn error_hook(err: &ProxyError, status: u16) -> (r: HookEvent)
    ensures
        r@ == (HookEventV::Error { status, message: spec_error_message(*err) }),
{
    HookEvent::Error { status, message: err.message() }
}

/// The text of the user messages of a request, joined by spaces (a message
/// whose content is not plain text counts as empty).
pub open spec fn spec_user_texts(msgs: Seq<Message>) -> Seq<Seq<char>>
    decreases msgs.len(),
{
    if msgs.len() == 0 {
        Seq::empty()
    } else {
        spec_user_texts(msgs.drop_last()) + if msgs.last().role@ == "user"@ {
            seq![match msgs.last().content { MessageContent::Text(t) => t@, _ => Seq::<char>::empty() }]
        } else {
            Seq::empty()
        }
    }
}

/// How many skills a request gets: the `PROXY_SKILLS_MAX` value when it parses
/// as a `usize` (an optional `+` and decimal digits), else 3.
pub open spec fn spec_skills_limit(value: Option<Seq<char>>) -> nat {
    match value {
        Some(v) => match crate::text::spec_parse_unsigned(v, usize::MAX as nat) {
            Some(n) => n,
            None => 3,
        },
        None => 3,
    }
}

/// The number of skills to inject, from the value of `PROXY_SKILLS_MAX`.
pub fn skills_limit(value: Option<&str>) -> (r: usize)
    ensures
        r as nat == spec_skills_limit(opt_str_view(value)),
{
    match value {
        Some(v) => match crate::text::parse_unsigned(v, usize::MAX as u64) {
            Some(n) => n as usize,
            None => 3,
        },
        None => 3,
    }
}

/// The user text a request's skill selection is based on.
pub fn user_text(msgs: &Vec<Message>) -> (r: String)
    ensures
        r@ == seq_join(spec_user_texts(msgs@), " "@),
{
    let mut parts: Vec<String> = Vec::new();
    let mut i: usize = 0;
    assert(views(parts@) =~= Seq::<Seq<char>>::empty());
    while i < msgs.len()
        invariant
            i <= msgs.len(),
            views(parts@) == spec_user_texts(msgs@.take(i as int)),
        decreases msgs.len() - i,
    {
        let m = &msgs[i];
        proof {
            assert(msgs@.take(i + 1).drop_last() =~= msgs@.take(i as int));
        }
        if str_eq(m.role.as_str(), "user") {
            let t = match &m.content {
                MessageContent::Text(t) => t.clone(),
                _ => String::new(),
            };
            let ghost before = parts@;
            parts.push(t);
            proof {
                assert(views(parts@) =~= views(before).push(t@));
            }
        }
        i = i + 1;
    }
    assert(msgs@.take(msgs.len() as int) =~= msgs@);
    join(&parts, " ")
}

/// The system message carrying the selected skills: `# Active Skills` followed
/// by their contents separated by `---` rules.
pub open spec fn spec_skills_message_text(contents: Seq<Seq<char>>) -> Seq<char> {
    "# Active Skills\n\n"@ + seq_join(contents, "\n\n---\n\n"@)
}

/// Prepends the selected skills' contents as a system message, when any were selected.
pub fn inject_skill_context(req: &mut ChatCompletionRequest, contents: &Vec<String>)
    ensures
        contents@.len() == 0 ==> final(req).messages@ == old(req).messages@,
        contents@.len() > 0 ==> final(req).messages@.len() == old(req).messages@.len() + 1
            && final(req).messages@.skip(1) == old(req).messages@
            && final(req).messages@[0].role@ == "system"@
            && (final(req).messages@[0].content matches MessageContent::Text(t)
                && t@ == spec_skills_message_text(views(contents@)))
            && final(req).messages@[0].tool_call_id is None
            && final(req).messages@[0].tool_calls is None
            && final(req).messages@[0].name is None,
        final(req).model == old(req).model,
        final(req).stream == old(req).stream,
        final(req).max_tokens == old(req).max_tokens,
        final(req).temperature == old(req).temperature,
        final(req).top_p == old(req).top_p,
        final(req).stop == old(req).stop,
        final(req).system == old(req).system,
        final(req).user == old(req).user,
        final(req).tools == old(req).tools,
        final(req).tool_choice == old(req).tool_choice,
        final(req).parallel_tool_calls == old(req).parallel_tool_calls,
{
    if contents.len() > 0 {
        let text = concat("# Active Skills\n\n", join(contents, "\n\n---\n\n").as_str());
        let msg = Message {
            role: owned("system"),
            content: MessageContent::Text(text),
            tool_call_id: None,
            tool_calls: None,
            name: None,
        };
        req.messages.insert(0, msg);
        assert(req.messages@.skip(1) =~= old(req).messages@);
    }
}

/// The tools of a request declare a function named `n`.
pub open spec fn declares_function(tools: Option<JsonV>, n: Seq<char>) -> bool {
    match tools {
        Some(JsonV::Array(a)) => exists|i: int| 0 <= i < a.len()
            && json_as_str(json_index(json_index(#[trigger] a[i], "function"@), "name"@)) == Some(n),
        _ => false,
    }
}

/// The MCP tools a request does not declare yet, in their JSON form.
pub open spec fn spec_new_tools(tools: Option<JsonV>, mcp: Seq<McpToolSchema>) -> Seq<JsonV>
    decreases mcp.len(),
{
    if mcp.len() == 0 {
        Seq::empty()
    } else {
        spec_new_tools(tools, mcp.drop_last()) + if declares_function(tools, mcp.last().function.name@) {
            Seq::empty()
        } else {
            seq![spec_tool_json(mcp.last())]
        }
    }
}

/// The request tools with the undeclared MCP tools appended; a request without
/// tools gets an array of them; a non-array `tools` value is left alone.
pub open spec fn spec_inject_mcp_tools(tools: Option<JsonV>, mcp: Seq<McpToolSchema>) -> Option<JsonV> {
    let new = spec_new_tools(tools, mcp);
    if new.len() == 0 {
        tools
    } else {
        match tools {
            None => Some(JsonV::Array(new)),
            Some(JsonV::Array(a)) => Some(JsonV::Array(a + new)),
            Some(other) => Some(other),
        }
    }
}

fn declares_function_exec(tools: &Option<Json>, n: &str) -> (b: bool)
    ensures
        b == declares_function(opt_json_view(*tools), n@),
{
    match tools {
        Some(Json::Array(a)) => {
            proof {
                lemma_seq_view(a@);
            }
            let ghost av = json_seq_view(a@);
            let mut i: usize = 0;
            while i < a.len()
                invariant
                    i <= a.len(),
                    av == json_seq_view(a@),
                    opt_json_view(*tools) == Some(JsonV::Array(av)),
                    av.len() == a@.len(),
                    forall|k: int| 0 <= k < a@.len() ==> #[trigger] av[k] == json_view(a@[k]),
                    forall|k: int| 0 <= k < i ==> json_as_str(json_index(json_index(#[trigger] av[k], "function"@), "name"@)) != Some(n@),
                decreases a.len() - i,
            {
                let f = a[i].index("function");
                let name = opt_str(opt_index(f, "name"));
                let hit = match name {
                    Some(x) => str_eq(x, n),
                    None => false,
                };
                proof {
                    assert(av[i as int] == a@[i as int]@);
                }
                if hit {
                    assert(json_as_str(json_index(json_index(av[i as int], "function"@), "name"@)) == Some(n@));
                    return true;
                }
                i = i + 1;
            }
            false
        },
        _ => false,
    }
}

/// Adds the configured MCP tool schemas that a request does not already declare.
pub fn inject_mcp_tools(tools: Option<Json>, mcp: &Vec<McpToolSchema>) -> (r: Option<Json>)
    ensures
        opt_json_view(r) == spec_inject_mcp_tools(opt_json_view(tools), mcp@),
{
    let ghost tv = opt_json_view(tools);
    let mut new: Vec<Json> = Vec::new();
    let mut i: usize = 0;
    proof { lemma_entries_empty(); }
    while i < mcp.len()
        invariant
            i <= mcp.len(),
            tv == opt_json_view(tools),
            json_seq_view(new@) == spec_new_tools(tv, mcp@.take(i as int)),
        decreases mcp.len() - i,
    {
        proof {
            assert(mcp@.take(i + 1).drop_last() =~= mcp@.take(i as int));
        }
        if !declares_function_exec(&tools, mcp[i].function.name.as_str()) {
            push_elem(&mut new, mcp[i].to_json());
        }
        i = i + 1;
    }
    assert(mcp@.take(mcp.len() as int) =~= mcp@);
    if new.len() == 0 {
        return tools;
    }
    proof {
        lemma_seq_view(new@);
    }
    match tools {
        None => Some(Json::Array(new)),
        Some(Json::Array(a)) => {
            let mut a = a;
            let ghost a0 = json_seq_view(a@);
            let mut j: usize = 0;
            let ghost nv = json_seq_view(new@);
            while j < new.len()
                invariant
                    j <= new.len(),
                    nv == json_seq_view(new@),
                    json_seq_view(a@) == a0 + nv.take(j as int),
                decreases new.len() - j,
            {
                proof {
                    lemma_seq_view(new@);
                }
                push_elem(&mut a, new[j].deep_clone());
                proof {
                    assert(nv[j as int] == new@[j as int]@);
                    assert(json_seq_view(a@) =~= a0 + nv.take(j + 1));
                }
                j = j + 1;
            }
            assert(nv.take(new.len() as int) =~= nv);
            Some(Json::Array(a))
        },
        Some(other) => Some(other),
    }
}


// ---------------------------------------------------------------------------
// Upstream request headers
// ---------------------------------------------------------------------------

/// The `Authorization` value and account id that `CodexAuth::bearer` yields.
pub open spec fn spec_bearer(a: crate::codex::CodexAuth) -> (Seq<char>, Option<Seq<char>>) {
    if a.access_token is Some && a.account_id is Some {
        ("Bearer "@ + a.access_token.unwrap()@, Some(a.account_id.unwrap()@))
    } else {
        ("Bearer "@ + a.api_key.unwrap()@, None)
    }
}

/// The headers of a Responses API request: the credentials, JSON content,
/// the given `accept`, the browser-like headers the ChatGPT backend expects,
/// and the account id when there is one.
pub open spec fn spec_responses_headers(auth: crate::codex::CodexAuth, accept: Seq<char>) -> Seq<(Seq<char>, Seq<char>)> {
    let (bearer, account) = spec_bearer(auth);
    seq![
        ("authorization"@, bearer),
        ("content-type"@, "application/json"@),
        ("accept"@, accept),
        ("accept-language"@, "en-US,en;q=0.9"@),
        ("origin"@, "https://chatgpt.com"@),
        ("referer"@, "https://chatgpt.com/"@),
        ("sec-fetch-dest"@, "empty"@),
        ("sec-fetch-mode"@, "cors"@),
        ("sec-fetch-site"@, "same-origin"@),
        ("openai-beta"@, "responses=experimental"@),
        ("originator"@, "codex_cli_rs"@),
    ] + match account {
        Some(id) => seq![("chatgpt-account-id"@, id)],
        None => Seq::empty(),
    }
}

/// The views of header pairs.
pub open spec fn header_views(v: Seq<(String, String)>) -> Seq<(Seq<char>, Seq<char>)> {
    v.map_values(|h: (String, String)| (h.0@, h.1@))
}

fn push_header(hs: &mut Vec<(String, String)>, name: &str, value: &str)
    ensures
        header_views(final(hs)@) == header_views(old(hs)@).push((name@, value@)),
{
    let ghost before = hs@;
    hs.push((owned(name), owned(value)));
    assert(header_views(hs@) =~= header_views(before).push((name@, value@)));
}

/// The headers of a request to the Responses API (`accept` is
/// `text/event-stream` for the proxy's streams, `application/json` for the
/// MCP tool).
pub fn responses_headers(auth: &crate::codex::CodexAuth, accept: &str) -> (r: Vec<(String, String)>)
    requires
        crate::codex::has_credentials(*auth),
    ensures
        header_views(r@) == spec_responses_headers(*auth, accept@),
{
    let (bearer, account) = auth.bearer();
    let mut hs: Vec<(String, String)> = Vec::new();
    push_header(&mut hs, "authorization", bearer.as_str());
    push_header(&mut hs, "content-type", "application/json");
    push_header(&mut hs, "accept", accept);
    push_header(&mut hs, "accept-language", "en-US,en;q=0.9");
    push_header(&mut hs, "origin", "https://chatgpt.com");
    push_header(&mut hs, "referer", "https://chatgpt.com/");
    push_header(&mut hs, "sec-fetch-dest", "empty");
    push_header(&mut hs, "sec-fetch-mode", "cors");
    push_header(&mut hs, "sec-fetch-site", "same-origin");
    push_header(&mut hs, "openai-beta", "responses=experimental");
    push_header(&mut hs, "originator", "codex_cli_rs");
    match &account {
        Some(id) => push_header(&mut hs, "chatgpt-account-id", id.as_str()),
        None => {},
    }
    assert(header_views(hs@) =~= spec_responses_headers(*auth, accept@));
    hs
}

/// The headers of a request to the Chat Completions API.
pub fn chat_completions_headers(auth: &crate::codex::CodexAuth) -> (r: Vec<(String, String)>)
    requires
        crate::codex::has_credentials(*auth),
    ensures
        header_views(r@) == seq![("authorization"@, spec_bearer(*auth).0), ("content-type"@, "application/json"@)],
{
    let (bearer, _) = auth.bearer();
    let mut hs: Vec<(String, String)> = Vec::new();
    push_header(&mut hs, "authorization", bearer.as_str());
    push_header(&mut hs, "content-type", "application/json");
    assert(header_views(hs@) =~= seq![("authorization"@, spec_bearer(*auth).0), ("content-type"@, "application/json"@)]);
    hs
}


/// The text carried by the `TextDelta` events among `hs`, in order.
pub open spec fn hook_text(hs: Seq<HookEventV>) -> Seq<char>
    decreases hs.len(),
{
    if hs.len() == 0 {
        Seq::empty()
    } else {
        hook_text(hs.drop_last()) + match hs.last() {
            HookEventV::TextDelta { delta } => delta,
            _ => Seq::empty(),
        }
    }
}

proof fn lemma_hook_text_append(a: Seq<HookEventV>, b: Seq<HookEventV>)
    ensures
        hook_text(a + b) == hook_text(a) + hook_text(b),
    decreases b.len(),
{
    if b.len() == 0 {
        assert(a + b =~= a);
        assert(hook_text(a) + Seq::<char>::empty() =~= hook_text(a));
    } else {
        lemma_hook_text_append(a, b.drop_last());
        assert((a + b).drop_last() =~= a + b.drop_last());
        assert((a + b).last() == b.last());
        assert(hook_text(a + b) =~= hook_text(a) + hook_text(b));
    }
}

/// The text-delta hooks of a stream carry exactly the response text: what a
/// webhook subscriber assembles from `on_text_delta` is what the client gets.
pub proof fn law_hooks_carry_text(es: Seq<ResponseStreamEvent>)
    ensures
        hook_text(spec_run_hooks(spec_initial(), es)) == spec_run(spec_initial(), es).text,
    decreases es.len(),
{
    law_text_is_concatenated_deltas(es);
    if es.len() > 0 {
        law_hooks_carry_text(es.drop_last());
        law_text_is_concatenated_deltas(es.drop_last());
        let s = spec_run(spec_initial(), es.drop_last());
        let h = spec_step_hooks(s, es.last());
        lemma_hook_text_append(spec_run_hooks(spec_initial(), es.drop_last()), h);
        assert(hook_text(h) =~= match es.last() {
            ResponseStreamEvent::ResponseOutputTextDelta { delta, .. } => delta@,
            _ => Seq::empty(),
        }) by {
            assert(hook_text(Seq::<HookEventV>::empty()) == Seq::<char>::empty());
            if h.len() == 1 {
                assert(h.drop_last() =~= Seq::<HookEventV>::empty());
                assert(hook_text(h) == hook_text(h.drop_last()) + match h.last() {
                    HookEventV::TextDelta { delta } => delta,
                    _ => Seq::empty(),
                });
            } else {
                assert(h.len() == 0);
            }
            match es.last() {
                ResponseStreamEvent::ResponseOutputTextDelta { delta, .. } => {
                    assert(h == seq![HookEventV::TextDelta { delta: delta@ }]);
                },
                _ => {},
            }
        }
    }
}

/// The distinct output indices at which a run of events announces function
/// calls, in the order of their first announcement.
pub open spec fn announced_indices(es: Seq<ResponseStreamEvent>) -> Seq<u32>
    decreases es.len(),
{
    if es.len() == 0 {
        Seq::empty()
    } else {
        let prev = announced_indices(es.drop_last());
        match announced_call(es.last()) {
            Some(k) => if prev.contains(k) { prev } else { prev.push(k) },
            None => prev,
        }
    }
}

/// The output indices of the accumulated calls, in order.
pub open spec fn call_indices(calls: Seq<PendingV>) -> Seq<u32> {
    calls.map_values(|c: PendingV| c.output_index)
}

proof fn lemma_find_call(calls: Seq<PendingV>, idx: u32)
    ensures
        find_call(calls, idx) is Some <==> call_indices(calls).contains(idx),
        find_call(calls, idx) matches Some(i) ==> 0 <= i < calls.len() && calls[i].output_index == idx,
{
    if call_indices(calls).contains(idx) {
        let k = choose|k: int| 0 <= k < call_indices(calls).len() && call_indices(calls)[k] == idx;
        assert(calls[k].output_index == idx);
    }
    if find_call(calls, idx) is Some {
        let i = find_call(calls, idx)->0;
        assert(call_indices(calls)[i] == idx);
    }
}

proof fn lemma_run_call_indices(es: Seq<ResponseStreamEvent>)
    ensures
        call_indices(spec_run(spec_initial(), es).calls) == announced_indices(es),
    decreases es.len(),
{
    if es.len() == 0 {
        assert(call_indices(Seq::<PendingV>::empty()) =~= Seq::<u32>::empty());
    } else {
        lemma_run_call_indices(es.drop_last());
        let s = spec_run(spec_initial(), es.drop_last());
        let e = es.last();
        let t = spec_step(s, e);
        let ci = call_indices(s.calls);
        match e {
            ResponseStreamEvent::ResponseOutputItemAdded { output_index, item } => {
                if is_function_call(item.item_type) {
                    lemma_find_call(s.calls, output_index);
                    match find_call(s.calls, output_index) {
                        Some(i) => {
                            assert(call_indices(t.calls) =~= ci);
                        },
                        None => {
                            assert(call_indices(t.calls) =~= ci.push(output_index));
                        },
                    }
                } else {
                    assert(t == s);
                }
            },
            ResponseStreamEvent::ResponseFunctionCallArgumentsDelta { output_index, delta } => {
                lemma_find_call(s.calls, output_index);
                assert(call_indices(t.calls) =~= ci);
            },
            ResponseStreamEvent::ResponseFunctionCallArgumentsDone { output_index, arguments } => {
                lemma_find_call(s.calls, output_index);
                assert(call_indices(t.calls) =~= ci);
            },
            ResponseStreamEvent::ResponseOutputItemDone { output_index, item } => {
                lemma_find_call(s.calls, output_index);
                assert(call_indices(t.calls) =~= ci);
            },
            _ => {
                assert(t.calls == s.calls);
            },
        }
    }
}

/// A non-streaming response reports exactly one tool call per announced
/// function call, in the order the calls were first announced: the `k`-th
/// entry is the call at the `k`-th announced output index, and there are tool
/// calls exactly when some function call was announced.
pub proof fn law_tool_calls_one_per_call(es: Seq<ResponseStreamEvent>)
    ensures
        ({
            let s = spec_run(spec_initial(), es);
            let ids = announced_indices(es);
            &&& (spec_response_tool_calls(s) is Some <==> ids.len() > 0)
            &&& spec_response_tool_calls(s) matches Some(tc) ==> {
                &&& tc.len() == ids.len()
                &&& forall|k: int| 0 <= k < tc.len() ==> s.calls[k].output_index == ids[k]
                    && #[trigger] tc[k] == (s.calls[k].call_id, "function"@, s.calls[k].name, s.calls[k].arguments)
            }
        }),
{
    lemma_run_call_indices(es);
    let s = spec_run(spec_initial(), es);
    assert(call_indices(s.calls).len() == s.calls.len());
    assert forall|k: int| 0 <= k < s.calls.len() implies s.calls[k].output_index == announced_indices(es)[k] by {
        assert(call_indices(s.calls)[k] == s.calls[k].output_index);
    }
}

/// A stream reports `stop` only when no tool call was made: with calls, a
/// `stop` becomes `tool_calls`.
pub proof fn law_calls_never_stop(s: AccumulatorV)
    ensures
        s.calls.len() > 0 ==> spec_response_finish_reason(s) != "stop"@,
{
    reveal_strlit("stop");
    reveal_strlit("tool_calls");
    assert("tool_calls"@.len() != "stop"@.len());
}

} // verus!
