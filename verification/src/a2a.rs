//! The A2A Agent Card served at `GET /.well-known/agent.json`.
use vstd::prelude::*;
use crate::text::{concat, owned};

verus! {

broadcast use vstd::string::group_string_axioms;

/// What the agent supports.
#[derive(Clone, Debug)]
pub struct AgentCapabilities {
    pub streaming: bool,
    pub tools: bool,
    pub multi_turn: bool,
}

/// A skill the agent advertises.
#[derive(Clone, Debug)]
pub struct AgentSkill {
    pub id: String,
    pub name: String,
    pub description: String,
}

/// The Agent Card: a static description of the proxy for agent discovery.
#[derive(Clone, Debug)]
pub struct AgentCard {
    pub name: String,
    pub description: String,
    pub url: String,
    pub version: String,
    pub capabilities: AgentCapabilities,
    pub skills: Vec<AgentSkill>,
    pub input_modes: Vec<String>,
    pub output_modes: Vec<String>,
}

/// The view of an advertised skill: id, name, description.
pub open spec fn skill_view(s: AgentSkill) -> (Seq<char>, Seq<char>, Seq<char>) {
    (s.id@, s.name@, s.description@)
}

fn agent_skill(id: &str, name: &str, description: &str) -> (r: AgentSkill)
    ensures
        skill_view(r) == (id@, name@, description@),
{
    AgentSkill { id: owned(id), name: owned(name), description: owned(description) }
}

/// The Agent Card of a proxy listening on `bind_addr`, at package `version`:
/// named `openai-proxy`, reachable at `http://{bind_addr}`, streaming with
/// tools over several turns, offering chat completion and model listing, text
/// in, text or stream out.
pub fn agent_card(bind_addr: &str, version: &str) -> (r: AgentCard)
    ensures
        r.name@ == "openai-proxy"@,
        r.description@ == "OpenAI Chat Completions proxy backed by Codex/Responses API"@,
        r.url@ == "http://"@ + bind_addr@,
        r.version@ == version@,
        r.capabilities.streaming && r.capabilities.tools && r.capabilities.multi_turn,
        r.skills@.map_values(|s: AgentSkill| skill_view(s)) == seq![
            ("chat_completion"@, "Chat Completion"@, "Complete a conversation using the configured model backend"@),
            ("list_models"@, "List Models"@, "List available models for the configured backend profile"@),
        ],
        crate::text::views(r.input_modes@) == seq!["text"@],
        crate::text::views(r.output_modes@) == seq!["text"@, "stream"@],
{
    let mut skills: Vec<AgentSkill> = Vec::new();
    skills.push(agent_skill(
        "chat_completion",
        "Chat Completion",
        "Complete a conversation using the configured model backend",
    ));
    skills.push(agent_skill(
        "list_models",
        "List Models",
        "List available models for the configured backend profile",
    ));
    let mut input_modes: Vec<String> = Vec::new();
    input_modes.push(owned("text"));
    let mut output_modes: Vec<String> = Vec::new();
    output_modes.push(owned("text"));
    output_modes.push(owned("stream"));
    assert(skills@.map_values(|s: AgentSkill| skill_view(s)) =~= seq![
        ("chat_completion"@, "Chat Completion"@, "Complete a conversation using the configured model backend"@),
        ("list_models"@, "List Models"@, "List available models for the configured backend profile"@),
    ]);
    assert(crate::text::views(input_modes@) =~= seq!["text"@]);
    assert(crate::text::views(output_modes@) =~= seq!["text"@, "stream"@]);
    AgentCard {
        name: owned("openai-proxy"),
        description: owned("OpenAI Chat Completions proxy backed by Codex/Responses API"),
        url: concat("http://", bind_addr),
        version: owned(version),
        capabilities: AgentCapabilities { streaming: true, tools: true, multi_turn: true },
        skills,
        input_modes,
        output_modes,
    }
}

} // verus!
