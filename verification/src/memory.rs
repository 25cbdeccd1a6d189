//! The memory (retrieval) surface: the backend trait, its no-op default, the
//! query parameters of the document endpoints and the context message.
use vstd::prelude::*;
use crate::openai::{is_plain_message, Message, MessageContent};
use crate::text::{concat, join, owned, seq_join, views};

verus! {

broadcast use vstd::string::group_string_axioms;

/// A memory backend; the proxy asks it only whether it is enabled.
pub trait MemoryBackend {
    fn is_enabled(&self) -> bool;
}

/// The backend used when memory is off.
#[derive(Debug)]
pub struct NoopMemoryStore;

impl MemoryBackend for NoopMemoryStore {
    fn is_enabled(&self) -> (r: bool)
        ensures
            !r,
    {
        false
    }
}

impl Default for NoopMemoryStore {
    fn default() -> (r: Self) {
        NoopMemoryStore
    }
}

/// The memory backend used when memory is off.
pub fn noop() -> (r: NoopMemoryStore) {
    NoopMemoryStore
}

/// `?scope=` of the document listing.
#[derive(Clone, Debug)]
pub struct ScopeQuery {
    pub scope: Option<String>,
}

/// `?q=&scope=&limit=` of the document search.
#[derive(Clone, Debug)]
pub struct SearchQuery {
    pub q: String,
    pub scope: Option<String>,
    pub limit: usize,
}

/// The search limit when none is given.
pub fn default_limit() -> (r: usize)
    ensures
        r == 5,
{
    5
}

/// The memory scope of a request: the given one, else `session`.
pub fn effective_scope(scope: Option<&str>) -> (r: &str)
    ensures
        r@ == match scope {
            Some(s) => s@,
            None => "session"@,
        },
{
    match scope {
        Some(s) => s,
        None => "session",
    }
}

/// Each retrieved text as a list item.
pub open spec fn bullet_items(texts: Seq<Seq<char>>) -> Seq<Seq<char>> {
    texts.map_values(|t: Seq<char>| "- "@ + t)
}

/// The system message that carries retrieved documents: `# Relevant Context`
/// followed by one `- ` line per document; none when nothing was retrieved.
pub open spec fn spec_context_text(texts: Seq<Seq<char>>) -> Seq<char> {
    "# Relevant Context\n\n"@ + seq_join(bullet_items(texts), "\n"@)
}

/// The system message carrying the retrieved texts, or `None` when there are none.
pub fn memory_context_message(texts: &Vec<String>) -> (r: Option<Message>)
    ensures
        match r {
            Some(m) => texts@.len() > 0 && is_plain_message(m, "system"@, spec_context_text(views(texts@))),
            None => texts@.len() == 0,
        },
{
    if texts.len() == 0 {
        return None;
    }
    let mut items: Vec<String> = Vec::new();
    let mut i: usize = 0;
    while i < texts.len()
        invariant
            i <= texts.len(),
            views(items@) == bullet_items(views(texts@).take(i as int)),
        decreases texts.len() - i,
    {
        let ghost before = items@;
        items.push(concat("- ", texts[i].as_str()));
        proof {
            assert(views(items@) =~= views(before).push("- "@ + texts@[i as int]@));
            assert(bullet_items(views(texts@).take(i + 1)) =~= bullet_items(views(texts@).take(i as int)).push("- "@ + texts@[i as int]@));
        }
        i = i + 1;
    }
    assert(views(texts@).take(texts.len() as int) =~= views(texts@));
    let body = join(&items, "\n");
    let text = concat("# Relevant Context\n\n", body.as_str());
    Some(Message {
        role: owned("system"),
        content: MessageContent::Text(text),
        tool_call_id: None,
        tool_calls: None,
        name: None,
    })
}

} // verus!
