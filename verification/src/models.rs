//! The model catalogue served at `GET /v1/models`, per backend profile.
use vstd::prelude::*;
use crate::codex::BackendProfile;

verus! {

broadcast use vstd::string::group_string_axioms;

/// One entry of the model list.
#[derive(Debug)]
pub struct ModelObject {
    pub id: String,
    pub object: &'static str,
    pub created: u64,
    pub owned_by: &'static str,
    pub context_length: u32,
    pub max_output_tokens: u32,
}

/// The model list response.
#[derive(Debug)]
pub struct ModelList {
    pub object: &'static str,
    pub data: Vec<ModelObject>,
}

/// A catalogue entry: model id, context length, maximum output tokens.
pub struct ModelSpec {
    pub id: &'static str,
    pub context_length: u32,
    pub max_output_tokens: u32,
}

/// Builds a catalogue entry.
pub fn model_spec(id: &'static str, context_length: u32, max_output_tokens: u32) -> (r: ModelSpec)
    ensures
        r.id@ == id@,
        r.context_length == context_length,
        r.max_output_tokens == max_output_tokens,
{
    ModelSpec { id, context_length, max_output_tokens }
}

/// The models each backend profile offers: id, context length and maximum
/// output tokens, in the order they are listed. `codex-mini` is offered on
/// the API-key profiles only, where it is served.
pub open spec fn spec_catalogue(p: BackendProfile) -> Seq<(Seq<char>, u32, u32)> {
    match p {
        BackendProfile::ChatGptCodex => seq![
            ("gpt-5.5"@, 400000u32, 32768u32),
            ("gpt-5.4"@, 400000u32, 32768u32),
            ("gpt-5.4-mini"@, 200000u32, 16384u32),
            ("gpt-5.4-nano"@, 128000u32, 8192u32),
            ("gpt-5.3-codex"@, 400000u32, 32768u32),
            ("gpt-5.3-chat"@, 128000u32, 16384u32),
            ("gpt-5.2-chat"@, 128000u32, 16384u32),
        ],
        _ => seq![
            ("gpt-5.5"@, 1000000u32, 32768u32),
            ("gpt-5.5-pro"@, 1000000u32, 32768u32),
            ("gpt-5.4"@, 400000u32, 32768u32),
            ("gpt-5.4-mini"@, 200000u32, 16384u32),
            ("gpt-5.4-nano"@, 128000u32, 8192u32),
            ("gpt-5.3-codex"@, 400000u32, 32768u32),
            ("gpt-5.3-chat"@, 128000u32, 16384u32),
            ("gpt-5.2-chat"@, 128000u32, 16384u32),
            ("codex-mini"@, 96000u32, 8192u32),
        ],
    }
}

/// Every model the catalogue of a profile lists is requested under its own
/// id: resolving a listed id gives that id back.
pub proof fn law_catalogue_models_resolve_to_themselves(p: BackendProfile, i: int)
    requires
        0 <= i < spec_catalogue(p).len(),
    ensures
        crate::codex::spec_resolve_model(spec_catalogue(p)[i].0).0 == spec_catalogue(p)[i].0,
{
    let id = spec_catalogue(p)[i].0;
    reveal_strlit("gpt-5.");
    reveal_strlit("codex");
    reveal_strlit("gpt-5.5");
    reveal_strlit("gpt-5.5-pro");
    reveal_strlit("gpt-5.4");
    reveal_strlit("gpt-5.4-mini");
    reveal_strlit("gpt-5.4-nano");
    reveal_strlit("gpt-5.3-codex");
    reveal_strlit("gpt-5.3-chat");
    reveal_strlit("gpt-5.2-chat");
    reveal_strlit("codex-mini");
    if id == "codex-mini"@ {
        assert(id.subrange(0, 5) =~= "codex"@);
    } else {
        assert(id.subrange(0, 6) =~= "gpt-5."@);
    }
    crate::codex::law_explicit_models_resolve_to_themselves(id);
}

/// The catalogue entry's view: id, context length, maximum output tokens.
pub open spec fn spec_entry(s: ModelSpec) -> (Seq<char>, u32, u32) {
    (s.id@, s.context_length, s.max_output_tokens)
}

/// The catalogue of a backend profile.
pub fn catalogue(p: BackendProfile) -> (r: Vec<ModelSpec>)
    ensures
        r@.map_values(|s: ModelSpec| spec_entry(s)) == spec_catalogue(p),
{
    let mut v: Vec<ModelSpec> = Vec::new();
    match p {
        BackendProfile::ChatGptCodex => {
            v.push(model_spec("gpt-5.5", 400000, 32768));
            v.push(model_spec("gpt-5.4", 400000, 32768));
            v.push(model_spec("gpt-5.4-mini", 200000, 16384));
            v.push(model_spec("gpt-5.4-nano", 128000, 8192));
            v.push(model_spec("gpt-5.3-codex", 400000, 32768));
            v.push(model_spec("gpt-5.3-chat", 128000, 16384));
            v.push(model_spec("gpt-5.2-chat", 128000, 16384));
        },
        _ => {
            v.push(model_spec("gpt-5.5", 1000000, 32768));
            v.push(model_spec("gpt-5.5-pro", 1000000, 32768));
            v.push(model_spec("gpt-5.4", 400000, 32768));
            v.push(model_spec("gpt-5.4-mini", 200000, 16384));
            v.push(model_spec("gpt-5.4-nano", 128000, 8192));
            v.push(model_spec("gpt-5.3-codex", 400000, 32768));
            v.push(model_spec("gpt-5.3-chat", 128000, 16384));
            v.push(model_spec("gpt-5.2-chat", 128000, 16384));
            v.push(model_spec("codex-mini", 96000, 8192));
        },
    }
    assert(v@.map_values(|s: ModelSpec| spec_entry(s)) =~= spec_catalogue(p));
    v
}

/// The listed form of a catalogue entry.
pub fn model_object(s: &ModelSpec) -> (r: ModelObject)
    ensures
        r.id@ == s.id@,
        r.object@ == "model"@,
        r.created == 1_700_000_000,
        r.owned_by@ == "openai-proxy"@,
        r.context_length == s.context_length,
        r.max_output_tokens == s.max_output_tokens,
{
    ModelObject {
        id: s.id.to_string(),
        object: "model",
        created: 1_700_000_000,
        owned_by: "openai-proxy",
        context_length: s.context_length,
        max_output_tokens: s.max_output_tokens,
    }
}

/// The model list of a backend profile: every catalogue entry, in order,
/// as a `model` object owned by `openai-proxy`.
pub fn model_list(p: BackendProfile) -> (r: ModelList)
    ensures
        r.object@ == "list"@,
        r.data@.len() == spec_catalogue(p).len(),
        forall|i: int| 0 <= i < r.data@.len() ==> {
            let m = #[trigger] r.data@[i];
            &&& m.id@ == spec_catalogue(p)[i].0
            &&& m.context_length == spec_catalogue(p)[i].1
            &&& m.max_output_tokens == spec_catalogue(p)[i].2
            &&& m.object@ == "model"@
            &&& m.created == 1_700_000_000
            &&& m.owned_by@ == "openai-proxy"@
        },
{
    let cat = catalogue(p);
    let ghost cv = cat@.map_values(|s: ModelSpec| spec_entry(s));
    let mut data: Vec<ModelObject> = Vec::new();
    let mut i: usize = 0;
    while i < cat.len()
        invariant
            i <= cat.len(),
            cv == cat@.map_values(|s: ModelSpec| spec_entry(s)),
            cv == spec_catalogue(p),
            data@.len() == i,
            forall|k: int| 0 <= k < i ==> {
                let m = #[trigger] data@[k];
                &&& m.id@ == cv[k].0
                &&& m.context_length == cv[k].1
                &&& m.max_output_tokens == cv[k].2
                &&& m.object@ == "model"@
                &&& m.created == 1_700_000_000
                &&& m.owned_by@ == "openai-proxy"@
            },
        decreases cat.len() - i,
    {
        let o = model_object(&cat[i]);
        assert(cv[i as int] == spec_entry(cat@[i as int]));
        data.push(o);
        i = i + 1;
    }
    ModelList { object: "list", data }
}

} // verus!
