//! MCP tool schema passthrough: tool definitions declared in configuration and
//! their OpenAI function-tool form.
use vstd::prelude::*;
use crate::codex::opt_json_view;
use crate::json::{Json, JsonV, json_entries_view, lemma_entries_empty, push_entry};
use crate::text::owned;

verus! {

/// An OpenAI-compatible function definition.
#[derive(Debug)]
pub struct McpFunctionDef {
    pub name: String,
    pub description: String,
    pub parameters: Option<Json>,
}

/// An OpenAI-compatible tool definition (`{"type": "function", "function": ...}`).
#[derive(Debug)]
pub struct McpToolSchema {
    pub tool_type: String,
    pub function: McpFunctionDef,
}

/// A `[[tool]]` entry of the MCP configuration file.
#[derive(Debug)]
pub struct McpToolEntry {
    pub name: String,
    pub description: String,
    pub input_schema: Option<Json>,
}

/// The default tool type.
pub fn function_type() -> (r: String)
    ensures
        r@ == "function"@,
{
    owned("function")
}

/// The JSON form of a tool: `{type, function: {name, description, parameters?}}`.
pub open spec fn spec_tool_json(t: McpToolSchema) -> JsonV {
    JsonV::Object(seq![
        ("type"@, JsonV::Str(t.tool_type@)),
        ("function"@, JsonV::Object(
            seq![("name"@, JsonV::Str(t.function.name@)), ("description"@, JsonV::Str(t.function.description@))]
                + match opt_json_view(t.function.parameters) {
                Some(p) => seq![("parameters"@, p)],
                None => Seq::empty(),
            },
        )),
    ])
}

impl McpToolSchema {
    /// The JSON form of this tool.
    pub fn to_json(&self) -> (r: Json)
        ensures
            r@ == spec_tool_json(*self),
    {
        let mut f: Vec<(String, Json)> = Vec::new();
        proof { lemma_entries_empty(); }
        push_entry(&mut f, "name", Json::string(self.function.name.as_str()));
        push_entry(&mut f, "description", Json::string(self.function.description.as_str()));
        match &self.function.parameters {
            Some(p) => push_entry(&mut f, "parameters", p.deep_clone()),
            None => {},
        }
        let ghost fv = json_entries_view(f@);
        assert(fv =~= seq![("name"@, JsonV::Str(self.function.name@)), ("description"@, JsonV::Str(self.function.description@))]
                + match opt_json_view(self.function.parameters) {
                Some(p) => seq![("parameters"@, p)],
                None => Seq::empty(),
            });
        let mut es: Vec<(String, Json)> = Vec::new();
        push_entry(&mut es, "type", Json::string(self.tool_type.as_str()));
        push_entry(&mut es, "function", Json::Object(f));
        assert(json_entries_view(es@) =~= seq![("type"@, JsonV::Str(self.tool_type@)), ("function"@, JsonV::Object(fv))]);
        let r = Json::Object(es);
        assert(r@ == JsonV::Object(json_entries_view(es@)));
        assert(r@ == JsonV::Object(seq![("type"@, JsonV::Str(self.tool_type@)), ("function"@, JsonV::Object(fv))]));
        let ghost expected = spec_tool_json(*self);
        assert(expected->Object_0.len() == 2);
        assert(expected->Object_0[0] == ("type"@, JsonV::Str(self.tool_type@)));
        assert(expected->Object_0[1].0 == "function"@);
        assert(expected->Object_0[1].1 == JsonV::Object(fv));
        assert(expected->Object_0 =~= seq![("type"@, JsonV::Str(self.tool_type@)), ("function"@, JsonV::Object(fv))]);
        assert(expected == JsonV::Object(seq![("type"@, JsonV::Str(self.tool_type@)), ("function"@, JsonV::Object(fv))])) by {
            assert(fv == (seq![("name"@, JsonV::Str(self.function.name@)), ("description"@, JsonV::Str(self.function.description@))]
                + match opt_json_view(self.function.parameters) {
                Some(p) => seq![("parameters"@, p)],
                None => Seq::empty(),
            }));
        }
        r
    }

    /// The tool declared by a configuration entry.
    pub fn from_entry(e: McpToolEntry) -> (r: McpToolSchema)
        ensures
            r.tool_type@ == "function"@,
            r.function.name == e.name,
            r.function.description == e.description,
            r.function.parameters == e.input_schema,
    {
        McpToolSchema {
            tool_type: function_type(),
            function: McpFunctionDef { name: e.name, description: e.description, parameters: e.input_schema },
        }
    }
}

/// The tools declared by the entries of a configuration file, in order.
pub fn tools_from_entries(entries: Vec<McpToolEntry>) -> (r: Vec<McpToolSchema>)
    ensures
        r@.len() == entries@.len(),
        forall|i: int| 0 <= i < r@.len() ==> (#[trigger] r@[i]).tool_type@ == "function"@
            && r@[i].function.name == entries@[i].name
            && r@[i].function.description == entries@[i].description
            && r@[i].function.parameters == entries@[i].input_schema,
{
    let mut out: Vec<McpToolSchema> = Vec::new();
    let mut entries = entries;
    let ghost orig = entries@;
    let mut i: usize = 0;
    let n = entries.len();
    while entries.len() > 0
        invariant
            i + entries@.len() == orig.len(),
            orig.len() == n,
            entries@ == orig.skip(i as int),
            out@.len() == i,
            forall|k: int| 0 <= k < i ==> (#[trigger] out@[k]).tool_type@ == "function"@
                && out@[k].function.name == orig[k].name
                && out@[k].function.description == orig[k].description
                && out@[k].function.parameters == orig[k].input_schema,
        decreases entries@.len(),
    {
        let ghost prev = entries@;
        let e = entries.remove(0);
        assert(e == orig[i as int]);
        out.push(McpToolSchema::from_entry(e));
        i = i + 1;
        assert(entries@ =~= orig.skip(i as int));
    }
    out
}

} // verus!
