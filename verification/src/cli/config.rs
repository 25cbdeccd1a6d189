//! `config`: the text of `config show`.
use vstd::prelude::*;
use crate::config::ProxyConfig;
use crate::text::{
    bool_string, bool_text, concat, debug_list, debug_str, debug_string_list, debug_text, decimal,
    decimal_string, lines_text, owned, text_lines, views,
};

verus! {

broadcast use vstd::string::group_string_axioms;

/// The line of an optional path setting.
pub open spec fn path_line(p: Option<String>) -> Seq<char> {
    match p {
        Some(x) => "config_path = "@ + debug_text(x@),
        None => "# config_path not set"@,
    }
}

/// The line of the memory database path.
pub open spec fn db_line(db_path: Seq<char>) -> Seq<char> {
    if db_path.len() > 0 {
        "db_path = "@ + debug_text(db_path)
    } else {
        "# db_path defaults to $XDG_DATA_HOME/oproxy/memory.db"@
    }
}

/// The lines `config show` prints: every section with its resolved values.
pub open spec fn spec_config_lines(c: ProxyConfig) -> Seq<Seq<char>> {
    seq![
        "# Resolved configuration"@,
        "[server]"@,
        "host = "@ + debug_text(c.server.host@),
        "port = "@ + decimal(c.server.port as nat),
        Seq::empty(),
        "[backend]"@,
        "wire_api = "@ + debug_text(c.backend.wire_api@),
        Seq::empty(),
        "[skills]"@,
        "dirs = "@ + debug_list(views(c.skills.dirs@)),
        "max_injected = "@ + decimal(c.skills.max_injected as nat),
        Seq::empty(),
        "[mcp]"@,
        path_line(c.mcp.config_path),
        Seq::empty(),
        "[hooks]"@,
        path_line(c.hooks.config_path),
        Seq::empty(),
        "[memory]"@,
        "enabled = "@ + bool_text(c.memory.enabled),
        db_line(c.memory.db_path@),
        "embedding_model = "@ + debug_text(c.memory.embedding_model@),
        Seq::empty(),
        "[modes]"@,
        "a2a = "@ + bool_text(c.modes.a2a),
    ]
}

fn path_line_exec(p: &Option<String>) -> (r: String)
    ensures
        r@ == path_line(*p),
{
    match p {
        Some(x) => {
            let d = debug_str(x.as_str());
            concat("config_path = ", d.as_str())
        },
        None => owned("# config_path not set"),
    }
}

fn labelled(label: &str, value: &str) -> (r: String)
    ensures
        r@ == label@ + value@,
{
    concat(label, value)
}

/// The text `config show` prints for a configuration.
pub fn config_show_text(c: &ProxyConfig) -> (r: String)
    ensures
        r@ == text_lines(spec_config_lines(*c)),
{
    let mut ls: Vec<String> = Vec::new();
    ls.push(owned("# Resolved configuration"));
    ls.push(owned("[server]"));
    ls.push(labelled("host = ", debug_str(c.server.host.as_str()).as_str()));
    ls.push(labelled("port = ", decimal_string(c.server.port as u64).as_str()));
    ls.push(String::new());
    ls.push(owned("[backend]"));
    ls.push(labelled("wire_api = ", debug_str(c.backend.wire_api.as_str()).as_str()));
    ls.push(String::new());
    ls.push(owned("[skills]"));
    ls.push(labelled("dirs = ", debug_string_list(&c.skills.dirs).as_str()));
    ls.push(labelled("max_injected = ", decimal_string(c.skills.max_injected as u64).as_str()));
    ls.push(String::new());
    ls.push(owned("[mcp]"));
    ls.push(path_line_exec(&c.mcp.config_path));
    ls.push(String::new());
    ls.push(owned("[hooks]"));
    ls.push(path_line_exec(&c.hooks.config_path));
    ls.push(String::new());
    ls.push(owned("[memory]"));
    ls.push(labelled("enabled = ", bool_string(c.memory.enabled).as_str()));
    if c.memory.db_path.as_str().is_empty() {
        ls.push(owned("# db_path defaults to $XDG_DATA_HOME/oproxy/memory.db"));
    } else {
        ls.push(labelled("db_path = ", debug_str(c.memory.db_path.as_str()).as_str()));
    }
    ls.push(labelled("embedding_model = ", debug_str(c.memory.embedding_model.as_str()).as_str()));
    ls.push(String::new());
    ls.push(owned("[modes]"));
    ls.push(labelled("a2a = ", bool_string(c.modes.a2a).as_str()));
    assert(views(ls@) =~= spec_config_lines(*c));
    lines_text(&ls)
}

} // verus!
