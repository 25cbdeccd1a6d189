//! Proxy configuration: the sections of `config.toml` with their defaults,
//! environment overrides, and the directories the proxy reads from.
//!
//! Resolution order, later wins: defaults, the config file, environment
//! variables, command-line flags.
use vstd::prelude::*;
use std::path::PathBuf;
use crate::codex::{opt_str_view, opt_view};
use crate::text::{
    owned, parse_unsigned, spec_parse_unsigned, split, split_char, strip_prefix, seq_starts_with,
    views,
};

verus! {

broadcast use vstd::string::group_string_axioms;

// ---------------------------------------------------------------------------
// Paths
// ---------------------------------------------------------------------------

#[verifier::external_type_specification]
#[verifier::external_body]
pub struct ExPathBuf(PathBuf);

/// The path `PathBuf::from` builds from a string.
pub uninterp spec fn path_from_text(s: Seq<char>) -> PathBuf;

/// The path `Path::join` builds from a base path and a relative part.
pub uninterp spec fn path_joined(base: PathBuf, rest: Seq<char>) -> PathBuf;

/// Builds a path from text with `PathBuf::from`.
///
/// Trusted: the result is `path_from_text` of the text.
#[verifier::external_body]
pub(crate) fn path_from(s: &str) -> (r: PathBuf)
    ensures
        r == path_from_text(s@),
{
    PathBuf::from(s)
}

/// Joins `rest` onto `base` with `Path::join`.
///
/// Trusted: the result is `path_joined` of the two; how `join` treats an
/// absolute `rest` or separators is not restated.
#[verifier::external_body]
pub(crate) fn path_join(base: &PathBuf, rest: &str) -> (r: PathBuf)
    ensures
        r == path_joined(*base, rest@),
{
    base.join(rest)
}

/// The user's home directory, from `dirs::home_dir`.
///
/// Trusted, with nothing stated: the answer depends on the environment.
#[verifier::external_body]
pub(crate) fn home_dir() -> Option<PathBuf> {
    dirs::home_dir()
}

/// The user's configuration directory, from `dirs::config_dir`.
///
/// Trusted, with nothing stated: the answer depends on the environment.
#[verifier::external_body]
pub(crate) fn user_config_dir() -> Option<PathBuf> {
    dirs::config_dir()
}

/// The user's data directory, from `dirs::data_dir`.
///
/// Trusted, with nothing stated: the answer depends on the environment.
#[verifier::external_body]
fn user_data_dir() -> Option<PathBuf> {
    dirs::data_dir()
}

/// The path an optional reference points to.
pub open spec fn opt_path(p: Option<&PathBuf>) -> Option<PathBuf> {
    match p {
        Some(h) => Some(*h),
        None => None,
    }
}

/// `path` with a leading `~/` replaced by the home directory, when one is known.
pub open spec fn spec_expand_tilde(path: Seq<char>, home: Option<PathBuf>) -> PathBuf {
    if seq_starts_with(path, "~/"@) && home is Some {
        path_joined(home->0, path.skip(2))
    } else {
        path_from_text(path)
    }
}

/// Expands a leading `~/` against the given home directory.
pub fn expand_tilde_with(path: &str, home: Option<&PathBuf>) -> (r: PathBuf)
    ensures
        r == spec_expand_tilde(path@, opt_path(home)),
{
    proof {
        reveal_strlit("~/");
    }
    match strip_prefix(path, "~/") {
        Some(rest) => match home {
            Some(h) => path_join(h, rest.as_str()),
            None => path_from(path),
        },
        None => path_from(path),
    }
}

/// Expands a leading `~/` to the user's home directory.
pub fn expand_tilde(path: &str) -> (r: PathBuf)
    ensures
        exists|home: Option<PathBuf>| r == spec_expand_tilde(path@, home),
{
    let home = home_dir();
    let r = match &home {
        Some(h) => expand_tilde_with(path, Some(h)),
        None => expand_tilde_with(path, None),
    };
    proof {
        assert(r == spec_expand_tilde(path@, home));
    }
    r
}

/// `home/.codex/auth.json`, where the Codex CLI keeps its credentials.
pub open spec fn spec_codex_auth_path(home: PathBuf) -> PathBuf {
    path_joined(path_joined(home, ".codex"@), "auth.json"@)
}

/// The Codex credentials file under the given home directory.
pub fn codex_auth_path(home: &PathBuf) -> (r: PathBuf)
    ensures
        r == spec_codex_auth_path(*home),
{
    let dir = path_join(home, ".codex");
    path_join(&dir, "auth.json")
}

/// The Codex credentials file in the user's home directory, or `None` when
/// no home directory is known.
pub fn default_auth_path() -> (r: Option<PathBuf>)
    ensures
        r is None || exists|home: PathBuf| r == Some(spec_codex_auth_path(home)),
{
    match home_dir() {
        Some(h) => Some(codex_auth_path(&h)),
        None => None,
    }
}

/// The home directory, or the path `~` when none is known.
pub open spec fn spec_home_or_tilde(home: Option<PathBuf>) -> PathBuf {
    match home {
        Some(h) => h,
        None => path_from_text("~"@),
    }
}

/// The user's home directory, or the literal path `~` when none is known.
pub fn home_dir_or_tilde() -> (r: PathBuf)
    ensures
        exists|home: Option<PathBuf>| r == spec_home_or_tilde(home),
{
    let home = home_dir();
    let r = match home {
        Some(h) => h,
        None => path_from("~"),
    };
    proof {
        assert(r == spec_home_or_tilde(home));
    }
    r
}

/// `base/oproxy`, or `fallback/oproxy` when the platform gives no base.
pub open spec fn spec_app_dir(base: Option<PathBuf>, fallback: Seq<char>) -> PathBuf {
    match base {
        Some(b) => path_joined(b, "oproxy"@),
        None => path_joined(path_from_text(fallback), "oproxy"@),
    }
}

fn app_dir(base: Option<PathBuf>, fallback: &str) -> (r: PathBuf)
    ensures
        r == spec_app_dir(base, fallback@),
{
    match base {
        Some(b) => path_join(&b, "oproxy"),
        None => {
            let f = path_from(fallback);
            path_join(&f, "oproxy")
        },
    }
}

/// `$XDG_CONFIG_HOME/oproxy`, or `~/.config/oproxy` as fallback.
pub fn config_dir() -> (r: PathBuf)
    ensures
        exists|base: Option<PathBuf>| r == spec_app_dir(base, "~/.config"@),
{
    let base = user_config_dir();
    let r = app_dir(base, "~/.config");
    proof {
        assert(r == spec_app_dir(base, "~/.config"@));
    }
    r
}

/// `$XDG_DATA_HOME/oproxy`, or `~/.local/share/oproxy` as fallback.
pub fn data_dir() -> (r: PathBuf)
    ensures
        exists|base: Option<PathBuf>| r == spec_app_dir(base, "~/.local/share"@),
{
    let base = user_data_dir();
    let r = app_dir(base, "~/.local/share");
    proof {
        assert(r == spec_app_dir(base, "~/.local/share"@));
    }
    r
}

// ---------------------------------------------------------------------------
// Sections
// ---------------------------------------------------------------------------

/// Default listen host.
pub fn default_host() -> (r: String)
    ensures
        r@ == "0.0.0.0"@,
{
    owned("0.0.0.0")
}

/// Default listen port.
pub fn default_port() -> (r: u16)
    ensures
        r == 8080,
{
    8080
}

/// Default wire API for API-key users.
pub fn default_wire_api() -> (r: String)
    ensures
        r@ == "responses"@,
{
    owned("responses")
}

/// Default number of skills injected per request.
pub fn default_max_injected() -> (r: usize)
    ensures
        r == 3,
{
    3
}

/// Default embedding model of the memory store.
pub fn default_embedding_model() -> (r: String)
    ensures
        r@ == "text-embedding-3-small"@,
{
    owned("text-embedding-3-small")
}

/// `[server]`: where the proxy listens.
#[derive(Clone, Debug)]
pub struct ServerConfig {
    pub host: String,
    pub port: u16,
}

impl Default for ServerConfig {
    fn default() -> (r: Self)
        ensures
            r.host@ == "0.0.0.0"@,
            r.port == 8080,
    {
        ServerConfig { host: default_host(), port: default_port() }
    }
}

/// `[backend]`: `wire_api` is `"responses"` (default) or `"chat"`.
#[derive(Clone, Debug)]
pub struct BackendConfig {
    pub wire_api: String,
}

impl Default for BackendConfig {
    fn default() -> (r: Self)
        ensures
            r.wire_api@ == "responses"@,
    {
        BackendConfig { wire_api: default_wire_api() }
    }
}

/// `[skills]`: directories searched for `SKILL.md` and how many to inject.
#[derive(Clone, Debug)]
pub struct SkillsConfig {
    pub dirs: Vec<String>,
    pub max_injected: usize,
}

impl Default for SkillsConfig {
    fn default() -> (r: Self)
        ensures
            r.dirs@.len() == 0,
            r.max_injected == 3,
    {
        SkillsConfig { dirs: Vec::new(), max_injected: default_max_injected() }
    }
}

/// `[mcp]`: where the MCP tool configuration lives.
#[derive(Clone, Debug)]
pub struct McpConfig {
    pub config_path: Option<String>,
}

impl Default for McpConfig {
    fn default() -> (r: Self)
        ensures
            r.config_path is None,
    {
        McpConfig { config_path: None }
    }
}

/// `[hooks]`: where the webhook configuration lives.
#[derive(Clone, Debug)]
pub struct HooksConfig {
    pub config_path: Option<String>,
}

impl Default for HooksConfig {
    fn default() -> (r: Self)
        ensures
            r.config_path is None,
    {
        HooksConfig { config_path: None }
    }
}

/// `[memory]`: the optional document store.
#[derive(Clone, Debug)]
pub struct MemoryConfig {
    pub enabled: bool,
    pub db_path: String,
    pub embedding_model: String,
}

impl Default for MemoryConfig {
    fn default() -> (r: Self)
        ensures
            !r.enabled,
            r.db_path@.len() == 0,
            r.embedding_model@ == "text-embedding-3-small"@,
    {
        MemoryConfig { enabled: false, db_path: String::new(), embedding_model: default_embedding_model() }
    }
}

/// `[modes]`: optional protocol surfaces.
#[derive(Clone, Debug)]
pub struct ModesConfig {
    pub a2a: bool,
}

impl Default for ModesConfig {
    fn default() -> (r: Self)
        ensures
            !r.a2a,
    {
        ModesConfig { a2a: false }
    }
}

/// The whole configuration.
#[derive(Clone, Debug)]
pub struct ProxyConfig {
    pub server: ServerConfig,
    pub backend: BackendConfig,
    pub skills: SkillsConfig,
    pub mcp: McpConfig,
    pub hooks: HooksConfig,
    pub memory: MemoryConfig,
    pub modes: ModesConfig,
}

/// The configuration used when no file is given.
pub open spec fn is_default_config(c: ProxyConfig) -> bool {
    &&& c.server.host@ == "0.0.0.0"@
    &&& c.server.port == 8080
    &&& c.backend.wire_api@ == "responses"@
    &&& c.skills.dirs@.len() == 0
    &&& c.skills.max_injected == 3
    &&& c.mcp.config_path is None
    &&& c.hooks.config_path is None
    &&& !c.memory.enabled
    &&& c.memory.db_path@.len() == 0
    &&& c.memory.embedding_model@ == "text-embedding-3-small"@
    &&& !c.modes.a2a
}

impl Default for ProxyConfig {
    fn default() -> (r: Self)
        ensures
            is_default_config(r),
    {
        ProxyConfig {
            server: ServerConfig::default(),
            backend: BackendConfig::default(),
            skills: SkillsConfig::default(),
            mcp: McpConfig::default(),
            hooks: HooksConfig::default(),
            memory: MemoryConfig::default(),
            modes: ModesConfig::default(),
        }
    }
}

// ---------------------------------------------------------------------------
// Environment overrides
// ---------------------------------------------------------------------------

/// The environment variables that override the configuration file, each
/// `None` when unset: `HOST`, `PORT`, `CODEX_WIRE_API`, `PROXY_SKILLS_DIRS`,
/// `PROXY_SKILLS_MAX`, `PROXY_HOOKS_CONFIG`.
#[derive(Clone, Debug)]
pub struct EnvOverrides {
    pub host: Option<String>,
    pub port: Option<String>,
    pub wire_api: Option<String>,
    pub skills_dirs: Option<String>,
    pub skills_max: Option<String>,
    pub hooks_config: Option<String>,
}

/// The non-empty strings of `v`, in order.
pub open spec fn non_empty(v: Seq<Seq<char>>) -> Seq<Seq<char>>
    decreases v.len(),
{
    if v.len() == 0 {
        Seq::empty()
    } else if v.last().len() > 0 {
        non_empty(v.drop_last()).push(v.last())
    } else {
        non_empty(v.drop_last())
    }
}

/// The non-empty pieces of a colon-separated list.
pub open spec fn colon_list(s: Seq<char>) -> Seq<Seq<char>> {
    non_empty(split_char(s, ':'))
}

/// Splits a colon-separated list, dropping empty pieces.
pub fn split_colon_list(s: &str) -> (r: Vec<String>)
    ensures
        views(r@) == colon_list(s@),
{
    let parts = split(s, ':');
    let mut out: Vec<String> = Vec::new();
    let mut j: usize = 0;
    while j < parts.len()
        invariant
            j <= parts.len(),
            views(out@) == non_empty(views(parts@).take(j as int)),
        decreases parts.len() - j,
    {
        proof {
            assert(views(parts@).take(j + 1).drop_last() =~= views(parts@).take(j as int));
            assert(views(parts@).take(j + 1).last() == parts@[j as int]@);
        }
        if !parts[j].as_str().is_empty() {
            let ghost before = out@;
            out.push(owned(parts[j].as_str()));
            proof {
                assert(views(out@) =~= views(before).push(parts@[j as int]@));
            }
        }
        j = j + 1;
    }
    assert(views(parts@).take(parts.len() as int) =~= views(parts@));
    out
}

/// The configuration after the environment overrides: a set variable replaces
/// its setting; `PORT` and `PROXY_SKILLS_MAX` only when they parse as numbers;
/// `PROXY_SKILLS_DIRS` appends its non-empty colon-separated entries.
pub open spec fn spec_apply_env(c: ProxyConfig, e: EnvOverrides) -> ProxyConfig {
    ProxyConfig {
        server: ServerConfig {
            host: match e.host { Some(h) => h, None => c.server.host },
            port: match e.port {
                Some(p) => match spec_parse_unsigned(p@, 65535) {
                    Some(n) => n as u16,
                    None => c.server.port,
                },
                None => c.server.port,
            },
        },
        backend: BackendConfig { wire_api: match e.wire_api { Some(w) => w, None => c.backend.wire_api } },
        skills: SkillsConfig {
            dirs: c.skills.dirs,
            max_injected: match e.skills_max {
                Some(m) => match spec_parse_unsigned(m@, usize::MAX as nat) {
                    Some(n) => n as usize,
                    None => c.skills.max_injected,
                },
                None => c.skills.max_injected,
            },
        },
        mcp: c.mcp,
        hooks: HooksConfig { config_path: match e.hooks_config { Some(p) => Some(p), None => c.hooks.config_path } },
        memory: c.memory,
        modes: c.modes,
    }
}

/// The skill directories after the environment overrides.
pub open spec fn spec_env_dirs(c: ProxyConfig, e: EnvOverrides) -> Seq<Seq<char>> {
    match e.skills_dirs {
        Some(d) => views(c.skills.dirs@) + colon_list(d@),
        None => views(c.skills.dirs@),
    }
}

impl ProxyConfig {
    /// Applies the environment overrides to this configuration.
    pub fn apply_env_values(&mut self, env: &EnvOverrides)
        ensures
            final(self).server.host@ == spec_apply_env(*old(self), *env).server.host@,
            final(self).server.port == spec_apply_env(*old(self), *env).server.port,
            final(self).backend.wire_api@ == spec_apply_env(*old(self), *env).backend.wire_api@,
            views(final(self).skills.dirs@) == spec_env_dirs(*old(self), *env),
            final(self).skills.max_injected == spec_apply_env(*old(self), *env).skills.max_injected,
            final(self).mcp == old(self).mcp,
            opt_view(final(self).hooks.config_path) == opt_view(spec_apply_env(*old(self), *env).hooks.config_path),
            final(self).memory == old(self).memory,
            final(self).modes == old(self).modes,
    {
        if let Some(h) = &env.host {
            self.server.host = owned(h.as_str());
        }
        if let Some(p) = &env.port {
            if let Some(n) = parse_unsigned(p.as_str(), 65535) {
                self.server.port = n as u16;
            }
        }
        if let Some(w) = &env.wire_api {
            self.backend.wire_api = owned(w.as_str());
        }
        if let Some(d) = &env.skills_dirs {
            let extra = split_colon_list(d.as_str());
            let mut dirs: Vec<String> = Vec::new();
            std::mem::swap(&mut dirs, &mut self.skills.dirs);
            let ghost before = views(dirs@);
            let mut j: usize = 0;
            while j < extra.len()
                invariant
                    j <= extra.len(),
                    views(dirs@) == before + views(extra@).take(j as int),
                decreases extra.len() - j,
            {
                let ghost b = dirs@;
                dirs.push(owned(extra[j].as_str()));
                proof {
                    assert(views(dirs@) =~= views(b).push(extra@[j as int]@));
                    assert(views(extra@).take(j + 1) =~= views(extra@).take(j as int).push(extra@[j as int]@));
                }
                j = j + 1;
            }
            assert(views(extra@).take(extra.len() as int) =~= views(extra@));
            self.skills.dirs = dirs;
        }
        if let Some(m) = &env.skills_max {
            if let Some(n) = parse_unsigned(m.as_str(), usize::MAX as u64) {
                self.skills.max_injected = n as usize;
            }
        }
        if let Some(p) = &env.hooks_config {
            self.hooks.config_path = Some(owned(p.as_str()));
        }
    }
}

// ---------------------------------------------------------------------------
// Skill directories
// ---------------------------------------------------------------------------

/// The skill directories named by a `--dirs` flag (colon-separated, empty
/// entries dropped) or, without the flag, those of the configuration.
pub open spec fn spec_dir_names(flag: Option<Seq<char>>, cfg_dirs: Seq<Seq<char>>) -> Seq<Seq<char>> {
    match flag {
        Some(f) => colon_list(f),
        None => cfg_dirs,
    }
}

/// Chooses the skill directory names from a `--dirs` flag or the configuration.
pub fn dir_names(flag: Option<&str>, cfg_dirs: &Vec<String>) -> (r: Vec<String>)
    ensures
        views(r@) == spec_dir_names(opt_str_view(flag), views(cfg_dirs@)),
{
    match flag {
        Some(f) => split_colon_list(f),
        None => {
            let mut out: Vec<String> = Vec::new();
            let mut j: usize = 0;
            while j < cfg_dirs.len()
                invariant
                    j <= cfg_dirs.len(),
                    views(out@) == views(cfg_dirs@).take(j as int),
                decreases cfg_dirs.len() - j,
            {
                let ghost b = out@;
                out.push(owned(cfg_dirs[j].as_str()));
                proof {
                    assert(views(out@) =~= views(b).push(cfg_dirs@[j as int]@));
                    assert(views(cfg_dirs@).take(j + 1) =~= views(cfg_dirs@).take(j as int).push(cfg_dirs@[j as int]@));
                }
                j = j + 1;
            }
            assert(views(cfg_dirs@).take(cfg_dirs.len() as int) =~= views(cfg_dirs@));
            out
        },
    }
}

/// `dirs` are `names` with a leading `~/` expanded against `home`.
pub open spec fn expanded_dirs(dirs: Seq<PathBuf>, names: Seq<Seq<char>>, home: Option<PathBuf>) -> bool {
    &&& dirs.len() == names.len()
    &&& forall|i: int| 0 <= i < names.len() ==> #[trigger] dirs[i] == spec_expand_tilde(names[i], home)
}

/// The skill directories to read, each with a leading `~/` expanded against
/// the given home directory.
pub fn resolve_dirs_with(flag: Option<&str>, cfg_dirs: &Vec<String>, home: Option<&PathBuf>) -> (r: Vec<PathBuf>)
    ensures
        expanded_dirs(
            r@,
            spec_dir_names(opt_str_view(flag), views(cfg_dirs@)),
            opt_path(home),
        ),
{
    let names = dir_names(flag, cfg_dirs);
    let mut out: Vec<PathBuf> = Vec::new();
    let mut j: usize = 0;
    while j < names.len()
        invariant
            j <= names.len(),
            out@.len() == j,
            forall|i: int| 0 <= i < j ==> #[trigger] out@[i] == spec_expand_tilde(names@[i]@,
                opt_path(home)),
        decreases names.len() - j,
    {
        let p = expand_tilde_with(names[j].as_str(), home);
        out.push(p);
        j = j + 1;
    }
    proof {
        assert forall|i: int| 0 <= i < names@.len() implies views(names@)[i] == names@[i]@ by {}
    }
    out
}

/// The skill directories to read, from a `--dirs` flag or the configuration,
/// with a leading `~/` expanded to the user's home directory.
pub fn resolve_dirs(flag: Option<&str>, cfg_dirs: &Vec<String>) -> (r: Vec<PathBuf>)
    ensures
        exists|home: Option<PathBuf>| #[trigger] expanded_dirs(
            r@,
            spec_dir_names(opt_str_view(flag), views(cfg_dirs@)),
            home,
        ),
{
    let home = home_dir();
    let r = match &home {
        Some(h) => resolve_dirs_with(flag, cfg_dirs, Some(h)),
        None => resolve_dirs_with(flag, cfg_dirs, None),
    };
    proof {
        assert(expanded_dirs(
            r@,
            spec_dir_names(opt_str_view(flag), views(cfg_dirs@)),
            home,
        ));
    }
    r
}

} // verus!
