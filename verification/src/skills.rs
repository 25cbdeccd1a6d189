//! Skill manifests (`SKILL.md`): frontmatter framing, keyword tokens, document
//! frequencies and the final ranking of scored skills.
use vstd::prelude::*;
use crate::text::{
    chars_of, concat, contains, dedup, dedup_strings, find_chars, is_alphanumeric,
    is_first_occurrence, lemma_dedup_contains, owned, seq_contains, seq_starts_with,
    string_from_chars, strip_prefix, str_eq, sub_string, to_lowercase, unicode_alphanumeric,
    unicode_lowercase, views,
};

verus! {

broadcast use vstd::string::group_string_axioms;

/// The `triggers` block of a skill's frontmatter.
#[derive(Clone, Debug)]
pub struct SkillTriggers {
    pub keywords: Option<Vec<String>>,
    pub semantic: Option<Vec<String>>,
}

/// A skill read from a `SKILL.md` file: its frontmatter fields and the text
/// that is injected when the skill is selected.
#[derive(Clone, Debug)]
pub struct SkillManifest {
    pub name: String,
    pub description: String,
    pub version: Option<String>,
    pub domain: Option<String>,
    pub triggers: Option<SkillTriggers>,
    /// `# {name}`, the description and the body after the frontmatter.
    pub content: String,
}

// ---------------------------------------------------------------------------
// Tokens
// ---------------------------------------------------------------------------

/// The maximal runs of alphanumeric characters of `t`: those already closed by
/// a separator, and the run still open at the end of `t`.
pub open spec fn alnum_runs(t: Seq<char>) -> (Seq<Seq<char>>, Seq<char>)
    decreases t.len(),
{
    if t.len() == 0 {
        (Seq::empty(), Seq::empty())
    } else {
        let (done, cur) = alnum_runs(t.drop_last());
        let c = t.last();
        if unicode_alphanumeric(c) {
            (done, cur.push(c))
        } else if cur.len() > 0 {
            (done.push(cur), Seq::empty())
        } else {
            (done, Seq::empty())
        }
    }
}

/// The non-empty alphanumeric words of `t`, in order.
pub open spec fn alnum_words(t: Seq<char>) -> Seq<Seq<char>> {
    let (done, cur) = alnum_runs(t);
    if cur.len() > 0 {
        done.push(cur)
    } else {
        done
    }
}

/// The distinct lowercase alphanumeric words of `s`, first occurrences first.
pub open spec fn spec_tokenize(s: Seq<char>) -> Seq<Seq<char>> {
    dedup(alnum_words(unicode_lowercase(s)))
}

/// Splits `s`, lowercased, into its distinct alphanumeric words.
pub fn tokenize(s: &str) -> (r: Vec<String>)
    ensures
        views(r@) == spec_tokenize(s@),
{
    let lower = to_lowercase(s);
    let cs = chars_of(lower.as_str());
    let mut words: Vec<String> = Vec::new();
    let mut cur: Vec<char> = Vec::new();
    let mut i: usize = 0;
    while i < cs.len()
        invariant
            i <= cs.len(),
            (views(words@), cur@) == alnum_runs(cs@.take(i as int)),
        decreases cs.len() - i,
    {
        proof {
            assert(cs@.take(i + 1).drop_last() =~= cs@.take(i as int));
        }
        let c = cs[i];
        if is_alphanumeric(c) {
            cur.push(c);
        } else if cur.len() > 0 {
            let ghost before = words@;
            words.push(string_from_chars(cur.as_slice()));
            proof {
                assert(views(words@) =~= views(before).push(cur@));
            }
            cur = Vec::new();
        }
        i = i + 1;
    }
    assert(cs@.take(cs.len() as int) =~= cs@);
    if cur.len() > 0 {
        let ghost before = words@;
        words.push(string_from_chars(cur.as_slice()));
        proof {
            assert(views(words@) =~= views(before).push(cur@));
        }
    }
    dedup_strings(&words)
}

/// The tokens of each keyword, concatenated in keyword order.
pub open spec fn flat_tokens(kws: Seq<Seq<char>>) -> Seq<Seq<char>>
    decreases kws.len(),
{
    if kws.len() == 0 {
        Seq::empty()
    } else {
        flat_tokens(kws.drop_last()) + spec_tokenize(kws.last())
    }
}

/// The keywords a skill declares under `triggers.keywords`.
pub open spec fn declared_keywords(m: SkillManifest) -> Seq<Seq<char>> {
    match m.triggers {
        Some(t) => match t.keywords {
            Some(k) => views(k@),
            None => Seq::empty(),
        },
        None => Seq::empty(),
    }
}

/// The keyword tokens a skill is scored with.
pub open spec fn spec_keyword_tokens(m: SkillManifest) -> Seq<Seq<char>> {
    flat_tokens(declared_keywords(m))
}

/// Appends the strings of `b` to `a`.
fn append_strings(a: &mut Vec<String>, b: &Vec<String>)
    ensures
        views(final(a)@) == views(old(a)@) + views(b@),
{
    let ghost a0 = views(a@);
    let mut j: usize = 0;
    while j < b.len()
        invariant
            j <= b.len(),
            views(a@) == a0 + views(b@).take(j as int),
        decreases b.len() - j,
    {
        let ghost before = a@;
        a.push(owned(b[j].as_str()));
        proof {
            assert(views(a@) =~= views(before).push(b@[j as int]@));
            assert(views(b@).take(j + 1) =~= views(b@).take(j as int).push(b@[j as int]@));
        }
        j = j + 1;
    }
    assert(views(b@).take(b.len() as int) =~= views(b@));
}

/// The keyword tokens of a skill: each declared keyword tokenized, in order.
pub fn keyword_tokens(m: &SkillManifest) -> (r: Vec<String>)
    ensures
        views(r@) == spec_keyword_tokens(*m),
{
    let mut out: Vec<String> = Vec::new();
    match &m.triggers {
        Some(t) => match &t.keywords {
            Some(kws) => {
                let mut j: usize = 0;
                while j < kws.len()
                    invariant
                        j <= kws.len(),
                        views(out@) == flat_tokens(views(kws@).take(j as int)),
                    decreases kws.len() - j,
                {
                    proof {
                        assert(views(kws@).take(j + 1).drop_last() =~= views(kws@).take(j as int));
                    }
                    let toks = tokenize(kws[j].as_str());
                    append_strings(&mut out, &toks);
                    j = j + 1;
                }
                assert(views(kws@).take(kws.len() as int) =~= views(kws@));
            },
            None => {},
        },
        None => {},
    }
    out
}

/// All tokens a skill is indexed under: its name, description and keywords,
/// each once.
pub open spec fn spec_manifest_tokens(m: SkillManifest) -> Seq<Seq<char>> {
    dedup(spec_tokenize(m.name@) + spec_tokenize(m.description@) + spec_keyword_tokens(m))
}

/// The distinct tokens of a skill's name, description and keywords.
pub fn manifest_tokens(m: &SkillManifest) -> (r: Vec<String>)
    ensures
        views(r@) == spec_manifest_tokens(*m),
{
    let mut all = tokenize(m.name.as_str());
    let d = tokenize(m.description.as_str());
    append_strings(&mut all, &d);
    let k = keyword_tokens(m);
    append_strings(&mut all, &k);
    dedup_strings(&all)
}

/// How many of the keyword tokens occur among the message tokens.
pub open spec fn spec_matched_count(keywords: Seq<Seq<char>>, message: Seq<Seq<char>>) -> nat
    decreases keywords.len(),
{
    if keywords.len() == 0 {
        0
    } else {
        spec_matched_count(keywords.drop_last(), message) + if message.contains(keywords.last()) {
            1nat
        } else {
            0nat
        }
    }
}

/// Counts the keyword tokens that occur in the message.
pub fn matched_count(keywords: &Vec<String>, message_tokens: &Vec<String>) -> (r: usize)
    ensures
        r == spec_matched_count(views(keywords@), views(message_tokens@)),
{
    let mut n: usize = 0;
    let mut j: usize = 0;
    while j < keywords.len()
        invariant
            j <= keywords.len(),
            n <= j,
            n == spec_matched_count(views(keywords@).take(j as int), views(message_tokens@)),
        decreases keywords.len() - j,
    {
        proof {
            assert(views(keywords@).take(j + 1).drop_last() =~= views(keywords@).take(j as int));
        }
        if crate::text::contains_string(message_tokens, keywords[j].as_str()) {
            n = n + 1;
        }
        j = j + 1;
    }
    assert(views(keywords@).take(keywords.len() as int) =~= views(keywords@));
    n
}


// ---------------------------------------------------------------------------
// SKILL.md framing
// ---------------------------------------------------------------------------

/// The position of the first occurrence of `p` in `s`.
pub open spec fn first_occurrence(s: Seq<char>, p: Seq<char>) -> int {
    choose|i: int| is_first_occurrence(s, p, i)
}

/// A first occurrence is the first occurrence.
pub proof fn lemma_first_occurrence_unique(s: Seq<char>, p: Seq<char>, i: int)
    requires
        is_first_occurrence(s, p, i),
    ensures
        first_occurrence(s, p) == i,
{
    let j = first_occurrence(s, p);
    assert(is_first_occurrence(s, p, j));
    if j < i {
        assert(!crate::text::occurs_at(s, p, j));
    }
    if i < j {
        assert(!crate::text::occurs_at(s, p, i));
    }
}

/// `s` without its leading line feeds.
pub open spec fn trim_start_newlines(s: Seq<char>) -> Seq<char>
    decreases s.len(),
{
    if s.len() > 0 && s[0] == '\n' {
        trim_start_newlines(s.drop_first())
    } else {
        s
    }
}

/// A `SKILL.md` text split into its YAML frontmatter and its body: the text
/// must start with `---`; the frontmatter runs up to the first `\n---`, and the
/// body is what follows that delimiter, without leading line feeds.
pub open spec fn spec_split_frontmatter(raw: Seq<char>) -> Option<(Seq<char>, Seq<char>)> {
    if seq_starts_with(raw, "---"@) && seq_contains(raw.skip(3), "\n---"@) {
        let rest = raw.skip(3);
        let end = first_occurrence(rest, "\n---"@);
        Some((rest.take(end), trim_start_newlines(rest.skip(end + 4))))
    } else {
        None
    }
}

/// Splits a `SKILL.md` text into frontmatter and body; `None` when it does not
/// start with `---` or has no closing `\n---`.
pub fn split_frontmatter(raw: &str) -> (r: Option<(String, String)>)
    ensures
        match r {
            Some((yaml, body)) => spec_split_frontmatter(raw@) == Some((yaml@, body@)),
            None => spec_split_frontmatter(raw@) is None,
        },
{
    proof {
        reveal_strlit("---");
        reveal_strlit("\n---");
    }
    let rest = match strip_prefix(raw, "---") {
        Some(r) => r,
        None => return None,
    };
    let rv = chars_of(rest.as_str());
    let pv = chars_of("\n---");
    let end = match find_chars(&rv, &pv) {
        Some(e) => e,
        None => return None,
    };
    proof {
        lemma_first_occurrence_unique(rv@, pv@, end as int);
        assert(pv@.len() == 4);
        assert(end + pv@.len() <= rv@.len());
    }
    let yaml = sub_string(&rv, 0, end);
    let mut k: usize = end + 4;
    while k < rv.len() && rv[k] == '\n'
        invariant
            end + 4 <= k <= rv@.len(),
            trim_start_newlines(rv@.skip(end + 4)) == trim_start_newlines(rv@.skip(k as int)),
        decreases rv.len() - k,
    {
        proof {
            assert(rv@.skip(k as int).drop_first() =~= rv@.skip(k + 1));
        }
        k = k + 1;
    }
    proof {
        if k == rv.len() {
            assert(rv@.skip(k as int) =~= Seq::<char>::empty());
        }
        assert(rv@.take(end as int) =~= rv@.subrange(0, end as int));
        assert(rv@.skip(k as int) =~= rv@.subrange(k as int, rv@.len() as int));
    }
    let body = sub_string(&rv, k, rv.len());
    Some((yaml, body))
}

/// The text injected for a skill: a heading with its name, its description,
/// and the body of its `SKILL.md`.
pub open spec fn spec_skill_content(name: Seq<char>, description: Seq<char>, body: Seq<char>) -> Seq<char> {
    "# "@ + name + "\n\n"@ + description + "\n\n"@ + body
}

impl SkillManifest {
    /// The manifest with `content` built from its name, description and `body`.
    pub fn with_body(self, body: &str) -> (r: SkillManifest)
        ensures
            r.name == self.name,
            r.description == self.description,
            r.version == self.version,
            r.domain == self.domain,
            r.triggers == self.triggers,
            r.content@ == spec_skill_content(self.name@, self.description@, body@),
    {
        let a = concat("# ", self.name.as_str());
        let b = concat(a.as_str(), "\n\n");
        let c = concat(b.as_str(), self.description.as_str());
        let d = concat(c.as_str(), "\n\n");
        let content = concat(d.as_str(), body);
        SkillManifest { content, ..self }
    }
}

// ---------------------------------------------------------------------------
// Document frequencies
// ---------------------------------------------------------------------------

/// The number of skills in `ms` indexed under token `t`.
pub open spec fn df_count(ms: Seq<SkillManifest>, t: Seq<char>) -> nat
    decreases ms.len(),
{
    if ms.len() == 0 {
        0
    } else {
        df_count(ms.drop_last(), t) + if spec_manifest_tokens(ms.last()).contains(t) {
            1nat
        } else {
            0nat
        }
    }
}

proof fn lemma_df_count_le(ms: Seq<SkillManifest>, t: Seq<char>)
    ensures
        df_count(ms, t) <= ms.len(),
    decreases ms.len(),
{
    if ms.len() > 0 {
        lemma_df_count_le(ms.drop_last(), t);
    }
}

proof fn lemma_df_count_zero(ms: Seq<SkillManifest>, t: Seq<char>)
    requires
        forall|m: int| 0 <= m < ms.len() ==> !(#[trigger] spec_manifest_tokens(ms[m])).contains(t),
    ensures
        df_count(ms, t) == 0,
    decreases ms.len(),
{
    if ms.len() > 0 {
        assert(!spec_manifest_tokens(ms[ms.len() - 1]).contains(t));
        lemma_df_count_zero(ms.drop_last(), t);
    }
}

/// The keys of a table of counts.
pub open spec fn count_keys(df: Seq<(String, usize)>) -> Seq<Seq<char>> {
    df.map_values(|e: (String, usize)| e.0@)
}

/// `df` counts, for each of its keys, the skills of `ms` indexed under it, plus
/// one for each key in `extra`; it lists every token of `ms` and of `extra`.
pub open spec fn counts_match(df: Seq<(String, usize)>, ms: Seq<SkillManifest>, extra: Seq<Seq<char>>) -> bool {
    &&& crate::text::no_repeats(count_keys(df))
    &&& forall|k: int| 0 <= k < df.len() ==> (#[trigger] df[k]).1 == df_count(ms, df[k].0@) + if extra.contains(df[k].0@) { 1nat } else { 0nat }
    &&& forall|k: int| 0 <= k < df.len() ==> (#[trigger] df[k]).1 > 0
    &&& forall|m: int, t: Seq<char>| 0 <= m < ms.len() && #[trigger] spec_manifest_tokens(ms[m]).contains(t) ==> count_keys(df).contains(t)
    &&& forall|t: Seq<char>| #[trigger] extra.contains(t) ==> count_keys(df).contains(t)
}

fn key_position(df: &Vec<(String, usize)>, x: &str) -> (r: Option<usize>)
    ensures
        match r {
            Some(p) => p < df.len() && df@[p as int].0@ == x@,
            None => !count_keys(df@).contains(x@),
        },
{
    let mut i: usize = 0;
    while i < df.len()
        invariant
            i <= df.len(),
            forall|k: int| 0 <= k < i ==> count_keys(df@)[k] != x@,
        decreases df.len() - i,
    {
        if str_eq(df[i].0.as_str(), x) {
            return Some(i);
        }
        i = i + 1;
    }
    None
}

/// For every token of the skills, the number of skills indexed under it
/// (name, description and keyword tokens, each skill counted once per token).
pub fn document_frequencies(ms: &Vec<SkillManifest>) -> (r: Vec<(String, usize)>)
    ensures
        crate::text::no_repeats(count_keys(r@)),
        forall|k: int| 0 <= k < r.len() ==> (#[trigger] r@[k]).1 == df_count(ms@, r@[k].0@),
        forall|k: int| 0 <= k < r.len() ==> (#[trigger] r@[k]).1 > 0,
        forall|m: int, t: Seq<char>| 0 <= m < ms.len() && #[trigger] spec_manifest_tokens(ms@[m]).contains(t)
            ==> count_keys(r@).contains(t),
{
    let mut df: Vec<(String, usize)> = Vec::new();
    let mut i: usize = 0;
    while i < ms.len()
        invariant
            i <= ms.len(),
            counts_match(df@, ms@.take(i as int), Seq::empty()),
        decreases ms.len() - i,
    {
        let toks = manifest_tokens(&ms[i]);
        let ghost tv = views(toks@);
        let ghost before_ms = ms@.take(i as int);
        proof {
            crate::text::lemma_dedup_no_repeats(
                spec_tokenize(ms@[i as int].name@) + spec_tokenize(ms@[i as int].description@)
                    + spec_keyword_tokens(ms@[i as int]),
            );
            assert(tv.take(0) =~= Seq::<Seq<char>>::empty());
        }
        let mut j: usize = 0;
        while j < toks.len()
            invariant
                i < ms.len(),
                j <= toks.len(),
                tv == views(toks@),
                tv == spec_manifest_tokens(ms@[i as int]),
                crate::text::no_repeats(tv),
                before_ms == ms@.take(i as int),
                counts_match(df@, before_ms, tv.take(j as int)),
            decreases toks.len() - j,
        {
            let ghost x = tv[j as int];
            let ghost old_df = df@;
            proof {
                assert(tv.take(j + 1) =~= tv.take(j as int).push(x));
                assert(!tv.take(j as int).contains(x));
                lemma_df_count_le(before_ms, x);
                assert forall|y: Seq<char>| tv.take(j + 1).contains(y) == (tv.take(j as int).contains(y) || y == x) by {
                    crate::text::lemma_push_contains(tv.take(j as int), x, y);
                }
            }
            match key_position(&df, toks[j].as_str()) {
                Some(p) => {
                    let key = owned(df[p].0.as_str());
                    let c = df[p].1;
                    df.set(p, (key, c + 1));
                    proof {
                        assert(count_keys(df@) =~= count_keys(old_df));
                        assert(count_keys(old_df)[p as int] == x);
                        assert forall|t: Seq<char>| #[trigger] tv.take(j + 1).contains(t) implies count_keys(df@).contains(t) by {
                            assert(tv.take(j + 1).contains(t) == (tv.take(j as int).contains(t) || t == x));
                            if t == x {
                                assert(count_keys(df@)[p as int] == t);
                            } else {
                                assert(tv.take(j as int).contains(t));
                                assert(count_keys(old_df).contains(t));
                            }
                        }
                        assert forall|k: int| 0 <= k < df@.len() implies (#[trigger] df@[k]).1 == df_count(before_ms, df@[k].0@)
                            + if tv.take(j + 1).contains(df@[k].0@) { 1nat } else { 0nat } by {
                            let key = df@[k].0@;
                            assert(tv.take(j + 1).contains(key) == (tv.take(j as int).contains(key) || key == x));
                            if k != p {
                                assert(df@[k] == old_df[k]);
                                assert(count_keys(old_df)[k] != count_keys(old_df)[p as int]);
                            }
                        }
                        assert forall|k: int| 0 <= k < df@.len() implies (#[trigger] df@[k]).1 > 0 by {
                            if k != p {
                                assert(df@[k] == old_df[k]);
                            }
                        }
                    }
                },
                None => {
                    proof {
                        assert forall|m: int| 0 <= m < before_ms.len() implies !(#[trigger] spec_manifest_tokens(before_ms[m])).contains(x) by {
                            if spec_manifest_tokens(before_ms[m]).contains(x) {
                                assert(count_keys(df@).contains(x));
                            }
                        }
                        lemma_df_count_zero(before_ms, x);
                    }
                    df.push((owned(toks[j].as_str()), 1));
                    proof {
                        assert(count_keys(df@) =~= count_keys(old_df).push(x));
                        crate::text::lemma_push_contains(count_keys(old_df), x, x);
                        assert forall|t: Seq<char>| count_keys(old_df).contains(t) implies count_keys(df@).contains(t) by {
                            crate::text::lemma_push_contains(count_keys(old_df), x, t);
                        }
                        assert forall|t: Seq<char>| #[trigger] tv.take(j + 1).contains(t) implies count_keys(df@).contains(t) by {
                            assert(tv.take(j + 1).contains(t) == (tv.take(j as int).contains(t) || t == x));
                            if t != x {
                                assert(count_keys(old_df).contains(t));
                            }
                        }
                        assert forall|a: int, b: int| 0 <= a < b < df@.len() implies count_keys(df@)[a] != count_keys(df@)[b] by {
                            if b == df@.len() - 1 {
                                assert(count_keys(old_df)[a] == count_keys(df@)[a]);
                            }
                        }
                    }
                },
            }
            j = j + 1;
        }
        proof {
            let after_ms = ms@.take(i + 1);
            assert(after_ms.drop_last() =~= before_ms);
            assert(after_ms.last() == ms@[i as int]);
            assert(tv.take(toks.len() as int) =~= tv);
            assert forall|m: int, t: Seq<char>| 0 <= m < after_ms.len() && #[trigger] spec_manifest_tokens(after_ms[m]).contains(t)
                implies count_keys(df@).contains(t) by {
                if m < i {
                    assert(after_ms[m] == before_ms[m]);
                }
            }
        }
        i = i + 1;
    }
    assert(ms@.take(ms.len() as int) =~= ms@);
    df
}

// ---------------------------------------------------------------------------
// Domain boost
// ---------------------------------------------------------------------------

/// The domain bonus a skill receives in scoring.
#[derive(Clone, Copy, Debug, PartialEq, Eq, Structural)]
pub enum DomainBoost {
    /// No bonus.
    NoBoost,
    /// A coding domain on a general backend.
    Domain,
    /// A coding domain on the ChatGPT Codex backend (the larger bonus).
    CodexDomain,
}

/// Profiles that count as the ChatGPT Codex backend for domain boosting.
pub open spec fn spec_is_codex_profile(name: Seq<char>) -> bool {
    seq_contains(name, "ChatGPT"@) || seq_contains(name, "ChatGptCodex"@)
}

/// Whether a profile name designates the ChatGPT Codex backend.
pub fn is_codex_profile(name: &str) -> (b: bool)
    ensures
        b == spec_is_codex_profile(name@),
{
    contains(name, "ChatGPT") || contains(name, "ChatGptCodex")
}

/// A domain that earns a bonus: `coding`, `rust` or `programming`, in any case.
pub open spec fn boosted_domain(d: Seq<char>) -> bool {
    let l = unicode_lowercase(d);
    l == "coding"@ || l == "rust"@ || l == "programming"@
}

/// The bonus for a skill's domain under the given profile.
pub open spec fn spec_domain_boost(domain: Option<Seq<char>>, profile: Seq<char>) -> DomainBoost {
    match domain {
        Some(d) => if boosted_domain(d) {
            if spec_is_codex_profile(profile) {
                DomainBoost::CodexDomain
            } else {
                DomainBoost::Domain
            }
        } else {
            DomainBoost::NoBoost
        },
        None => DomainBoost::NoBoost,
    }
}

/// Chooses the domain bonus of a skill under a backend profile.
pub fn domain_boost(domain: Option<&str>, profile_name: &str) -> (r: DomainBoost)
    ensures
        r == spec_domain_boost(
            match domain { Some(d) => Some(d@), None => None },
            profile_name@,
        ),
{
    match domain {
        Some(d) => {
            let l = to_lowercase(d);
            if str_eq(l.as_str(), "coding") || str_eq(l.as_str(), "rust") || str_eq(l.as_str(), "programming") {
                if is_codex_profile(profile_name) {
                    DomainBoost::CodexDomain
                } else {
                    DomainBoost::Domain
                }
            } else {
                DomainBoost::NoBoost
            }
        },
        None => DomainBoost::NoBoost,
    }
}


// ---------------------------------------------------------------------------
// Ranking
// ---------------------------------------------------------------------------

/// The first position of `order`, from `q` on, whose key is below `k`
/// (the length of `order` when there is none).
pub open spec fn first_below(order: Seq<usize>, keys: Seq<u32>, k: u32, q: int) -> int
    decreases order.len() - q,
{
    if q < 0 || q >= order.len() || keys[order[q] as int] < k {
        q
    } else {
        first_below(order, keys, k, q + 1)
    }
}

/// The indices `0..n` ordered by key, largest first; indices with equal keys
/// keep their relative order (a stable sort, by insertion).
pub open spec fn rank_order(keys: Seq<u32>, n: nat) -> Seq<usize>
    decreases n,
{
    if n == 0 {
        Seq::empty()
    } else {
        let s = rank_order(keys, (n - 1) as nat);
        s.insert(first_below(s, keys, keys[n - 1], 0), (n - 1) as usize)
    }
}

/// `order` without the indices whose name already occurred at an earlier index.
pub open spec fn first_of_each_name(order: Seq<usize>, names: Seq<Seq<char>>) -> Seq<usize>
    decreases order.len(),
{
    if order.len() == 0 {
        Seq::empty()
    } else {
        let rest = first_of_each_name(order.drop_last(), names);
        if order.drop_last().map_values(|i: usize| names[i as int]).contains(names[order.last() as int]) {
            rest
        } else {
            rest.push(order.last())
        }
    }
}

/// The skills chosen from their scores: none when there are no skills or
/// `max` is zero; the first `max` in their own order when every score is zero;
/// otherwise the first `max` of the ranking, each name kept once.
pub open spec fn spec_rank_selection(names: Seq<Seq<char>>, keys: Seq<u32>, max: nat) -> Seq<usize> {
    let n = keys.len();
    if n == 0 || max == 0 {
        Seq::empty()
    } else if forall|i: int| 0 <= i < n ==> keys[i] == 0 {
        Seq::new(if n < max { n } else { max }, |i: int| i as usize)
    } else {
        let u = first_of_each_name(rank_order(keys, n), names);
        u.take(if u.len() < max { u.len() as int } else { max as int })
    }
}

/// Chooses up to `max` skills from their scores. `keys[i]` is the score of
/// skill `i` in an encoding whose integer order is the order of the scores
/// (the bit pattern of a non-negative float), `names[i]` its name. Returns
/// skill indices, best first.
pub fn rank_selection(names: &Vec<String>, keys: &Vec<u32>, max: usize) -> (r: Vec<usize>)
    requires
        names.len() == keys.len(),
    ensures
        r@ == spec_rank_selection(views(names@), keys@, max as nat),
{
    let n = keys.len();
    let mut out: Vec<usize> = Vec::new();
    if n == 0 || max == 0 {
        return out;
    }
    let mut all_zero = true;
    let mut i: usize = 0;
    while i < n
        invariant
            n == keys.len(),
            i <= n,
            all_zero == forall|k: int| 0 <= k < i ==> keys@[k] == 0,
        decreases n - i,
    {
        if keys[i] != 0 {
            all_zero = false;
        }
        i = i + 1;
    }
    if all_zero {
        let lim = if n < max { n } else { max };
        let mut k: usize = 0;
        while k < lim
            invariant
                k <= lim,
                out@ == Seq::new(k as nat, |p: int| p as usize),
            decreases lim - k,
        {
            out.push(k);
            proof {
                assert(out@ =~= Seq::new((k + 1) as nat, |p: int| p as usize));
            }
            k = k + 1;
        }
        return out;
    }
    // Stable insertion sort by key, largest first.
    let mut order: Vec<usize> = Vec::new();
    let mut i: usize = 0;
    while i < n
        invariant
            n == keys.len(),
            i <= n,
            order@ == rank_order(keys@, i as nat),
            order@.len() == i,
            forall|p: int| 0 <= p < order@.len() ==> #[trigger] order@[p] < i,
        decreases n - i,
    {
        let k = keys[i];
        let mut q: usize = 0;
        while q < order.len() && keys[order[q]] >= k
            invariant
                n == keys.len(),
                i < n,
                q <= order@.len(),
                forall|p: int| 0 <= p < order@.len() ==> #[trigger] order@[p] < i,
                first_below(order@, keys@, k, 0) == first_below(order@, keys@, k, q as int),
            decreases order.len() - q,
        {
            q = q + 1;
        }
        proof {
            assert(first_below(order@, keys@, k, q as int) == q);
            assert((i + 1 - 1) as nat == i as nat);
        }
        let ghost before = order@;
        order.insert(q, i);
        proof {
            assert(order@ == before.insert(q as int, i));
            assert forall|p: int| 0 <= p < order@.len() implies #[trigger] order@[p] < i + 1 by {
                if p < q {
                    assert(order@[p] == before[p]);
                } else if p > q {
                    assert(order@[p] == before[p - 1]);
                }
            }
        }
        i = i + 1;
    }
    // Keep the first index of each name.
    let ghost nv = views(names@);
    let mut uniq: Vec<usize> = Vec::new();
    let mut seen: Vec<String> = Vec::new();
    let mut j: usize = 0;
    while j < order.len()
        invariant
            n == keys.len(),
            names.len() == n,
            nv == views(names@),
            j <= order@.len(),
            forall|p: int| 0 <= p < order@.len() ==> #[trigger] order@[p] < n,
            views(seen@) == order@.take(j as int).map_values(|x: usize| nv[x as int]),
            uniq@ == first_of_each_name(order@.take(j as int), nv),
        decreases order.len() - j,
    {
        let idx = order[j];
        let ghost t = order@.take(j + 1);
        proof {
            assert(t.drop_last() =~= order@.take(j as int));
            assert(t.last() == idx);
        }
        let dup = crate::text::contains_string(&seen, names[idx].as_str());
        if !dup {
            uniq.push(idx);
        }
        let ghost before = seen@;
        seen.push(owned(names[idx].as_str()));
        proof {
            assert(views(seen@) =~= views(before).push(nv[idx as int]));
            assert(order@.take(j + 1).map_values(|x: usize| nv[x as int])
                =~= order@.take(j as int).map_values(|x: usize| nv[x as int]).push(nv[idx as int]));
        }
        j = j + 1;
    }
    assert(order@.take(order.len() as int) =~= order@);
    let lim = if uniq.len() < max { uniq.len() } else { max };
    let mut k: usize = 0;
    while k < lim
        invariant
            lim <= uniq.len(),
            k <= lim,
            out@ == uniq@.take(k as int),
        decreases lim - k,
    {
        out.push(uniq[k]);
        proof {
            assert(out@ =~= uniq@.take(k + 1));
        }
        k = k + 1;
    }
    out
}


/// Indices of `s` are listed best first: keys never increase along `s`.
pub open spec fn best_first(s: Seq<usize>, keys: Seq<u32>) -> bool {
    forall|p: int, q: int| 0 <= p < q < s.len() ==> keys[#[trigger] s[p] as int] >= keys[#[trigger] s[q] as int]
}

proof fn lemma_first_below(s: Seq<usize>, keys: Seq<u32>, k: u32, q: int)
    requires
        0 <= q <= s.len(),
    ensures
        q <= first_below(s, keys, k, q) <= s.len(),
        forall|p: int| q <= p < first_below(s, keys, k, q) ==> keys[#[trigger] s[p] as int] >= k,
        first_below(s, keys, k, q) < s.len() ==> keys[s[first_below(s, keys, k, q)] as int] < k,
    decreases s.len() - q,
{
    if q < s.len() && keys[s[q] as int] >= k {
        lemma_first_below(s, keys, k, q + 1);
    }
}

proof fn lemma_rank_order(keys: Seq<u32>, n: nat)
    requires
        n <= keys.len(),
        n <= usize::MAX,
    ensures
        rank_order(keys, n).len() == n,
        forall|p: int| 0 <= p < n ==> #[trigger] rank_order(keys, n)[p] < n,
        best_first(rank_order(keys, n), keys),
    decreases n,
{
    if n > 0 {
        let m = (n - 1) as nat;
        lemma_rank_order(keys, m);
        let s = rank_order(keys, m);
        let k = keys[m as int];
        let pos = first_below(s, keys, k, 0);
        lemma_first_below(s, keys, k, 0);
        let t = s.insert(pos, m as usize);
        assert(rank_order(keys, n) == t);
        assert forall|p: int| 0 <= p < n implies #[trigger] t[p] < n by {
            if p < pos {
                assert(t[p] == s[p]);
            } else if p > pos {
                assert(t[p] == s[p - 1]);
            }
        }
        assert forall|p: int, q: int| 0 <= p < q < t.len() implies keys[#[trigger] t[p] as int] >= keys[#[trigger] t[q] as int] by {
            if q < pos {
                assert(t[p] == s[p] && t[q] == s[q]);
            } else if q == pos {
                assert(t[p] == s[p]);
            } else if p < pos {
                assert(t[p] == s[p] && t[q] == s[q - 1]);
                assert(keys[s[p] as int] >= k);
                assert(keys[s[pos] as int] < k);
                if q - 1 > pos {
                    assert(keys[s[pos] as int] >= keys[s[q - 1] as int]);
                }
            } else if p == pos {
                assert(t[q] == s[q - 1]);
                assert(keys[s[pos] as int] < k);
                if q - 1 > pos {
                    assert(keys[s[pos] as int] >= keys[s[q - 1] as int]);
                }
            } else {
                assert(t[p] == s[p - 1] && t[q] == s[q - 1]);
            }
        }
    }
}

proof fn lemma_first_of_each_name(order: Seq<usize>, names: Seq<Seq<char>>, keys: Seq<u32>)
    requires
        best_first(order, keys),
    ensures
        forall|x: usize| first_of_each_name(order, names).contains(x) ==> order.contains(x),
        best_first(first_of_each_name(order, names), keys),
        forall|p: int, q: int| 0 <= p < q < first_of_each_name(order, names).len()
            ==> names[#[trigger] first_of_each_name(order, names)[p] as int] != names[#[trigger] first_of_each_name(order, names)[q] as int],
        first_of_each_name(order, names).len() <= order.len(),
    decreases order.len(),
{
    if order.len() > 0 {
        let d = order.drop_last();
        let l = order.last();
        assert(best_first(d, keys)) by {
            assert forall|p: int, q: int| 0 <= p < q < d.len() implies keys[#[trigger] d[p] as int] >= keys[#[trigger] d[q] as int] by {
                assert(d[p] == order[p] && d[q] == order[q]);
            }
        }
        lemma_first_of_each_name(d, names, keys);
        let rest = first_of_each_name(d, names);
        assert forall|x: usize| rest.contains(x) implies order.contains(x) by {
            assert(d.contains(x));
            let k = choose|k: int| 0 <= k < d.len() && d[k] == x;
            assert(order[k] == d[k]);
        }
        let nm = d.map_values(|i: usize| names[i as int]);
        if !nm.contains(names[l as int]) {
            let t = rest.push(l);
            assert forall|x: usize| t.contains(x) implies order.contains(x) by {
                crate::text::lemma_push_contains(rest, l, x);
                if x == l {
                    assert(order[order.len() - 1] == x);
                }
            }
            assert forall|p: int, q: int| 0 <= p < q < t.len() implies keys[#[trigger] t[p] as int] >= keys[#[trigger] t[q] as int] by {
                if q == t.len() - 1 {
                    assert(t[p] == rest[p]);
                    assert(rest.contains(t[p]));
                    assert(d.contains(t[p]));
                    let k = choose|k: int| 0 <= k < d.len() && d[k] == t[p];
                    assert(order[k] == d[k]);
                    assert(keys[order[k] as int] >= keys[order[order.len() - 1] as int]);
                } else {
                    assert(t[p] == rest[p] && t[q] == rest[q]);
                }
            }
            assert forall|p: int, q: int| 0 <= p < q < t.len() implies names[#[trigger] t[p] as int] != names[#[trigger] t[q] as int] by {
                if q == t.len() - 1 {
                    assert(t[p] == rest[p]);
                    assert(rest.contains(t[p]));
                    assert(d.contains(t[p]));
                    let k = choose|k: int| 0 <= k < d.len() && d[k] == t[p];
                    assert(nm[k] == names[t[p] as int]);
                    assert(t[q] == l);
                } else {
                    assert(t[p] == rest[p] && t[q] == rest[q]);
                }
            }
        }
    }
}

proof fn lemma_rank_order_complete(keys: Seq<u32>, n: nat)
    requires
        n <= keys.len(),
    ensures
        forall|i: int| 0 <= i < n ==> #[trigger] rank_order(keys, n).contains(i as usize),
    decreases n,
{
    if n > 0 {
        let m = (n - 1) as nat;
        lemma_rank_order_complete(keys, m);
        let s = rank_order(keys, m);
        let pos = first_below(s, keys, keys[m as int], 0);
        lemma_first_below(s, keys, keys[m as int], 0);
        let t = s.insert(pos, m as usize);
        assert(rank_order(keys, n) == t);
        assert forall|i: int| 0 <= i < n implies #[trigger] t.contains(i as usize) by {
            if i == m {
                assert(t[pos] == m as usize);
            } else {
                assert(s.contains(i as usize));
                let k = choose|k: int| 0 <= k < s.len() && s[k] == i as usize;
                if k < pos {
                    assert(t[k] == s[k]);
                } else {
                    assert(t[k + 1] == s[k]);
                }
            }
        }
    }
}

/// The names kept by `first_of_each_name` are all the names of `order`.
proof fn lemma_first_of_each_name_complete(order: Seq<usize>, names: Seq<Seq<char>>, x: usize)
    requires
        order.contains(x),
    ensures
        exists|p: int| 0 <= p < first_of_each_name(order, names).len()
            && names[#[trigger] first_of_each_name(order, names)[p] as int] == names[x as int],
    decreases order.len(),
{
    let d = order.drop_last();
    let l = order.last();
    let rest = first_of_each_name(d, names);
    let nm = d.map_values(|i: usize| names[i as int]);
    if x == l {
        if nm.contains(names[l as int]) {
            let k = choose|k: int| 0 <= k < nm.len() && nm[k] == names[l as int];
            assert(d.contains(d[k]));
            lemma_first_of_each_name_complete(d, names, d[k]);
            let p = choose|p: int| 0 <= p < rest.len() && names[#[trigger] rest[p] as int] == names[d[k] as int];
            assert(first_of_each_name(order, names)[p] == rest[p]);
        } else {
            let t = rest.push(l);
            assert(first_of_each_name(order, names) == t);
            assert(t[rest.len() as int] == l);
        }
    } else {
        let k = choose|k: int| 0 <= k < order.len() && order[k] == x;
        assert(k < d.len());
        assert(d[k] == x);
        lemma_first_of_each_name_complete(d, names, x);
        let p = choose|p: int| 0 <= p < rest.len() && names[#[trigger] rest[p] as int] == names[x as int];
        if nm.contains(names[l as int]) {
            assert(first_of_each_name(order, names)[p] == rest[p]);
        } else {
            assert(first_of_each_name(order, names)[p] == rest.push(l)[p]);
        }
    }
}

/// When fewer than `max` skills are chosen, every skill's name is among them:
/// one skill is kept for each distinct name.
pub proof fn law_rank_keeps_each_name(names: Seq<Seq<char>>, keys: Seq<u32>, max: nat, i: int)
    requires
        names.len() == keys.len(),
        keys.len() <= usize::MAX,
        0 <= i < keys.len(),
        spec_rank_selection(names, keys, max).len() < max,
    ensures
        exists|p: int| 0 <= p < spec_rank_selection(names, keys, max).len()
            && names[#[trigger] spec_rank_selection(names, keys, max)[p] as int] == names[i],
{
    let n = keys.len();
    let r = spec_rank_selection(names, keys, max);
    if forall|j: int| 0 <= j < n ==> keys[j] == 0 {
        assert(r.len() == n);
        assert(r[i] == i as usize);
    } else {
        lemma_rank_order(keys, n);
        lemma_rank_order_complete(keys, n);
        let o = rank_order(keys, n);
        assert(o.contains(i as usize));
        lemma_first_of_each_name_complete(o, names, i as usize);
        let u = first_of_each_name(o, names);
        assert(r == u);
        let p = choose|p: int| 0 <= p < u.len() && names[#[trigger] u[p] as int] == names[i as usize as int];
        assert(r[p] == u[p]);
    }
}

/// The ranking law: the selection holds at most `max` valid indices, and,
/// unless every score is zero, it lists skills best first with no name twice.
pub proof fn law_rank_selection(names: Seq<Seq<char>>, keys: Seq<u32>, max: nat)
    requires
        names.len() == keys.len(),
        keys.len() <= usize::MAX,
    ensures
        spec_rank_selection(names, keys, max).len() <= max,
        forall|p: int| 0 <= p < spec_rank_selection(names, keys, max).len()
            ==> #[trigger] spec_rank_selection(names, keys, max)[p] < keys.len(),
        (exists|i: int| 0 <= i < keys.len() && keys[i] != 0) ==> {
            let r = spec_rank_selection(names, keys, max);
            &&& best_first(r, keys)
            &&& forall|p: int, q: int| 0 <= p < q < r.len() ==> names[#[trigger] r[p] as int] != names[#[trigger] r[q] as int]
        },
{
    let n = keys.len();
    let r = spec_rank_selection(names, keys, max);
    if n > 0 && max > 0 {
        if exists|i: int| 0 <= i < n && keys[i] != 0 {
            lemma_rank_order(keys, n);
            let o = rank_order(keys, n);
            lemma_first_of_each_name(o, names, keys);
            let u = first_of_each_name(o, names);
            let lim = if u.len() < max { u.len() as int } else { max as int };
            assert(r == u.take(lim));
            assert forall|p: int| 0 <= p < r.len() implies #[trigger] r[p] < n by {
                assert(u[p] == r[p]);
                assert(u.contains(r[p]));
                assert(o.contains(r[p]));
                let k = choose|k: int| 0 <= k < o.len() && o[k] == r[p];
                assert(o[k] < n);
            }
            assert forall|p: int, q: int| 0 <= p < q < r.len() implies keys[#[trigger] r[p] as int] >= keys[#[trigger] r[q] as int] by {
                assert(r[p] == u[p] && r[q] == u[q]);
            }
            assert forall|p: int, q: int| 0 <= p < q < r.len() implies names[#[trigger] r[p] as int] != names[#[trigger] r[q] as int] by {
                assert(r[p] == u[p] && r[q] == u[q]);
            }
        }
    }
}


/// A non-empty run of alphanumeric characters.
pub open spec fn alnum_word(w: Seq<char>) -> bool {
    w.len() > 0 && forall|j: int| 0 <= j < w.len() ==> unicode_alphanumeric(#[trigger] w[j])
}

proof fn lemma_alnum_runs(t: Seq<char>)
    ensures
        forall|k: int| 0 <= k < alnum_runs(t).0.len() ==> alnum_word(#[trigger] alnum_runs(t).0[k]),
        forall|j: int| 0 <= j < alnum_runs(t).1.len() ==> unicode_alphanumeric(#[trigger] alnum_runs(t).1[j]),
    decreases t.len(),
{
    if t.len() > 0 {
        lemma_alnum_runs(t.drop_last());
        let (done, cur) = alnum_runs(t.drop_last());
        let c = t.last();
        if unicode_alphanumeric(c) {
            assert forall|j: int| 0 <= j < cur.push(c).len() implies unicode_alphanumeric(#[trigger] cur.push(c)[j]) by {
                if j < cur.len() {
                    assert(cur.push(c)[j] == cur[j]);
                }
            }
        } else if cur.len() > 0 {
            assert forall|k: int| 0 <= k < done.push(cur).len() implies alnum_word(#[trigger] done.push(cur)[k]) by {
                if k < done.len() {
                    assert(done.push(cur)[k] == done[k]);
                }
            }
        }
    }
}

/// Tokens are distinct, non-empty, and made of alphanumeric characters only.
pub proof fn law_tokens(s: Seq<char>)
    ensures
        crate::text::no_repeats(spec_tokenize(s)),
        forall|i: int| 0 <= i < spec_tokenize(s).len() ==> alnum_word(#[trigger] spec_tokenize(s)[i]),
{
    let t = unicode_lowercase(s);
    let w = alnum_words(t);
    lemma_alnum_runs(t);
    assert forall|k: int| 0 <= k < w.len() implies alnum_word(#[trigger] w[k]) by {
        let (done, cur) = alnum_runs(t);
        if cur.len() > 0 && k == done.len() {
            assert(w[k] == cur);
        } else {
            assert(w[k] == done[k]);
        }
    }
    crate::text::lemma_dedup_no_repeats(w);
    assert forall|i: int| 0 <= i < spec_tokenize(s).len() implies alnum_word(#[trigger] spec_tokenize(s)[i]) by {
        let x = spec_tokenize(s)[i];
        assert(dedup(w).contains(x));
        lemma_dedup_contains(w, x);
        let k = choose|k: int| 0 <= k < w.len() && w[k] == x;
    }
}

/// A token is counted by at most every skill: document frequencies never
/// exceed the number of skills, so inverse frequencies `ln(N / df)` are never
/// negative.
pub proof fn law_df_at_most_skills(ms: Seq<SkillManifest>, t: Seq<char>)
    ensures
        df_count(ms, t) <= ms.len(),
{
    lemma_df_count_le(ms, t);
}

} // verus!
