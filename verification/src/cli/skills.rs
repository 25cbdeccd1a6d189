//! `skills`: the arguments of the skill commands and the text they print.
use vstd::prelude::*;
use std::path::PathBuf;
use crate::skills::{declared_keywords, SkillManifest};
use crate::text::{
    concat, contains, debug_str, debug_text, decimal, decimal_string, join, lines_text, owned,
    pad_right, repeat_char, seq_contains, seq_join, spec_pad_right, str_eq, text_lines,
    to_lowercase, unicode_lowercase, views,
};

verus! {

broadcast use vstd::string::group_string_axioms;

/// Flags of `skills list`.
#[derive(Debug)]
pub struct SkillsListArgs {
    /// Colon-separated skill directories (overrides the config).
    pub dirs: Option<String>,
}

/// Arguments of `skills validate`.
#[derive(Debug)]
pub struct SkillsValidateArgs {
    /// Directory to validate.
    pub dir: PathBuf,
}

/// Arguments of `skills test`.
#[derive(Debug)]
pub struct SkillsTestArgs {
    /// Message to test skill selection against.
    pub message: String,
    /// Colon-separated skill directories (overrides the config).
    pub dirs: Option<String>,
    /// Maximum skills to show (default 3).
    pub max: usize,
    /// Backend profile used for domain boosting (default `OpenAiResponses`).
    pub profile: String,
}

// ---------------------------------------------------------------------------
// skills list
// ---------------------------------------------------------------------------

/// A row of the skill table: name, version and domain left-aligned in
/// columns of 30, 10 and 12 characters, then the last column.
pub open spec fn table_row(name: Seq<char>, version: Seq<char>, domain: Seq<char>, last: Seq<char>) -> Seq<char> {
    spec_pad_right(name, 30) + " "@ + spec_pad_right(version, 10) + " "@ + spec_pad_right(domain, 12) + " "@ + last
}

fn table_row_exec(name: &str, version: &str, domain: &str, last: &str) -> (r: String)
    ensures
        r@ == table_row(name@, version@, domain@, last@),
{
    let a = pad_right(name, 30);
    let b = concat(a.as_str(), " ");
    let c = pad_right(version, 10);
    let d = concat(b.as_str(), c.as_str());
    let e = concat(d.as_str(), " ");
    let f = pad_right(domain, 12);
    let g = concat(e.as_str(), f.as_str());
    let h = concat(g.as_str(), " ");
    concat(h.as_str(), last)
}

/// An optional text, or `-`.
pub open spec fn or_dash(o: Option<String>) -> Seq<char> {
    match o {
        Some(s) => s@,
        None => "-"@,
    }
}

/// The table row of a skill: its name, version, domain and keyword count.
pub open spec fn skill_row(m: SkillManifest) -> Seq<char> {
    table_row(m.name@, or_dash(m.version), or_dash(m.domain), decimal(declared_keywords(m).len()))
}

/// What `skills list` prints, given the directories searched (as displayed)
/// and the skills found.
pub open spec fn spec_list_lines(dirs: Seq<Seq<char>>, skills: Seq<SkillManifest>) -> Seq<Seq<char>> {
    if dirs.len() == 0 {
        seq!["No skill directories configured. Set [skills] dirs in config.toml or use --dirs."@]
    } else if skills.len() == 0 {
        seq!["No skills found in: "@ + seq_join(dirs, ":"@)]
    } else {
        seq![table_row("NAME"@, "VERSION"@, "DOMAIN"@, "KEYWORDS"@), Seq::new(65, |i: int| '-')]
            + skills.map_values(|m: SkillManifest| skill_row(m))
            + seq![Seq::empty(), decimal(skills.len()) + " skill(s) found"@]
    }
}

fn opt_or_dash(o: &Option<String>) -> (r: &str)
    ensures
        r@ == or_dash(*o),
{
    match o {
        Some(s) => s.as_str(),
        None => "-",
    }
}

fn keyword_count(m: &SkillManifest) -> (r: usize)
    ensures
        r == declared_keywords(*m).len(),
{
    match &m.triggers {
        Some(t) => match &t.keywords {
            Some(k) => k.len(),
            None => 0,
        },
        None => 0,
    }
}

/// The text `skills list` prints.
pub fn skills_list_text(dirs: &Vec<String>, skills: &Vec<SkillManifest>) -> (r: String)
    ensures
        r@ == text_lines(spec_list_lines(views(dirs@), skills@)),
{
    let mut ls: Vec<String> = Vec::new();
    if dirs.len() == 0 {
        ls.push(owned("No skill directories configured. Set [skills] dirs in config.toml or use --dirs."));
        assert(views(ls@) =~= spec_list_lines(views(dirs@), skills@));
        return lines_text(&ls);
    }
    if skills.len() == 0 {
        let j = join(dirs, ":");
        ls.push(concat("No skills found in: ", j.as_str()));
        assert(views(ls@) =~= spec_list_lines(views(dirs@), skills@));
        return lines_text(&ls);
    }
    ls.push(table_row_exec("NAME", "VERSION", "DOMAIN", "KEYWORDS"));
    let dashes = repeat_char('-', 65);
    assert(dashes@ =~= Seq::new(65, |i: int| '-'));
    ls.push(dashes);
    let ghost head = views(ls@);
    assert(head =~= seq![table_row("NAME"@, "VERSION"@, "DOMAIN"@, "KEYWORDS"@), Seq::new(65, |i: int| '-')]);
    let mut i: usize = 0;
    while i < skills.len()
        invariant
            i <= skills.len(),
            views(ls@) == head + skills@.take(i as int).map_values(|m: SkillManifest| skill_row(m)),
        decreases skills.len() - i,
    {
        let m = &skills[i];
        let count = decimal_string(keyword_count(m) as u64);
        let row = table_row_exec(m.name.as_str(), opt_or_dash(&m.version), opt_or_dash(&m.domain), count.as_str());
        let ghost before = ls@;
        ls.push(row);
        proof {
            assert(views(ls@) =~= views(before).push(skill_row(skills@[i as int])));
            assert(skills@.take(i + 1).map_values(|m: SkillManifest| skill_row(m))
                =~= skills@.take(i as int).map_values(|m: SkillManifest| skill_row(m)).push(skill_row(skills@[i as int])));
        }
        i = i + 1;
    }
    assert(skills@.take(skills.len() as int) =~= skills@);
    ls.push(String::new());
    let n = decimal_string(skills.len() as u64);
    ls.push(concat(n.as_str(), " skill(s) found"));
    assert(views(ls@) =~= spec_list_lines(views(dirs@), skills@));
    lines_text(&ls)
}

// ---------------------------------------------------------------------------
// skills test
// ---------------------------------------------------------------------------

/// The declared keywords that occur in the message, both lowercased.
pub open spec fn matched_keywords(message: Seq<char>, kws: Seq<Seq<char>>) -> Seq<Seq<char>>
    decreases kws.len(),
{
    if kws.len() == 0 {
        Seq::empty()
    } else {
        matched_keywords(message, kws.drop_last()) + if seq_contains(unicode_lowercase(message), unicode_lowercase(kws.last())) {
            seq![kws.last()]
        } else {
            Seq::empty()
        }
    }
}

/// The suffix naming the matched keywords of a selected skill.
pub open spec fn keywords_note(kws: Seq<Seq<char>>) -> Seq<char> {
    if kws.len() == 0 {
        Seq::empty()
    } else {
        "  keywords matched: "@ + seq_join(kws, ", "@)
    }
}

/// The line of the `i`-th selected skill.
pub open spec fn selected_line(message: Seq<char>, i: int, m: SkillManifest) -> Seq<char> {
    "  "@ + decimal((i + 1) as nat) + ". "@ + m.name@ + keywords_note(matched_keywords(message, declared_keywords(m)))
}

/// The skills whose name no selected skill has.
pub open spec fn not_selected(skills: Seq<SkillManifest>, selected_names: Seq<Seq<char>>) -> Seq<SkillManifest>
    decreases skills.len(),
{
    if skills.len() == 0 {
        Seq::empty()
    } else {
        not_selected(skills.drop_last(), selected_names) + if selected_names.contains(skills.last().name@) {
            Seq::empty()
        } else {
            seq![skills.last()]
        }
    }
}

/// What `skills test` prints, given the skills found and the indices of
/// those selected, best first.
pub open spec fn spec_test_lines(message: Seq<char>, profile: Seq<char>, skills: Seq<SkillManifest>, selected: Seq<usize>) -> Seq<Seq<char>> {
    if skills.len() == 0 {
        seq!["No skills found."@]
    } else {
        let chosen = selected.map_values(|k: usize| skills[k as int]);
        let rest = not_selected(skills, chosen.map_values(|m: SkillManifest| m.name@));
        seq!["Message: "@ + debug_text(message), "Profile: "@ + profile, Seq::empty()]
            + if selected.len() == 0 {
                seq!["No skills matched."@]
            } else {
                seq!["Selected (top "@ + decimal(selected.len()) + "):"@]
                    + Seq::new(chosen.len(), |i: int| selected_line(message, i, chosen[i]))
            }
            + if rest.len() == 0 {
                Seq::empty()
            } else {
                seq![Seq::empty(), "Not selected:"@] + rest.map_values(|m: SkillManifest| "  - "@ + m.name@)
            }
    }
}

fn matched_keywords_exec(message: &str, m: &SkillManifest) -> (r: Vec<String>)
    ensures
        views(r@) == matched_keywords(message@, declared_keywords(*m)),
{
    let mut out: Vec<String> = Vec::new();
    let lm = to_lowercase(message);
    match &m.triggers {
        Some(t) => match &t.keywords {
            Some(kws) => {
                let mut j: usize = 0;
                while j < kws.len()
                    invariant
                        j <= kws.len(),
                        lm@ == unicode_lowercase(message@),
                        views(out@) == matched_keywords(message@, views(kws@).take(j as int)),
                    decreases kws.len() - j,
                {
                    proof {
                        assert(views(kws@).take(j + 1).drop_last() =~= views(kws@).take(j as int));
                    }
                    let lk = to_lowercase(kws[j].as_str());
                    if contains(lm.as_str(), lk.as_str()) {
                        let ghost before = out@;
                        out.push(owned(kws[j].as_str()));
                        proof {
                            assert(views(out@) =~= views(before) + seq![kws@[j as int]@]);
                        }
                    } else {
                        assert(views(out@) =~= views(out@) + Seq::<Seq<char>>::empty());
                    }
                    j = j + 1;
                }
                assert(views(kws@).take(kws.len() as int) =~= views(kws@));
            },
            None => {},
        },
        None => {},
    }
    out
}

fn selected_line_exec(message: &str, i: usize, m: &SkillManifest) -> (r: String)
    requires
        i < usize::MAX,
    ensures
        r@ == selected_line(message@, i as int, *m),
{
    let kws = matched_keywords_exec(message, m);
    let note = if kws.len() == 0 {
        String::new()
    } else {
        let j = join(&kws, ", ");
        concat("  keywords matched: ", j.as_str())
    };
    let n = decimal_string((i + 1) as u64);
    let a = concat("  ", n.as_str());
    let b = concat(a.as_str(), ". ");
    let c = concat(b.as_str(), m.name.as_str());
    concat(c.as_str(), note.as_str())
}

/// The text `skills test` prints for a message, the skills found and the
/// indices of the selected ones.
pub fn skills_test_text(message: &str, profile: &str, skills: &Vec<SkillManifest>, selected: &Vec<usize>) -> (r: String)
    requires
        forall|i: int| 0 <= i < selected@.len() ==> #[trigger] selected@[i] < skills@.len(),
    ensures
        r@ == text_lines(spec_test_lines(message@, profile@, skills@, selected@)),
{
    let mut ls: Vec<String> = Vec::new();
    if skills.len() == 0 {
        ls.push(owned("No skills found."));
        assert(views(ls@) =~= spec_test_lines(message@, profile@, skills@, selected@));
        return lines_text(&ls);
    }
    let ghost chosen = selected@.map_values(|k: usize| skills@[k as int]);
    let ghost chosen_names = chosen.map_values(|m: SkillManifest| m.name@);
    let d = debug_str(message);
    ls.push(concat("Message: ", d.as_str()));
    ls.push(concat("Profile: ", profile));
    ls.push(String::new());
    let ghost part1 = views(ls@);
    assert(part1 =~= seq!["Message: "@ + debug_text(message@), "Profile: "@ + profile@, Seq::<char>::empty()]);
    let ghost p2: Seq<Seq<char>> = if selected@.len() == 0 {
        seq!["No skills matched."@]
    } else {
        seq!["Selected (top "@ + decimal(selected@.len()) + "):"@]
            + Seq::new(chosen.len(), |i: int| selected_line(message@, i, chosen[i]))
    };
    if selected.len() == 0 {
        ls.push(owned("No skills matched."));
        assert(views(ls@) =~= part1 + p2);
    } else {
        let n = decimal_string(selected.len() as u64);
        let a = concat("Selected (top ", n.as_str());
        ls.push(concat(a.as_str(), "):"));
        let ghost head = views(ls@);
        let mut i: usize = 0;
        while i < selected.len()
            invariant
                i <= selected.len(),
                forall|q: int| 0 <= q < selected@.len() ==> #[trigger] selected@[q] < skills@.len(),
                chosen == selected@.map_values(|k: usize| skills@[k as int]),
                views(ls@) == head + Seq::new(i as nat, |q: int| selected_line(message@, q, chosen[q])),
            decreases selected.len() - i,
        {
            let k = selected[i];
            let line = selected_line_exec(message, i, &skills[k]);
            let ghost before = ls@;
            ls.push(line);
            proof {
                assert(chosen[i as int] == skills@[k as int]);
                assert(views(ls@) =~= views(before).push(line@));
                assert(views(ls@) =~= head + Seq::new((i + 1) as nat, |q: int| selected_line(message@, q, chosen[q])));
            }
            i = i + 1;
        }
        assert(views(ls@) =~= part1 + p2);
    }
    let ghost part2 = views(ls@);
    // The skills not selected, in their own order.
    let mut names: Vec<String> = Vec::new();
    let mut i: usize = 0;
    while i < selected.len()
        invariant
            i <= selected.len(),
            forall|q: int| 0 <= q < selected@.len() ==> #[trigger] selected@[q] < skills@.len(),
            chosen == selected@.map_values(|k: usize| skills@[k as int]),
            chosen_names == chosen.map_values(|m: SkillManifest| m.name@),
            views(names@) == chosen_names.take(i as int),
        decreases selected.len() - i,
    {
        let k = selected[i];
        let ghost before = names@;
        names.push(owned(skills[k].name.as_str()));
        proof {
            assert(views(names@) =~= views(before).push(skills@[k as int].name@));
            assert(chosen_names[i as int] == skills@[k as int].name@);
            assert(views(names@) =~= chosen_names.take(i + 1));
        }
        i = i + 1;
    }
    assert(chosen_names.take(selected.len() as int) =~= chosen_names);
    let mut rest_lines: Vec<String> = Vec::new();
    let mut j: usize = 0;
    while j < skills.len()
        invariant
            j <= skills.len(),
            views(names@) == chosen_names,
            views(rest_lines@) == not_selected(skills@.take(j as int), chosen_names).map_values(|m: SkillManifest| "  - "@ + m.name@),
        decreases skills.len() - j,
    {
        proof {
            assert(skills@.take(j + 1).drop_last() =~= skills@.take(j as int));
        }
        let ghost prev = not_selected(skills@.take(j as int), chosen_names);
        if !crate::text::contains_string(&names, skills[j].name.as_str()) {
            let ghost before = rest_lines@;
            rest_lines.push(concat("  - ", skills[j].name.as_str()));
            proof {
                assert(not_selected(skills@.take(j + 1), chosen_names) =~= prev.push(skills@[j as int]));
                assert(views(rest_lines@) =~= views(before).push("  - "@ + skills@[j as int].name@));
                assert(prev.push(skills@[j as int]).map_values(|m: SkillManifest| "  - "@ + m.name@)
                    =~= prev.map_values(|m: SkillManifest| "  - "@ + m.name@).push("  - "@ + skills@[j as int].name@));
            }
        } else {
            proof {
                assert(not_selected(skills@.take(j + 1), chosen_names) =~= prev);
            }
        }
        j = j + 1;
    }
    assert(skills@.take(skills.len() as int) =~= skills@);
    let ghost rest = not_selected(skills@, chosen_names);
    if rest_lines.len() > 0 {
        ls.push(String::new());
        ls.push(owned("Not selected:"));
        let mut q: usize = 0;
        let ghost head = views(ls@);
        while q < rest_lines.len()
            invariant
                q <= rest_lines.len(),
                views(ls@) == head + views(rest_lines@).take(q as int),
            decreases rest_lines.len() - q,
        {
            let ghost before = ls@;
            ls.push(owned(rest_lines[q].as_str()));
            proof {
                assert(views(ls@) =~= views(before).push(rest_lines@[q as int]@));
                assert(views(ls@) =~= head + views(rest_lines@).take(q + 1));
            }
            q = q + 1;
        }
        assert(views(rest_lines@).take(rest_lines.len() as int) =~= views(rest_lines@));
        assert(views(ls@) =~= part2 + (seq![Seq::<char>::empty(), "Not selected:"@] + views(rest_lines@)));
    }
    proof {
        let want = spec_test_lines(message@, profile@, skills@, selected@);
        assert(rest.map_values(|m: SkillManifest| "  - "@ + m.name@).len() == rest.len());
        assert(rest.len() == views(rest_lines@).len());
        if rest.len() == 0 {
            assert(views(ls@) =~= part1 + p2 + Seq::<Seq<char>>::empty());
        }
        assert(views(ls@) =~= want);
    }
    lines_text(&ls)
}

} // verus!
