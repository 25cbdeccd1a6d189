use openai_proxy_lib::hooks::iso8601_from_secs;
use openai_proxy_lib::a2a::agent_card;
use openai_proxy_lib::cli::skills::{skills_list_text, skills_test_text};
use openai_proxy_lib::codex::BackendProfile;
use openai_proxy_lib::memory::{default_limit, effective_scope, memory_context_message, noop, MemoryBackend};
use openai_proxy_lib::models::model_list;
use openai_proxy_lib::openai::MessageContent;
use openai_proxy_lib::skills::{
    document_frequencies, domain_boost, is_codex_profile, keyword_tokens, manifest_tokens, matched_count,
    rank_selection, split_frontmatter, tokenize, DomainBoost, SkillManifest, SkillTriggers,
};

fn skill(name: &str, description: &str, keywords: &[&str], domain: Option<&str>) -> SkillManifest {
    SkillManifest {
        name: name.to_string(),
        description: description.to_string(),
        version: None,
        domain: domain.map(|d| d.to_string()),
        triggers: Some(SkillTriggers {
            keywords: Some(keywords.iter().map(|k| k.to_string()).collect()),
            semantic: None,
        }),
        content: String::new(),
    }
}

fn sorted(mut v: Vec<String>) -> Vec<String> {
    v.sort();
    v
}

#[test]
fn tokenize_lowercases_and_splits() {
    assert_eq!(tokenize("Hello, World! hello_world 42x"), vec!["hello", "world", "42x"]);
    assert!(tokenize("  --  ").is_empty());
    assert_eq!(tokenize("Rust-Cargo"), vec!["rust", "cargo"]);
}

#[test]
fn frontmatter_is_split_from_body() {
    let raw = "---\nname: foo\ndescription: Foo skill\n---\n\nBody text.\n";
    let (yaml, body) = split_frontmatter(raw).expect("frontmatter");
    assert_eq!(yaml, "\nname: foo\ndescription: Foo skill");
    assert_eq!(body, "Body text.\n");
    assert!(split_frontmatter("no frontmatter").is_none());
    assert!(split_frontmatter("---\nname: x\n").is_none());
    let m = skill("foo", "Foo skill", &[], None).with_body(&body);
    assert_eq!(m.content, "# foo\n\nFoo skill\n\nBody text.\n");
}

#[test]
fn keyword_tokens_and_matches() {
    let m = skill("rust-helper", "Helps with Rust", &["Rust", "cargo build"], None);
    assert_eq!(keyword_tokens(&m), vec!["rust", "cargo", "build"]);
    assert_eq!(sorted(manifest_tokens(&m)), sorted(vec!["rust".into(), "helper".into(), "helps".into(), "with".into(), "cargo".into(), "build".into()]));
    let msg = tokenize("I need help with rust cargo");
    assert_eq!(matched_count(&keyword_tokens(&m), &msg), 2);
}

#[test]
fn document_frequencies_count_skills() {
    let a = skill("actix-helper", "Actix web framework", &["actix", "rust"], None);
    let b = skill("rust-helper", "General Rust", &["rust"], None);
    let df = document_frequencies(&vec![a, b]);
    let get = |t: &str| df.iter().find(|(k, _)| k == t).map(|(_, c)| *c);
    assert_eq!(get("rust"), Some(2));
    assert_eq!(get("actix"), Some(1));
    assert_eq!(get("helper"), Some(2));
    assert_eq!(get("python"), None);
}

#[test]
fn domain_boost_tiers() {
    assert_eq!(domain_boost(Some("Rust"), "ChatGptCodex"), DomainBoost::CodexDomain);
    assert_eq!(domain_boost(Some("coding"), "OpenAiResponses"), DomainBoost::Domain);
    assert_eq!(domain_boost(Some("cooking"), "ChatGptCodex"), DomainBoost::NoBoost);
    assert_eq!(domain_boost(None, "ChatGptCodex"), DomainBoost::NoBoost);
    assert!(is_codex_profile("ChatGPT"));
    assert!(!is_codex_profile("OpenAiResponses"));
}

#[test]
fn ranking_orders_dedups_and_caps() {
    let names = vec!["a".to_string(), "b".to_string(), "a".to_string(), "c".to_string()];
    let keys = vec![0.2f32.to_bits(), 0.5f32.to_bits(), 0.9f32.to_bits(), 0.5f32.to_bits()];
    assert_eq!(rank_selection(&names, &keys, 5), vec![2, 1, 3]);
    assert_eq!(rank_selection(&names, &keys, 2), vec![2, 1]);
    assert_eq!(rank_selection(&names, &keys, 0), Vec::<usize>::new());
}

#[test]
fn ranking_falls_back_to_insertion_order() {
    let names = vec!["x".to_string(), "x".to_string(), "y".to_string()];
    let keys = vec![0u32, 0, 0];
    assert_eq!(rank_selection(&names, &keys, 2), vec![0, 1]);
    assert_eq!(rank_selection(&vec![], &vec![], 3), Vec::<usize>::new());
}

#[test]
fn skills_list_table() {
    let dirs = vec!["/skills".to_string()];
    let text = skills_list_text(&dirs, &vec![skill("rust-helper", "Helps", &["rust", "cargo"], Some("rust"))]);
    let lines: Vec<&str> = text.lines().collect();
    assert_eq!(lines[0], format!("{:<30} {:<10} {:<12} {}", "NAME", "VERSION", "DOMAIN", "KEYWORDS"));
    assert_eq!(lines[1], "-".repeat(65));
    assert_eq!(lines[2], format!("{:<30} {:<10} {:<12} {}", "rust-helper", "-", "rust", 2));
    assert_eq!(lines[4], "1 skill(s) found");
    assert_eq!(skills_list_text(&vec![], &vec![]), "No skill directories configured. Set [skills] dirs in config.toml or use --dirs.\n");
    assert_eq!(skills_list_text(&vec!["/a".to_string(), "/b".to_string()], &vec![]), "No skills found in: /a:/b\n");
}

#[test]
fn skills_test_report() {
    let skills = vec![
        skill("rust-helper", "Helps", &["Rust", "cargo"], None),
        skill("python-helper", "Helps", &["python"], None),
    ];
    let text = skills_test_text("Build with RUST", "OpenAiResponses", &skills, &vec![0]);
    assert_eq!(
        text,
        "Message: \"Build with RUST\"\nProfile: OpenAiResponses\n\nSelected (top 1):\n  1. rust-helper  keywords matched: Rust\n\nNot selected:\n  - python-helper\n"
    );
    assert_eq!(skills_test_text("m", "p", &vec![], &vec![]), "No skills found.\n");
}

#[test]
fn models_catalogue_per_profile() {
    let codex = model_list(BackendProfile::ChatGptCodex);
    assert_eq!(codex.object, "list");
    assert_eq!(codex.data.len(), 7);
    assert!(codex.data.iter().any(|m| m.id == "gpt-5.3-codex"));
    assert!(!codex.data.iter().any(|m| m.id == "gpt-5.5-pro"));
    let api = model_list(BackendProfile::OpenAiResponses);
    assert_eq!(api.data.len(), 9);
    assert_eq!(api.data[8].id, "codex-mini");
    assert_eq!(api.data[8].context_length, 96_000);
    assert_eq!(api.data[0].context_length, 1_000_000);
    for m in &api.data {
        assert_eq!(m.object, "model");
        assert_eq!(m.owned_by, "openai-proxy");
        assert_eq!(m.created, 1_700_000_000);
    }
}

#[test]
fn agent_card_describes_proxy() {
    let card = agent_card("127.0.0.1:8080", "0.1.0");
    assert_eq!(card.name, "openai-proxy");
    assert_eq!(card.url, "http://127.0.0.1:8080");
    assert!(card.capabilities.streaming && card.capabilities.tools && card.capabilities.multi_turn);
    assert_eq!(card.skills.len(), 2);
    assert_eq!(card.skills[0].id, "chat_completion");
    assert_eq!(card.input_modes, vec!["text".to_string()]);
    assert_eq!(card.output_modes, vec!["text".to_string(), "stream".to_string()]);
}

#[test]
fn memory_defaults_and_context() {
    assert!(!noop().is_enabled());
    assert_eq!(default_limit(), 5);
    assert_eq!(effective_scope(None), "session");
    assert_eq!(effective_scope(Some("project")), "project");
    assert!(memory_context_message(&vec![]).is_none());
    let m = memory_context_message(&vec!["a".to_string(), "b".to_string()]).unwrap();
    assert_eq!(m.role, "system");
    assert!(matches!(&m.content, MessageContent::Text(t) if t == "# Relevant Context\n\n- a\n- b"));
}

#[test]
fn payload_timestamps_are_utc_calendar_dates() {
    assert_eq!(iso8601_from_secs(0), "1970-01-01T00:00:00Z");
    assert_eq!(iso8601_from_secs(1_000_000_000), "2001-09-09T01:46:40Z");
    assert_eq!(iso8601_from_secs(951_782_400), "2000-02-29T00:00:00Z");
    assert_eq!(iso8601_from_secs(1_704_067_199), "2023-12-31T23:59:59Z");
    assert_eq!(iso8601_from_secs(4_107_542_400), "2100-03-01T00:00:00Z");
    assert_eq!(iso8601_from_secs(253_402_300_799), "9999-12-31T23:59:59Z");
}
