use openai_proxy_lib::ids::{new_completion_id, new_run_ids, new_session_id};

fn is_hyphenated_uuid(s: &str) -> bool {
    let cs: Vec<char> = s.chars().collect();
    cs.len() == 36
        && cs.iter().enumerate().all(|(i, c)| {
            if i == 8 || i == 13 || i == 18 || i == 23 {
                *c == '-'
            } else {
                c.is_ascii_digit() || ('a'..='f').contains(c)
            }
        })
}

#[test]
fn completion_id_has_prefix_and_uuid() {
    let id = new_completion_id();
    assert_eq!(id.len(), 45);
    assert!(id.starts_with("chatcmpl-"));
    assert!(is_hyphenated_uuid(&id[9..]));
}

#[test]
fn run_ids_are_uuids_and_distinct() {
    let (run_id, message_id) = new_run_ids();
    assert!(is_hyphenated_uuid(&run_id));
    assert!(is_hyphenated_uuid(&message_id));
    assert_ne!(run_id, message_id);
}

#[test]
fn session_ids_are_fresh() {
    let a = new_session_id();
    let b = new_session_id();
    assert!(is_hyphenated_uuid(&a));
    assert_ne!(a, b);
}
