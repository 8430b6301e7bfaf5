use horseman::discovery::{extract_first_message, list_sessions_for_directory, DiscoveredSession};
use horseman::records::{ContentItem, StreamRecord, UserContent};

fn session(id: &str, dir: &str) -> DiscoveredSession {
    DiscoveredSession {
        id: id.to_string(),
        working_directory: dir.to_string(),
        transcript_path: format!("/p/{}.jsonl", id),
        modified_at: "2024-01-01 00:00:00".to_string(),
        first_message: None,
    }
}

#[test]
fn first_message_skips_blank_text() {
    let recs = vec![
        StreamRecord::Summary { summary: Some("s".to_string()) },
        StreamRecord::User {
            parent_tool_use_id: None,
            content: UserContent::Items(vec![
                ContentItem::Text { text: Some("   ".to_string()) },
                ContentItem::Text { text: Some("  fix the bug  ".to_string()) },
            ]),
        },
        StreamRecord::User { parent_tool_use_id: None, content: UserContent::Text("later".to_string()) },
    ];
    assert_eq!(extract_first_message(&recs), Some("fix the bug".to_string()));
    assert_eq!(extract_first_message(&vec![]), None);
}

#[test]
fn first_message_is_cut_to_a_hundred_characters() {
    let long = "é".repeat(150);
    let recs = vec![StreamRecord::User { parent_tool_use_id: None, content: UserContent::Text(long) }];
    let first = extract_first_message(&recs).unwrap();
    assert_eq!(first.chars().count(), 100);
}

#[test]
fn sessions_filtered_by_directory() {
    let all = vec![session("a", "/w/one"), session("b", "/w/two"), session("c", "/w/one")];
    let picked = list_sessions_for_directory(all, "/w/one");
    let ids: Vec<_> = picked.iter().map(|s| s.id.as_str()).collect();
    assert_eq!(ids, vec!["a", "c"]);
}
