use horseman::config::{
    claude_binary, claude_not_found_error, claude_search_paths, context_window, get_config,
    projects_dir, resolve_claude_binary, search_paths_for_home, update_config, ConfigState,
    HorsemanConfig,
};
use horseman::discovery::decode_dir_name;

#[test]
fn search_paths_cover_common_locations() {
    let paths = claude_search_paths("agent");
    assert!(paths.iter().any(|p| p.ends_with(".agent/bin/agent")));
    assert!(paths.iter().any(|p| p == "/opt/homebrew/bin/agent"));
    assert!(paths.iter().any(|p| p == "/usr/local/bin/agent"));
}

#[test]
fn context_window_default() {
    // With None, should return 200000
    let config = HorsemanConfig::default();
    assert_eq!(config.context_window.unwrap_or(200000), 200000);
}

#[test]
fn context_window_from_state() {
    let state = ConfigState::new(HorsemanConfig::default(), "agent".to_string(), "Agent".to_string());
    assert_eq!(context_window(&state), 200000);
    let mut cfg = HorsemanConfig::default();
    cfg.context_window = Some(150000);
    let state = ConfigState::new(cfg, "agent".to_string(), "Agent".to_string());
    assert_eq!(context_window(&state), 150000);
}

#[test]
fn search_paths_join_home() {
    let paths = search_paths_for_home(&Some("/home/user".to_string()), "agent");
    assert_eq!(paths.len(), 11);
    assert_eq!(paths[0], "/home/user/.agent/bin/agent");
    assert_eq!(paths[7], "/home/user/.npm/bin/agent");
    assert_eq!(paths[10], "/usr/bin/agent");
    let paths = search_paths_for_home(&Some("/home/user/".to_string()), "agent");
    assert_eq!(paths[2], "/home/user/.local/bin/agent");
    let paths = search_paths_for_home(&None, "agent");
    assert_eq!(paths, vec![
        "/opt/homebrew/bin/agent".to_string(),
        "/usr/local/bin/agent".to_string(),
        "/usr/bin/agent".to_string(),
    ]);
}

#[test]
fn binary_resolution_priority_and_cache() {
    let mut state = ConfigState::new(HorsemanConfig::default(), "agent".to_string(), "Agent".to_string());
    assert_eq!(resolve_claude_binary(&mut state, None), "agent");
    // The first answer is kept.
    assert_eq!(resolve_claude_binary(&mut state, Some("/usr/bin/agent".to_string())), "agent");

    let mut state = ConfigState::new(HorsemanConfig::default(), "agent".to_string(), "Agent".to_string());
    assert_eq!(claude_binary(&mut state, Some("/usr/bin/agent".to_string())), "/usr/bin/agent");

    let mut cfg = HorsemanConfig::default();
    cfg.claude_binary = Some("/opt/agent".to_string());
    let mut state = ConfigState::new(cfg, "agent".to_string(), "Agent".to_string());
    assert_eq!(resolve_claude_binary(&mut state, Some("/usr/bin/agent".to_string())), "/opt/agent");
}

#[test]
fn update_and_get_config() {
    let mut state = ConfigState::new(HorsemanConfig::default(), "agent".to_string(), "Agent".to_string());
    let mut cfg = HorsemanConfig::default();
    cfg.projects_dir = Some("/tmp/projects".to_string());
    let saved = update_config(&mut state, cfg.clone());
    assert_eq!(saved, cfg);
    assert_eq!(get_config(&state), cfg);
    assert_eq!(projects_dir(&state, &"/root/.agent/projects".to_string()), "/tmp/projects");
    let state = ConfigState::new(HorsemanConfig::default(), "agent".to_string(), "Agent".to_string());
    assert_eq!(projects_dir(&state, &"/root/.agent/projects".to_string()), "/root/.agent/projects");
}

#[test]
fn not_found_message_lists_paths() {
    let searched = vec!["/a/agent".to_string(), "/b/agent".to_string()];
    let msg = claude_not_found_error("agent", "Agent", &searched, &None);
    assert_eq!(
        msg,
        "Agent CLI not found.\n\nSearched:\n  - /a/agent\n  - /b/agent\n\nTo fix:\n\
        1. Install Agent Code: curl -fsSL https://agent.ai/install.sh | bash\n\
        2. Or via Homebrew: brew install --cask agent-code\n\
        3. Or set path manually in:\n   ~/Library/Application Support/horseman/config.toml\n\n   \
        Add: claude_binary = \"/path/to/agent\""
    );
    let msg = claude_not_found_error("agent", "Agent", &vec![], &Some("/etc/horseman.toml".to_string()));
    assert!(msg.contains("Searched:\n\n\nTo fix:"));
    assert!(msg.contains("manually in:\n   /etc/horseman.toml\n"));
}

#[test]
fn decode_escaped_directory() {
    assert_eq!(decode_dir_name("-Users-foo-bar"), "/Users/foo/bar");
    assert_eq!(decode_dir_name("tmp-x"), "tmp/x");
    assert_eq!(decode_dir_name(""), "");
}
