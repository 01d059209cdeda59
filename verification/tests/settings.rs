use boa::settings::{clamp_search_selection, move_search_selection};
use boa::settings::{field_search_text, rank_hits, search_hits};
use boa::settings::{
    check_acp_command_words, fuzzy_settings_score, join_names, sum_token_scores,
    validate_acp_cmd_entry, validate_agent_key_value, validate_custom_agent_entry,
    validate_detect_as_entry,
};

/// A built-in agent registry for the validators.
fn agents() -> Vec<String> {
    vec!["opencode".to_string(), "aider".to_string(), "goose".to_string()]
}

#[test]
fn test_validate_agent_key_value_valid() {
    assert!(validate_agent_key_value("opencode=my-wrapper", &agents()).is_ok());
    assert!(validate_agent_key_value("opencode=--port 8080", &agents()).is_ok());
}

#[test]
fn test_validate_agent_key_value_missing_equals() {
    let err = validate_agent_key_value("just-a-command", &agents()).unwrap_err();
    assert!(err.contains("agent_name=value"));
}

#[test]
fn test_validate_agent_key_value_empty_key() {
    let err = validate_agent_key_value("=some-value", &agents()).unwrap_err();
    assert!(err.contains("cannot be empty"));
}

#[test]
fn test_validate_agent_key_value_empty_value() {
    let err = validate_agent_key_value("opencode=", &agents()).unwrap_err();
    assert!(err.contains("cannot be empty"));
}

#[test]
fn test_validate_agent_key_value_unknown_agent() {
    let err = validate_agent_key_value("nonexistent=cmd", &agents()).unwrap_err();
    assert!(err.contains("not a known agent"));
}

#[test]
fn test_validate_custom_agent_entry_valid() {
    assert!(validate_custom_agent_entry("lenovo-opencode=ssh -t lenovo opencode", &agents()).is_ok());
    assert!(validate_custom_agent_entry("my-wrapper=./run.sh", &agents()).is_ok());
}

#[test]
fn test_validate_custom_agent_entry_missing_equals() {
    let err = validate_custom_agent_entry("just-a-name", &agents()).unwrap_err();
    assert!(err.contains("name=command"));
}

#[test]
fn test_validate_custom_agent_entry_empty_name() {
    let err = validate_custom_agent_entry("=ssh -t host opencode", &agents()).unwrap_err();
    assert!(err.contains("name cannot be empty"));
}

#[test]
fn test_validate_custom_agent_entry_empty_command() {
    let err = validate_custom_agent_entry("my-agent=", &agents()).unwrap_err();
    assert!(err.contains("Command cannot be empty"));
}

#[test]
fn test_validate_custom_agent_entry_rejects_builtin() {
    let err = validate_custom_agent_entry("opencode=my-wrapper", &agents()).unwrap_err();
    assert!(err.contains("built-in agent"));
    assert!(err.contains("Agent Command Override"));
}

#[test]
fn test_validate_detect_as_entry_valid() {
    assert!(validate_detect_as_entry("lenovo-opencode=opencode", &agents()).is_ok());
}

#[test]
fn test_validate_detect_as_entry_missing_equals() {
    let err = validate_detect_as_entry("just-a-name", &agents()).unwrap_err();
    assert!(err.contains("name=builtin"));
}

#[test]
fn test_validate_detect_as_entry_empty_name() {
    let err = validate_detect_as_entry("=opencode", &agents()).unwrap_err();
    assert!(err.contains("name cannot be empty"));
}

#[test]
fn test_validate_detect_as_entry_empty_value() {
    let err = validate_detect_as_entry("my-agent=", &agents()).unwrap_err();
    assert!(err.contains("cannot be empty"));
}

#[test]
fn test_validate_detect_as_entry_unknown_builtin() {
    let err = validate_detect_as_entry("my-agent=nonexistent", &agents()).unwrap_err();
    assert!(err.contains("not a known built-in agent"));
    assert!(err.contains("Known agents:"));
}

const HAYSTACK: &str = "Max Concurrent Workers How many agents run at once";

#[test]
fn empty_query_matches_everything() {
    assert_eq!(fuzzy_settings_score("", HAYSTACK), Some(0));
    assert_eq!(fuzzy_settings_score("   ", HAYSTACK), Some(0));
}

#[test]
fn acronym_matches_and_ranks_top() {
    let target = fuzzy_settings_score("mcw", HAYSTACK);
    assert!(target.is_some(), "'mcw' should match Max Concurrent Workers");
    let weaker = fuzzy_settings_score("mcw", "Theme How the dashboard looks");
    assert!(weaker.is_none(), "'mcw' should not match an unrelated field");
}

#[test]
fn multi_token_requires_all_tokens() {
    assert!(fuzzy_settings_score("max workers", HAYSTACK).is_some());
    assert!(fuzzy_settings_score("workers max", HAYSTACK).is_some());
    assert!(
        fuzzy_settings_score("max banana", HAYSTACK).is_none(),
        "a token with no match drops the field"
    );
}

// ---------------------------------------------------------------------------
// Further cases
// ---------------------------------------------------------------------------

#[test]
fn validator_messages_are_exact() {
    assert_eq!(
        validate_agent_key_value("just-a-command", &agents()),
        Err("Must be in agent_name=value format (e.g. opencode=my-command). Known agents: opencode, aider, goose".to_string())
    );
    assert_eq!(
        validate_agent_key_value("nope=x", &agents()),
        Err("'nope' is not a known agent. Known agents: opencode, aider, goose".to_string())
    );
    assert_eq!(
        validate_custom_agent_entry("goose=x", &agents()),
        Err("'goose' is a built-in agent. Use Agent Command Override to override built-in agents.".to_string())
    );
    // Only the first `=` splits.
    assert!(validate_agent_key_value("opencode=a=b", &agents()).is_ok());
    assert_eq!(join_names(&agents()), "opencode, aider, goose");
    assert_eq!(join_names(&[]), "");
}

#[test]
fn acp_entries_split_their_command() {
    assert!(validate_acp_cmd_entry("oc-sp=ocp run sp acp", &agents()).is_ok());
    assert_eq!(
        validate_acp_cmd_entry("opencode=x", &agents()),
        Err("'opencode' is a built-in agent, which already has an acp adapter.".to_string())
    );
    assert_eq!(
        validate_acp_cmd_entry("oc-sp=ocp \"run", &agents()),
        Err("Malformed command: missing closing quote".to_string())
    );
    assert_eq!(
        validate_acp_cmd_entry("oc-sp=   ", &agents()),
        Err("Command cannot be empty".to_string())
    );
    assert_eq!(
        validate_acp_cmd_entry("nothing", &agents()),
        Err("Must be in name=command format (e.g. oc-superpowers=ocp run sp acp)".to_string())
    );
    assert_eq!(validate_acp_cmd_entry("=x", &agents()), Err("Agent name cannot be empty".to_string()));
}

#[test]
fn acp_word_check_decides_on_the_split() {
    assert!(check_acp_command_words(Some(vec!["a".to_string()])).is_ok());
    assert!(check_acp_command_words(Some(vec![])).is_err());
    assert!(check_acp_command_words(None).is_err());
}

#[test]
fn token_scores_add_up_and_any_miss_drops() {
    assert_eq!(sum_token_scores(&vec![Some(3), Some(4)]), Some(7));
    assert_eq!(sum_token_scores(&vec![Some(3), None, Some(4)]), None);
    assert_eq!(sum_token_scores(&vec![]), Some(0));
    assert_eq!(sum_token_scores(&vec![Some(u16::MAX), Some(u16::MAX)]), Some(2 * u16::MAX as u32));
}

#[test]
fn multi_token_score_is_the_sum_of_token_scores() {
    let a = fuzzy_settings_score("max", HAYSTACK).unwrap();
    let b = fuzzy_settings_score("workers", HAYSTACK).unwrap();
    assert_eq!(fuzzy_settings_score("max workers", HAYSTACK), Some(a + b));
}

#[test]
fn hits_rank_by_score_then_field_order() {
    let scores = [Some(5), None, Some(9), Some(5), Some(0)];
    assert_eq!(rank_hits(&scores), vec![2, 0, 3, 4]);
    assert!(rank_hits(&[None, None]).is_empty());
}

#[test]
fn search_text_joins_label_and_description() {
    assert_eq!(field_search_text("Theme", "Pick a theme"), "Theme Pick a theme");
}

#[test]
fn empty_query_lists_every_field_in_order() {
    let texts = vec![
        field_search_text("Theme name", "Colour theme"),
        field_search_text("Sound volume", "How loud"),
        field_search_text("Default tool", "Agent to launch"),
    ];
    assert_eq!(search_hits("", &texts), vec![0, 1, 2]);
    assert_eq!(search_hits("   ", &texts), vec![0, 1, 2]);
}

#[test]
fn query_keeps_only_matching_fields() {
    let texts = vec![
        field_search_text("Theme name", "Colour theme"),
        field_search_text("Sound volume", "How loud"),
    ];
    assert_eq!(search_hits("sound", &texts), vec![1]);
    assert!(search_hits("zzzz", &texts).is_empty());
}

#[test]
fn search_cursor_clamps_to_last_hit() {
    assert_eq!(clamp_search_selection(1, 3), 1);
    assert_eq!(clamp_search_selection(5, 3), 2);
    assert_eq!(clamp_search_selection(5, 0), 0);
}

#[test]
fn search_cursor_stops_at_ends() {
    assert_eq!(move_search_selection(0, 3, true), 0);
    assert_eq!(move_search_selection(2, 3, true), 1);
    assert_eq!(move_search_selection(1, 3, false), 2);
    assert_eq!(move_search_selection(2, 3, false), 2);
    assert_eq!(move_search_selection(0, 0, false), 0);
}

#[test]
fn score_total_wraps_like_u32_addition() {
    let scores = vec![Some(u16::MAX); 65538];
    assert_eq!(sum_token_scores(&scores), Some(65534));
}
