use boa::creation::{CreatingHookProgress, HookProgress, HOOK_OUTPUT_CAP};

#[test]
fn started_hook_becomes_current() {
    let mut p = CreatingHookProgress::new();
    p.apply(HookProgress::Started("npm install".to_string()));
    assert_eq!(p.current_hook.as_deref(), Some("npm install"));
    assert!(p.hook_output.is_empty());
}

#[test]
fn output_lines_append_in_order() {
    let mut p = CreatingHookProgress::new();
    p.apply(HookProgress::Output("one".to_string()));
    p.apply(HookProgress::Output("two".to_string()));
    assert_eq!(p.hook_output, vec!["one".to_string(), "two".to_string()]);
    assert_eq!(p.current_hook, None);
}

#[test]
fn output_past_the_cap_drops_the_oldest_half() {
    let mut p = CreatingHookProgress::new();
    for i in 0..HOOK_OUTPUT_CAP {
        p.apply(HookProgress::Output(format!("line {i}")));
    }
    assert_eq!(p.hook_output.len(), 1000);
    p.apply(HookProgress::Output("newest".to_string()));
    assert_eq!(p.hook_output.len(), 501);
    assert_eq!(p.hook_output[0], "line 500");
    assert_eq!(p.hook_output.last().map(String::as_str), Some("newest"));
}
