use laurn::hook::hook_bash;

#[test]
fn hook_runs_launcher_shell() {
    let text = String::from_utf8(hook_bash(b"/usr/bin/laurn")).expect("utf-8");
    assert!(text.contains("           /usr/bin/laurn shell;\n"));
    assert!(text.starts_with("\nLAURN_PREVIOUS_PATH=\"\"\n_laurn_hook() {"));
    assert!(text.contains("if [ -e .laurnrc ]; then"));
    assert!(text.ends_with("PROMPT_COMMAND=\"_laurn_hook${PROMPT_COMMAND:+;$PROMPT_COMMAND}\"\nfi\n"));
}
