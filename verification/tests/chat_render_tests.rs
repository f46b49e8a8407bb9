use mew_desktop::tools::{
    formatted_tool_input, split_tool_text_lines, tool_display_label, tool_summary,
};

#[test]
fn tool_names_are_presented_as_human_facing_categories() {
    assert_eq!(tool_display_label("bash"), "Terminal");
    assert_eq!(tool_display_label("browser_open"), "Browser");
    assert_eq!(tool_display_label("write_plan"), "Plan");
    assert_eq!(
        tool_display_label("mew.agents.code-writer"),
        "Code Writer"
    );
}

#[test]
fn tool_summary_surfaces_the_action_without_dumping_json() {
    assert_eq!(
        tool_summary(r#"{"command":"cargo test"}"#).as_deref(),
        Some("cargo test")
    );
    assert_eq!(
        tool_summary(r#"{"path":"src/main.rs"}"#).as_deref(),
        Some("src/main.rs")
    );
    assert_eq!(tool_summary(r#"{"plan":["one"]}"#), None);
    assert_eq!(tool_summary("not json"), None);
}

#[test]
fn tool_input_is_pretty_printed_when_it_is_json() {
    assert_eq!(
        formatted_tool_input(r#"{"command":"pwd","cwd":"/tmp"}"#),
        "{\n  \"command\": \"pwd\",\n  \"cwd\": \"/tmp\"\n}"
    );
    assert_eq!(formatted_tool_input("not json"), "not json");
}

#[test]
fn tool_text_lines_keep_empty_output_and_newlines() {
    assert_eq!(split_tool_text_lines(""), vec![String::from("")]);
    assert_eq!(
        split_tool_text_lines("one\n\ntwo"),
        vec![String::from("one"), String::from(""), String::from("two")]
    );
}
