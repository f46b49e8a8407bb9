use mew_desktop::commands::{is_copy_keystroke, shell_key_route, ShellCommand, ShellKeyRoute};
use mew_desktop::composer::{
    ask_user_answers, composer_key_action, mention_completion, mention_menu_after_edit,
    menu_index_after_move, menu_selection, recall_allowed, recall_prompt, slash_menu_after_edit,
    slash_query_is_exact, ComposerKeyAction, MenuState,
};
use mew_desktop::history::PromptHistory;
use mew_desktop::text_field::{
    browser_url_key_action, rename_key_action, FieldKeyAction, KeyModifiers, TextField,
};

fn field(text: &str, selection: std::ops::Range<usize>) -> TextField {
    TextField {
        text: text.to_string(),
        selection,
        reversed: false,
        marked: None,
    }
}

fn plain() -> KeyModifiers {
    KeyModifiers {
        shift: false,
        platform: false,
        control: false,
        alt: false,
    }
}

#[test]
fn typing_replaces_the_selection_and_moves_the_cursor_after_it() {
    let mut f = field("hello world", 6..11);
    f.replace_text(None, "there");
    assert_eq!(f.text, "hello there");
    assert_eq!(f.selection, 11..11);
    assert!(f.marked.is_none());
}

#[test]
fn typing_with_a_utf16_range_counts_code_units() {
    let mut f = field("a🙂b", 0..0);
    // 🙂 takes two UTF-16 units: units 1..3 are the emoji.
    f.replace_text(Some(1..3), "x");
    assert_eq!(f.text, "axb");
    assert_eq!(f.selection, 2..2);
}

#[test]
fn composing_marks_the_inserted_text() {
    let mut f = field("ab", 1..1);
    f.replace_and_mark(None, "ñ", None);
    assert_eq!(f.text, "añb");
    assert_eq!(f.marked, Some(1..3));
    assert_eq!(f.selection, 3..3);
    // The next edit replaces the marked text and ends composition.
    f.replace_text(None, "n");
    assert_eq!(f.text, "anb");
    assert_eq!(f.marked, None);
    assert_eq!(f.selection, 2..2);
}

#[test]
fn composing_an_empty_text_marks_nothing() {
    let mut f = field("ab", 1..1);
    f.replace_and_mark(None, "", Some(0..0));
    assert_eq!(f.text, "ab");
    assert_eq!(f.marked, None);
    assert_eq!(f.selection, 1..1);
}

#[test]
fn backspace_removes_a_whole_grapheme() {
    let mut f = field("e\u{301}x", 3..3);
    assert!(f.backspace());
    assert_eq!(f.text, "x");
    assert_eq!(f.selection, 0..0);
    let mut start = field("abc", 0..0);
    assert!(!start.backspace());
    assert_eq!(start.text, "abc");
}

#[test]
fn delete_removes_the_grapheme_after_the_cursor_or_the_selection() {
    let mut f = field("a🙂b", 1..1);
    assert!(f.delete());
    assert_eq!(f.text, "ab");
    assert_eq!(f.selection, 1..1);
    let mut end = field("ab", 2..2);
    assert!(!end.delete());
    let mut selected = field("abcd", 1..3);
    assert!(selected.delete());
    assert_eq!(selected.text, "ad");
}

#[test]
fn arrows_collapse_a_selection_or_move_by_grapheme() {
    let mut f = field("a🙂b", 1..5);
    f.move_left();
    assert_eq!(f.selection, 1..1);
    f.move_right();
    assert_eq!(f.selection, 5..5);
    f.move_right();
    assert_eq!(f.selection, 6..6);
    f.move_right();
    assert_eq!(f.selection, 6..6);
}

#[test]
fn shift_arrows_extend_and_flip_the_selection() {
    let mut f = field("abc", 1..1);
    f.select_right();
    assert_eq!(f.selection, 1..2);
    assert!(!f.reversed);
    f.select_left();
    assert_eq!(f.selection, 1..1);
    assert!(!f.reversed);
    f.select_left();
    assert_eq!(f.selection, 0..1);
    assert!(f.reversed);
    assert_eq!(f.cursor_offset(), 0);
}

#[test]
fn select_all_and_set_text_place_the_cursor() {
    let mut f = field("héllo", 2..2);
    f.select_all();
    assert_eq!(f.selection, 0..6);
    f.set_text("/help ".to_string());
    assert_eq!(f.selection, 6..6);
    f.replace_byte_range(0, 5, "@src/main.rs");
    assert_eq!(f.text, "@src/main.rs ");
    assert_eq!(f.selection, 12..12);
}

#[test]
fn rename_field_keys() {
    let m = plain();
    assert_eq!(rename_key_action("enter", m, None), FieldKeyAction::Submit);
    assert_eq!(rename_key_action("escape", m, None), FieldKeyAction::Cancel);
    assert_eq!(rename_key_action("backspace", m, None), FieldKeyAction::Backspace);
    assert_eq!(rename_key_action("left", m, None), FieldKeyAction::MoveLeft);
    assert_eq!(
        rename_key_action("x", m, Some("x")),
        FieldKeyAction::Insert("x".to_string())
    );
    let platform = KeyModifiers { platform: true, ..m };
    assert_eq!(rename_key_action("a", platform, Some("a")), FieldKeyAction::SelectAll);
    assert_eq!(rename_key_action("x", platform, Some("x")), FieldKeyAction::Ignore);
}

#[test]
fn url_field_keys() {
    let m = plain();
    assert_eq!(browser_url_key_action("return", m, None), FieldKeyAction::Submit);
    let shift = KeyModifiers { shift: true, ..m };
    assert_eq!(browser_url_key_action("enter", shift, None), FieldKeyAction::Ignore);
    assert_eq!(browser_url_key_action("escape", m, None), FieldKeyAction::Ignore);
    assert_eq!(browser_url_key_action("delete", m, None), FieldKeyAction::Delete);
    let control = KeyModifiers { control: true, ..m };
    assert_eq!(browser_url_key_action("k", control, Some("k")), FieldKeyAction::Ignore);
}

#[test]
fn shell_keys_route_popovers_copy_and_shortcuts() {
    assert!(is_copy_keystroke("c", true));
    assert!(!is_copy_keystroke("c", false));
    assert_eq!(shell_key_route("escape", false, true, false, false), ShellKeyRoute::DismissPopovers);
    assert_eq!(shell_key_route("escape", false, false, false, false), ShellKeyRoute::Pass);
    assert_eq!(shell_key_route("c", true, false, false, true), ShellKeyRoute::CopySelection);
    assert_eq!(shell_key_route("c", true, false, true, true), ShellKeyRoute::Pass);
    assert_eq!(shell_key_route("c", true, false, false, false), ShellKeyRoute::Pass);
    assert_eq!(
        shell_key_route("3", true, false, false, false),
        ShellKeyRoute::Command(ShellCommand::SelectTab(2))
    );
}

#[test]
fn composer_keys_prefer_open_menus() {
    assert_eq!(
        composer_key_action("escape", false, true, true, true, false),
        ComposerKeyAction::CancelPlanFeedback
    );
    assert_eq!(
        composer_key_action("down", false, false, true, true, false),
        ComposerKeyAction::MoveMention(1)
    );
    assert_eq!(
        composer_key_action("enter", false, false, false, true, false),
        ComposerKeyAction::CompleteSlash
    );
    assert_eq!(
        composer_key_action("enter", false, false, false, true, true),
        ComposerKeyAction::Submit
    );
    assert_eq!(
        composer_key_action("enter", true, false, false, false, false),
        ComposerKeyAction::Pass
    );
    assert_eq!(
        composer_key_action("up", false, false, false, false, false),
        ComposerKeyAction::RecallOlder
    );
}

#[test]
fn menu_moves_wrap_around() {
    assert_eq!(menu_index_after_move(0, -1, 3), Some(2));
    assert_eq!(menu_index_after_move(2, 1, 3), Some(0));
    assert_eq!(menu_index_after_move(7, 1, 3), Some(0));
    assert_eq!(menu_index_after_move(0, 1, 0), None);
    assert_eq!(menu_selection(5, 3), 2);
    assert_eq!(menu_selection(5, 0), 0);
}

#[test]
fn history_recall_and_exact_slash_commands() {
    assert!(recall_allowed(false, false, true, false));
    assert!(!recall_allowed(false, false, false, false));
    assert!(recall_allowed(false, false, false, true));
    assert!(!recall_allowed(true, false, true, true));
    assert!(slash_query_is_exact("/goal"));
    assert!(!slash_query_is_exact("/c"));
}

#[test]
fn question_answers_take_one_trimmed_line_each() {
    assert_eq!(
        ask_user_answers(" yes \nblue", 3),
        vec!["yes".to_string(), "blue".to_string(), String::new()]
    );
}

#[test]
fn history_recall_edits_a_single_line_composer() {
    let mut history = PromptHistory::new();
    history.record("first");
    history.record("second");
    let mut composer = field("draft", 5..5);
    assert!(!recall_prompt(&mut composer, &mut history, false));
    assert!(recall_prompt(&mut composer, &mut history, true));
    assert_eq!(composer.text, "second");
    assert_eq!(composer.selection, 6..6);
    assert!(recall_prompt(&mut composer, &mut history, true));
    assert_eq!(composer.text, "first");
    assert!(recall_prompt(&mut composer, &mut history, false));
    assert!(recall_prompt(&mut composer, &mut history, false));
    assert_eq!(composer.text, "draft");
    let mut multiline = field("a\nb", 0..0);
    assert!(!recall_prompt(&mut multiline, &mut history, true));
    let mut selected = field("abc", 0..2);
    assert!(!recall_prompt(&mut selected, &mut history, true));
}

#[test]
fn menus_rearm_after_edits() {
    let mut slash = MenuState {
        dismissed: true,
        index: 3,
    };
    slash_menu_after_edit(&mut slash, "/go");
    assert_eq!(slash, MenuState { dismissed: true, index: 3 });
    slash_menu_after_edit(&mut slash, "go");
    assert_eq!(slash, MenuState { dismissed: false, index: 0 });
    let mut mention = MenuState {
        dismissed: true,
        index: 2,
    };
    assert!(mention_menu_after_edit(&mut mention, true, true));
    assert!(mention.dismissed);
    assert!(!mention_menu_after_edit(&mut mention, true, false));
    assert!(!mention_menu_after_edit(&mut mention, false, true));
    assert_eq!(mention, MenuState { dismissed: false, index: 0 });
    assert_eq!(mention_completion("src/main.rs"), "@src/main.rs ");
}

#[test]
fn recorded_prompts_are_kept_trimmed() {
    let mut history = PromptHistory::new();
    history.record("  padded prompt \n");
    history.record("padded prompt");
    assert_eq!(history.recall_older("draft").as_deref(), Some("padded prompt"));
    assert_eq!(history.recall_older("draft").as_deref(), Some("padded prompt"));
    assert_eq!(history.recall_newer().as_deref(), Some("draft"));
}
