//! The composer's key handling and submission decisions: menus, history
//! recall, and how a submitted text is routed.
use vstd::prelude::*;
use crate::commands::{defs_view, filtered_slash_commands, matching_defs, slash_table};
use crate::history::{recalled_newer, recalled_older, PromptHistory};
use crate::text::{chars_of, has_prefix, lines, lowercase, str_eq, string_from_chars, text_lines, trim, trim_bounds, utf8_len};
use crate::text_field::{field_wf, TextField};

verus! {

/// What a key pressed in the composer does.
#[derive(Clone, Copy, Debug, PartialEq, Eq)]
pub enum ComposerKeyAction {
    /// Leave plan feedback mode.
    CancelPlanFeedback,
    /// Move the mention menu's selection down (`1`) or up (`-1`).
    MoveMention(isize),
    /// Insert the selected mention.
    CompleteMention,
    /// Close the mention menu.
    DismissMention,
    /// Move the slash menu's selection down (`1`) or up (`-1`).
    MoveSlash(isize),
    /// Insert the selected slash command.
    CompleteSlash,
    /// Close the slash menu.
    DismissSlash,
    /// Submit the composer text.
    Submit,
    /// Recall an older prompt, if the composer allows it.
    RecallOlder,
    /// Recall a newer prompt, if the composer allows it.
    RecallNewer,
    /// Let the text input handle the key.
    Pass,
}

/// The composer's key handling: escape leaves plan feedback; an open
/// mention menu, then an open slash menu, takes the arrows, tab, escape and
/// enter (enter submits a fully typed slash command); enter submits; the
/// arrows recall history.
pub open spec fn key_action(
    key: Seq<char>,
    shift: bool,
    plan_feedback: bool,
    mention_open: bool,
    slash_open: bool,
    slash_exact: bool,
) -> ComposerKeyAction {
    if key == "escape"@ && plan_feedback {
        ComposerKeyAction::CancelPlanFeedback
    } else if mention_open && key == "down"@ {
        ComposerKeyAction::MoveMention(1isize)
    } else if mention_open && key == "up"@ {
        ComposerKeyAction::MoveMention(-1isize)
    } else if mention_open && key == "tab"@ {
        ComposerKeyAction::CompleteMention
    } else if mention_open && key == "escape"@ {
        ComposerKeyAction::DismissMention
    } else if mention_open && key == "enter"@ && !shift {
        ComposerKeyAction::CompleteMention
    } else if slash_open && key == "down"@ {
        ComposerKeyAction::MoveSlash(1isize)
    } else if slash_open && key == "up"@ {
        ComposerKeyAction::MoveSlash(-1isize)
    } else if slash_open && key == "tab"@ {
        ComposerKeyAction::CompleteSlash
    } else if slash_open && key == "escape"@ {
        ComposerKeyAction::DismissSlash
    } else if slash_open && key == "enter"@ && !shift {
        if slash_exact {
            ComposerKeyAction::Submit
        } else {
            ComposerKeyAction::CompleteSlash
        }
    } else if key == "enter"@ && !shift {
        ComposerKeyAction::Submit
    } else if key == "up"@ {
        ComposerKeyAction::RecallOlder
    } else if key == "down"@ {
        ComposerKeyAction::RecallNewer
    } else {
        ComposerKeyAction::Pass
    }
}

/// What a key pressed in the composer does (see `key_action`).
pub fn composer_key_action(
    key: &str,
    shift: bool,
    plan_feedback: bool,
    mention_open: bool,
    slash_open: bool,
    slash_exact: bool,
) -> (a: ComposerKeyAction)
    ensures
        a == key_action(key@, shift, plan_feedback, mention_open, slash_open, slash_exact),
{
    let escape = str_eq(key, "escape");
    let down = str_eq(key, "down");
    let up = str_eq(key, "up");
    let tab = str_eq(key, "tab");
    let enter = str_eq(key, "enter");
    if escape && plan_feedback {
        ComposerKeyAction::CancelPlanFeedback
    } else if mention_open && down {
        ComposerKeyAction::MoveMention(1isize)
    } else if mention_open && up {
        ComposerKeyAction::MoveMention(-1isize)
    } else if mention_open && tab {
        ComposerKeyAction::CompleteMention
    } else if mention_open && escape {
        ComposerKeyAction::DismissMention
    } else if mention_open && enter && !shift {
        ComposerKeyAction::CompleteMention
    } else if slash_open && down {
        ComposerKeyAction::MoveSlash(1isize)
    } else if slash_open && up {
        ComposerKeyAction::MoveSlash(-1isize)
    } else if slash_open && tab {
        ComposerKeyAction::CompleteSlash
    } else if slash_open && escape {
        ComposerKeyAction::DismissSlash
    } else if slash_open && enter && !shift {
        if slash_exact {
            ComposerKeyAction::Submit
        } else {
            ComposerKeyAction::CompleteSlash
        }
    } else if enter && !shift {
        ComposerKeyAction::Submit
    } else if up {
        ComposerKeyAction::RecallOlder
    } else if down {
        ComposerKeyAction::RecallNewer
    } else {
        ComposerKeyAction::Pass
    }
}

/// The composer holds exactly one matching slash command, fully typed.
pub open spec fn slash_exact(composer: Seq<char>) -> bool {
    let m = if has_prefix(composer, "/"@) {
        matching_defs(slash_table(), lowercase(composer))
    } else {
        Seq::empty()
    };
    m.len() == 1 && trim(composer) == m[0].0
}

/// Whether the composer holds a fully typed slash command.
pub fn slash_query_is_exact(composer: &str) -> (b: bool)
    ensures
        b == slash_exact(composer@),
{
    let matches = filtered_slash_commands(composer);
    if matches.len() != 1 {
        return false;
    }
    let v = chars_of(composer);
    let (a, b) = trim_bounds(&v, 0, v.len());
    assert(v@.subrange(0, v@.len() as int) =~= v@);
    let t = string_from_chars(&v, a, b);
    assert(defs_view(matches@)[0] == (matches@[0].name@, matches@[0].description@));
    str_eq(t.as_str(), matches[0].name)
}

/// The menu row selected after moving by `delta` from `index` in a menu of
/// `count` rows, wrapping around at both ends.
pub open spec fn wrapped_index(index: int, delta: int, count: int) -> int {
    let i = if index < count - 1 { index } else { count - 1 };
    let t = i + delta;
    if t >= 0 {
        t % count
    } else {
        let a = (-t) % count;
        if a == 0 { 0 } else { count - a }
    }
}

/// The selection of a menu after moving it (see `wrapped_index`); nothing
/// moves in an empty menu.
pub fn menu_index_after_move(index: usize, delta: isize, count: usize) -> (r: Option<usize>)
    requires
        count <= isize::MAX,
    ensures
        count == 0 ==> r is None,
        count > 0 ==> r == Some(wrapped_index(index as int, delta as int, count as int) as usize),
{
    if count == 0 {
        return None;
    }
    let i: usize = if index < count - 1 { index } else { count - 1 };
    let t: i128 = i as i128 + delta as i128;
    let m: u128 = count as u128;
    if t >= 0 {
        let r = (t as u128) % m;
        Some(r as usize)
    } else {
        let neg: u128 = (0 - t) as u128;
        let a = neg % m;
        if a == 0 {
            Some(0)
        } else {
            Some((m - a) as usize)
        }
    }
}

/// The menu row that completion takes: the selected one, kept inside the
/// menu.
pub fn menu_selection(index: usize, count: usize) -> (r: usize)
    ensures
        r == (if count == 0 { 0 } else if index < count - 1 { index as int } else { count - 1 }),
{
    if count == 0 {
        0
    } else if index < count - 1 {
        index
    } else {
        count - 1
    }
}

/// History recall is offered only for a single-line composer without a
/// selection, and moving newer only while recalling.
pub fn recall_allowed(multiline: bool, has_selection: bool, older: bool, recalling: bool) -> (b: bool)
    ensures
        b == (!multiline && !has_selection && (older || recalling)),
{
    !multiline && !has_selection && (older || recalling)
}

/// The answers to a question prompt: one trimmed line of the submitted
/// text per question, missing answers empty and extra lines dropped.
pub open spec fn answers_for(text: Seq<char>, count: nat) -> Seq<Seq<char>> {
    let ls = lines(text);
    Seq::new(count, |i: int| if i < ls.len() { trim(ls[i]) } else { Seq::empty() })
}

/// The answers sent for a question prompt (see `answers_for`).
pub fn ask_user_answers(text: &str, question_count: usize) -> (r: Vec<String>)
    ensures
        r@.map_values(|s: String| s@) == answers_for(text@, question_count as nat),
{
    let v = chars_of(text);
    let ls = text_lines(&v);
    let ghost want = answers_for(text@, question_count as nat);
    let mut r: Vec<String> = Vec::new();
    let mut i: usize = 0;
    while i < question_count
        invariant
            0 <= i <= question_count,
            v@ == text@,
            crate::text::chars_view(ls@) == lines(v@),
            want == answers_for(text@, question_count as nat),
            r@.map_values(|s: String| s@) == want.take(i as int),
        decreases question_count - i,
    {
        let answer = if i < ls.len() {
            let l = &ls[i];
            let (a, b) = trim_bounds(l, 0, l.len());
            assert(l@.subrange(0, l@.len() as int) =~= l@);
            assert(crate::text::chars_view(ls@)[i as int] == l@);
            string_from_chars(l, a, b)
        } else {
            assert(crate::text::chars_view(ls@).len() == ls@.len());
            String::new()
        };
        let ghost before = r@;
        r.push(answer);
        assert(r@.map_values(|s: String| s@) =~= before.map_values(|s: String| s@).push(answer@));
        assert(want.take(i + 1) =~= want.take(i as int).push(want[i as int]));
        i = i + 1;
    }
    assert(want.take(i as int) =~= want);
    r
}

/// How many lines of a plan its approval card previews.
pub const PLAN_PREVIEW_LINES: usize = 8;

/// The lines of a plan that its approval card previews: the first
/// `PLAN_PREVIEW_LINES` of its lines (all of them when it has fewer).
pub open spec fn plan_preview_lines(plan: Seq<char>) -> Seq<Seq<char>> {
    if lines(plan).len() <= PLAN_PREVIEW_LINES {
        lines(plan)
    } else {
        lines(plan).take(PLAN_PREVIEW_LINES as int)
    }
}

/// The preview of a plan shown on its approval card.
pub fn plan_preview(plan: &str) -> (r: Vec<String>)
    ensures
        r@.map_values(|s: String| s@) == plan_preview_lines(plan@),
{
    let v = chars_of(plan);
    let ls = text_lines(&v);
    let ghost want = plan_preview_lines(plan@);
    let count = if ls.len() <= PLAN_PREVIEW_LINES {
        ls.len()
    } else {
        PLAN_PREVIEW_LINES
    };
    proof {
        assert(crate::text::chars_view(ls@).len() == ls@.len());
        assert(want.len() == count);
    }
    let mut r: Vec<String> = Vec::new();
    let mut i: usize = 0;
    while i < count
        invariant
            0 <= i <= count <= ls@.len(),
            crate::text::chars_view(ls@) == lines(plan@),
            want == plan_preview_lines(plan@),
            want.len() == count,
            r@.map_values(|s: String| s@) == want.take(i as int),
        decreases count - i,
    {
        let l = &ls[i];
        assert(l@.subrange(0, l@.len() as int) =~= l@);
        assert(crate::text::chars_view(ls@)[i as int] == l@);
        let line = string_from_chars(l, 0, l.len());
        let ghost before = r@;
        r.push(line);
        assert(r@.map_values(|s: String| s@) =~= before.map_values(|s: String| s@).push(line@));
        assert(want.take(i + 1) =~= want.take(i as int).push(want[i as int]));
        i = i + 1;
    }
    assert(want.take(i as int) =~= want);
    r
}

/// The answers offered as buttons for a pending question: the options of
/// the only question, when there is exactly one; none for several questions
/// (they are answered line by line in the composer). Each question is given
/// by its option labels.
pub fn question_option_answers(questions: &Vec<Vec<String>>) -> (r: Option<Vec<String>>)
    ensures
        match r {
            Some(options) => questions@.len() == 1 && options@.map_values(|s: String| s@)
                == questions@[0]@.map_values(|s: String| s@),
            None => questions@.len() != 1,
        },
{
    if questions.len() != 1 {
        return None;
    }
    let first = &questions[0];
    let mut options: Vec<String> = Vec::new();
    let mut i: usize = 0;
    while i < first.len()
        invariant
            0 <= i <= first@.len(),
            options@.map_values(|s: String| s@) == first@.map_values(|s: String| s@).take(i as int),
        decreases first.len() - i,
    {
        let label = first[i].clone();
        let ghost before = options@;
        options.push(label);
        assert(options@.map_values(|s: String| s@) =~= before.map_values(|s: String| s@).push(first@[i as int]@));
        assert(first@.map_values(|s: String| s@).take(i + 1) =~= first@.map_values(|s: String| s@).take(i as int).push(
            first@[i as int]@,
        ));
        i = i + 1;
    }
    assert(first@.map_values(|s: String| s@).take(i as int) =~= first@.map_values(|s: String| s@));
    Some(options)
}

/// Where a submitted prompt goes.
#[derive(Clone, Copy, Debug, PartialEq, Eq)]
pub enum SubmitRoute {
    /// The text is feedback on a proposed plan.
    PlanFeedback,
    /// Nothing is sent: a turn is running and no question waits.
    Busy,
    /// The text answers the pending question.
    AnswerQuestion,
    /// The text is a daemon slash command.
    SlashCommand,
    /// The text is a prompt for the attached session.
    Prompt,
    /// The text waits until a session is ready, and a new conversation is
    /// requested.
    QueueAndCreateSession,
    /// The text waits until the session being attached is ready.
    Queue,
}

/// The route of a submitted prompt: plan feedback first; nothing while a
/// turn runs unless a question waits; then the question's answers; to an
/// attached session as a slash command or a prompt; else queued, asking
/// for a new conversation when none is selected or requested.
pub open spec fn submit_route(
    plan_feedback: bool,
    running: bool,
    question_pending: bool,
    session_ready: bool,
    is_slash_command: bool,
    session_selected: bool,
    session_requested: bool,
) -> SubmitRoute {
    if plan_feedback {
        SubmitRoute::PlanFeedback
    } else if running && !question_pending {
        SubmitRoute::Busy
    } else if question_pending {
        SubmitRoute::AnswerQuestion
    } else if session_ready {
        if is_slash_command {
            SubmitRoute::SlashCommand
        } else {
            SubmitRoute::Prompt
        }
    } else if !session_selected && !session_requested {
        SubmitRoute::QueueAndCreateSession
    } else {
        SubmitRoute::Queue
    }
}

/// Decides where a submitted prompt goes (see `submit_route`).
pub fn route_submission(
    plan_feedback: bool,
    running: bool,
    question_pending: bool,
    session_ready: bool,
    is_slash_command: bool,
    session_selected: bool,
    session_requested: bool,
) -> (r: SubmitRoute)
    ensures
        r == submit_route(
            plan_feedback,
            running,
            question_pending,
            session_ready,
            is_slash_command,
            session_selected,
            session_requested,
        ),
{
    if plan_feedback {
        SubmitRoute::PlanFeedback
    } else if running && !question_pending {
        SubmitRoute::Busy
    } else if question_pending {
        SubmitRoute::AnswerQuestion
    } else if session_ready {
        if is_slash_command {
            SubmitRoute::SlashCommand
        } else {
            SubmitRoute::Prompt
        }
    } else if !session_selected && !session_requested {
        SubmitRoute::QueueAndCreateSession
    } else {
        SubmitRoute::Queue
    }
}

/// Up/Down prompt-history recall in the composer: only a single-line text
/// with no selection recalls, Down only while recalling; a recalled entry
/// replaces the text with the cursor at its end. Returns whether the key
/// was used.
pub fn recall_prompt(field: &mut TextField, history: &mut PromptHistory, older: bool) -> (used: bool)
    requires
        field_wf(*old(field)),
    ensures
        field_wf(*final(field)),
        ({
            let allowed = recall_allowed_spec(old(field).text@, old(field).selection, older, old(history)@.recall is Some);
            let step = if older {
                recalled_older(old(history)@, old(field).text@)
            } else {
                recalled_newer(old(history)@)
            };
            if !allowed {
                !used && *final(field) == *old(field) && *final(history) == *old(history)
            } else {
                &&& final(history)@ == step.0
                &&& used == (step.1 is Some)
                &&& match step.1 {
                    Some(t) => final(field).text@ == t && final(field).selection.start == utf8_len(t)
                        && final(field).selection.end == utf8_len(t) && !final(field).reversed
                        && final(field).marked is None,
                    None => *final(field) == *old(field),
                }
            }
        }),
{
    let multiline = contains_newline(field.text.as_str());
    let has_selection = field.selection.start < field.selection.end;
    if !recall_allowed(multiline, has_selection, older, history.is_recalling()) {
        return false;
    }
    let recalled = if older {
        history.recall_older(field.text.as_str())
    } else {
        history.recall_newer()
    };
    match recalled {
        Some(text) => {
            field.set_text(text);
            true
        },
        None => false,
    }
}

/// Whether recall may take the key (see `recall_allowed`).
pub open spec fn recall_allowed_spec(
    text: Seq<char>,
    selection: std::ops::Range<usize>,
    older: bool,
    recalling: bool,
) -> bool {
    !text.contains('\n') && !(selection.start < selection.end) && (older || recalling)
}

/// Whether the text holds a line break.
fn contains_newline(text: &str) -> (b: bool)
    ensures
        b == text@.contains('\n'),
{
    let v = chars_of(text);
    let mut i: usize = 0;
    while i < v.len()
        invariant
            v@ == text@,
            0 <= i <= v@.len(),
            forall|j: int| 0 <= j < i ==> v@[j] != '\n',
        decreases v@.len() - i,
    {
        if v[i] == '\n' {
            assert(text@[i as int] == '\n');
            return true;
        }
        i = i + 1;
    }
    false
}

/// A composer menu's state: whether the user closed it, and its selection.
#[derive(Clone, Copy, Debug, PartialEq, Eq)]
pub struct MenuState {
    pub dismissed: bool,
    pub index: usize,
}

/// After an edit, the slash menu is armed again (and its selection reset)
/// once the text no longer starts with `/`.
pub fn slash_menu_after_edit(menu: &mut MenuState, composer: &str)
    ensures
        *final(menu) == (if has_prefix(composer@, "/"@) {
            *old(menu)
        } else {
            MenuState { dismissed: false, index: 0 }
        }),
{
    let v = chars_of(composer);
    if !crate::text::starts_with_at(&v, 0, "/") {
        assert(v@.skip(0) =~= v@);
        *menu = MenuState { dismissed: false, index: 0 };
    } else {
        assert(v@.skip(0) =~= v@);
    }
}

/// After an edit, the mention menu is armed again (and its selection reset)
/// once no `@` token sits at the cursor; while one does and no file tree
/// was fetched, the workspace root is to be listed (the result).
pub fn mention_menu_after_edit(menu: &mut MenuState, has_query: bool, tree_empty: bool) -> (list_root: bool)
    ensures
        *final(menu) == (if has_query {
            *old(menu)
        } else {
            MenuState { dismissed: false, index: 0 }
        }),
        list_root == (has_query && tree_empty),
{
    if !has_query {
        *menu = MenuState { dismissed: false, index: 0 };
        false
    } else {
        tree_empty
    }
}

/// The text that completes a mention: `@`, the path and a space.
pub fn mention_completion(path: &str) -> (r: String)
    ensures
        r@ == "@"@ + path@ + " "@,
{
    let mut s = "@".to_owned();
    crate::text::push_str(&mut s, path);
    crate::text::push_str(&mut s, " ");
    s
}

} // verus!
