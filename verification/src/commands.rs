//! Keyboard shortcuts, slash commands, permission modes and the heights of
//! the composer's menus.
use vstd::prelude::*;
use crate::text::{
    chars_of, has_prefix, lowercase, str_eq, string_from_chars, to_lowercase, trim, trim_bounds,
    words, first_word,
};

verus! {

/// The shell-level commands that shortcuts trigger.
#[derive(Clone, Copy, Debug, PartialEq, Eq)]
pub enum ShellCommand {
    ToggleSidebar,
    ToggleTerminal,
    ToggleWorkbench,
    NewConversation,
    CloseActiveTab,
    SelectTab(usize),
}

/// The command bound to a key pressed with the platform modifier: `b`, `j`,
/// `n`, `w`, and the digits `1` to `9` for the tabs.
pub open spec fn command_for_key(key: Seq<char>, platform_modifier: bool) -> Option<ShellCommand> {
    if !platform_modifier {
        None
    } else if key == "b"@ {
        Some(ShellCommand::ToggleSidebar)
    } else if key == "j"@ {
        Some(ShellCommand::ToggleTerminal)
    } else if key == "n"@ {
        Some(ShellCommand::NewConversation)
    } else if key == "w"@ {
        Some(ShellCommand::CloseActiveTab)
    } else if key.len() == 1 && '1' <= key[0] && key[0] <= '9' {
        Some(ShellCommand::SelectTab((key[0] as int - '1' as int) as usize))
    } else {
        None
    }
}

pub fn shell_command_for_key(key: &str, platform_modifier: bool) -> (r: Option<ShellCommand>)
    ensures
        r == command_for_key(key@, platform_modifier),
{
    if !platform_modifier {
        return None;
    }
    if str_eq(key, "b") {
        return Some(ShellCommand::ToggleSidebar);
    }
    if str_eq(key, "j") {
        return Some(ShellCommand::ToggleTerminal);
    }
    if str_eq(key, "n") {
        return Some(ShellCommand::NewConversation);
    }
    if str_eq(key, "w") {
        return Some(ShellCommand::CloseActiveTab);
    }
    let v = chars_of(key);
    if v.len() == 1 && '1' <= v[0] && v[0] <= '9' {
        let d = (v[0] as u32) - ('1' as u32);
        Some(ShellCommand::SelectTab(d as usize))
    } else {
        None
    }
}

/// The copy shortcut: `c` with the platform modifier.
pub fn is_copy_keystroke(key: &str, platform_modifier: bool) -> (b: bool)
    ensures
        b == (key@ == "c"@ && platform_modifier),
{
    str_eq(key, "c") && platform_modifier
}

/// Where the shell sends a key pressed anywhere in the window.
#[derive(Clone, Copy, Debug, PartialEq, Eq)]
pub enum ShellKeyRoute {
    /// Close the open popovers and focus the composer.
    DismissPopovers,
    /// Copy the selected transcript text.
    CopySelection,
    /// Run a shell command.
    Command(ShellCommand),
    /// Leave the key to the focused element.
    Pass,
}

/// The shell's key handling: escape closes an open popover; the copy
/// shortcut copies selected transcript text unless the composer has focus;
/// the shortcuts of `command_for_key` run their command.
pub open spec fn key_route(
    key: Seq<char>,
    platform_modifier: bool,
    popover_open: bool,
    composer_focused: bool,
    has_selected_text: bool,
) -> ShellKeyRoute {
    if key == "escape"@ && popover_open {
        ShellKeyRoute::DismissPopovers
    } else if key == "c"@ && platform_modifier && !composer_focused && has_selected_text {
        ShellKeyRoute::CopySelection
    } else {
        match command_for_key(key, platform_modifier) {
            Some(c) => ShellKeyRoute::Command(c),
            None => ShellKeyRoute::Pass,
        }
    }
}

/// Where the shell sends a key (see `key_route`); `has_selected_text` says
/// whether non-empty transcript text is selected.
pub fn shell_key_route(
    key: &str,
    platform_modifier: bool,
    popover_open: bool,
    composer_focused: bool,
    has_selected_text: bool,
) -> (r: ShellKeyRoute)
    ensures
        r == key_route(key@, platform_modifier, popover_open, composer_focused, has_selected_text),
{
    if str_eq(key, "escape") && popover_open {
        ShellKeyRoute::DismissPopovers
    } else if is_copy_keystroke(key, platform_modifier) && !composer_focused && has_selected_text {
        ShellKeyRoute::CopySelection
    } else {
        match shell_command_for_key(key, platform_modifier) {
            Some(c) => ShellKeyRoute::Command(c),
            None => ShellKeyRoute::Pass,
        }
    }
}

/// A slash command that the daemon runs.
#[derive(Clone, Copy, Debug, PartialEq, Eq)]
pub struct SlashCommandDef {
    pub name: &'static str,
    pub description: &'static str,
}

/// The daemon's slash commands, as (name, description).
pub open spec fn slash_table() -> Seq<(Seq<char>, Seq<char>)> {
    seq![
        ("/clear"@, "Clear the current session"@),
        ("/compact"@, "Compact message history"@),
        ("/goal"@, "Set or manage the session goal"@),
        ("/wiki"@, "Generate the repository wiki"@),
    ]
}

/// Names and descriptions of slash command definitions.
pub open spec fn defs_view(v: Seq<SlashCommandDef>) -> Seq<(Seq<char>, Seq<char>)> {
    v.map_values(|d: SlashCommandDef| (d.name@, d.description@))
}

/// The slash commands the daemon executes server-side.
pub fn slash_commands() -> (r: Vec<SlashCommandDef>)
    ensures
        defs_view(r@) == slash_table(),
{
    let r = vec![
        SlashCommandDef { name: "/clear", description: "Clear the current session" },
        SlashCommandDef { name: "/compact", description: "Compact message history" },
        SlashCommandDef { name: "/goal", description: "Set or manage the session goal" },
        SlashCommandDef { name: "/wiki", description: "Generate the repository wiki" },
    ];
    assert(defs_view(r@) =~= slash_table());
    r
}

/// The entries of `t` whose name matches the lowercased query `q`: every
/// entry for `/`, else those whose name starts with `q`.
pub open spec fn matching_defs(t: Seq<(Seq<char>, Seq<char>)>, q: Seq<char>) -> Seq<(Seq<char>, Seq<char>)>
    decreases t.len(),
{
    if t.len() == 0 {
        Seq::empty()
    } else if q == "/"@ || has_prefix(t.last().0, q) {
        matching_defs(t.drop_last(), q).push(t.last())
    } else {
        matching_defs(t.drop_last(), q)
    }
}

/// Slash menu entries for the composer text: none unless it starts with
/// `/`; `/` lists every command; otherwise the commands whose name starts
/// with the lowercased text, so typing arguments closes the menu.
pub fn filtered_slash_commands(query: &str) -> (r: Vec<SlashCommandDef>)
    ensures
        defs_view(r@) == (if has_prefix(query@, "/"@) {
            matching_defs(slash_table(), lowercase(query@))
        } else {
            Seq::empty()
        }),
{
    let q = chars_of(query);
    proof {
        reveal_strlit("/");
    }
    if q.len() == 0 || q[0] != '/' {
        assert(!has_prefix(query@, "/"@)) by {
            if q.len() > 0 {
                assert(query@.take(1)[0] == q@[0]);
            }
        }
        return Vec::new();
    }
    assert(query@.take(1) =~= "/"@);
    let lower = to_lowercase(query);
    let all = slash_commands();
    let every = str_eq(lower.as_str(), "/");
    let mut r: Vec<SlashCommandDef> = Vec::new();
    let mut k: usize = 0;
    while k < all.len()
        invariant
            0 <= k <= all.len(),
            defs_view(all@) == slash_table(),
            every == (lower@ == "/"@),
            lower@ == lowercase(query@),
            defs_view(r@) == matching_defs(defs_view(all@).take(k as int), lower@),
        decreases all.len() - k,
    {
        let d = all[k];
        proof {
            assert(defs_view(all@).take(k + 1).drop_last() =~= defs_view(all@).take(k as int));
            assert(defs_view(all@).take(k + 1).last() == (d.name@, d.description@));
        }
        let name = chars_of(d.name);
        if every || crate::text::starts_with_at(&name, 0, lower.as_str()) {
            assert(name@.skip(0) =~= name@);
            let ghost old_r = r@;
            r.push(d);
            assert(defs_view(r@) =~= defs_view(old_r).push((d.name@, d.description@)));
        } else {
            assert(name@.skip(0) =~= name@);
        }
        k = k + 1;
    }
    assert(defs_view(all@).take(k as int) =~= defs_view(all@));
    r
}

/// Some slash command is named `name`.
pub open spec fn is_slash_command(name: Seq<char>) -> bool {
    exists|i: int| 0 <= i < slash_table().len() && #[trigger] slash_table()[i].0 == name
}

/// The command line to send to the daemon when the submitted text's first
/// word is a known slash command: the whole trimmed text, arguments
/// included.
pub fn daemon_slash_command(text: &str) -> (r: Option<String>)
    ensures
        ({
            let t = trim(text@);
            let w = words(t);
            match r {
                Some(s) => w.len() > 0 && is_slash_command(w[0]) && s@ == t,
                None => w.len() == 0 || !is_slash_command(w[0]),
            }
        }),
{
    let v = chars_of(text);
    let (a, b) = trim_bounds(&v, 0, v.len());
    assert(v@.subrange(0, v@.len() as int) =~= v@);
    let t = crate::text::sub_vec(&v, a, b);
    let ghost tv = t@;
    proof {
        crate::text::lemma_word_bounds(tv, 0);
    }
    let (wa, wb) = match first_word(&t, 0) {
        Some(w) => w,
        None => {
            assert(words(tv).len() == 0);
            return None;
        },
    };
    assert(words(tv)[0] == tv.subrange(wa as int, wb as int));
    let command = string_from_chars(&t, wa, wb);
    assert(tv == trim(text@));
    let all = slash_commands();
    let mut k: usize = 0;
    while k < all.len()
        invariant
            0 <= k <= all.len(),
            defs_view(all@) == slash_table(),
            t@ == trim(text@),
            words(t@).len() > 0,
            words(t@)[0] == command@,
            forall|i: int| 0 <= i < k ==> slash_table()[i].0 != command@,
        decreases all.len() - k,
    {
        assert(defs_view(all@)[k as int] == (all@[k as int].name@, all@[k as int].description@));
        if str_eq(all[k].name, command.as_str()) {
            assert(slash_table()[k as int].0 == command@);
            assert(t@.subrange(0, t@.len() as int) =~= t@);
            return Some(string_from_chars(&t, 0, t.len()));
        }
        k = k + 1;
    }
    assert(t@.subrange(0, t@.len() as int) =~= t@);
    None
}

/// The permission modes, as (id, label, description).
pub open spec fn permission_table() -> Seq<(Seq<char>, Seq<char>, Seq<char>)> {
    seq![
        ("standard"@, "Standard"@, "Prompts for mutating and dangerous tools"@),
        ("permissive"@, "Permissive"@, "Auto-allows mutating tools; still prompts for shell commands"@),
        ("auto"@, "Auto"@, "Routes tool calls through a classifier model"@),
        ("auto_plus"@, "Auto+"@, "Classifier cannot escalate; uncertainty denies"@),
        ("dangerous"@, "Dangerous!"@, "Every tool auto-runs; overrides deny and ask rules"@),
    ]
}

/// A permission mode.
#[derive(Clone, Copy, Debug, PartialEq, Eq)]
pub struct PermissionModeDef {
    pub id: &'static str,
    pub label: &'static str,
    pub description: &'static str,
}

/// Ids, labels and descriptions of permission mode definitions.
pub open spec fn modes_view(v: Seq<PermissionModeDef>) -> Seq<(Seq<char>, Seq<char>, Seq<char>)> {
    v.map_values(|d: PermissionModeDef| (d.id@, d.label@, d.description@))
}

/// The permission modes the daemon accepts.
pub fn permission_modes() -> (r: Vec<PermissionModeDef>)
    ensures
        modes_view(r@) == permission_table(),
{
    let r = vec![
        PermissionModeDef {
            id: "standard",
            label: "Standard",
            description: "Prompts for mutating and dangerous tools",
        },
        PermissionModeDef {
            id: "permissive",
            label: "Permissive",
            description: "Auto-allows mutating tools; still prompts for shell commands",
        },
        PermissionModeDef {
            id: "auto",
            label: "Auto",
            description: "Routes tool calls through a classifier model",
        },
        PermissionModeDef {
            id: "auto_plus",
            label: "Auto+",
            description: "Classifier cannot escalate; uncertainty denies",
        },
        PermissionModeDef {
            id: "dangerous",
            label: "Dangerous!",
            description: "Every tool auto-runs; overrides deny and ask rules",
        },
    ];
    assert(modes_view(r@) =~= permission_table());
    r
}

/// The label of the first permission mode in `t` with the given id.
pub open spec fn mode_label_in(t: Seq<(Seq<char>, Seq<char>, Seq<char>)>, id: Seq<char>) -> Option<Seq<char>>
    decreases t.len(),
{
    if t.len() == 0 {
        None
    } else if t[0].0 == id {
        Some(t[0].1)
    } else {
        mode_label_in(t.drop_first(), id)
    }
}

/// The label shown for a permission mode id: `permissions` when none is
/// set, the mode's label when it is known, else the id itself.
pub fn permission_mode_label(id: Option<&str>) -> (r: String)
    ensures
        r@ == (match id {
            Some(i) => if trim(i@).len() == 0 {
                "permissions"@
            } else {
                match mode_label_in(permission_table(), i@) {
                    Some(label) => label,
                    None => i@,
                }
            },
            None => "permissions"@,
        }),
{
    let ident = match id {
        Some(i) => i,
        None => return "permissions".to_owned(),
    };
    let v = chars_of(ident);
    let (a, b) = trim_bounds(&v, 0, v.len());
    assert(v@.subrange(0, v@.len() as int) =~= v@);
    if a == b {
        return "permissions".to_owned();
    }
    let modes = permission_modes();
    assert(modes_view(modes@).skip(0) =~= modes_view(modes@));
    let mut k: usize = 0;
    while k < modes.len()
        invariant
            0 <= k <= modes.len(),
            modes_view(modes@) == permission_table(),
            trim(ident@).len() > 0,
            id == Some(ident),
            mode_label_in(permission_table(), ident@) == mode_label_in(modes_view(modes@).skip(k as int), ident@),
        decreases modes.len() - k,
    {
        assert(modes_view(modes@).skip(k as int).drop_first() =~= modes_view(modes@).skip(k + 1));
        assert(modes_view(modes@).skip(k as int)[0] == (modes@[k as int].id@, modes@[k as int].label@, modes@[k as int].description@));
        if str_eq(modes[k].id, ident) {
            return modes[k].label.to_owned();
        }
        k = k + 1;
    }
    ident.to_owned()
}

/// `n` clamped to `[lo, hi]`.
pub open spec fn clamp(n: int, lo: int, hi: int) -> int {
    if n < lo {
        lo
    } else if n > hi {
        hi
    } else {
        n
    }
}

fn clamp_count(n: usize, lo: usize, hi: usize) -> (r: usize)
    requires
        lo <= hi,
    ensures
        r == clamp(n as int, lo as int, hi as int),
{
    if n < lo {
        lo
    } else if n > hi {
        hi
    } else {
        n
    }
}

/// Rows the model picker's list shows at most.
pub const PICKER_VISIBLE_ROWS: usize = 5;
/// Options the mention menu lists at most.
pub const MENTION_MENU_LIMIT: usize = 8;

/// Height in pixels of the model picker's list: one 64 px row per option,
/// between one and five rows.
pub fn model_picker_list_height(option_count: usize) -> (h: usize)
    ensures
        h == clamp(option_count as int, 1, 5) * 64,
{
    clamp_count(option_count, 1, PICKER_VISIBLE_ROWS) * 64
}

/// Height in pixels of the model picker: its list and 16 px of padding.
pub fn model_picker_height(option_count: usize) -> (h: usize)
    ensures
        h == clamp(option_count as int, 1, 5) * 64 + 16,
{
    model_picker_list_height(option_count) + 16
}

/// Height in pixels of the persona picker's list (as the model picker's).
pub fn persona_picker_list_height(option_count: usize) -> (h: usize)
    ensures
        h == clamp(option_count as int, 1, 5) * 64,
{
    clamp_count(option_count, 1, PICKER_VISIBLE_ROWS) * 64
}

/// Height in pixels of the persona picker.
pub fn persona_picker_height(option_count: usize) -> (h: usize)
    ensures
        h == clamp(option_count as int, 1, 5) * 64 + 16,
{
    persona_picker_list_height(option_count) + 16
}

/// Height in pixels of the slash menu: 40 px per option, one to five
/// options, and 12 px of padding.
pub fn slash_menu_height(option_count: usize) -> (h: usize)
    ensures
        h == clamp(option_count as int, 1, 5) * 40 + 12,
{
    clamp_count(option_count, 1, 5) * 40 + 12
}

/// Height in pixels of the mention menu: 28 px per option, one to eight
/// options, and 12 px of padding.
pub fn mention_menu_height(option_count: usize) -> (h: usize)
    ensures
        h == clamp(option_count as int, 1, MENTION_MENU_LIMIT as int) * 28 + 12,
{
    clamp_count(option_count, 1, MENTION_MENU_LIMIT) * 28 + 12
}


/// Every command in the slash menu starts with the typed query, unless the
/// query is just `/`.
pub proof fn lemma_matching_defs_match(t: Seq<(Seq<char>, Seq<char>)>, q: Seq<char>)
    ensures
        forall|i: int|
            0 <= i < matching_defs(t, q).len() ==> q == "/"@ || has_prefix(
                #[trigger] matching_defs(t, q)[i].0,
                q,
            ),
        matching_defs(t, q).len() <= t.len(),
    decreases t.len(),
{
    if t.len() > 0 {
        lemma_matching_defs_match(t.drop_last(), q);
    }
}

} // verus!
