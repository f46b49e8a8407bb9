//! Small presentation decisions of the shell: labels, themes, settings
//! pages, popover and attention states.
use vstd::prelude::*;
use crate::text::{chars_of, decimal, decimal_string, push_str, str_eq, trim, trim_bounds};

verus! {

/// The system appearance of a window.
#[derive(Debug, Clone, Copy, PartialEq, Eq)]
pub enum WindowAppearance {
    Light,
    VibrantLight,
    Dark,
    VibrantDark,
}

/// A light appearance.
pub open spec fn is_light(a: WindowAppearance) -> bool {
    a is Light || a is VibrantLight
}

/// The name of the theme variant that suits an appearance.
pub fn theme_name(appearance: WindowAppearance) -> (r: &'static str)
    ensures
        r@ == (if is_light(appearance) { "light"@ } else { "dark"@ }),
{
    match appearance {
        WindowAppearance::Light | WindowAppearance::VibrantLight => "light",
        WindowAppearance::Dark | WindowAppearance::VibrantDark => "dark",
    }
}

/// The theme preference of the desktop app.
#[derive(Debug, Clone, Copy, PartialEq, Eq)]
pub enum DesktopThemeMode {
    System,
    Light,
    Dark,
}

impl DesktopThemeMode {
    /// `"light"` and `"dark"` select a fixed variant; anything else follows
    /// the system.
    pub fn parse(value: &str) -> (m: DesktopThemeMode)
        ensures
            m == (if value@ == "light"@ {
                DesktopThemeMode::Light
            } else if value@ == "dark"@ {
                DesktopThemeMode::Dark
            } else {
                DesktopThemeMode::System
            }),
    {
        if str_eq(value, "light") {
            DesktopThemeMode::Light
        } else if str_eq(value, "dark") {
            DesktopThemeMode::Dark
        } else {
            DesktopThemeMode::System
        }
    }

    pub fn label(self) -> (r: &'static str)
        ensures
            r@ == (match self {
                DesktopThemeMode::System => "System"@,
                DesktopThemeMode::Light => "Light"@,
                DesktopThemeMode::Dark => "Dark"@,
            }),
    {
        match self {
            DesktopThemeMode::System => "System",
            DesktopThemeMode::Light => "Light",
            DesktopThemeMode::Dark => "Dark",
        }
    }
}

/// The configured theme for a mode: the system mode follows the window's
/// appearance.
pub fn desktop_theme_name<'a>(
    mode: DesktopThemeMode,
    appearance: WindowAppearance,
    light_theme: &'a str,
    dark_theme: &'a str,
) -> (r: &'a str)
    ensures
        r == (match mode {
            DesktopThemeMode::System => if is_light(appearance) {
                light_theme
            } else {
                dark_theme
            },
            DesktopThemeMode::Light => light_theme,
            DesktopThemeMode::Dark => dark_theme,
        }),
{
    match mode {
        DesktopThemeMode::System => match appearance {
            WindowAppearance::Light | WindowAppearance::VibrantLight => light_theme,
            WindowAppearance::Dark | WindowAppearance::VibrantDark => dark_theme,
        },
        DesktopThemeMode::Light => light_theme,
        DesktopThemeMode::Dark => dark_theme,
    }
}

/// The pages of the settings view.
#[derive(Debug, Clone, Copy, PartialEq, Eq)]
pub enum SettingsPage {
    General,
    Terminal,
    Workspace,
    Connection,
}

impl SettingsPage {
    pub fn key(self) -> (r: &'static str)
        ensures
            r@ == (match self {
                SettingsPage::General => "general"@,
                SettingsPage::Terminal => "terminal"@,
                SettingsPage::Workspace => "workspace"@,
                SettingsPage::Connection => "connection"@,
            }),
    {
        match self {
            SettingsPage::General => "general",
            SettingsPage::Terminal => "terminal",
            SettingsPage::Workspace => "workspace",
            SettingsPage::Connection => "connection",
        }
    }

    pub fn title(self) -> (r: &'static str)
        ensures
            r@ == (match self {
                SettingsPage::General => "General"@,
                SettingsPage::Terminal => "Terminal"@,
                SettingsPage::Workspace => "Workspace"@,
                SettingsPage::Connection => "Connection"@,
            }),
    {
        match self {
            SettingsPage::General => "General",
            SettingsPage::Terminal => "Terminal",
            SettingsPage::Workspace => "Workspace",
            SettingsPage::Connection => "Connection",
        }
    }

    pub fn description(self) -> (r: &'static str)
        ensures
            r@ == (match self {
                SettingsPage::General => "mew desktop preferences"@,
                SettingsPage::Terminal => "terminal appearance and behavior"@,
                SettingsPage::Workspace => "panel visibility and layout"@,
                SettingsPage::Connection => "daemon and remote workspace status"@,
            }),
    {
        match self {
            SettingsPage::General => "mew desktop preferences",
            SettingsPage::Terminal => "terminal appearance and behavior",
            SettingsPage::Workspace => "panel visibility and layout",
            SettingsPage::Connection => "daemon and remote workspace status",
        }
    }
}

/// How the shell reaches the daemon.
#[derive(Debug, Clone, PartialEq, Eq)]
pub enum DesktopConnectionProfile {
    LocalWebSocket { url: String },
    RemoteIroh { node_id: String, pairing_token: Option<String>, device_name: String },
}

impl DesktopConnectionProfile {
    /// The endpoint shown for a profile: the URL, or `iroh://` and the node id.
    pub fn endpoint_label(&self) -> (r: String)
        ensures
            r@ == (match self {
                DesktopConnectionProfile::LocalWebSocket { url } => url@,
                DesktopConnectionProfile::RemoteIroh { node_id, .. } => "iroh://"@ + node_id@,
            }),
    {
        match self {
            DesktopConnectionProfile::LocalWebSocket { url } => url.clone(),
            DesktopConnectionProfile::RemoteIroh { node_id, .. } => {
                let mut s = "iroh://".to_owned();
                push_str(&mut s, node_id.as_str());
                s
            },
        }
    }
}

/// Escape closes a shell popover, and only when one is open.
pub fn escape_dismisses_shell_popover(
    key: &str,
    model_open: bool,
    persona_open: bool,
    permission_open: bool,
    thinking_open: bool,
    terminal_font_open: bool,
    connection_open: bool,
) -> (b: bool)
    ensures
        b == (key@ == "escape"@ && (model_open || persona_open || permission_open || thinking_open
            || terminal_font_open || connection_open)),
{
    str_eq(key, "escape") && (model_open || persona_open || permission_open || thinking_open
        || terminal_font_open || connection_open)
}

/// Only the last row of a non-empty transcript animates.
pub fn should_animate_transcript_row(row_index: usize, row_count: usize) -> (b: bool)
    ensures
        b == (row_count > 0 && row_index + 1 == row_count),
{
    row_count > 0 && row_index == row_count - 1
}

/// The ungrouped section is shown only beside named groups.
pub fn show_ungrouped_group(group_count: usize, session_count: usize) -> (b: bool)
    ensures
        b == (group_count > 0 && session_count > 0),
{
    group_count > 0 && session_count > 0
}

/// The embedded browser starts when its panel is open and it has neither a
/// portal, a pending start nor a latched error.
pub fn browser_initialization_is_needed(
    panel_open: bool,
    portal_present: bool,
    initialization_pending: bool,
    has_error: bool,
) -> (b: bool)
    ensures
        b == (panel_open && !portal_present && !initialization_pending && !has_error),
{
    panel_open && !portal_present && !initialization_pending && !has_error
}

/// What the transcript shows about the active turn.
#[derive(Clone, Copy, Debug, PartialEq, Eq)]
pub enum TranscriptAttention {
    Running,
    Failed,
    Waiting,
}

/// Attention is shown only after a user message and never beside a pending
/// action; a running turn wins over a failed one.
pub fn transcript_attention(
    last_message_is_user: bool,
    running: bool,
    last_turn_failed: bool,
    has_pending_action: bool,
) -> (r: Option<TranscriptAttention>)
    ensures
        r == (if !last_message_is_user || has_pending_action {
            None
        } else if running {
            Some(TranscriptAttention::Running)
        } else if last_turn_failed {
            Some(TranscriptAttention::Failed)
        } else {
            Some(TranscriptAttention::Waiting)
        }),
{
    if !last_message_is_user || has_pending_action {
        return None;
    }
    if running {
        Some(TranscriptAttention::Running)
    } else if last_turn_failed {
        Some(TranscriptAttention::Failed)
    } else {
        Some(TranscriptAttention::Waiting)
    }
}

/// How a file changed in a diff.
#[derive(Clone, Copy, Debug, PartialEq, Eq)]
pub enum FileStatus {
    Added,
    Modified,
    Deleted,
    Renamed,
    Unchanged,
    Binary,
}

pub fn file_status_label(status: FileStatus) -> (r: &'static str)
    ensures
        r@ == (match status {
            FileStatus::Added => "added"@,
            FileStatus::Modified => "modified"@,
            FileStatus::Deleted => "deleted"@,
            FileStatus::Renamed => "renamed"@,
            FileStatus::Unchanged => "unchanged"@,
            FileStatus::Binary => "binary"@,
        }),
{
    match status {
        FileStatus::Added => "added",
        FileStatus::Modified => "modified",
        FileStatus::Deleted => "deleted",
        FileStatus::Renamed => "renamed",
        FileStatus::Unchanged => "unchanged",
        FileStatus::Binary => "binary",
    }
}

/// `value` unless it is missing or blank, else `fallback`.
pub fn non_empty_label(value: Option<&str>, fallback: &str) -> (r: String)
    ensures
        r@ == (match value {
            Some(v) => if trim(v@).len() > 0 {
                v@
            } else {
                fallback@
            },
            None => fallback@,
        }),
{
    match value {
        Some(v) => {
            let chars = chars_of(v);
            let (a, b) = trim_bounds(&chars, 0, chars.len());
            assert(chars@.subrange(0, chars@.len() as int) =~= chars@);
            if a < b {
                v.to_owned()
            } else {
                fallback.to_owned()
            }
        },
        None => fallback.to_owned(),
    }
}

/// Milliseconds in a minute, an hour, a day and a week.
pub const MINUTE_MS: i64 = 60_000;
pub const HOUR_MS: i64 = 3_600_000;
pub const DAY_MS: i64 = 86_400_000;
pub const WEEK_MS: i64 = 604_800_000;

/// `now - timestamp`, saturated to the range of `i64`.
pub open spec fn elapsed_ms(timestamp: int, now: int) -> int {
    if now - timestamp < i64::MIN {
        i64::MIN as int
    } else if now - timestamp > i64::MAX {
        i64::MAX as int
    } else {
        now - timestamp
    }
}

/// The compact age label of an elapsed time: `now` under a minute, then
/// whole minutes, hours, days, and weeks from seven days on.
pub open spec fn age_label(elapsed: int) -> Seq<char> {
    if elapsed < MINUTE_MS {
        "now"@
    } else if elapsed < HOUR_MS {
        decimal((elapsed / MINUTE_MS as int) as nat) + "m"@
    } else if elapsed < DAY_MS {
        decimal((elapsed / HOUR_MS as int) as nat) + "h"@
    } else if elapsed < WEEK_MS {
        decimal((elapsed / DAY_MS as int) as nat) + "d"@
    } else {
        decimal((elapsed / WEEK_MS as int) as nat) + "w"@
    }
}

/// The age label of a session's last message, if it has a positive
/// timestamp.
pub fn relative_session_time(timestamp_ms: Option<i64>, now_ms: i64) -> (r: Option<String>)
    ensures
        match timestamp_ms {
            Some(t) if t > 0 => r is Some && r->0@ == age_label(elapsed_ms(t as int, now_ms as int)),
            _ => r is None,
        },
{
    let ts = match timestamp_ms {
        Some(t) => t,
        None => return None,
    };
    if ts <= 0 {
        return None;
    }
    let elapsed: i64 = if now_ms >= i64::MIN + ts {
        now_ms - ts
    } else {
        i64::MIN
    };
    if elapsed < MINUTE_MS {
        return Some("now".to_owned());
    }
    let e = elapsed as u64;
    let (amount, unit) = if elapsed < HOUR_MS {
        (e / 60_000, "m")
    } else if elapsed < DAY_MS {
        (e / 3_600_000, "h")
    } else if elapsed < WEEK_MS {
        (e / 86_400_000, "d")
    } else {
        (e / 604_800_000, "w")
    };
    let mut s = decimal_string(amount);
    push_str(&mut s, unit);
    Some(s)
}

/// The file name of a pasted clipboard image.
pub fn clipboard_image_file_name(extension: &str, timestamp_ms: u64) -> (r: String)
    ensures
        r@ == "mew-paste-"@ + decimal(timestamp_ms as nat) + "."@ + extension@,
{
    let mut s = "mew-paste-".to_owned();
    let digits = decimal_string(timestamp_ms);
    push_str(&mut s, digits.as_str());
    push_str(&mut s, ".");
    push_str(&mut s, extension);
    s
}


/// The panel shown beside the conversation.
#[derive(Clone, Copy, Debug, PartialEq, Eq)]
pub enum AuxiliaryView {
    Browser,
    Changes,
    Local,
    Activity,
}

/// The key under which a panel is saved.
pub open spec fn aux_key(v: AuxiliaryView) -> Seq<char> {
    match v {
        AuxiliaryView::Browser => "browser"@,
        AuxiliaryView::Changes => "changes"@,
        AuxiliaryView::Local => "local"@,
        AuxiliaryView::Activity => "activity"@,
    }
}

/// The panel a saved key names; an unknown key shows the changes.
pub open spec fn aux_from_key(key: Seq<char>) -> AuxiliaryView {
    if key == "browser"@ {
        AuxiliaryView::Browser
    } else if key == "local"@ {
        AuxiliaryView::Local
    } else if key == "activity"@ {
        AuxiliaryView::Activity
    } else {
        AuxiliaryView::Changes
    }
}

impl AuxiliaryView {
    pub fn key(self) -> (r: &'static str)
        ensures
            r@ == aux_key(self),
    {
        match self {
            AuxiliaryView::Browser => "browser",
            AuxiliaryView::Changes => "changes",
            AuxiliaryView::Local => "local",
            AuxiliaryView::Activity => "activity",
        }
    }

    pub fn from_key(key: &str) -> (v: AuxiliaryView)
        ensures
            v == aux_from_key(key@),
    {
        if str_eq(key, "browser") {
            AuxiliaryView::Browser
        } else if str_eq(key, "local") {
            AuxiliaryView::Local
        } else if str_eq(key, "activity") {
            AuxiliaryView::Activity
        } else {
            AuxiliaryView::Changes
        }
    }
}

/// Saving a panel and reading it back gives the same panel.
pub proof fn lemma_aux_key_round_trip(v: AuxiliaryView)
    ensures
        aux_from_key(aux_key(v)) == v,
{
    reveal_strlit("browser");
    reveal_strlit("changes");
    reveal_strlit("local");
    reveal_strlit("activity");
    assert("changes"@[0] != "browser"@[0]);
    assert("changes"@.len() != "local"@.len());
    assert("changes"@.len() != "activity"@.len());
    assert("browser"@.len() != "local"@.len());
    assert("browser"@.len() != "activity"@.len());
    assert("local"@.len() != "activity"@.len());
}

} // verus!
