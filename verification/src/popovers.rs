//! The shell's popovers: the composer's pickers, which exclude one another,
//! and the connection picker.
use vstd::prelude::*;

verus! {

/// A popover of the shell.
#[derive(Clone, Copy, Debug, PartialEq, Eq)]
pub enum Popover {
    Model,
    Persona,
    Permission,
    Thinking,
    TerminalFont,
    Connection,
}

/// Which popovers are open.
#[derive(Clone, Copy, Debug, PartialEq, Eq)]
pub struct Popovers {
    pub model: bool,
    pub persona: bool,
    pub permission: bool,
    pub thinking: bool,
    pub terminal_font: bool,
    pub connection: bool,
}

/// Whether `p` is open.
pub open spec fn is_open(s: Popovers, p: Popover) -> bool {
    match p {
        Popover::Model => s.model,
        Popover::Persona => s.persona,
        Popover::Permission => s.permission,
        Popover::Thinking => s.thinking,
        Popover::TerminalFont => s.terminal_font,
        Popover::Connection => s.connection,
    }
}

/// `p` is one of the composer's pickers (all but the connection picker).
pub open spec fn is_picker(p: Popover) -> bool {
    p != Popover::Connection
}

/// Any popover is open.
pub open spec fn any_open(s: Popovers) -> bool {
    s.model || s.persona || s.permission || s.thinking || s.terminal_font || s.connection
}

impl Popovers {
    /// Opens `p`, or closes it when it is open. Opening or closing a picker
    /// closes the other pickers; the connection picker leaves the rest alone.
    pub fn toggle(&mut self, p: Popover)
        ensures
            is_open(*final(self), p) == !is_open(*old(self), p),
            forall|q: Popover|
                q != p ==> #[trigger] is_open(*final(self), q) == (if is_picker(p) && is_picker(q) {
                    false
                } else {
                    is_open(*old(self), q)
                }),
    {
        match p {
            Popover::Connection => {
                self.connection = !self.connection;
            },
            _ => {
                let was = match p {
                    Popover::Model => self.model,
                    Popover::Persona => self.persona,
                    Popover::Permission => self.permission,
                    Popover::Thinking => self.thinking,
                    _ => self.terminal_font,
                };
                self.model = false;
                self.persona = false;
                self.permission = false;
                self.thinking = false;
                self.terminal_font = false;
                match p {
                    Popover::Model => self.model = !was,
                    Popover::Persona => self.persona = !was,
                    Popover::Permission => self.permission = !was,
                    Popover::Thinking => self.thinking = !was,
                    _ => self.terminal_font = !was,
                }
            },
        }
    }

    /// Closes every popover; returns whether one was open.
    pub fn close_all(&mut self) -> (was_open: bool)
        ensures
            was_open == any_open(*old(self)),
            !any_open(*final(self)),
    {
        let was_open = self.model || self.persona || self.permission || self.thinking || self.terminal_font
            || self.connection;
        *self = Popovers {
            model: false,
            persona: false,
            permission: false,
            thinking: false,
            terminal_font: false,
            connection: false,
        };
        was_open
    }
}

/// At most one of the composer's pickers is open once any picker was
/// toggled.
pub proof fn lemma_toggle_leaves_one_picker(before: Popovers, after: Popovers, p: Popover)
    requires
        is_picker(p),
        is_open(after, p) == !is_open(before, p),
        forall|q: Popover|
            q != p ==> #[trigger] is_open(after, q) == (if is_picker(p) && is_picker(q) {
                false
            } else {
                is_open(before, q)
            }),
    ensures
        forall|q: Popover| is_picker(q) && q != p ==> !#[trigger] is_open(after, q),
{
}

/// The terminal's rows: one while collapsed, seven when expanded.
pub fn terminal_rows(collapsed: bool) -> (rows: u16)
    ensures
        rows == (if collapsed { 1u16 } else { 7u16 }),
{
    if collapsed {
        1
    } else {
        7
    }
}

} // verus!
