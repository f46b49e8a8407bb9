//! The Tabler icons the shell draws, and the asset source that serves
//! them as SVG documents.
use vstd::prelude::*;
use crate::text::{push_str, str_eq};

verus! {

#[derive(Clone, Copy, Debug, PartialEq, Eq, Hash)]
pub enum TablerIcon {
    Archive,
    ArrowLeft,
    ArrowUp,
    Browser,
    Bulb,
    ChevronDown,
    ChevronRight,
    Dots,
    ExternalLink,
    File,
    FileCode,
    Folder,
    GitBranch,
    GripVertical,
    MessageCircle,
    PanelLeft,
    PanelRight,
    Paperclip,
    Pencil,
    Pin,
    Plus,
    Search,
    Settings,
    ShieldLock,
    SlidersHorizontal,
    Square,
    Terminal2,
    UserCircle,
    X,
}

/// Every icon, in declaration order.
pub open spec fn all_icons() -> Seq<TablerIcon> {
    seq![
        TablerIcon::Archive,
        TablerIcon::ArrowLeft,
        TablerIcon::ArrowUp,
        TablerIcon::Browser,
        TablerIcon::Bulb,
        TablerIcon::ChevronDown,
        TablerIcon::ChevronRight,
        TablerIcon::Dots,
        TablerIcon::ExternalLink,
        TablerIcon::File,
        TablerIcon::FileCode,
        TablerIcon::Folder,
        TablerIcon::GitBranch,
        TablerIcon::GripVertical,
        TablerIcon::MessageCircle,
        TablerIcon::PanelLeft,
        TablerIcon::PanelRight,
        TablerIcon::Paperclip,
        TablerIcon::Pencil,
        TablerIcon::Pin,
        TablerIcon::Plus,
        TablerIcon::Search,
        TablerIcon::Settings,
        TablerIcon::ShieldLock,
        TablerIcon::SlidersHorizontal,
        TablerIcon::Square,
        TablerIcon::Terminal2,
        TablerIcon::UserCircle,
        TablerIcon::X,
    ]
}

/// Where an icon sits in `all_icons`.
pub open spec fn icon_index(icon: TablerIcon) -> int {
    match icon {
        TablerIcon::Archive => 0,
        TablerIcon::ArrowLeft => 1,
        TablerIcon::ArrowUp => 2,
        TablerIcon::Browser => 3,
        TablerIcon::Bulb => 4,
        TablerIcon::ChevronDown => 5,
        TablerIcon::ChevronRight => 6,
        TablerIcon::Dots => 7,
        TablerIcon::ExternalLink => 8,
        TablerIcon::File => 9,
        TablerIcon::FileCode => 10,
        TablerIcon::Folder => 11,
        TablerIcon::GitBranch => 12,
        TablerIcon::GripVertical => 13,
        TablerIcon::MessageCircle => 14,
        TablerIcon::PanelLeft => 15,
        TablerIcon::PanelRight => 16,
        TablerIcon::Paperclip => 17,
        TablerIcon::Pencil => 18,
        TablerIcon::Pin => 19,
        TablerIcon::Plus => 20,
        TablerIcon::Search => 21,
        TablerIcon::Settings => 22,
        TablerIcon::ShieldLock => 23,
        TablerIcon::SlidersHorizontal => 24,
        TablerIcon::Square => 25,
        TablerIcon::Terminal2 => 26,
        TablerIcon::UserCircle => 27,
        TablerIcon::X => 28,
    }
}

/// The asset path of an icon.
pub open spec fn icon_path(icon: TablerIcon) -> Seq<char> {
    match icon {
        TablerIcon::Archive => "icons/archive.svg"@,
        TablerIcon::ArrowLeft => "icons/arrow-left.svg"@,
        TablerIcon::ArrowUp => "icons/arrow-up.svg"@,
        TablerIcon::Browser => "icons/browser.svg"@,
        TablerIcon::Bulb => "icons/bulb.svg"@,
        TablerIcon::ChevronDown => "icons/chevron-down.svg"@,
        TablerIcon::ChevronRight => "icons/chevron-right.svg"@,
        TablerIcon::Dots => "icons/dots.svg"@,
        TablerIcon::ExternalLink => "icons/external-link.svg"@,
        TablerIcon::File => "icons/file.svg"@,
        TablerIcon::FileCode => "icons/file-code.svg"@,
        TablerIcon::Folder => "icons/folder.svg"@,
        TablerIcon::GitBranch => "icons/git-branch.svg"@,
        TablerIcon::GripVertical => "icons/grip-vertical.svg"@,
        TablerIcon::MessageCircle => "icons/message-circle.svg"@,
        TablerIcon::PanelLeft => "icons/panel-left.svg"@,
        TablerIcon::PanelRight => "icons/panel-right.svg"@,
        TablerIcon::Paperclip => "icons/paperclip.svg"@,
        TablerIcon::Pencil => "icons/pencil.svg"@,
        TablerIcon::Pin => "icons/pin.svg"@,
        TablerIcon::Plus => "icons/plus.svg"@,
        TablerIcon::Search => "icons/search.svg"@,
        TablerIcon::Settings => "icons/settings.svg"@,
        TablerIcon::ShieldLock => "icons/shield-lock.svg"@,
        TablerIcon::SlidersHorizontal => "icons/sliders-horizontal.svg"@,
        TablerIcon::Square => "icons/square.svg"@,
        TablerIcon::Terminal2 => "icons/terminal-2.svg"@,
        TablerIcon::UserCircle => "icons/user-circle.svg"@,
        TablerIcon::X => "icons/x.svg"@,
    }
}

/// The SVG elements of an icon.
pub open spec fn icon_body(icon: TablerIcon) -> Seq<char> {
    match icon {
        TablerIcon::Archive => "<path d=\"M3 4m0 2a2 2 0 0 1 2 -2h14a2 2 0 0 1 2 2v0a2 2 0 0 1 -2 2h-14a2 2 0 0 1 -2 -2z\"/><path d=\"M5 8v10a2 2 0 0 0 2 2h10a2 2 0 0 0 2 -2v-10\"/><path d=\"M10 12l4 0\"/>"@,
        TablerIcon::ArrowLeft => "<path d=\"M5 12l6 -6\"/><path d=\"M5 12l6 6\"/><path d=\"M5 12h14\"/>"@,
        TablerIcon::ArrowUp => "<path d=\"M12 5l0 14\"/><path d=\"M18 11l-6 -6l-6 6\"/>"@,
        TablerIcon::Browser => "<rect x=\"4\" y=\"4\" width=\"16\" height=\"16\" rx=\"2\"/><path d=\"M4 9h16\"/><path d=\"M8 4v5\"/>"@,
        TablerIcon::Bulb => "<path d=\"M3 12h1m8 -9v1m8 8h1m-15.4 -6.4l.7 .7m12.1 -.7l-.7 .7\"/><path d=\"M9 16a5 5 0 1 1 6 0a3.5 3.5 0 0 0 -1 3a2 2 0 0 1 -4 0a3.5 3.5 0 0 0 -1 -3\"/><path d=\"M9.7 17l4.6 0\"/>"@,
        TablerIcon::ChevronDown => "<path d=\"M6 9l6 6l6 -6\"/>"@,
        TablerIcon::ChevronRight => "<path d=\"M9 6l6 6l-6 6\"/>"@,
        TablerIcon::Dots => "<circle cx=\"5\" cy=\"12\" r=\"1\"/><circle cx=\"12\" cy=\"12\" r=\"1\"/><circle cx=\"19\" cy=\"12\" r=\"1\"/>"@,
        TablerIcon::ExternalLink => "<path d=\"M11 7h-4a2 2 0 0 0 -2 2v8a2 2 0 0 0 2 2h8a2 2 0 0 0 2 -2v-4\"/><path d=\"M10 14l9 -9\"/><path d=\"M15 5h4v4\"/>"@,
        TablerIcon::File => "<path d=\"M14 3v4a1 1 0 0 0 1 1h4\"/><path d=\"M17 21h-10a2 2 0 0 1 -2 -2v-14a2 2 0 0 1 2 -2h7l5 5v11a2 2 0 0 1 -2 2z\"/>"@,
        TablerIcon::FileCode => "<path d=\"M14 3v4a1 1 0 0 0 1 1h4\"/><path d=\"M17 21h-10a2 2 0 0 1 -2 -2v-14a2 2 0 0 1 2 -2h7l5 5v11a2 2 0 0 1 -2 2z\"/><path d=\"M10 13l-2 2l2 2\"/><path d=\"M14 13l2 2l-2 2\"/>"@,
        TablerIcon::Folder => "<path d=\"M5 4h4l3 3h7a2 2 0 0 1 2 2v7a2 2 0 0 1 -2 2h-14a2 2 0 0 1 -2 -2v-10a2 2 0 0 1 2 -2\"/>"@,
        TablerIcon::GitBranch => "<circle cx=\"6\" cy=\"6\" r=\"2\"/><circle cx=\"18\" cy=\"18\" r=\"2\"/><circle cx=\"6\" cy=\"18\" r=\"2\"/><path d=\"M6 8v8\"/><path d=\"M18 16a8 8 0 0 0 -8 -8h-2\"/>"@,
        TablerIcon::GripVertical => "<circle cx=\"8\" cy=\"6\" r=\"1\"/><circle cx=\"16\" cy=\"6\" r=\"1\"/><circle cx=\"8\" cy=\"12\" r=\"1\"/><circle cx=\"16\" cy=\"12\" r=\"1\"/><circle cx=\"8\" cy=\"18\" r=\"1\"/><circle cx=\"16\" cy=\"18\" r=\"1\"/>"@,
        TablerIcon::MessageCircle => "<path d=\"M3 20l1.3 -3.9a9 9 0 1 1 3.7 3.7l-4 1.2\"/><path d=\"M8 12h.01\"/><path d=\"M12 12h.01\"/><path d=\"M16 12h.01\"/>"@,
        TablerIcon::PanelLeft => "<rect x=\"3\" y=\"4\" width=\"18\" height=\"16\" rx=\"2\"/><path d=\"M9 4v16\"/>"@,
        TablerIcon::PanelRight => "<rect x=\"3\" y=\"4\" width=\"18\" height=\"16\" rx=\"2\"/><path d=\"M15 4v16\"/>"@,
        TablerIcon::Paperclip => "<path d=\"M15 7l-6.5 6.5a2.121 2.121 0 0 0 3 3l6.5 -6.5a4.243 4.243 0 0 0 -6 -6l-6.5 6.5a6.364 6.364 0 0 0 9 9l6.5 -6.5\"/>"@,
        TablerIcon::Pencil => "<path d=\"M4 20h4l10.5 -10.5a2.828 2.828 0 1 0 -4 -4l-10.5 10.5v4\"/><path d=\"M13.5 6.5l4 4\"/>"@,
        TablerIcon::Pin => "<path d=\"M15 4.5l-4 4l-4 1l-1 1l4.5 4.5l1 -4l4 -4z\"/><path d=\"M9 15l-4.5 4.5\"/><path d=\"M14.5 4l5.5 5.5\"/>"@,
        TablerIcon::Plus => "<path d=\"M12 5l0 14\"/><path d=\"M5 12l14 0\"/>"@,
        TablerIcon::Search => "<circle cx=\"10\" cy=\"10\" r=\"7\"/><path d=\"M21 21l-6 -6\"/>"@,
        TablerIcon::Settings => "<path d=\"M10.325 4.317c.426 -1.756 2.924 -1.756 3.35 0a1.724 1.724 0 0 0 2.573 1.066c1.543 -.94 3.543 .826 2.588 2.37a1.724 1.724 0 0 0 1.065 2.572c1.756 .426 1.756 2.924 0 3.35a1.724 1.724 0 0 0 -1.066 2.573c.94 1.543 -.826 3.543 -2.37 2.588a1.724 1.724 0 0 0 -2.572 1.065c-.426 1.756 -2.924 1.756 -3.35 0a1.724 1.724 0 0 0 -2.573 -1.066c-1.543 .94 -3.543 -.826 -2.588 -2.37a1.724 1.724 0 0 0 -1.065 -2.572c-1.756 -.426 -1.756 -2.924 0 -3.35a1.724 1.724 0 0 0 1.066 -2.573c-.94 -1.543 .826 -3.543 2.37 -2.588a1.724 1.724 0 0 0 2.572 -1.065\"/><circle cx=\"12\" cy=\"12\" r=\"3\"/>"@,
        TablerIcon::ShieldLock => "<path d=\"M12 3a12 12 0 0 0 8.5 3a12 12 0 0 1 -8.5 15a12 12 0 0 1 -8.5 -15a12 12 0 0 0 8.5 -3\"/><path d=\"M12 11m-1 0a1 1 0 1 0 2 0a1 1 0 1 0 -2 0\"/><path d=\"M12 12l0 2.5\"/>"@,
        TablerIcon::SlidersHorizontal => "<line x1=\"4\" y1=\"6\" x2=\"20\" y2=\"6\"/><line x1=\"4\" y1=\"12\" x2=\"20\" y2=\"12\"/><line x1=\"4\" y1=\"18\" x2=\"20\" y2=\"18\"/><circle cx=\"8\" cy=\"6\" r=\"2\"/><circle cx=\"16\" cy=\"12\" r=\"2\"/><circle cx=\"10\" cy=\"18\" r=\"2\"/>"@,
        TablerIcon::Square => "<rect x=\"5\" y=\"5\" width=\"14\" height=\"14\" rx=\"2\"/>"@,
        TablerIcon::Terminal2 => "<path d=\"M4 5a2 2 0 0 1 2 -2h12a2 2 0 0 1 2 2v14a2 2 0 0 1 -2 2h-12a2 2 0 0 1 -2 -2z\"/><path d=\"M8 9l3 3l-3 3\"/><path d=\"M13 15l3 0\"/>"@,
        TablerIcon::UserCircle => "<circle cx=\"12\" cy=\"12\" r=\"9\"/><circle cx=\"12\" cy=\"10\" r=\"3\"/><path d=\"M6 19a6 6 0 0 1 12 0\"/>"@,
        TablerIcon::X => "<path d=\"M18 6l-12 12\"/><path d=\"M6 6l12 12\"/>"@,
    }
}

/// The opening tag of every icon document: a 24x24 view box stroked in the
/// current text color.
pub open spec fn svg_open() -> Seq<char> {
    "<svg xmlns=\"http://www.w3.org/2000/svg\" viewBox=\"0 0 24 24\" fill=\"none\" stroke=\"currentColor\" stroke-width=\"1.8\" stroke-linecap=\"round\" stroke-linejoin=\"round\">"@
}

/// The SVG document of an icon.
pub open spec fn icon_document(icon: TablerIcon) -> Seq<char> {
    svg_open() + icon_body(icon) + "</svg>"@
}

impl TablerIcon {
    /// Every icon, in declaration order.
    pub fn all() -> (r: Vec<TablerIcon>)
        ensures
            r@ == all_icons(),
    {
        let r = vec![
            TablerIcon::Archive,
            TablerIcon::ArrowLeft,
            TablerIcon::ArrowUp,
            TablerIcon::Browser,
            TablerIcon::Bulb,
            TablerIcon::ChevronDown,
            TablerIcon::ChevronRight,
            TablerIcon::Dots,
            TablerIcon::ExternalLink,
            TablerIcon::File,
            TablerIcon::FileCode,
            TablerIcon::Folder,
            TablerIcon::GitBranch,
            TablerIcon::GripVertical,
            TablerIcon::MessageCircle,
            TablerIcon::PanelLeft,
            TablerIcon::PanelRight,
            TablerIcon::Paperclip,
            TablerIcon::Pencil,
            TablerIcon::Pin,
            TablerIcon::Plus,
            TablerIcon::Search,
            TablerIcon::Settings,
            TablerIcon::ShieldLock,
            TablerIcon::SlidersHorizontal,
            TablerIcon::Square,
            TablerIcon::Terminal2,
            TablerIcon::UserCircle,
            TablerIcon::X,
        ];
        assert(r@ =~= all_icons());
        r
    }

    pub fn asset_path(self) -> (r: &'static str)
        ensures
            r@ == icon_path(self),
    {
        match self {
            TablerIcon::Archive => "icons/archive.svg",
            TablerIcon::ArrowLeft => "icons/arrow-left.svg",
            TablerIcon::ArrowUp => "icons/arrow-up.svg",
            TablerIcon::Browser => "icons/browser.svg",
            TablerIcon::Bulb => "icons/bulb.svg",
            TablerIcon::ChevronDown => "icons/chevron-down.svg",
            TablerIcon::ChevronRight => "icons/chevron-right.svg",
            TablerIcon::Dots => "icons/dots.svg",
            TablerIcon::ExternalLink => "icons/external-link.svg",
            TablerIcon::File => "icons/file.svg",
            TablerIcon::FileCode => "icons/file-code.svg",
            TablerIcon::Folder => "icons/folder.svg",
            TablerIcon::GitBranch => "icons/git-branch.svg",
            TablerIcon::GripVertical => "icons/grip-vertical.svg",
            TablerIcon::MessageCircle => "icons/message-circle.svg",
            TablerIcon::PanelLeft => "icons/panel-left.svg",
            TablerIcon::PanelRight => "icons/panel-right.svg",
            TablerIcon::Paperclip => "icons/paperclip.svg",
            TablerIcon::Pencil => "icons/pencil.svg",
            TablerIcon::Pin => "icons/pin.svg",
            TablerIcon::Plus => "icons/plus.svg",
            TablerIcon::Search => "icons/search.svg",
            TablerIcon::Settings => "icons/settings.svg",
            TablerIcon::ShieldLock => "icons/shield-lock.svg",
            TablerIcon::SlidersHorizontal => "icons/sliders-horizontal.svg",
            TablerIcon::Square => "icons/square.svg",
            TablerIcon::Terminal2 => "icons/terminal-2.svg",
            TablerIcon::UserCircle => "icons/user-circle.svg",
            TablerIcon::X => "icons/x.svg",
        }
    }

    pub fn body(self) -> (r: &'static str)
        ensures
            r@ == icon_body(self),
    {
        match self {
            TablerIcon::Archive => "<path d=\"M3 4m0 2a2 2 0 0 1 2 -2h14a2 2 0 0 1 2 2v0a2 2 0 0 1 -2 2h-14a2 2 0 0 1 -2 -2z\"/><path d=\"M5 8v10a2 2 0 0 0 2 2h10a2 2 0 0 0 2 -2v-10\"/><path d=\"M10 12l4 0\"/>",
            TablerIcon::ArrowLeft => "<path d=\"M5 12l6 -6\"/><path d=\"M5 12l6 6\"/><path d=\"M5 12h14\"/>",
            TablerIcon::ArrowUp => "<path d=\"M12 5l0 14\"/><path d=\"M18 11l-6 -6l-6 6\"/>",
            TablerIcon::Browser => "<rect x=\"4\" y=\"4\" width=\"16\" height=\"16\" rx=\"2\"/><path d=\"M4 9h16\"/><path d=\"M8 4v5\"/>",
            TablerIcon::Bulb => "<path d=\"M3 12h1m8 -9v1m8 8h1m-15.4 -6.4l.7 .7m12.1 -.7l-.7 .7\"/><path d=\"M9 16a5 5 0 1 1 6 0a3.5 3.5 0 0 0 -1 3a2 2 0 0 1 -4 0a3.5 3.5 0 0 0 -1 -3\"/><path d=\"M9.7 17l4.6 0\"/>",
            TablerIcon::ChevronDown => "<path d=\"M6 9l6 6l6 -6\"/>",
            TablerIcon::ChevronRight => "<path d=\"M9 6l6 6l-6 6\"/>",
            TablerIcon::Dots => "<circle cx=\"5\" cy=\"12\" r=\"1\"/><circle cx=\"12\" cy=\"12\" r=\"1\"/><circle cx=\"19\" cy=\"12\" r=\"1\"/>",
            TablerIcon::ExternalLink => "<path d=\"M11 7h-4a2 2 0 0 0 -2 2v8a2 2 0 0 0 2 2h8a2 2 0 0 0 2 -2v-4\"/><path d=\"M10 14l9 -9\"/><path d=\"M15 5h4v4\"/>",
            TablerIcon::File => "<path d=\"M14 3v4a1 1 0 0 0 1 1h4\"/><path d=\"M17 21h-10a2 2 0 0 1 -2 -2v-14a2 2 0 0 1 2 -2h7l5 5v11a2 2 0 0 1 -2 2z\"/>",
            TablerIcon::FileCode => "<path d=\"M14 3v4a1 1 0 0 0 1 1h4\"/><path d=\"M17 21h-10a2 2 0 0 1 -2 -2v-14a2 2 0 0 1 2 -2h7l5 5v11a2 2 0 0 1 -2 2z\"/><path d=\"M10 13l-2 2l2 2\"/><path d=\"M14 13l2 2l-2 2\"/>",
            TablerIcon::Folder => "<path d=\"M5 4h4l3 3h7a2 2 0 0 1 2 2v7a2 2 0 0 1 -2 2h-14a2 2 0 0 1 -2 -2v-10a2 2 0 0 1 2 -2\"/>",
            TablerIcon::GitBranch => "<circle cx=\"6\" cy=\"6\" r=\"2\"/><circle cx=\"18\" cy=\"18\" r=\"2\"/><circle cx=\"6\" cy=\"18\" r=\"2\"/><path d=\"M6 8v8\"/><path d=\"M18 16a8 8 0 0 0 -8 -8h-2\"/>",
            TablerIcon::GripVertical => "<circle cx=\"8\" cy=\"6\" r=\"1\"/><circle cx=\"16\" cy=\"6\" r=\"1\"/><circle cx=\"8\" cy=\"12\" r=\"1\"/><circle cx=\"16\" cy=\"12\" r=\"1\"/><circle cx=\"8\" cy=\"18\" r=\"1\"/><circle cx=\"16\" cy=\"18\" r=\"1\"/>",
            TablerIcon::MessageCircle => "<path d=\"M3 20l1.3 -3.9a9 9 0 1 1 3.7 3.7l-4 1.2\"/><path d=\"M8 12h.01\"/><path d=\"M12 12h.01\"/><path d=\"M16 12h.01\"/>",
            TablerIcon::PanelLeft => "<rect x=\"3\" y=\"4\" width=\"18\" height=\"16\" rx=\"2\"/><path d=\"M9 4v16\"/>",
            TablerIcon::PanelRight => "<rect x=\"3\" y=\"4\" width=\"18\" height=\"16\" rx=\"2\"/><path d=\"M15 4v16\"/>",
            TablerIcon::Paperclip => "<path d=\"M15 7l-6.5 6.5a2.121 2.121 0 0 0 3 3l6.5 -6.5a4.243 4.243 0 0 0 -6 -6l-6.5 6.5a6.364 6.364 0 0 0 9 9l6.5 -6.5\"/>",
            TablerIcon::Pencil => "<path d=\"M4 20h4l10.5 -10.5a2.828 2.828 0 1 0 -4 -4l-10.5 10.5v4\"/><path d=\"M13.5 6.5l4 4\"/>",
            TablerIcon::Pin => "<path d=\"M15 4.5l-4 4l-4 1l-1 1l4.5 4.5l1 -4l4 -4z\"/><path d=\"M9 15l-4.5 4.5\"/><path d=\"M14.5 4l5.5 5.5\"/>",
            TablerIcon::Plus => "<path d=\"M12 5l0 14\"/><path d=\"M5 12l14 0\"/>",
            TablerIcon::Search => "<circle cx=\"10\" cy=\"10\" r=\"7\"/><path d=\"M21 21l-6 -6\"/>",
            TablerIcon::Settings => "<path d=\"M10.325 4.317c.426 -1.756 2.924 -1.756 3.35 0a1.724 1.724 0 0 0 2.573 1.066c1.543 -.94 3.543 .826 2.588 2.37a1.724 1.724 0 0 0 1.065 2.572c1.756 .426 1.756 2.924 0 3.35a1.724 1.724 0 0 0 -1.066 2.573c.94 1.543 -.826 3.543 -2.37 2.588a1.724 1.724 0 0 0 -2.572 1.065c-.426 1.756 -2.924 1.756 -3.35 0a1.724 1.724 0 0 0 -2.573 -1.066c-1.543 .94 -3.543 -.826 -2.588 -2.37a1.724 1.724 0 0 0 -1.065 -2.572c-1.756 -.426 -1.756 -2.924 0 -3.35a1.724 1.724 0 0 0 1.066 -2.573c-.94 -1.543 .826 -3.543 2.37 -2.588a1.724 1.724 0 0 0 2.572 -1.065\"/><circle cx=\"12\" cy=\"12\" r=\"3\"/>",
            TablerIcon::ShieldLock => "<path d=\"M12 3a12 12 0 0 0 8.5 3a12 12 0 0 1 -8.5 15a12 12 0 0 1 -8.5 -15a12 12 0 0 0 8.5 -3\"/><path d=\"M12 11m-1 0a1 1 0 1 0 2 0a1 1 0 1 0 -2 0\"/><path d=\"M12 12l0 2.5\"/>",
            TablerIcon::SlidersHorizontal => "<line x1=\"4\" y1=\"6\" x2=\"20\" y2=\"6\"/><line x1=\"4\" y1=\"12\" x2=\"20\" y2=\"12\"/><line x1=\"4\" y1=\"18\" x2=\"20\" y2=\"18\"/><circle cx=\"8\" cy=\"6\" r=\"2\"/><circle cx=\"16\" cy=\"12\" r=\"2\"/><circle cx=\"10\" cy=\"18\" r=\"2\"/>",
            TablerIcon::Square => "<rect x=\"5\" y=\"5\" width=\"14\" height=\"14\" rx=\"2\"/>",
            TablerIcon::Terminal2 => "<path d=\"M4 5a2 2 0 0 1 2 -2h12a2 2 0 0 1 2 2v14a2 2 0 0 1 -2 2h-12a2 2 0 0 1 -2 -2z\"/><path d=\"M8 9l3 3l-3 3\"/><path d=\"M13 15l3 0\"/>",
            TablerIcon::UserCircle => "<circle cx=\"12\" cy=\"12\" r=\"9\"/><circle cx=\"12\" cy=\"10\" r=\"3\"/><path d=\"M6 19a6 6 0 0 1 12 0\"/>",
            TablerIcon::X => "<path d=\"M18 6l-12 12\"/><path d=\"M6 6l12 12\"/>",
        }
    }

    /// The icon's SVG document.
    pub fn document(self) -> (r: String)
        ensures
            r@ == icon_document(self),
    {
        let mut s = "<svg xmlns=\"http://www.w3.org/2000/svg\" viewBox=\"0 0 24 24\" fill=\"none\" stroke=\"currentColor\" stroke-width=\"1.8\" stroke-linecap=\"round\" stroke-linejoin=\"round\">".to_owned();
        push_str(&mut s, self.body());
        push_str(&mut s, "</svg>");
        s
    }
}

/// Index of the first icon in `icons` whose asset path is `path`.
pub open spec fn first_with_path(icons: Seq<TablerIcon>, path: Seq<char>) -> Option<int>
    decreases icons.len(),
{
    if icons.len() == 0 {
        None
    } else if icon_path(icons[0]) == path {
        Some(0)
    } else {
        match first_with_path(icons.drop_first(), path) {
            Some(i) => Some(i + 1),
            None => None,
        }
    }
}

/// The document served for an asset path: that of the first icon with the
/// path, or none.
pub open spec fn asset_document(path: Seq<char>) -> Option<Seq<char>> {
    match first_with_path(all_icons(), path) {
        Some(i) => Some(icon_document(all_icons()[i])),
        None => None,
    }
}

/// The asset source that serves the icons' SVG documents.
pub struct IconAssets;

impl IconAssets {
    /// The SVG document at an asset path, if an icon has that path.
    pub fn load(&self, path: &str) -> (r: Option<String>)
        ensures
            match r {
                Some(d) => asset_document(path@) == Some(d@),
                None => asset_document(path@) is None,
            },
    {
        let icons = TablerIcon::all();
        let ghost all = all_icons();
        let mut k: usize = 0;
        assert(all.skip(0) =~= all);
        while k < icons.len()
            invariant
                0 <= k <= icons.len(),
                icons@ == all,
                all == all_icons(),
                first_with_path(all, path@) == (match first_with_path(all.skip(k as int), path@) {
                    Some(i) => Some(i + k),
                    None => None,
                }),
            decreases icons.len() - k,
        {
            assert(all.skip(k as int)[0] == all[k as int]);
            assert(all.skip(k as int).drop_first() =~= all.skip(k + 1));
            if str_eq(icons[k].asset_path(), path) {
                return Some(icons[k].document());
            }
            k = k + 1;
        }
        None
    }
}

proof fn lemma_first_with_path(icons: Seq<TablerIcon>, path: Seq<char>, k: int)
    requires
        0 <= k < icons.len(),
        icon_path(icons[k]) == path,
    ensures
        first_with_path(icons, path) is Some,
    decreases icons.len(),
{
    if k > 0 && icon_path(icons[0]) != path {
        assert(icons.drop_first()[k - 1] == icons[k]);
        lemma_first_with_path(icons.drop_first(), path, k - 1);
    }
}

/// Every icon is listed, at its index.
pub proof fn lemma_all_icons(icon: TablerIcon)
    ensures
        0 <= icon_index(icon) < all_icons().len(),
        all_icons()[icon_index(icon)] == icon,
{
}

/// Every icon has a loadable document: the asset source serves a document
/// at each icon's asset path.
pub proof fn lemma_every_icon_loads(icon: TablerIcon)
    ensures
        asset_document(icon_path(icon)) is Some,
{
    lemma_all_icons(icon);
    lemma_first_with_path(all_icons(), icon_path(icon), icon_index(icon));
}

} // verus!
