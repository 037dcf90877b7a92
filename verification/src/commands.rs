//! The command registry: every command the palette offers, grouped into
//! categories, with the action that runs it.

use vstd::prelude::*;
use crate::text::is_blank;

verus! {

/// Top-level grouping of a palette command. Drives the badge, the icon
/// fallback and the sort priority (Tab < Pane < Session < Mode < System).
#[derive(Clone, Copy, Debug, PartialEq, Eq, Hash, Structural)]
pub enum Category {
    Tab,
    Pane,
    Session,
    Mode,
    System,
}

/// The fixed-width badge shown before a command's brief.
pub open spec fn badge_spec(c: Category) -> Seq<char> {
    match c {
        Category::Tab => "[Tab]"@,
        Category::Pane => "[Pane]"@,
        Category::Session => "[Sess]"@,
        Category::Mode => "[Mode]"@,
        Category::System => "[Sys] "@,
    }
}

/// The single-char ASCII icon of a category.
pub open spec fn icon_spec(c: Category) -> char {
    match c {
        Category::Tab => '#',
        Category::Pane => '[',
        Category::Session => '~',
        Category::Mode => '>',
        Category::System => '*',
    }
}

/// Sort priority of a category: lower sorts first.
pub open spec fn priority_spec(c: Category) -> u8 {
    match c {
        Category::Tab => 1,
        Category::Pane => 2,
        Category::Session => 3,
        Category::Mode => 4,
        Category::System => 5,
    }
}

impl Category {
    /// Short fixed-width badge rendered before the command brief, e.g. `[Tab]`.
    pub fn badge(&self) -> (s: &'static str)
        ensures
            s@ == badge_spec(*self),
    {
        match self {
            Category::Tab => "[Tab]",
            Category::Pane => "[Pane]",
            Category::Session => "[Sess]",
            Category::Mode => "[Mode]",
            Category::System => "[Sys] ",
        }
    }

    /// ASCII fallback icon of the category.
    pub fn icon(&self) -> (c: char)
        ensures
            c == icon_spec(*self),
    {
        match self {
            Category::Tab => '#',
            Category::Pane => '[',
            Category::Session => '~',
            Category::Mode => '>',
            Category::System => '*',
        }
    }

    /// Sort priority in the empty-query listing; lower comes first.
    pub fn priority(&self) -> (p: u8)
        ensures
            p == priority_spec(*self),
            1 <= p <= 5,
    {
        match self {
            Category::Tab => 1,
            Category::Pane => 2,
            Category::Session => 3,
            Category::Mode => 4,
            Category::System => 5,
        }
    }
}

/// A parameter-less action the palette can fire. Each variant is run by the
/// host-side dispatcher.
#[derive(Clone, Copy, Debug, PartialEq, Eq, Hash, Structural)]
pub enum CommandAction {
    // --- Tab ---
    NewTab,
    CloseTab,
    NextTab,
    PreviousTab,
    GoToTab,
    GoToTab1,
    GoToTab2,
    GoToTab3,
    GoToTab4,
    GoToTab5,
    RenameTab,
    // --- Pane ---
    NewPaneRight,
    NewPaneDown,
    ClosePane,
    MoveFocusUp,
    MoveFocusDown,
    MoveFocusLeft,
    MoveFocusRight,
    ToggleFloating,
    ToggleFullscreen,
    ToggleFrames,
    EnterResize,
    // --- Session ---
    SwitchSession,
    DetachSession,
    KillSession,
    // --- Mode ---
    EnterPaneMode,
    EnterTabMode,
    EnterMoveMode,
    EnterSearchMode,
    EnterLockedMode,
    EnterNormalMode,
    // --- System ---
    ReloadConfig,
    Quit,
}

/// One palette entry. All text is `'static`, so a `Command` is cheap to copy
/// around the render loop.
#[derive(Clone, Debug)]
pub struct Command {
    /// Stable unique identifier, e.g. `"tab.new"`.
    pub id: &'static str,
    /// One-line label shown in the result list.
    pub brief: &'static str,
    /// Longer description.
    pub doc: &'static str,
    /// Extra fuzzy keywords beyond the words of `brief`.
    pub keywords: &'static [&'static str],
    /// Optional single-character icon; falls back to the category icon.
    pub icon: Option<char>,
    /// Optional default keybinding hint, display only.
    pub shortcut: Option<&'static str>,
    /// Grouping used for badges, colors and sort priority.
    pub category: Category,
    /// What runs when the user selects this command.
    pub action: CommandAction,
}

/// A command with its text as character sequences.
pub struct CommandView {
    pub id: Seq<char>,
    pub brief: Seq<char>,
    pub doc: Seq<char>,
    pub keywords: Seq<Seq<char>>,
    pub icon: Option<char>,
    pub shortcut: Option<Seq<char>>,
    pub category: Category,
    pub action: CommandAction,
}

impl View for Command {
    type V = CommandView;

    open spec fn view(&self) -> CommandView {
        CommandView {
            id: self.id@,
            brief: self.brief@,
            doc: self.doc@,
            keywords: self.keywords@.map_values(|k: &str| k@),
            icon: self.icon,
            shortcut: match self.shortcut {
                Some(s) => Some(s@),
                None => None,
            },
            category: self.category,
            action: self.action,
        }
    }
}

/// The icon a command is drawn with: its own, else its category's.
pub open spec fn effective_icon_spec(c: CommandView) -> char {
    match c.icon {
        Some(i) => i,
        None => icon_spec(c.category),
    }
}

impl Command {
    /// Effective icon: the per-command override if present, else the
    /// category icon.
    pub fn effective_icon(&self) -> (c: char)
        ensures
            c == effective_icon_spec(self@),
    {
        match self.icon {
            Some(i) => i,
            None => self.category.icon(),
        }
    }
}

/// The command registered for `action`.
pub open spec fn command_spec(action: CommandAction) -> CommandView {
    match action {
        CommandAction::NewTab => CommandView {
            id: "tab.new"@,
            brief: "New Tab"@,
            doc: "Open a new tab with the default layout."@,
            keywords: seq!["create"@, "open"@, "add"@],
            icon: Some('+'),
            shortcut: Some("Ctrl+T"@),
            category: Category::Tab,
            action: CommandAction::NewTab,
        },
        CommandAction::CloseTab => CommandView {
            id: "tab.close"@,
            brief: "Close Tab"@,
            doc: "Close the currently focused tab."@,
            keywords: seq!["destroy"@, "remove"@, "kill"@],
            icon: Some('x'),
            shortcut: None,
            category: Category::Tab,
            action: CommandAction::CloseTab,
        },
        CommandAction::NextTab => CommandView {
            id: "tab.next"@,
            brief: "Next Tab"@,
            doc: "Focus the next tab, looping back to the first."@,
            keywords: seq!["forward"@, "right"@],
            icon: Some('>'),
            shortcut: None,
            category: Category::Tab,
            action: CommandAction::NextTab,
        },
        CommandAction::PreviousTab => CommandView {
            id: "tab.previous"@,
            brief: "Previous Tab"@,
            doc: "Focus the previous tab, looping back to the last."@,
            keywords: seq!["back"@, "left"@],
            icon: Some('<'),
            shortcut: None,
            category: Category::Tab,
            action: CommandAction::PreviousTab,
        },
        CommandAction::GoToTab => CommandView {
            id: "tab.go_to"@,
            brief: "Go to Tab"@,
            doc: "Enter Tab mode to interactively pick a tab."@,
            keywords: seq!["switch"@, "select"@, "jump"@],
            icon: Some('#'),
            shortcut: None,
            category: Category::Tab,
            action: CommandAction::GoToTab,
        },
        CommandAction::GoToTab1 => CommandView {
            id: "tab.go_to_1"@,
            brief: "Go to Tab 1"@,
            doc: "Switch directly to tab index 1."@,
            keywords: seq!["one"@, "first"@],
            icon: Some('1'),
            shortcut: Some("Alt+1"@),
            category: Category::Tab,
            action: CommandAction::GoToTab1,
        },
        CommandAction::GoToTab2 => CommandView {
            id: "tab.go_to_2"@,
            brief: "Go to Tab 2"@,
            doc: "Switch directly to tab index 2."@,
            keywords: seq!["two"@, "second"@],
            icon: Some('2'),
            shortcut: Some("Alt+2"@),
            category: Category::Tab,
            action: CommandAction::GoToTab2,
        },
        CommandAction::GoToTab3 => CommandView {
            id: "tab.go_to_3"@,
            brief: "Go to Tab 3"@,
            doc: "Switch directly to tab index 3."@,
            keywords: seq!["three"@, "third"@],
            icon: Some('3'),
            shortcut: Some("Alt+3"@),
            category: Category::Tab,
            action: CommandAction::GoToTab3,
        },
        CommandAction::GoToTab4 => CommandView {
            id: "tab.go_to_4"@,
            brief: "Go to Tab 4"@,
            doc: "Switch directly to tab index 4."@,
            keywords: seq!["four"@],
            icon: Some('4'),
            shortcut: Some("Alt+4"@),
            category: Category::Tab,
            action: CommandAction::GoToTab4,
        },
        CommandAction::GoToTab5 => CommandView {
            id: "tab.go_to_5"@,
            brief: "Go to Tab 5"@,
            doc: "Switch directly to tab index 5."@,
            keywords: seq!["five"@],
            icon: Some('5'),
            shortcut: Some("Alt+5"@),
            category: Category::Tab,
            action: CommandAction::GoToTab5,
        },
        CommandAction::RenameTab => CommandView {
            id: "tab.rename"@,
            brief: "Rename Tab"@,
            doc: "Enter RenameTab mode to give the focused tab a new name."@,
            keywords: seq!["name"@, "title"@, "label"@],
            icon: Some('r'),
            shortcut: None,
            category: Category::Tab,
            action: CommandAction::RenameTab,
        },
        CommandAction::NewPaneRight => CommandView {
            id: "pane.new_right"@,
            brief: "New Pane (Right)"@,
            doc: "Split the focused pane horizontally, creating a new pane to the right."@,
            keywords: seq!["split"@, "horizontal"@, "create"@, "vsplit"@],
            icon: Some('|'),
            shortcut: None,
            category: Category::Pane,
            action: CommandAction::NewPaneRight,
        },
        CommandAction::NewPaneDown => CommandView {
            id: "pane.new_down"@,
            brief: "New Pane (Down)"@,
            doc: "Split the focused pane vertically, creating a new pane below."@,
            keywords: seq!["split"@, "vertical"@, "create"@, "hsplit"@],
            icon: Some('-'),
            shortcut: None,
            category: Category::Pane,
            action: CommandAction::NewPaneDown,
        },
        CommandAction::ClosePane => CommandView {
            id: "pane.close"@,
            brief: "Close Pane"@,
            doc: "Close the currently focused pane."@,
            keywords: seq!["destroy"@, "kill"@, "remove"@],
            icon: Some('x'),
            shortcut: None,
            category: Category::Pane,
            action: CommandAction::ClosePane,
        },
        CommandAction::MoveFocusUp => CommandView {
            id: "pane.move_focus_up"@,
            brief: "Move Focus Up"@,
            doc: "Move focus to the pane above the current one."@,
            keywords: seq!["up"@, "north"@, "k"@],
            icon: Some('^'),
            shortcut: None,
            category: Category::Pane,
            action: CommandAction::MoveFocusUp,
        },
        CommandAction::MoveFocusDown => CommandView {
            id: "pane.move_focus_down"@,
            brief: "Move Focus Down"@,
            doc: "Move focus to the pane below the current one."@,
            keywords: seq!["down"@, "south"@, "j"@],
            icon: Some('v'),
            shortcut: None,
            category: Category::Pane,
            action: CommandAction::MoveFocusDown,
        },
        CommandAction::MoveFocusLeft => CommandView {
            id: "pane.move_focus_left"@,
            brief: "Move Focus Left"@,
            doc: "Move focus to the pane to the left of the current one."@,
            keywords: seq!["left"@, "west"@, "h"@],
            icon: Some('<'),
            shortcut: None,
            category: Category::Pane,
            action: CommandAction::MoveFocusLeft,
        },
        CommandAction::MoveFocusRight => CommandView {
            id: "pane.move_focus_right"@,
            brief: "Move Focus Right"@,
            doc: "Move focus to the pane to the right of the current one."@,
            keywords: seq!["right"@, "east"@, "l"@],
            icon: Some('>'),
            shortcut: None,
            category: Category::Pane,
            action: CommandAction::MoveFocusRight,
        },
        CommandAction::ToggleFloating => CommandView {
            id: "pane.toggle_floating"@,
            brief: "Toggle Floating"@,
            doc: "Show or hide all floating panes in the current tab."@,
            keywords: seq!["float"@, "layer"@, "overlay"@],
            icon: Some('o'),
            shortcut: Some("Ctrl+G"@),
            category: Category::Pane,
            action: CommandAction::ToggleFloating,
        },
        CommandAction::ToggleFullscreen => CommandView {
            id: "pane.toggle_fullscreen"@,
            brief: "Toggle Fullscreen"@,
            doc: "Expand the focused pane to fill the tab, or restore it."@,
            keywords: seq!["maximize"@, "zoom"@, "full"@],
            icon: Some('F'),
            shortcut: None,
            category: Category::Pane,
            action: CommandAction::ToggleFullscreen,
        },
        CommandAction::ToggleFrames => CommandView {
            id: "pane.toggle_frames"@,
            brief: "Toggle Pane Frames"@,
            doc: "Toggle the UI frame drawn around panes."@,
            keywords: seq!["border"@, "frame"@, "ui"@],
            icon: Some('['),
            shortcut: None,
            category: Category::Pane,
            action: CommandAction::ToggleFrames,
        },
        CommandAction::EnterResize => CommandView {
            id: "pane.enter_resize"@,
            brief: "Enter Resize Mode"@,
            doc: "Switch to Resize mode so the focused pane can be resized with the arrow keys."@,
            keywords: seq!["resize"@, "grow"@, "shrink"@, "size"@],
            icon: Some('R'),
            shortcut: None,
            category: Category::Pane,
            action: CommandAction::EnterResize,
        },
        CommandAction::SwitchSession => CommandView {
            id: "session.switch"@,
            brief: "Switch Session"@,
            doc: "Enter Session mode to switch between or create sessions."@,
            keywords: seq!["change"@, "connect"@, "attach"@],
            icon: Some('~'),
            shortcut: None,
            category: Category::Session,
            action: CommandAction::SwitchSession,
        },
        CommandAction::DetachSession => CommandView {
            id: "session.detach"@,
            brief: "Detach Session"@,
            doc: "Detach this client from the active session, leaving it running in the background."@,
            keywords: seq!["background"@, "leave"@, "logout"@],
            icon: Some('D'),
            shortcut: None,
            category: Category::Session,
            action: CommandAction::DetachSession,
        },
        CommandAction::KillSession => CommandView {
            id: "session.kill"@,
            brief: "Kill Session"@,
            doc: "Enter Session mode to terminate a session. Destructive — the UI asks for Y/N confirmation."@,
            keywords: seq!["destroy"@, "terminate"@, "end"@],
            icon: Some('K'),
            shortcut: None,
            category: Category::Session,
            action: CommandAction::KillSession,
        },
        CommandAction::EnterPaneMode => CommandView {
            id: "mode.pane"@,
            brief: "Pane Mode"@,
            doc: "Switch to Pane mode (split, close, move between panes)."@,
            keywords: seq!["enter"@, "switch"@],
            icon: Some('P'),
            shortcut: Some("Ctrl+P"@),
            category: Category::Mode,
            action: CommandAction::EnterPaneMode,
        },
        CommandAction::EnterTabMode => CommandView {
            id: "mode.tab"@,
            brief: "Tab Mode"@,
            doc: "Switch to Tab mode (create, close, switch tabs)."@,
            keywords: seq!["enter"@, "switch"@],
            icon: Some('T'),
            shortcut: Some("Ctrl+T"@),
            category: Category::Mode,
            action: CommandAction::EnterTabMode,
        },
        CommandAction::EnterMoveMode => CommandView {
            id: "mode.move"@,
            brief: "Move Mode"@,
            doc: "Switch to Move mode to reorder panes within the tab."@,
            keywords: seq!["reorder"@, "arrange"@],
            icon: Some('M'),
            shortcut: None,
            category: Category::Mode,
            action: CommandAction::EnterMoveMode,
        },
        CommandAction::EnterSearchMode => CommandView {
            id: "mode.search"@,
            brief: "Search Mode"@,
            doc: "Switch to Search mode to find text in the scrollback of the focused pane."@,
            keywords: seq!["find"@, "grep"@, "lookup"@],
            icon: Some('/'),
            shortcut: Some("Ctrl+S"@),
            category: Category::Mode,
            action: CommandAction::EnterSearchMode,
        },
        CommandAction::EnterLockedMode => CommandView {
            id: "mode.locked"@,
            brief: "Locked Mode"@,
            doc: "Switch to Locked mode — all shortcuts except the unlock key are disabled."@,
            keywords: seq!["lock"@, "passthrough"@, "raw"@],
            icon: Some('L'),
            shortcut: Some("Ctrl+G"@),
            category: Category::Mode,
            action: CommandAction::EnterLockedMode,
        },
        CommandAction::EnterNormalMode => CommandView {
            id: "mode.normal"@,
            brief: "Normal Mode"@,
            doc: "Return to Normal mode from any other mode."@,
            keywords: seq!["default"@, "reset"@, "esc"@],
            icon: Some('N'),
            shortcut: None,
            category: Category::Mode,
            action: CommandAction::EnterNormalMode,
        },
        CommandAction::ReloadConfig => CommandView {
            id: "system.reload_config"@,
            brief: "Reload Config"@,
            doc: "Re-apply the zellij configuration. (MVP note: issues an empty reconfigure call pending a dedicated reload API.)"@,
            keywords: seq!["reconfigure"@, "refresh"@, "settings"@],
            icon: Some('*'),
            shortcut: None,
            category: Category::System,
            action: CommandAction::ReloadConfig,
        },
        CommandAction::Quit => CommandView {
            id: "system.quit"@,
            brief: "Quit Zellij"@,
            doc: "Completely quit Zellij for this and all other connected clients. Destructive — the UI asks for Y/N confirmation."@,
            keywords: seq!["exit"@, "shutdown"@, "close"@],
            icon: Some('Q'),
            shortcut: Some("Ctrl+Q"@),
            category: Category::System,
            action: CommandAction::Quit,
        },
    }
}

/// The actions of the registry, in registry order.
pub open spec fn registry_actions() -> Seq<CommandAction> {
    seq![
        CommandAction::NewTab,
        CommandAction::CloseTab,
        CommandAction::NextTab,
        CommandAction::PreviousTab,
        CommandAction::GoToTab,
        CommandAction::GoToTab1,
        CommandAction::GoToTab2,
        CommandAction::GoToTab3,
        CommandAction::GoToTab4,
        CommandAction::GoToTab5,
        CommandAction::RenameTab,
        CommandAction::NewPaneRight,
        CommandAction::NewPaneDown,
        CommandAction::ClosePane,
        CommandAction::MoveFocusUp,
        CommandAction::MoveFocusDown,
        CommandAction::MoveFocusLeft,
        CommandAction::MoveFocusRight,
        CommandAction::ToggleFloating,
        CommandAction::ToggleFullscreen,
        CommandAction::ToggleFrames,
        CommandAction::EnterResize,
        CommandAction::SwitchSession,
        CommandAction::DetachSession,
        CommandAction::KillSession,
        CommandAction::EnterPaneMode,
        CommandAction::EnterTabMode,
        CommandAction::EnterMoveMode,
        CommandAction::EnterSearchMode,
        CommandAction::EnterLockedMode,
        CommandAction::EnterNormalMode,
        CommandAction::ReloadConfig,
        CommandAction::Quit,
    ]
}

/// The registry: one command per action, in registry order.
pub open spec fn registry() -> Seq<CommandView> {
    registry_actions().map_values(|a: CommandAction| command_spec(a))
}

/// The command registered for `action`.
fn command_for(action: CommandAction) -> (c: Command)
    ensures
        c@ == command_spec(action),
{
    match action {
        CommandAction::NewTab => {
            let c = Command {
                id: "tab.new",
                brief: "New Tab",
                doc: "Open a new tab with the default layout.",
                keywords: &["create", "open", "add"],
                icon: Some('+'),
                shortcut: Some("Ctrl+T"),
                category: Category::Tab,
                action: CommandAction::NewTab,
            };
            assert(c.keywords@ =~= seq!["create", "open", "add"]);
            assert(c@.keywords =~= command_spec(action).keywords);
            c
        },
        CommandAction::CloseTab => {
            let c = Command {
                id: "tab.close",
                brief: "Close Tab",
                doc: "Close the currently focused tab.",
                keywords: &["destroy", "remove", "kill"],
                icon: Some('x'),
                shortcut: None,
                category: Category::Tab,
                action: CommandAction::CloseTab,
            };
            assert(c.keywords@ =~= seq!["destroy", "remove", "kill"]);
            assert(c@.keywords =~= command_spec(action).keywords);
            c
        },
        CommandAction::NextTab => {
            let c = Command {
                id: "tab.next",
                brief: "Next Tab",
                doc: "Focus the next tab, looping back to the first.",
                keywords: &["forward", "right"],
                icon: Some('>'),
                shortcut: None,
                category: Category::Tab,
                action: CommandAction::NextTab,
            };
            assert(c.keywords@ =~= seq!["forward", "right"]);
            assert(c@.keywords =~= command_spec(action).keywords);
            c
        },
        CommandAction::PreviousTab => {
            let c = Command {
                id: "tab.previous",
                brief: "Previous Tab",
                doc: "Focus the previous tab, looping back to the last.",
                keywords: &["back", "left"],
                icon: Some('<'),
                shortcut: None,
                category: Category::Tab,
                action: CommandAction::PreviousTab,
            };
            assert(c.keywords@ =~= seq!["back", "left"]);
            assert(c@.keywords =~= command_spec(action).keywords);
            c
        },
        CommandAction::GoToTab => {
            let c = Command {
                id: "tab.go_to",
                brief: "Go to Tab",
                doc: "Enter Tab mode to interactively pick a tab.",
                keywords: &["switch", "select", "jump"],
                icon: Some('#'),
                shortcut: None,
                category: Category::Tab,
                action: CommandAction::GoToTab,
            };
            assert(c.keywords@ =~= seq!["switch", "select", "jump"]);
            assert(c@.keywords =~= command_spec(action).keywords);
            c
        },
        CommandAction::GoToTab1 => {
            let c = Command {
                id: "tab.go_to_1",
                brief: "Go to Tab 1",
                doc: "Switch directly to tab index 1.",
                keywords: &["one", "first"],
                icon: Some('1'),
                shortcut: Some("Alt+1"),
                category: Category::Tab,
                action: CommandAction::GoToTab1,
            };
            assert(c.keywords@ =~= seq!["one", "first"]);
            assert(c@.keywords =~= command_spec(action).keywords);
            c
        },
        CommandAction::GoToTab2 => {
            let c = Command {
                id: "tab.go_to_2",
                brief: "Go to Tab 2",
                doc: "Switch directly to tab index 2.",
                keywords: &["two", "second"],
                icon: Some('2'),
                shortcut: Some("Alt+2"),
                category: Category::Tab,
                action: CommandAction::GoToTab2,
            };
            assert(c.keywords@ =~= seq!["two", "second"]);
            assert(c@.keywords =~= command_spec(action).keywords);
            c
        },
        CommandAction::GoToTab3 => {
            let c = Command {
                id: "tab.go_to_3",
                brief: "Go to Tab 3",
                doc: "Switch directly to tab index 3.",
                keywords: &["three", "third"],
                icon: Some('3'),
                shortcut: Some("Alt+3"),
                category: Category::Tab,
                action: CommandAction::GoToTab3,
            };
            assert(c.keywords@ =~= seq!["three", "third"]);
            assert(c@.keywords =~= command_spec(action).keywords);
            c
        },
        CommandAction::GoToTab4 => {
            let c = Command {
                id: "tab.go_to_4",
                brief: "Go to Tab 4",
                doc: "Switch directly to tab index 4.",
                keywords: &["four"],
                icon: Some('4'),
                shortcut: Some("Alt+4"),
                category: Category::Tab,
                action: CommandAction::GoToTab4,
            };
            assert(c.keywords@ =~= seq!["four"]);
            assert(c@.keywords =~= command_spec(action).keywords);
            c
        },
        CommandAction::GoToTab5 => {
            let c = Command {
                id: "tab.go_to_5",
                brief: "Go to Tab 5",
                doc: "Switch directly to tab index 5.",
                keywords: &["five"],
                icon: Some('5'),
                shortcut: Some("Alt+5"),
                category: Category::Tab,
                action: CommandAction::GoToTab5,
            };
            assert(c.keywords@ =~= seq!["five"]);
            assert(c@.keywords =~= command_spec(action).keywords);
            c
        },
        CommandAction::RenameTab => {
            let c = Command {
                id: "tab.rename",
                brief: "Rename Tab",
                doc: "Enter RenameTab mode to give the focused tab a new name.",
                keywords: &["name", "title", "label"],
                icon: Some('r'),
                shortcut: None,
                category: Category::Tab,
                action: CommandAction::RenameTab,
            };
            assert(c.keywords@ =~= seq!["name", "title", "label"]);
            assert(c@.keywords =~= command_spec(action).keywords);
            c
        },
        CommandAction::NewPaneRight => {
            let c = Command {
                id: "pane.new_right",
                brief: "New Pane (Right)",
                doc: "Split the focused pane horizontally, creating a new pane to the right.",
                keywords: &["split", "horizontal", "create", "vsplit"],
                icon: Some('|'),
                shortcut: None,
                category: Category::Pane,
                action: CommandAction::NewPaneRight,
            };
            assert(c.keywords@ =~= seq!["split", "horizontal", "create", "vsplit"]);
            assert(c@.keywords =~= command_spec(action).keywords);
            c
        },
        CommandAction::NewPaneDown => {
            let c = Command {
                id: "pane.new_down",
                brief: "New Pane (Down)",
                doc: "Split the focused pane vertically, creating a new pane below.",
                keywords: &["split", "vertical", "create", "hsplit"],
                icon: Some('-'),
                shortcut: None,
                category: Category::Pane,
                action: CommandAction::NewPaneDown,
            };
            assert(c.keywords@ =~= seq!["split", "vertical", "create", "hsplit"]);
            assert(c@.keywords =~= command_spec(action).keywords);
            c
        },
        CommandAction::ClosePane => {
            let c = Command {
                id: "pane.close",
                brief: "Close Pane",
                doc: "Close the currently focused pane.",
                keywords: &["destroy", "kill", "remove"],
                icon: Some('x'),
                shortcut: None,
                category: Category::Pane,
                action: CommandAction::ClosePane,
            };
            assert(c.keywords@ =~= seq!["destroy", "kill", "remove"]);
            assert(c@.keywords =~= command_spec(action).keywords);
            c
        },
        CommandAction::MoveFocusUp => {
            let c = Command {
                id: "pane.move_focus_up",
                brief: "Move Focus Up",
                doc: "Move focus to the pane above the current one.",
                keywords: &["up", "north", "k"],
                icon: Some('^'),
                shortcut: None,
                category: Category::Pane,
                action: CommandAction::MoveFocusUp,
            };
            assert(c.keywords@ =~= seq!["up", "north", "k"]);
            assert(c@.keywords =~= command_spec(action).keywords);
            c
        },
        CommandAction::MoveFocusDown => {
            let c = Command {
                id: "pane.move_focus_down",
                brief: "Move Focus Down",
                doc: "Move focus to the pane below the current one.",
                keywords: &["down", "south", "j"],
                icon: Some('v'),
                shortcut: None,
                category: Category::Pane,
                action: CommandAction::MoveFocusDown,
            };
            assert(c.keywords@ =~= seq!["down", "south", "j"]);
            assert(c@.keywords =~= command_spec(action).keywords);
            c
        },
        CommandAction::MoveFocusLeft => {
            let c = Command {
                id: "pane.move_focus_left",
                brief: "Move Focus Left",
                doc: "Move focus to the pane to the left of the current one.",
                keywords: &["left", "west", "h"],
                icon: Some('<'),
                shortcut: None,
                category: Category::Pane,
                action: CommandAction::MoveFocusLeft,
            };
            assert(c.keywords@ =~= seq!["left", "west", "h"]);
            assert(c@.keywords =~= command_spec(action).keywords);
            c
        },
        CommandAction::MoveFocusRight => {
            let c = Command {
                id: "pane.move_focus_right",
                brief: "Move Focus Right",
                doc: "Move focus to the pane to the right of the current one.",
                keywords: &["right", "east", "l"],
                icon: Some('>'),
                shortcut: None,
                category: Category::Pane,
                action: CommandAction::MoveFocusRight,
            };
            assert(c.keywords@ =~= seq!["right", "east", "l"]);
            assert(c@.keywords =~= command_spec(action).keywords);
            c
        },
        CommandAction::ToggleFloating => {
            let c = Command {
                id: "pane.toggle_floating",
                brief: "Toggle Floating",
                doc: "Show or hide all floating panes in the current tab.",
                keywords: &["float", "layer", "overlay"],
                icon: Some('o'),
                shortcut: Some("Ctrl+G"),
                category: Category::Pane,
                action: CommandAction::ToggleFloating,
            };
            assert(c.keywords@ =~= seq!["float", "layer", "overlay"]);
            assert(c@.keywords =~= command_spec(action).keywords);
            c
        },
        CommandAction::ToggleFullscreen => {
            let c = Command {
                id: "pane.toggle_fullscreen",
                brief: "Toggle Fullscreen",
                doc: "Expand the focused pane to fill the tab, or restore it.",
                keywords: &["maximize", "zoom", "full"],
                icon: Some('F'),
                shortcut: None,
                category: Category::Pane,
                action: CommandAction::ToggleFullscreen,
            };
            assert(c.keywords@ =~= seq!["maximize", "zoom", "full"]);
            assert(c@.keywords =~= command_spec(action).keywords);
            c
        },
        CommandAction::ToggleFrames => {
            let c = Command {
                id: "pane.toggle_frames",
                brief: "Toggle Pane Frames",
                doc: "Toggle the UI frame drawn around panes.",
                keywords: &["border", "frame", "ui"],
                icon: Some('['),
                shortcut: None,
                category: Category::Pane,
                action: CommandAction::ToggleFrames,
            };
            assert(c.keywords@ =~= seq!["border", "frame", "ui"]);
            assert(c@.keywords =~= command_spec(action).keywords);
            c
        },
        CommandAction::EnterResize => {
            let c = Command {
                id: "pane.enter_resize",
                brief: "Enter Resize Mode",
                doc: "Switch to Resize mode so the focused pane can be resized with the arrow keys.",
                keywords: &["resize", "grow", "shrink", "size"],
                icon: Some('R'),
                shortcut: None,
                category: Category::Pane,
                action: CommandAction::EnterResize,
            };
            assert(c.keywords@ =~= seq!["resize", "grow", "shrink", "size"]);
            assert(c@.keywords =~= command_spec(action).keywords);
            c
        },
        CommandAction::SwitchSession => {
            let c = Command {
                id: "session.switch",
                brief: "Switch Session",
                doc: "Enter Session mode to switch between or create sessions.",
                keywords: &["change", "connect", "attach"],
                icon: Some('~'),
                shortcut: None,
                category: Category::Session,
                action: CommandAction::SwitchSession,
            };
            assert(c.keywords@ =~= seq!["change", "connect", "attach"]);
            assert(c@.keywords =~= command_spec(action).keywords);
            c
        },
        CommandAction::DetachSession => {
            let c = Command {
                id: "session.detach",
                brief: "Detach Session",
                doc: "Detach this client from the active session, leaving it running in the background.",
                keywords: &["background", "leave", "logout"],
                icon: Some('D'),
                shortcut: None,
                category: Category::Session,
                action: CommandAction::DetachSession,
            };
            assert(c.keywords@ =~= seq!["background", "leave", "logout"]);
            assert(c@.keywords =~= command_spec(action).keywords);
            c
        },
        CommandAction::KillSession => {
            let c = Command {
                id: "session.kill",
                brief: "Kill Session",
                doc: "Enter Session mode to terminate a session. Destructive — the UI asks for Y/N confirmation.",
                keywords: &["destroy", "terminate", "end"],
                icon: Some('K'),
                shortcut: None,
                category: Category::Session,
                action: CommandAction::KillSession,
            };
            assert(c.keywords@ =~= seq!["destroy", "terminate", "end"]);
            assert(c@.keywords =~= command_spec(action).keywords);
            c
        },
        CommandAction::EnterPaneMode => {
            let c = Command {
                id: "mode.pane",
                brief: "Pane Mode",
                doc: "Switch to Pane mode (split, close, move between panes).",
                keywords: &["enter", "switch"],
                icon: Some('P'),
                shortcut: Some("Ctrl+P"),
                category: Category::Mode,
                action: CommandAction::EnterPaneMode,
            };
            assert(c.keywords@ =~= seq!["enter", "switch"]);
            assert(c@.keywords =~= command_spec(action).keywords);
            c
        },
        CommandAction::EnterTabMode => {
            let c = Command {
                id: "mode.tab",
                brief: "Tab Mode",
                doc: "Switch to Tab mode (create, close, switch tabs).",
                keywords: &["enter", "switch"],
                icon: Some('T'),
                shortcut: Some("Ctrl+T"),
                category: Category::Mode,
                action: CommandAction::EnterTabMode,
            };
            assert(c.keywords@ =~= seq!["enter", "switch"]);
            assert(c@.keywords =~= command_spec(action).keywords);
            c
        },
        CommandAction::EnterMoveMode => {
            let c = Command {
                id: "mode.move",
                brief: "Move Mode",
                doc: "Switch to Move mode to reorder panes within the tab.",
                keywords: &["reorder", "arrange"],
                icon: Some('M'),
                shortcut: None,
                category: Category::Mode,
                action: CommandAction::EnterMoveMode,
            };
            assert(c.keywords@ =~= seq!["reorder", "arrange"]);
            assert(c@.keywords =~= command_spec(action).keywords);
            c
        },
        CommandAction::EnterSearchMode => {
            let c = Command {
                id: "mode.search",
                brief: "Search Mode",
                doc: "Switch to Search mode to find text in the scrollback of the focused pane.",
                keywords: &["find", "grep", "lookup"],
                icon: Some('/'),
                shortcut: Some("Ctrl+S"),
                category: Category::Mode,
                action: CommandAction::EnterSearchMode,
            };
            assert(c.keywords@ =~= seq!["find", "grep", "lookup"]);
            assert(c@.keywords =~= command_spec(action).keywords);
            c
        },
        CommandAction::EnterLockedMode => {
            let c = Command {
                id: "mode.locked",
                brief: "Locked Mode",
                doc: "Switch to Locked mode — all shortcuts except the unlock key are disabled.",
                keywords: &["lock", "passthrough", "raw"],
                icon: Some('L'),
                shortcut: Some("Ctrl+G"),
                category: Category::Mode,
                action: CommandAction::EnterLockedMode,
            };
            assert(c.keywords@ =~= seq!["lock", "passthrough", "raw"]);
            assert(c@.keywords =~= command_spec(action).keywords);
            c
        },
        CommandAction::EnterNormalMode => {
            let c = Command {
                id: "mode.normal",
                brief: "Normal Mode",
                doc: "Return to Normal mode from any other mode.",
                keywords: &["default", "reset", "esc"],
                icon: Some('N'),
                shortcut: None,
                category: Category::Mode,
                action: CommandAction::EnterNormalMode,
            };
            assert(c.keywords@ =~= seq!["default", "reset", "esc"]);
            assert(c@.keywords =~= command_spec(action).keywords);
            c
        },
        CommandAction::ReloadConfig => {
            let c = Command {
                id: "system.reload_config",
                brief: "Reload Config",
                doc: "Re-apply the zellij configuration. (MVP note: issues an empty reconfigure call pending a dedicated reload API.)",
                keywords: &["reconfigure", "refresh", "settings"],
                icon: Some('*'),
                shortcut: None,
                category: Category::System,
                action: CommandAction::ReloadConfig,
            };
            assert(c.keywords@ =~= seq!["reconfigure", "refresh", "settings"]);
            assert(c@.keywords =~= command_spec(action).keywords);
            c
        },
        CommandAction::Quit => {
            let c = Command {
                id: "system.quit",
                brief: "Quit Zellij",
                doc: "Completely quit Zellij for this and all other connected clients. Destructive — the UI asks for Y/N confirmation.",
                keywords: &["exit", "shutdown", "close"],
                icon: Some('Q'),
                shortcut: Some("Ctrl+Q"),
                category: Category::System,
                action: CommandAction::Quit,
            };
            assert(c.keywords@ =~= seq!["exit", "shutdown", "close"]);
            assert(c@.keywords =~= command_spec(action).keywords);
            c
        },
    }
}

/// The static registry: 33 commands across the five categories.
pub fn all_commands() -> (cmds: Vec<Command>)
    ensures
        cmds@.len() == registry().len(),
        forall|i: int| 0 <= i < cmds@.len() ==> #[trigger] cmds@[i]@ == registry()[i],
{
    let cmds = vec![
        command_for(CommandAction::NewTab),
        command_for(CommandAction::CloseTab),
        command_for(CommandAction::NextTab),
        command_for(CommandAction::PreviousTab),
        command_for(CommandAction::GoToTab),
        command_for(CommandAction::GoToTab1),
        command_for(CommandAction::GoToTab2),
        command_for(CommandAction::GoToTab3),
        command_for(CommandAction::GoToTab4),
        command_for(CommandAction::GoToTab5),
        command_for(CommandAction::RenameTab),
        command_for(CommandAction::NewPaneRight),
        command_for(CommandAction::NewPaneDown),
        command_for(CommandAction::ClosePane),
        command_for(CommandAction::MoveFocusUp),
        command_for(CommandAction::MoveFocusDown),
        command_for(CommandAction::MoveFocusLeft),
        command_for(CommandAction::MoveFocusRight),
        command_for(CommandAction::ToggleFloating),
        command_for(CommandAction::ToggleFullscreen),
        command_for(CommandAction::ToggleFrames),
        command_for(CommandAction::EnterResize),
        command_for(CommandAction::SwitchSession),
        command_for(CommandAction::DetachSession),
        command_for(CommandAction::KillSession),
        command_for(CommandAction::EnterPaneMode),
        command_for(CommandAction::EnterTabMode),
        command_for(CommandAction::EnterMoveMode),
        command_for(CommandAction::EnterSearchMode),
        command_for(CommandAction::EnterLockedMode),
        command_for(CommandAction::EnterNormalMode),
        command_for(CommandAction::ReloadConfig),
        command_for(CommandAction::Quit),
    ];
    cmds
}

/// `k` is one of the 33 registry positions.
proof fn lemma_registry_index(k: int)
    requires
        0 <= k < 33,
    ensures
        k == 0 || k == 1 || k == 2 || k == 3 || k == 4 || k == 5 || k == 6 || k == 7 || k == 8 || k == 9 || k == 10 || k == 11 || k == 12 || k == 13 || k == 14 || k == 15 || k == 16 || k == 17 || k == 18 || k == 19 || k == 20 || k == 21 || k == 22 || k == 23 || k == 24 || k == 25 || k == 26 || k == 27 || k == 28 || k == 29 || k == 30 || k == 31 || k == 32,
{
}

/// The registry has 33 commands, grouped by category in priority order:
/// eleven Tab commands, eleven Pane commands, three Session commands, six
/// Mode commands and two System commands. Every category is represented.
pub proof fn lemma_registry_categories()
    ensures
        registry().len() == 33,
        forall|k: int| 0 <= k < 11 ==> (#[trigger] registry()[k]).category == Category::Tab,
        forall|k: int| 11 <= k < 22 ==> (#[trigger] registry()[k]).category == Category::Pane,
        forall|k: int| 22 <= k < 25 ==> (#[trigger] registry()[k]).category == Category::Session,
        forall|k: int| 25 <= k < 31 ==> (#[trigger] registry()[k]).category == Category::Mode,
        forall|k: int| 31 <= k < 33 ==> (#[trigger] registry()[k]).category == Category::System,
        forall|c: Category| #[trigger] category_represented(c),
{
    assert forall|k: int| 0 <= k < 33 implies (#[trigger] registry()[k]).category == priority_order(
        k,
    ) by {
        lemma_registry_index(k);
    }
    assert forall|c: Category| #[trigger] category_represented(c) by {
        match c {
            Category::Tab => assert(registry()[0].category == c),
            Category::Pane => assert(registry()[11].category == c),
            Category::Session => assert(registry()[22].category == c),
            Category::Mode => assert(registry()[25].category == c),
            Category::System => assert(registry()[31].category == c),
        }
    }
}

/// Some command of the registry belongs to `c`.
pub open spec fn category_represented(c: Category) -> bool {
    exists|k: int| 0 <= k < registry().len() && (#[trigger] registry()[k]).category == c
}

/// The category of the `k`-th registry command, by position.
spec fn priority_order(k: int) -> Category {
    if k < 11 {
        Category::Tab
    } else if k < 22 {
        Category::Pane
    } else if k < 25 {
        Category::Session
    } else if k < 31 {
        Category::Mode
    } else {
        Category::System
    }
}

/// The id under which each action is registered: its group (`tab`, `pane`,
/// `session`, `mode`, `system`) and its name.
pub open spec fn action_id(a: CommandAction) -> Seq<char> {
    match a {
        CommandAction::NewTab => "tab.new"@,
        CommandAction::CloseTab => "tab.close"@,
        CommandAction::NextTab => "tab.next"@,
        CommandAction::PreviousTab => "tab.previous"@,
        CommandAction::GoToTab => "tab.go_to"@,
        CommandAction::GoToTab1 => "tab.go_to_1"@,
        CommandAction::GoToTab2 => "tab.go_to_2"@,
        CommandAction::GoToTab3 => "tab.go_to_3"@,
        CommandAction::GoToTab4 => "tab.go_to_4"@,
        CommandAction::GoToTab5 => "tab.go_to_5"@,
        CommandAction::RenameTab => "tab.rename"@,
        CommandAction::NewPaneRight => "pane.new_right"@,
        CommandAction::NewPaneDown => "pane.new_down"@,
        CommandAction::ClosePane => "pane.close"@,
        CommandAction::MoveFocusUp => "pane.move_focus_up"@,
        CommandAction::MoveFocusDown => "pane.move_focus_down"@,
        CommandAction::MoveFocusLeft => "pane.move_focus_left"@,
        CommandAction::MoveFocusRight => "pane.move_focus_right"@,
        CommandAction::ToggleFloating => "pane.toggle_floating"@,
        CommandAction::ToggleFullscreen => "pane.toggle_fullscreen"@,
        CommandAction::ToggleFrames => "pane.toggle_frames"@,
        CommandAction::EnterResize => "pane.enter_resize"@,
        CommandAction::SwitchSession => "session.switch"@,
        CommandAction::DetachSession => "session.detach"@,
        CommandAction::KillSession => "session.kill"@,
        CommandAction::EnterPaneMode => "mode.pane"@,
        CommandAction::EnterTabMode => "mode.tab"@,
        CommandAction::EnterMoveMode => "mode.move"@,
        CommandAction::EnterSearchMode => "mode.search"@,
        CommandAction::EnterLockedMode => "mode.locked"@,
        CommandAction::EnterNormalMode => "mode.normal"@,
        CommandAction::ReloadConfig => "system.reload_config"@,
        CommandAction::Quit => "system.quit"@,
    }
}

/// Every command carries the action it is registered for, under that
/// action's id: the registry's entry at each position has the action
/// listed there, and its id names that action (so the entry with id
/// `pane.new_right` runs `NewPaneRight`, the one with `pane.new_down` runs
/// `NewPaneDown`, and so on for each of the 33).
pub proof fn lemma_registry_actions_match_ids()
    ensures
        forall|a: CommandAction| (#[trigger] command_spec(a)).action == a && command_spec(a).id == action_id(a),
        forall|k: int|
            0 <= k < registry().len() ==> (#[trigger] registry()[k]).action == registry_actions()[k]
                && registry()[k].id == action_id(registry_actions()[k]),
{
}

/// Every command has its own action: the 33 actions of the registry are
/// pairwise distinct.
pub proof fn lemma_registry_actions_distinct()
    ensures
        forall|i: int, j: int|
            0 <= i < j < registry().len() ==> (#[trigger] registry()[i]).action != (#[trigger] registry()[j]).action,
{
    assert forall|i: int, j: int| 0 <= i < j < registry().len() implies (#[trigger] registry()[i]).action
        != (#[trigger] registry()[j]).action by {
        lemma_registry_index(i);
        lemma_registry_index(j);
    }
}

/// Command ids are unique.
pub proof fn lemma_registry_ids_distinct()
    ensures
        forall|i: int, j: int|
            0 <= i < j < registry().len() ==> (#[trigger] registry()[i]).id != (#[trigger] registry()[j]).id,
{
    broadcast use vstd::string::group_string_axioms;

    reveal_strlit("tab.new");
    assert(registry()[0].id.len() == 7 && registry()[0].id[6] == 'w' && registry()[0].id[3] == '.');
    reveal_strlit("tab.close");
    assert(registry()[1].id.len() == 9 && registry()[1].id[8] == 'e' && registry()[1].id[5] == 'l');
    reveal_strlit("tab.next");
    assert(registry()[2].id.len() == 8 && registry()[2].id[7] == 't' && registry()[2].id[4] == 'n');
    reveal_strlit("tab.previous");
    assert(registry()[3].id.len() == 12 && registry()[3].id[11] == 's' && registry()[3].id[8] == 'i');
    reveal_strlit("tab.go_to");
    assert(registry()[4].id.len() == 9 && registry()[4].id[8] == 'o' && registry()[4].id[5] == 'o');
    reveal_strlit("tab.go_to_1");
    assert(registry()[5].id.len() == 11 && registry()[5].id[10] == '1' && registry()[5].id[7] == 't');
    reveal_strlit("tab.go_to_2");
    assert(registry()[6].id.len() == 11 && registry()[6].id[10] == '2' && registry()[6].id[7] == 't');
    reveal_strlit("tab.go_to_3");
    assert(registry()[7].id.len() == 11 && registry()[7].id[10] == '3' && registry()[7].id[7] == 't');
    reveal_strlit("tab.go_to_4");
    assert(registry()[8].id.len() == 11 && registry()[8].id[10] == '4' && registry()[8].id[7] == 't');
    reveal_strlit("tab.go_to_5");
    assert(registry()[9].id.len() == 11 && registry()[9].id[10] == '5' && registry()[9].id[7] == 't');
    reveal_strlit("tab.rename");
    assert(registry()[10].id.len() == 10 && registry()[10].id[9] == 'e' && registry()[10].id[6] == 'n');
    reveal_strlit("pane.new_right");
    assert(registry()[11].id.len() == 14 && registry()[11].id[13] == 't' && registry()[11].id[10] == 'i');
    reveal_strlit("pane.new_down");
    assert(registry()[12].id.len() == 13 && registry()[12].id[12] == 'n' && registry()[12].id[9] == 'd');
    reveal_strlit("pane.close");
    assert(registry()[13].id.len() == 10 && registry()[13].id[9] == 'e' && registry()[13].id[6] == 'l');
    reveal_strlit("pane.move_focus_up");
    assert(registry()[14].id.len() == 18 && registry()[14].id[17] == 'p' && registry()[14].id[14] == 's');
    reveal_strlit("pane.move_focus_down");
    assert(registry()[15].id.len() == 20 && registry()[15].id[19] == 'n' && registry()[15].id[16] == 'd');
    reveal_strlit("pane.move_focus_left");
    assert(registry()[16].id.len() == 20 && registry()[16].id[19] == 't' && registry()[16].id[16] == 'l');
    reveal_strlit("pane.move_focus_right");
    assert(registry()[17].id.len() == 21 && registry()[17].id[20] == 't' && registry()[17].id[17] == 'i');
    reveal_strlit("pane.toggle_floating");
    assert(registry()[18].id.len() == 20 && registry()[18].id[19] == 'g' && registry()[18].id[16] == 't');
    reveal_strlit("pane.toggle_fullscreen");
    assert(registry()[19].id.len() == 22 && registry()[19].id[21] == 'n' && registry()[19].id[18] == 'r');
    reveal_strlit("pane.toggle_frames");
    assert(registry()[20].id.len() == 18 && registry()[20].id[17] == 's' && registry()[20].id[14] == 'a');
    reveal_strlit("pane.enter_resize");
    assert(registry()[21].id.len() == 17 && registry()[21].id[16] == 'e' && registry()[21].id[13] == 's');
    reveal_strlit("session.switch");
    assert(registry()[22].id.len() == 14 && registry()[22].id[13] == 'h' && registry()[22].id[10] == 'i');
    reveal_strlit("session.detach");
    assert(registry()[23].id.len() == 14 && registry()[23].id[13] == 'h' && registry()[23].id[10] == 't');
    reveal_strlit("session.kill");
    assert(registry()[24].id.len() == 12 && registry()[24].id[11] == 'l' && registry()[24].id[8] == 'k');
    reveal_strlit("mode.pane");
    assert(registry()[25].id.len() == 9 && registry()[25].id[8] == 'e' && registry()[25].id[5] == 'p');
    reveal_strlit("mode.tab");
    assert(registry()[26].id.len() == 8 && registry()[26].id[7] == 'b' && registry()[26].id[4] == '.');
    reveal_strlit("mode.move");
    assert(registry()[27].id.len() == 9 && registry()[27].id[8] == 'e' && registry()[27].id[5] == 'm');
    reveal_strlit("mode.search");
    assert(registry()[28].id.len() == 11 && registry()[28].id[10] == 'h' && registry()[28].id[7] == 'a');
    reveal_strlit("mode.locked");
    assert(registry()[29].id.len() == 11 && registry()[29].id[10] == 'd' && registry()[29].id[7] == 'c');
    reveal_strlit("mode.normal");
    assert(registry()[30].id.len() == 11 && registry()[30].id[10] == 'l' && registry()[30].id[7] == 'r');
    reveal_strlit("system.reload_config");
    assert(registry()[31].id.len() == 20 && registry()[31].id[19] == 'g' && registry()[31].id[16] == 'n');
    reveal_strlit("system.quit");
    assert(registry()[32].id.len() == 11 && registry()[32].id[10] == 't' && registry()[32].id[7] == 'q');
    assert forall|i: int, j: int| 0 <= i < j < registry().len() implies (#[trigger] registry()[i]).id
        != (#[trigger] registry()[j]).id by {
        lemma_registry_index(i);
        lemma_registry_index(j);
    }
}

/// Every command has a brief and a doc that are not blank.
pub proof fn lemma_registry_text_not_blank()
    ensures
        forall|k: int|
            0 <= k < registry().len() ==> !is_blank((#[trigger] registry()[k]).brief) && !is_blank(
                registry()[k].doc,
            ),
{
    broadcast use vstd::string::group_string_axioms;

    reveal_strlit("New Tab");
    reveal_strlit("Open a new tab with the default layout.");
    assert(registry()[0].brief[0] == 'N' && registry()[0].doc[0] == 'O');
    reveal_strlit("Close Tab");
    reveal_strlit("Close the currently focused tab.");
    assert(registry()[1].brief[0] == 'C' && registry()[1].doc[0] == 'C');
    reveal_strlit("Next Tab");
    reveal_strlit("Focus the next tab, looping back to the first.");
    assert(registry()[2].brief[0] == 'N' && registry()[2].doc[0] == 'F');
    reveal_strlit("Previous Tab");
    reveal_strlit("Focus the previous tab, looping back to the last.");
    assert(registry()[3].brief[0] == 'P' && registry()[3].doc[0] == 'F');
    reveal_strlit("Go to Tab");
    reveal_strlit("Enter Tab mode to interactively pick a tab.");
    assert(registry()[4].brief[0] == 'G' && registry()[4].doc[0] == 'E');
    reveal_strlit("Go to Tab 1");
    reveal_strlit("Switch directly to tab index 1.");
    assert(registry()[5].brief[0] == 'G' && registry()[5].doc[0] == 'S');
    reveal_strlit("Go to Tab 2");
    reveal_strlit("Switch directly to tab index 2.");
    assert(registry()[6].brief[0] == 'G' && registry()[6].doc[0] == 'S');
    reveal_strlit("Go to Tab 3");
    reveal_strlit("Switch directly to tab index 3.");
    assert(registry()[7].brief[0] == 'G' && registry()[7].doc[0] == 'S');
    reveal_strlit("Go to Tab 4");
    reveal_strlit("Switch directly to tab index 4.");
    assert(registry()[8].brief[0] == 'G' && registry()[8].doc[0] == 'S');
    reveal_strlit("Go to Tab 5");
    reveal_strlit("Switch directly to tab index 5.");
    assert(registry()[9].brief[0] == 'G' && registry()[9].doc[0] == 'S');
    reveal_strlit("Rename Tab");
    reveal_strlit("Enter RenameTab mode to give the focused tab a new name.");
    assert(registry()[10].brief[0] == 'R' && registry()[10].doc[0] == 'E');
    reveal_strlit("New Pane (Right)");
    reveal_strlit("Split the focused pane horizontally, creating a new pane to the right.");
    assert(registry()[11].brief[0] == 'N' && registry()[11].doc[0] == 'S');
    reveal_strlit("New Pane (Down)");
    reveal_strlit("Split the focused pane vertically, creating a new pane below.");
    assert(registry()[12].brief[0] == 'N' && registry()[12].doc[0] == 'S');
    reveal_strlit("Close Pane");
    reveal_strlit("Close the currently focused pane.");
    assert(registry()[13].brief[0] == 'C' && registry()[13].doc[0] == 'C');
    reveal_strlit("Move Focus Up");
    reveal_strlit("Move focus to the pane above the current one.");
    assert(registry()[14].brief[0] == 'M' && registry()[14].doc[0] == 'M');
    reveal_strlit("Move Focus Down");
    reveal_strlit("Move focus to the pane below the current one.");
    assert(registry()[15].brief[0] == 'M' && registry()[15].doc[0] == 'M');
    reveal_strlit("Move Focus Left");
    reveal_strlit("Move focus to the pane to the left of the current one.");
    assert(registry()[16].brief[0] == 'M' && registry()[16].doc[0] == 'M');
    reveal_strlit("Move Focus Right");
    reveal_strlit("Move focus to the pane to the right of the current one.");
    assert(registry()[17].brief[0] == 'M' && registry()[17].doc[0] == 'M');
    reveal_strlit("Toggle Floating");
    reveal_strlit("Show or hide all floating panes in the current tab.");
    assert(registry()[18].brief[0] == 'T' && registry()[18].doc[0] == 'S');
    reveal_strlit("Toggle Fullscreen");
    reveal_strlit("Expand the focused pane to fill the tab, or restore it.");
    assert(registry()[19].brief[0] == 'T' && registry()[19].doc[0] == 'E');
    reveal_strlit("Toggle Pane Frames");
    reveal_strlit("Toggle the UI frame drawn around panes.");
    assert(registry()[20].brief[0] == 'T' && registry()[20].doc[0] == 'T');
    reveal_strlit("Enter Resize Mode");
    reveal_strlit("Switch to Resize mode so the focused pane can be resized with the arrow keys.");
    assert(registry()[21].brief[0] == 'E' && registry()[21].doc[0] == 'S');
    reveal_strlit("Switch Session");
    reveal_strlit("Enter Session mode to switch between or create sessions.");
    assert(registry()[22].brief[0] == 'S' && registry()[22].doc[0] == 'E');
    reveal_strlit("Detach Session");
    reveal_strlit("Detach this client from the active session, leaving it running in the background.");
    assert(registry()[23].brief[0] == 'D' && registry()[23].doc[0] == 'D');
    reveal_strlit("Kill Session");
    reveal_strlit("Enter Session mode to terminate a session. Destructive — the UI asks for Y/N confirmation.");
    assert(registry()[24].brief[0] == 'K' && registry()[24].doc[0] == 'E');
    reveal_strlit("Pane Mode");
    reveal_strlit("Switch to Pane mode (split, close, move between panes).");
    assert(registry()[25].brief[0] == 'P' && registry()[25].doc[0] == 'S');
    reveal_strlit("Tab Mode");
    reveal_strlit("Switch to Tab mode (create, close, switch tabs).");
    assert(registry()[26].brief[0] == 'T' && registry()[26].doc[0] == 'S');
    reveal_strlit("Move Mode");
    reveal_strlit("Switch to Move mode to reorder panes within the tab.");
    assert(registry()[27].brief[0] == 'M' && registry()[27].doc[0] == 'S');
    reveal_strlit("Search Mode");
    reveal_strlit("Switch to Search mode to find text in the scrollback of the focused pane.");
    assert(registry()[28].brief[0] == 'S' && registry()[28].doc[0] == 'S');
    reveal_strlit("Locked Mode");
    reveal_strlit("Switch to Locked mode — all shortcuts except the unlock key are disabled.");
    assert(registry()[29].brief[0] == 'L' && registry()[29].doc[0] == 'S');
    reveal_strlit("Normal Mode");
    reveal_strlit("Return to Normal mode from any other mode.");
    assert(registry()[30].brief[0] == 'N' && registry()[30].doc[0] == 'R');
    reveal_strlit("Reload Config");
    reveal_strlit("Re-apply the zellij configuration. (MVP note: issues an empty reconfigure call pending a dedicated reload API.)");
    assert(registry()[31].brief[0] == 'R' && registry()[31].doc[0] == 'R');
    reveal_strlit("Quit Zellij");
    reveal_strlit("Completely quit Zellij for this and all other connected clients. Destructive — the UI asks for Y/N confirmation.");
    assert(registry()[32].brief[0] == 'Q' && registry()[32].doc[0] == 'C');
    assert forall|k: int| 0 <= k < registry().len() implies !is_blank((#[trigger] registry()[k]).brief)
        && !is_blank(registry()[k].doc) by {
        lemma_registry_index(k);
    }
}

} // verus!
