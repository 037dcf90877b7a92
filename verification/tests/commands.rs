use std::collections::HashSet;
use tspace_menu::commands::{all_commands, Category, Command, CommandAction};

/// Maps each action to a stable name; compiles only if every variant is
/// listed.
fn action_name(a: &CommandAction) -> &'static str {
    match a {
        CommandAction::NewTab => "NewTab",
        CommandAction::CloseTab => "CloseTab",
        CommandAction::NextTab => "NextTab",
        CommandAction::PreviousTab => "PreviousTab",
        CommandAction::GoToTab => "GoToTab",
        CommandAction::GoToTab1 => "GoToTab1",
        CommandAction::GoToTab2 => "GoToTab2",
        CommandAction::GoToTab3 => "GoToTab3",
        CommandAction::GoToTab4 => "GoToTab4",
        CommandAction::GoToTab5 => "GoToTab5",
        CommandAction::RenameTab => "RenameTab",
        CommandAction::NewPaneRight => "NewPaneRight",
        CommandAction::NewPaneDown => "NewPaneDown",
        CommandAction::ClosePane => "ClosePane",
        CommandAction::MoveFocusUp => "MoveFocusUp",
        CommandAction::MoveFocusDown => "MoveFocusDown",
        CommandAction::MoveFocusLeft => "MoveFocusLeft",
        CommandAction::MoveFocusRight => "MoveFocusRight",
        CommandAction::ToggleFloating => "ToggleFloating",
        CommandAction::ToggleFullscreen => "ToggleFullscreen",
        CommandAction::ToggleFrames => "ToggleFrames",
        CommandAction::EnterResize => "EnterResize",
        CommandAction::SwitchSession => "SwitchSession",
        CommandAction::DetachSession => "DetachSession",
        CommandAction::KillSession => "KillSession",
        CommandAction::EnterPaneMode => "EnterPaneMode",
        CommandAction::EnterTabMode => "EnterTabMode",
        CommandAction::EnterMoveMode => "EnterMoveMode",
        CommandAction::EnterSearchMode => "EnterSearchMode",
        CommandAction::EnterLockedMode => "EnterLockedMode",
        CommandAction::EnterNormalMode => "EnterNormalMode",
        CommandAction::ReloadConfig => "ReloadConfig",
        CommandAction::Quit => "Quit",
    }
}

#[test]
fn registry_is_non_empty() {
    let cmds = all_commands();
    assert!(!cmds.is_empty(), "all_commands() must return commands");
    assert_eq!(cmds.len(), 33, "expected 33 MVP commands, got {}", cmds.len());
}

#[test]
fn every_command_has_a_non_empty_brief() {
    for cmd in all_commands() {
        assert!(!cmd.brief.trim().is_empty(), "command `{}` has an empty brief", cmd.id);
        assert!(!cmd.doc.trim().is_empty(), "command `{}` has an empty doc", cmd.id);
    }
}

#[test]
fn every_command_id_is_unique() {
    let cmds = all_commands();
    let ids: HashSet<&str> = cmds.iter().map(|c| c.id).collect();
    assert_eq!(ids.len(), cmds.len(), "duplicate command ids detected");
}

#[test]
fn every_action_variant_is_handled() {
    let mut seen: HashSet<&'static str> = HashSet::new();
    for cmd in all_commands() {
        let name = action_name(&cmd.action);
        assert!(!name.is_empty(), "unhandled action for command `{}`", cmd.id);
        seen.insert(name);
    }
    assert_eq!(seen.len(), 33, "expected 33 distinct actions, got {}", seen.len());
}

#[test]
fn all_categories_are_represented() {
    let mut cats = HashSet::new();
    for cmd in all_commands() {
        cats.insert(cmd.category);
    }
    assert_eq!(cats.len(), 5, "expected all 5 categories to be represented");
    assert!(cats.contains(&Category::Tab));
    assert!(cats.contains(&Category::Pane));
    assert!(cats.contains(&Category::Session));
    assert!(cats.contains(&Category::Mode));
    assert!(cats.contains(&Category::System));
}

#[test]
fn category_badges_and_icons_are_non_empty() {
    for cat in [Category::Tab, Category::Pane, Category::Session, Category::Mode, Category::System] {
        assert!(!cat.badge().is_empty());
        assert_ne!(cat.icon(), '\0');
        assert!(cat.priority() >= 1 && cat.priority() <= 5);
    }
}

#[test]
fn effective_icon_falls_back_to_category() {
    let cmd = Command {
        id: "test",
        brief: "Test",
        doc: "Test",
        keywords: &[],
        icon: None,
        shortcut: None,
        category: Category::Tab,
        action: CommandAction::NewTab,
    };
    assert_eq!(cmd.effective_icon(), Category::Tab.icon());
}

#[test]
fn category_table_values() {
    assert_eq!(Category::Tab.badge(), "[Tab]");
    assert_eq!(Category::Pane.badge(), "[Pane]");
    assert_eq!(Category::Session.badge(), "[Sess]");
    assert_eq!(Category::Mode.badge(), "[Mode]");
    assert_eq!(Category::System.badge(), "[Sys] ");
    assert_eq!(
        [Category::Tab, Category::Pane, Category::Session, Category::Mode, Category::System]
            .map(|c| (c.icon(), c.priority())),
        [('#', 1), ('[', 2), ('~', 3), ('>', 4), ('*', 5)]
    );
}

#[test]
fn registry_is_grouped_by_category_in_priority_order() {
    let cmds = all_commands();
    let counts: Vec<usize> = [Category::Tab, Category::Pane, Category::Session, Category::Mode, Category::System]
        .iter()
        .map(|c| cmds.iter().filter(|cmd| cmd.category == *c).count())
        .collect();
    assert_eq!(counts, vec![11, 11, 3, 6, 2]);
    for w in cmds.windows(2) {
        assert!(w[0].category.priority() <= w[1].category.priority());
    }
    assert_eq!(cmds[0].id, "tab.new");
    assert_eq!(cmds[0].brief, "New Tab");
    assert_eq!(cmds[0].keywords, &["create", "open", "add"]);
    assert_eq!(cmds[0].shortcut, Some("Ctrl+T"));
    assert_eq!(cmds[32].action, CommandAction::Quit);
}

#[test]
fn effective_icon_prefers_own_icon() {
    let cmds = all_commands();
    assert_eq!(cmds[0].effective_icon(), '+');
    let cmd = Command { icon: Some('!'), ..cmds[1].clone() };
    assert_eq!(cmd.effective_icon(), '!');
}
