use tspace_menu::commands::all_commands;
use tspace_menu::keys::{BareKey, KeyModifier, KeyWithModifier};
use tspace_menu::screens::command_palette::{classify_key, CommandPaletteState, KeyCommand, PaletteAction};

fn key(bare: BareKey) -> KeyWithModifier {
    KeyWithModifier { bare_key: bare, key_modifiers: vec![] }
}

fn ctrl(c: char) -> KeyWithModifier {
    KeyWithModifier { bare_key: BareKey::Char(c), key_modifiers: vec![KeyModifier::Ctrl] }
}

fn type_text(p: &mut CommandPaletteState, text: &str) {
    for c in text.chars() {
        assert_eq!(p.on_key(&key(BareKey::Char(c))), PaletteAction::Continue);
    }
}

#[test]
fn arrows_move_and_wrap_around() {
    let mut p = CommandPaletteState::new();
    assert_eq!(p.on_key(&key(BareKey::Down)), PaletteAction::Continue);
    assert_eq!(p.selected, 1);
    assert_eq!(p.on_key(&key(BareKey::Up)), PaletteAction::Continue);
    assert_eq!(p.selected, 0);
    p.on_key(&key(BareKey::Up));
    assert_eq!(p.selected, 32);
    assert_eq!(p.scroll_offset, 25);
    p.on_key(&key(BareKey::Down));
    assert_eq!(p.selected, 0);
    assert_eq!(p.scroll_offset, 0);
}

#[test]
fn scroll_window_follows_the_selection() {
    let mut p = CommandPaletteState::new();
    for _ in 0..9 {
        p.on_key(&key(BareKey::Down));
    }
    assert_eq!(p.selected, 9);
    assert_eq!(p.scroll_offset, 2);
    p.on_key(&key(BareKey::PageDown));
    assert_eq!(p.selected, 17);
    assert_eq!(p.scroll_offset, 10);
    p.on_key(&key(BareKey::PageUp));
    assert_eq!(p.selected, 9);
    assert_eq!(p.scroll_offset, 9);
    p.on_key(&key(BareKey::End));
    assert_eq!((p.selected, p.scroll_offset), (32, 25));
    p.on_key(&key(BareKey::Home));
    assert_eq!((p.selected, p.scroll_offset), (0, 0));
}

#[test]
fn alternative_navigation_keys() {
    let mut p = CommandPaletteState::new();
    p.on_key(&key(BareKey::Tab));
    p.on_key(&ctrl('n'));
    p.on_key(&ctrl('j'));
    assert_eq!(p.selected, 3);
    p.on_key(&ctrl('p'));
    p.on_key(&ctrl('k'));
    p.on_key(&KeyWithModifier { bare_key: BareKey::Tab, key_modifiers: vec![KeyModifier::Shift] });
    assert_eq!(p.selected, 0);
    p.on_key(&ctrl('d'));
    assert_eq!(p.selected, 8);
}

#[test]
fn enter_executes_the_selected_command() {
    let cmds = all_commands();
    let mut p = CommandPaletteState::new();
    p.on_key(&key(BareKey::Down));
    let expected = p.matches[1].cmd_index;
    assert_eq!(cmds[expected].brief, "Go to Tab");
    assert_eq!(p.on_key(&key(BareKey::Enter)), PaletteAction::Execute(expected));
}

#[test]
fn typing_filters_and_enter_runs_the_best_match() {
    let cmds = all_commands();
    let mut p = CommandPaletteState::new();
    type_text(&mut p, "quit");
    assert_eq!(p.query, "quit");
    assert!(!p.matches.is_empty());
    match p.on_key(&key(BareKey::Enter)) {
        PaletteAction::Execute(i) => assert_eq!(cmds[i].brief, "Quit Zellij"),
        other => panic!("expected execute, got {:?}", other),
    }
}

#[test]
fn editing_keys_change_the_query() {
    let mut p = CommandPaletteState::new();
    type_text(&mut p, "new tab");
    p.on_key(&key(BareKey::Backspace));
    assert_eq!(p.query, "new ta");
    p.on_key(&ctrl('w'));
    assert_eq!(p.query, "new");
    p.on_key(&ctrl('u'));
    assert_eq!(p.query, "");
    assert_eq!(p.matches.len(), 33);
    p.on_key(&key(BareKey::Backspace));
    assert_eq!(p.query, "");
}

#[test]
fn escape_clears_then_closes() {
    let mut p = CommandPaletteState::new();
    type_text(&mut p, "ta");
    assert_eq!(p.on_key(&key(BareKey::Esc)), PaletteAction::Continue);
    assert_eq!(p.query, "");
    assert_eq!(p.matches.len(), 33);
    assert_eq!(p.on_key(&key(BareKey::Esc)), PaletteAction::Close);
    assert_eq!(p.on_key(&ctrl('c')), PaletteAction::Close);
}

#[test]
fn unknown_keys_and_control_chars_are_ignored() {
    let mut p = CommandPaletteState::new();
    assert_eq!(p.on_key(&key(BareKey::F(1))), PaletteAction::Noop);
    assert_eq!(p.on_key(&ctrl('a')), PaletteAction::Noop);
    assert_eq!(
        p.on_key(&KeyWithModifier { bare_key: BareKey::Char('x'), key_modifiers: vec![KeyModifier::Alt] }),
        PaletteAction::Noop
    );
    assert_eq!(p.on_key(&key(BareKey::Char('\u{7}'))), PaletteAction::Noop);
    assert_eq!(p.query, "");
    assert_eq!(
        p.on_key(&KeyWithModifier { bare_key: BareKey::Char('A'), key_modifiers: vec![KeyModifier::Shift] }),
        PaletteAction::Continue
    );
    assert_eq!(p.query, "A");
}

#[test]
fn enter_with_no_results_is_a_noop() {
    let mut p = CommandPaletteState::new();
    type_text(&mut p, "zzzzqq");
    assert!(p.matches.is_empty());
    assert_eq!(p.on_key(&key(BareKey::Enter)), PaletteAction::Noop);
    assert_eq!(p.on_key(&key(BareKey::Down)), PaletteAction::Continue);
    assert_eq!(p.selected, 0);
}

#[test]
fn classification_of_keys() {
    assert_eq!(classify_key(&ctrl('c')), KeyCommand::Close);
    assert_eq!(classify_key(&key(BareKey::Char('c'))), KeyCommand::Insert('c'));
    assert_eq!(classify_key(&ctrl('u')), KeyCommand::ClearQuery);
    assert_eq!(classify_key(&key(BareKey::PageUp)), KeyCommand::PageUp);
    assert_eq!(classify_key(&key(BareKey::Left)), KeyCommand::Ignore);
}

#[test]
fn mouse_wheel_moves_one_row() {
    let mut p = CommandPaletteState::new();
    p.move_selection_down();
    p.move_selection_down();
    assert_eq!(p.selected, 2);
    p.move_selection_up();
    assert_eq!(p.selected, 1);
}

#[test]
fn refresh_resets_the_selection() {
    let mut p = CommandPaletteState::new();
    p.selected = 5;
    p.scroll_offset = 2;
    p.refresh_matches();
    assert_eq!((p.selected, p.scroll_offset), (0, 0));
    p.selected = 40;
    p.scroll_offset = 3;
    p.refresh_matches();
    assert_eq!((p.selected, p.scroll_offset), (0, 0));
}

#[test]
fn every_query_edit_resets_the_selection() {
    let mut p = CommandPaletteState::new();
    let down = |p: &mut CommandPaletteState| {
        for _ in 0..5 {
            p.on_key(&key(BareKey::Down));
        }
        assert_eq!(p.selected, 5);
    };
    down(&mut p);
    type_text(&mut p, "a");
    assert_eq!((p.selected, p.scroll_offset), (0, 0));
    down(&mut p);
    p.on_key(&key(BareKey::Backspace));
    assert_eq!((p.selected, p.scroll_offset), (0, 0));
    type_text(&mut p, "t");
    down(&mut p);
    p.on_key(&ctrl('w'));
    assert_eq!((p.selected, p.scroll_offset), (0, 0));
    type_text(&mut p, "t");
    down(&mut p);
    p.on_key(&ctrl('u'));
    assert_eq!((p.selected, p.scroll_offset), (0, 0));
    type_text(&mut p, "t");
    down(&mut p);
    assert_eq!(p.on_key(&key(BareKey::Esc)), PaletteAction::Continue);
    assert_eq!((p.selected, p.scroll_offset), (0, 0));
}
