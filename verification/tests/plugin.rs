use tspace_menu::commands::CommandAction;
use tspace_menu::keys::{BareKey, KeyModifier, KeyWithModifier};
use tspace_menu::plugin::{PluginEvent, State, UpdateOutcome};
use tspace_menu::screens::render::Rect;
use tspace_menu::screens::ActiveScreen;

fn key(bare: BareKey) -> PluginEvent {
    PluginEvent::Key(KeyWithModifier { bare_key: bare, key_modifiers: vec![] })
}

#[test]
fn enter_runs_the_selected_command_and_hides() {
    let mut s = State::new();
    let out = s.update(key(BareKey::Enter));
    assert_eq!(
        out,
        UpdateOutcome { intercept_keys: true, run: Some(CommandAction::CloseTab), hide: true, redraw: false }
    );
    assert_eq!(s.screen(), ActiveScreen::Hidden);
    let out = s.update(PluginEvent::Other);
    assert_eq!(out, UpdateOutcome { intercept_keys: false, run: None, hide: false, redraw: true });
}

#[test]
fn becoming_visible_shows_a_fresh_palette() {
    let mut s = State::new();
    s.update(key(BareKey::Char('q')));
    s.update(key(BareKey::Down));
    s.update(PluginEvent::Key(KeyWithModifier { bare_key: BareKey::Char('c'), key_modifiers: vec![KeyModifier::Ctrl] }));
    assert_eq!(s.screen(), ActiveScreen::Hidden);
    let out = s.update(PluginEvent::Visible(true));
    assert!(out.redraw && !out.hide && out.run.is_none());
    assert_eq!(s.screen(), ActiveScreen::Palette);
    assert_eq!(s.palette().query, "");
    assert_eq!(s.palette().selected, 0);
    assert_eq!(s.palette().matches.len(), 33);
}

#[test]
fn clicking_a_row_runs_its_command() {
    let mut s = State::new();
    s.render(Rect { x: 0, y: 0, width: 100, height: 40 }).unwrap();
    // Palette area is 80x24 at (10, 8); results start on row 12.
    let out = s.update(PluginEvent::LeftClick { row: 13, col: 30 });
    assert_eq!(out.run, Some(CommandAction::GoToTab));
    assert!(out.hide);
}

#[test]
fn hover_selects_and_wheel_moves() {
    let mut s = State::new();
    s.render(Rect { x: 0, y: 0, width: 100, height: 40 }).unwrap();
    let out = s.update(PluginEvent::Hover { row: 14, col: 30 });
    assert!(out.redraw);
    assert_eq!(s.palette().selected, 2);
    s.update(PluginEvent::ScrollDown);
    assert_eq!(s.palette().selected, 3);
    s.update(PluginEvent::ScrollUp);
    s.update(PluginEvent::ScrollUp);
    assert_eq!(s.palette().selected, 1);
    let out = s.update(PluginEvent::LeftClick { row: 0, col: 0 });
    assert_eq!(out, UpdateOutcome { intercept_keys: true, run: None, hide: false, redraw: true });
    assert_eq!(s.screen(), ActiveScreen::Palette);
}
