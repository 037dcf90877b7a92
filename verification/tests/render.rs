use tspace_menu::backend::Color;
use tspace_menu::keys::{BareKey, KeyWithModifier};
use tspace_menu::plugin::{centered_rect, PluginEvent, State};
use tspace_menu::screens::command_palette::CommandPaletteState;
use tspace_menu::screens::render::{build_result_line, repeat_char, Rect};
use tspace_menu::commands::all_commands;
use tspace_menu::screens::ActiveScreen;

fn text_of(line: &tspace_menu::screens::render::TextLine) -> String {
    line.spans.iter().map(|s| s.text.as_str()).collect()
}

#[test]
fn frame_has_input_rows_and_footer() {
    let mut p = CommandPaletteState::new();
    let frame = p.render(Rect { x: 0, y: 0, width: 80, height: 20 });
    assert_eq!(frame.area, Rect { x: 0, y: 0, width: 80, height: 20 });
    assert_eq!(frame.title.text, " Command Palette ");
    assert_eq!(frame.border_style.fg, Some(Color::Indexed(154)));
    assert_eq!(text_of(&frame.lines[0]), "❯ Type to search commands...");
    assert_eq!(frame.lines[0].area, Rect { x: 1, y: 1, width: 78, height: 1 });
    assert_eq!(text_of(&frame.lines[1]), "─".repeat(78));
    // 14 visible result rows, then the footer.
    assert_eq!(frame.lines.len(), 2 + 14 + 1);
    let footer = frame.lines.last().unwrap();
    let ft = text_of(footer);
    assert!(ft.starts_with("↑↓ Navigate · ⏎ Run · Esc Close · Type to search"));
    assert!(ft.ends_with("33 commands"));
    assert_eq!(footer.area.y, 18);
    assert_eq!(ft.chars().count(), 78);
}

#[test]
fn selected_row_is_marked_and_clickable() {
    let mut p = CommandPaletteState::new();
    let frame = p.render(Rect { x: 0, y: 0, width: 80, height: 20 });
    let first = &frame.lines[2];
    assert_eq!(first.area.y, 4);
    assert_eq!(first.spans[0].text, "▶ ");
    assert_eq!(first.spans[0].style.bg, Some(Color::Indexed(154)));
    assert!(text_of(first).contains("Close Tab"));
    assert!(text_of(first).ends_with("[Tab]"));
    assert_eq!(text_of(first).chars().count(), 78);
    assert_eq!(frame.lines[3].spans[0].text, "  ");
    assert_eq!(p.on_click(4, 10), Some(0));
    assert_eq!(p.on_hover(5, 1), Some(1));
    assert_eq!(p.on_click(4, 79), None);
    assert_eq!(p.on_click(3, 10), None);
    assert_eq!(p.on_click(18, 10), None);
}

#[test]
fn page_keys_use_the_rendered_viewport() {
    let mut p = CommandPaletteState::new();
    p.render(Rect { x: 0, y: 0, width: 80, height: 20 });
    p.on_key(&KeyWithModifier { bare_key: BareKey::PageDown, key_modifiers: vec![] });
    assert_eq!(p.selected, 14);
    assert_eq!(p.scroll_offset, 1);
}

#[test]
fn no_match_message_is_centered() {
    let mut p = CommandPaletteState::new();
    for c in "zzzzqq".chars() {
        p.on_key(&KeyWithModifier { bare_key: BareKey::Char(c), key_modifiers: vec![] });
    }
    let frame = p.render(Rect { x: 0, y: 0, width: 80, height: 20 });
    assert_eq!(text_of(&frame.lines[0]), "❯ zzzzqq");
    let msg = &frame.lines[2];
    assert_eq!(text_of(msg), "No commands matching \"zzzzqq\"");
    assert_eq!(msg.area.y, 4 + 7);
    assert_eq!(msg.area.x, 1 + (78 - 29) / 2);
    assert_eq!(msg.style.fg, Some(Color::Indexed(124)));
    assert_eq!(text_of(&frame.lines[3]), "Press Backspace or Esc to clear your search.");
    assert!(text_of(frame.lines.last().unwrap()).ends_with("0 of 33 results"));
    assert_eq!(p.on_click(4, 10), None);
}

#[test]
fn highlighted_chars_form_runs() {
    let cmds = all_commands();
    let spans = build_result_line(&cmds[0], &[0, 4], false, 40);
    let texts: Vec<&str> = spans.iter().map(|s| s.text.as_str()).collect();
    assert_eq!(texts[0], "  ");
    assert_eq!(texts[1], "+ ");
    assert_eq!(&texts[2..6], &["N", "ew ", "T", "ab"]);
    assert_eq!(spans[2].style.fg, Some(Color::Indexed(201)));
    assert_eq!(spans[3].style.fg, Some(Color::Indexed(245)));
    // 40 - (4 + 7) - (5 + 7) = 17 columns of padding.
    assert_eq!(texts[6], " ".repeat(17));
    assert_eq!(texts[7], "[Tab]");
    assert_eq!(texts[8], " Ctrl+T");
    let narrow = build_result_line(&cmds[0], &[], true, 10);
    assert_eq!(narrow[2].text, "New Tab");
    assert_eq!(narrow[3].text, " ");
    assert_eq!(narrow[0].text, "▶ ");
}

#[test]
fn centered_rect_takes_the_middle() {
    let r = centered_rect(80, 60, Rect { x: 0, y: 0, width: 100, height: 50 });
    assert_eq!(r, Rect { x: 10, y: 10, width: 80, height: 30 });
    assert_eq!(Rect::new(65530, 0, 10, 3), Rect { x: 65530, y: 0, width: 5, height: 3 });
    assert_eq!(repeat_char('a', 3), "aaa");
}

#[test]
fn plugin_renders_nothing_when_hidden() {
    let mut s = State::new();
    assert_eq!(s.screen(), ActiveScreen::Palette);
    assert!(s.render(Rect { x: 0, y: 0, width: 100, height: 40 }).is_some());
    s.update(PluginEvent::Key(KeyWithModifier { bare_key: BareKey::Esc, key_modifiers: vec![] }));
    assert_eq!(s.screen(), ActiveScreen::Hidden);
    assert!(s.render(Rect { x: 0, y: 0, width: 100, height: 40 }).is_none());
}

#[test]
fn result_row_text_spells_the_whole_row() {
    let cmds = all_commands();
    let spans = build_result_line(&cmds[0], &[0, 4], true, 40);
    let text: String = spans.iter().map(|s| s.text.as_str()).collect();
    assert_eq!(text, format!("▶ + New Tab{}[Tab] Ctrl+T", " ".repeat(17)));
}

#[test]
fn sections_stack_inside_a_tiny_area() {
    let mut p = CommandPaletteState::new();
    let frame = p.render(Rect { x: 2, y: 3, width: 30, height: 5 });
    let (a, b, c) = (frame.input_area, frame.results_area, frame.footer_area);
    for r in [a, b, c] {
        assert_eq!((r.x, r.width), (3, 28));
    }
    assert_eq!(a.y, 4);
    assert_eq!(b.y, a.y + a.height);
    assert_eq!(c.y, b.y + b.height);
    assert_eq!(c.y + c.height, 4 + 3);
    let big = p.render(Rect { x: 0, y: 0, width: 30, height: 10 });
    assert_eq!((big.input_area.height, big.results_area.height, big.footer_area.height), (3, 4, 1));
}

#[test]
fn palette_draws_where_the_area_passes_the_coordinate_range() {
    let mut p = CommandPaletteState::new();
    let frame = p.render(Rect { x: 65530, y: 0, width: 40, height: 10 });
    // Inside the border: x 65531, 38 columns wide, clamped to 4 per row.
    assert_eq!(frame.input_area.x, 65531);
    assert_eq!(frame.lines[0].area, Rect { x: 65531, y: 1, width: 4, height: 1 });
    let first_row = &frame.lines[2];
    assert_eq!(first_row.area, Rect { x: 65531, y: 4, width: 4, height: 1 });
    assert_eq!(p.on_click(4, 65534), Some(0));
    assert_eq!(p.on_click(4, 65535), None);
}

#[test]
fn selected_rows_have_the_selected_background_throughout() {
    let cmds = all_commands();
    let on = build_result_line(&cmds[0], &[0], true, 40);
    assert!(on.iter().all(|s| s.style.bg == Some(Color::Indexed(154))));
    let off = build_result_line(&cmds[0], &[0], false, 40);
    assert!(off.iter().all(|s| s.style.bg.is_none()));
    assert_eq!(off[2].text, "N");
    assert_eq!(off[2].style.fg, Some(Color::Indexed(201)));
    assert_eq!(off[3].style.fg, Some(Color::Indexed(245)));
}
