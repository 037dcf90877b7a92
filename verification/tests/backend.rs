use tspace_menu::backend::{
    clear_region_to, color_to_sgr_bg, color_to_sgr_fg, cursor_to, encode_frame, modifier_to_sgr,
    BackendError, ClearType, Color, FrameCell, Modifier, Position, Size, ZellijBackend,
};

#[test]
fn fg_named_color_red() {
    assert_eq!(color_to_sgr_fg(&Color::Red), "\x1b[31m");
}

#[test]
fn fg_indexed_color() {
    assert_eq!(color_to_sgr_fg(&Color::Indexed(154)), "\x1b[38;5;154m");
}

#[test]
fn fg_rgb_color() {
    assert_eq!(color_to_sgr_fg(&Color::Rgb(255, 0, 128)), "\x1b[38;2;255;0;128m");
}

#[test]
fn fg_all_named_colors_cover_full_ansi_table() {
    assert_eq!(color_to_sgr_fg(&Color::Black), "\x1b[30m");
    assert_eq!(color_to_sgr_fg(&Color::Gray), "\x1b[37m");
    assert_eq!(color_to_sgr_fg(&Color::DarkGray), "\x1b[90m");
    assert_eq!(color_to_sgr_fg(&Color::White), "\x1b[97m");
}

#[test]
fn bg_reset_color() {
    assert_eq!(color_to_sgr_bg(&Color::Reset), "\x1b[49m");
}

#[test]
fn bg_indexed_color() {
    assert_eq!(color_to_sgr_bg(&Color::Indexed(51)), "\x1b[48;5;51m");
}

#[test]
fn bg_rgb_color() {
    assert_eq!(color_to_sgr_bg(&Color::Rgb(10, 20, 30)), "\x1b[48;2;10;20;30m");
}

#[test]
fn modifier_bold() {
    assert!(modifier_to_sgr(&Modifier::bold()).contains("\x1b[1m"));
}

#[test]
fn modifier_all_contains_key_bits() {
    let sgr = modifier_to_sgr(&Modifier::all());
    assert!(sgr.contains("\x1b[1m"), "missing bold: {sgr}");
    assert!(sgr.contains("\x1b[3m"), "missing italic: {sgr}");
    assert!(sgr.contains("\x1b[4m"), "missing underline: {sgr}");
    assert!(sgr.contains("\x1b[7m"), "missing reverse: {sgr}");
}

#[test]
fn modifier_empty_emits_nothing() {
    assert!(modifier_to_sgr(&Modifier::empty()).is_empty());
}

#[test]
fn modifier_individual_bits_emit_exactly_their_escape() {
    assert_eq!(modifier_to_sgr(&Modifier::italic()), "\x1b[3m");
    assert_eq!(modifier_to_sgr(&Modifier::underlined()), "\x1b[4m");
    assert_eq!(modifier_to_sgr(&Modifier::reversed()), "\x1b[7m");
    assert_eq!(modifier_to_sgr(&Modifier::crossed_out()), "\x1b[9m");
}

#[test]
fn cursor_to_is_one_indexed() {
    // x=5 -> col 6, y=10 -> row 11
    assert_eq!(cursor_to(5, 10), "\x1b[11;6H");
}

#[test]
fn cursor_to_origin() {
    assert_eq!(cursor_to(0, 0), "\x1b[1;1H");
}

#[test]
fn clear_region_all() {
    assert_eq!(clear_region_to(ClearType::All), "\x1b[2J\x1b[H");
}

#[test]
fn clear_region_variants() {
    assert_eq!(clear_region_to(ClearType::AfterCursor), "\x1b[J");
    assert_eq!(clear_region_to(ClearType::BeforeCursor), "\x1b[1J");
    assert_eq!(clear_region_to(ClearType::CurrentLine), "\x1b[2K");
    assert_eq!(clear_region_to(ClearType::UntilNewLine), "\x1b[K");
}

#[test]
fn cursor_to_largest_cell() {
    assert_eq!(cursor_to(65535, 65535), "\x1b[65536;65536H");
}

#[test]
fn all_named_colors_foreground_and_background() {
    let named = [
        (Color::Reset, 39, 49),
        (Color::Black, 30, 40),
        (Color::Red, 31, 41),
        (Color::Green, 32, 42),
        (Color::Yellow, 33, 43),
        (Color::Blue, 34, 44),
        (Color::Magenta, 35, 45),
        (Color::Cyan, 36, 46),
        (Color::Gray, 37, 47),
        (Color::DarkGray, 90, 100),
        (Color::LightRed, 91, 101),
        (Color::LightGreen, 92, 102),
        (Color::LightYellow, 93, 103),
        (Color::LightBlue, 94, 104),
        (Color::LightMagenta, 95, 105),
        (Color::LightCyan, 96, 106),
        (Color::White, 97, 107),
    ];
    for (c, fg, bg) in named {
        assert_eq!(color_to_sgr_fg(&c), format!("\x1b[{}m", fg));
        assert_eq!(color_to_sgr_bg(&c), format!("\x1b[{}m", bg));
    }
    assert_eq!(color_to_sgr_fg(&Color::Indexed(0)), "\x1b[38;5;0m");
    assert_eq!(color_to_sgr_bg(&Color::Rgb(0, 255, 9)), "\x1b[48;2;0;255;9m");
}

#[test]
fn modifier_hidden_is_never_emitted() {
    assert_eq!(modifier_to_sgr(&Modifier::hidden()), "");
    assert_eq!(
        modifier_to_sgr(&Modifier::all()),
        "\x1b[1m\x1b[2m\x1b[3m\x1b[4m\x1b[5m\x1b[6m\x1b[7m\x1b[9m"
    );
    let m = Modifier::bold().union(Modifier::dim());
    assert!(m.contains(Modifier::dim()));
    assert!(!m.contains(Modifier::italic()));
    assert_eq!(modifier_to_sgr(&m), "\x1b[1m\x1b[2m");
}

#[test]
fn frame_encoding_skips_wide_glyph_tails() {
    let cells = vec![
        FrameCell {
            x: 0,
            y: 0,
            fg: Color::Red,
            bg: Color::Reset,
            modifier: Modifier::bold(),
            symbol: String::from("a"),
            skip: false,
        },
        FrameCell {
            x: 1,
            y: 0,
            fg: Color::Red,
            bg: Color::Reset,
            modifier: Modifier::empty(),
            symbol: String::new(),
            skip: true,
        },
        FrameCell {
            x: 2,
            y: 3,
            fg: Color::Indexed(7),
            bg: Color::Blue,
            modifier: Modifier::empty(),
            symbol: String::from("界"),
            skip: false,
        },
    ];
    assert_eq!(
        encode_frame(&cells),
        "\x1b[1;1H\x1b[0m\x1b[31m\x1b[49m\x1b[1ma\x1b[4;3H\x1b[0m\x1b[38;5;7m\x1b[44m界"
    );
    assert_eq!(encode_frame(&[]), "");
}

#[test]
fn backend_error_display_text() {
    let e = BackendError(String::from("boom"));
    assert_eq!(e.to_display_string(), "zellij backend error: boom");
    let w = BackendError::window_size_unsupported();
    assert_eq!(w.0, "window_size is not supported in the zellij plugin backend");
}

#[test]
fn size_returns_configured_value() {
    let backend = ZellijBackend::new(Size::new(120, 40));
    let size = backend.size().expect("size should be Ok");
    assert_eq!(size, Size::new(120, 40));
}

#[test]
fn window_size_is_unsupported() {
    let backend = ZellijBackend::new(Size::new(10, 10));
    assert!(backend.window_size().is_err());
}

#[test]
fn set_then_get_cursor_round_trips() {
    let mut backend = ZellijBackend::new(Size::new(80, 24));
    assert_eq!(backend.get_cursor_position().unwrap(), Position::new(0, 0));

    backend.set_cursor_position(Position::new(7, 3)).unwrap();
    assert_eq!(backend.get_cursor_position().unwrap(), Position::new(7, 3));
}

#[test]
fn set_cursor_position_returns_the_move_escape() {
    let mut backend = ZellijBackend::new(Size::new(80, 24));
    assert_eq!(backend.set_cursor_position(Position::new(5, 10)).unwrap(), "\x1b[11;6H");
    assert_eq!(backend.size().unwrap(), Size::new(80, 24));
}

#[test]
fn window_size_error_names_the_query() {
    let backend = ZellijBackend::new(Size::new(10, 10));
    let err = backend.window_size().unwrap_err();
    assert_eq!(err.0, "window_size is not supported in the zellij plugin backend");
}

#[test]
fn cursor_visibility_and_clear_escapes() {
    let backend = ZellijBackend::new(Size::new(10, 10));
    assert_eq!(backend.hide_cursor(), "\x1b[?25l");
    assert_eq!(backend.show_cursor(), "\x1b[?25h");
    assert_eq!(backend.clear(), "\x1b[2J\x1b[H");
}

#[test]
fn background_is_foreground_one_group_up() {
    let named = [
        Color::Reset, Color::Black, Color::Red, Color::Green, Color::Yellow, Color::Blue,
        Color::Magenta, Color::Cyan, Color::Gray, Color::DarkGray, Color::LightRed,
        Color::LightGreen, Color::LightYellow, Color::LightBlue, Color::LightMagenta,
        Color::LightCyan, Color::White,
    ];
    for c in named {
        let fg = color_to_sgr_fg(&c);
        let k: u32 = fg[2..fg.len() - 1].parse().unwrap();
        assert_eq!(color_to_sgr_bg(&c), format!("\x1b[{}m", k + 10));
    }
    for c in [Color::Indexed(7), Color::Rgb(1, 2, 3)] {
        let fg = color_to_sgr_fg(&c);
        let bg = color_to_sgr_bg(&c);
        assert!(fg.starts_with("\x1b[38;") && bg.starts_with("\x1b[48;"));
        assert_eq!(fg[5..], bg[5..]);
    }
}
