//! ANSI escape encoding for the terminal backend.
//!
//! The palette is drawn by emitting cursor-position, SGR and symbol escapes;
//! zellij captures the plugin's stdout and interprets it as raw ANSI. The
//! functions here compute those escapes as plain strings.

use vstd::prelude::*;
use crate::text::{decimal, digit_char, push_decimal, push_str};

verus! {

/// A terminal color: the sixteen named ANSI colors, the terminal default,
/// an entry of the 256-color palette, or a 24-bit RGB triple.
#[derive(Clone, Copy, Debug, PartialEq, Eq, Structural)]
pub enum Color {
    Reset,
    Black,
    Red,
    Green,
    Yellow,
    Blue,
    Magenta,
    Cyan,
    Gray,
    DarkGray,
    LightRed,
    LightGreen,
    LightYellow,
    LightBlue,
    LightMagenta,
    LightCyan,
    White,
    Indexed(u8),
    Rgb(u8, u8, u8),
}

/// A set of text modifiers, one bit per modifier.
#[derive(Clone, Copy, Debug, PartialEq, Eq, Structural)]
pub struct Modifier {
    pub bits: u16,
}

impl Modifier {
    /// The `BOLD` modifier alone.
    pub fn bold() -> (m: Modifier)
        ensures
            m.bits == 1,
    {
        Modifier { bits: 1 }
    }

    /// The `DIM` modifier alone.
    pub fn dim() -> (m: Modifier)
        ensures
            m.bits == 2,
    {
        Modifier { bits: 2 }
    }

    /// The `ITALIC` modifier alone.
    pub fn italic() -> (m: Modifier)
        ensures
            m.bits == 4,
    {
        Modifier { bits: 4 }
    }

    /// The `UNDERLINED` modifier alone.
    pub fn underlined() -> (m: Modifier)
        ensures
            m.bits == 8,
    {
        Modifier { bits: 8 }
    }

    /// The `SLOW_BLINK` modifier alone.
    pub fn slow_blink() -> (m: Modifier)
        ensures
            m.bits == 16,
    {
        Modifier { bits: 16 }
    }

    /// The `RAPID_BLINK` modifier alone.
    pub fn rapid_blink() -> (m: Modifier)
        ensures
            m.bits == 32,
    {
        Modifier { bits: 32 }
    }

    /// The `REVERSED` modifier alone.
    pub fn reversed() -> (m: Modifier)
        ensures
            m.bits == 64,
    {
        Modifier { bits: 64 }
    }

    /// The `HIDDEN` modifier alone.
    pub fn hidden() -> (m: Modifier)
        ensures
            m.bits == 128,
    {
        Modifier { bits: 128 }
    }

    /// The `CROSSED_OUT` modifier alone.
    pub fn crossed_out() -> (m: Modifier)
        ensures
            m.bits == 256,
    {
        Modifier { bits: 256 }
    }

    /// The empty set of modifiers.
    pub fn empty() -> (m: Modifier)
        ensures
            m.bits == 0,
    {
        Modifier { bits: 0 }
    }

    /// The set of all nine modifiers.
    pub fn all() -> (m: Modifier)
        ensures
            m.bits == 0b0001_1111_1111,
    {
        Modifier { bits: 0b0001_1111_1111 }
    }

    /// Whether every modifier of `other` is in `self`.
    pub open spec fn spec_contains(self, other: Modifier) -> bool {
        self.bits & other.bits == other.bits
    }

    /// Whether every modifier of `other` is in `self`.
    pub fn contains(&self, other: Modifier) -> (b: bool)
        ensures
            b == self.spec_contains(other),
    {
        self.bits & other.bits == other.bits
    }

    /// The modifiers of `self` together with those of `other`.
    pub fn union(self, other: Modifier) -> (m: Modifier)
        ensures
            m.bits == self.bits | other.bits,
    {
        Modifier { bits: self.bits | other.bits }
    }
}

/// Which part of the screen an erase escape clears.
#[derive(Clone, Copy, Debug, PartialEq, Eq, Structural)]
pub enum ClearType {
    All,
    AfterCursor,
    BeforeCursor,
    CurrentLine,
    UntilNewLine,
}

/// `ESC [ row ; col H` for the 0-based cell `(x, y)`: ANSI rows and columns
/// are 1-based, so row is `y + 1` and column is `x + 1`.
pub open spec fn cursor_to_spec(x: u16, y: u16) -> Seq<char> {
    "\x1b["@ + decimal((y + 1) as nat) + ";"@ + decimal((x + 1) as nat) + "H"@
}

/// Cursor-position escape for the 0-based cell `(x, y)`.
pub fn cursor_to(x: u16, y: u16) -> (s: String)
    ensures
        s@ == cursor_to_spec(x, y),
{
    let mut s = String::new();
    push_str(&mut s, "\x1b[");
    push_decimal(&mut s, y as u64 + 1);
    push_str(&mut s, ";");
    push_decimal(&mut s, x as u64 + 1);
    push_str(&mut s, "H");
    s
}

/// The SGR parameter of a named color, counted from the base of its group
/// (`30` for foreground, `40` for background); `None` for palette and RGB
/// colors. Bright colors use the `90`/`100` group, encoded here as `60` above
/// the base.
pub open spec fn named_offset(c: Color) -> Option<nat> {
    match c {
        Color::Black => Some(0),
        Color::Red => Some(1),
        Color::Green => Some(2),
        Color::Yellow => Some(3),
        Color::Blue => Some(4),
        Color::Magenta => Some(5),
        Color::Cyan => Some(6),
        Color::Gray => Some(7),
        Color::Reset => Some(9),
        Color::DarkGray => Some(60),
        Color::LightRed => Some(61),
        Color::LightGreen => Some(62),
        Color::LightYellow => Some(63),
        Color::LightBlue => Some(64),
        Color::LightMagenta => Some(65),
        Color::LightCyan => Some(66),
        Color::White => Some(67),
        _ => None,
    }
}

/// The SGR escape selecting `c`, where `base` is `30` for the foreground and
/// `40` for the background: `ESC [ base+k m` for a named color,
/// `ESC [ base+8 ; 5 ; n m` for a palette entry and
/// `ESC [ base+8 ; 2 ; r ; g ; b m` for an RGB color.
pub open spec fn sgr_color_spec(c: Color, base: nat) -> Seq<char> {
    match c {
        Color::Indexed(n) => "\x1b["@ + decimal(base + 8) + ";5;"@ + decimal(n as nat) + "m"@,
        Color::Rgb(r, g, b) => "\x1b["@ + decimal(base + 8) + ";2;"@ + decimal(r as nat) + ";"@
            + decimal(g as nat) + ";"@ + decimal(b as nat) + "m"@,
        _ => "\x1b["@ + decimal(base + named_offset(c)->0) + "m"@,
    }
}

/// The background escape of a color is its foreground escape one group up:
/// for a named color (and the default) the parameter is ten more; for a
/// palette or RGB color the `38;` introducer becomes `48;` and the rest is
/// the same.
pub proof fn lemma_background_is_foreground_shifted(c: Color)
    ensures
        named_offset(c) matches Some(k) ==> sgr_color_spec(c, 30) == "\x1b["@ + decimal(30 + k) + "m"@
            && sgr_color_spec(c, 40) == "\x1b["@ + decimal(30 + k + 10) + "m"@,
        named_offset(c) is None ==> sgr_color_spec(c, 30).take(5) == "\x1b[38;"@ && sgr_color_spec(c, 40).take(5)
            == "\x1b[48;"@ && sgr_color_spec(c, 30).skip(5) == sgr_color_spec(c, 40).skip(5),
{
    if named_offset(c) is None {
        reveal_strlit("\x1b[");
        reveal_strlit("\x1b[38;");
        reveal_strlit("\x1b[48;");
        reveal_strlit(";5;");
        reveal_strlit(";2;");
        assert(decimal(3) == seq![digit_char(3)]);
        assert(decimal(38) == decimal(3).push(digit_char(8)));
        assert(decimal(4) == seq![digit_char(4)]);
        assert(decimal(48) == decimal(4).push(digit_char(8)));
        assert(digit_char(3) == '3' && digit_char(4) == '4' && digit_char(8) == '8');
        assert(decimal(38) =~= seq!['3', '8']);
        assert(decimal(48) =~= seq!['4', '8']);
        let fg = sgr_color_spec(c, 30);
        let bg = sgr_color_spec(c, 40);
        let tail = match c {
            Color::Indexed(n) => ";5;"@ + decimal(n as nat) + "m"@,
            Color::Rgb(r, g, b) => ";2;"@ + decimal(r as nat) + ";"@ + decimal(g as nat) + ";"@ + decimal(
                b as nat,
            ) + "m"@,
            _ => Seq::empty(),
        };
        assert(fg =~= "\x1b["@ + decimal(38) + tail);
        assert(bg =~= "\x1b["@ + decimal(48) + tail);
        assert(fg.take(5) =~= "\x1b[38;"@);
        assert(bg.take(5) =~= "\x1b[48;"@);
        assert(fg.skip(5) =~= tail.skip(1));
        assert(bg.skip(5) =~= tail.skip(1));
    }
}

fn named_code(c: &Color, base: u64) -> (code: Option<u64>)
    requires
        base <= 40,
    ensures
        code is Some <==> named_offset(*c) is Some,
        code matches Some(k) ==> k == base + named_offset(*c)->0,
{
    match c {
        Color::Black => Some(base),
        Color::Red => Some(base + 1),
        Color::Green => Some(base + 2),
        Color::Yellow => Some(base + 3),
        Color::Blue => Some(base + 4),
        Color::Magenta => Some(base + 5),
        Color::Cyan => Some(base + 6),
        Color::Gray => Some(base + 7),
        Color::Reset => Some(base + 9),
        Color::DarkGray => Some(base + 60),
        Color::LightRed => Some(base + 61),
        Color::LightGreen => Some(base + 62),
        Color::LightYellow => Some(base + 63),
        Color::LightBlue => Some(base + 64),
        Color::LightMagenta => Some(base + 65),
        Color::LightCyan => Some(base + 66),
        Color::White => Some(base + 67),
        _ => None,
    }
}

fn push_sgr_color(s: &mut String, c: &Color, base: u64)
    requires
        base <= 40,
    ensures
        final(s)@ == old(s)@ + sgr_color_spec(*c, base as nat),
{
    let ghost s0 = s@;
    push_str(s, "\x1b[");
    match named_code(c, base) {
        Some(k) => {
            push_decimal(s, k);
        },
        None => {
            push_decimal(s, base + 8);
            match c {
                Color::Indexed(n) => {
                    push_str(s, ";5;");
                    push_decimal(s, *n as u64);
                },
                Color::Rgb(r, g, b) => {
                    push_str(s, ";2;");
                    push_decimal(s, *r as u64);
                    push_str(s, ";");
                    push_decimal(s, *g as u64);
                    push_str(s, ";");
                    push_decimal(s, *b as u64);
                },
                _ => {},
            }
        },
    }
    push_str(s, "m");
    proof {
        match *c {
            Color::Indexed(n) => {
                assert(s@ =~= s0 + sgr_color_spec(*c, base as nat));
            },
            Color::Rgb(r, g, b) => {
                assert(s@ =~= s0 + sgr_color_spec(*c, base as nat));
            },
            _ => {
                assert(s@ =~= s0 + sgr_color_spec(*c, base as nat));
            },
        }
    }
}

/// Foreground SGR escape for `color`.
pub fn color_to_sgr_fg(color: &Color) -> (s: String)
    ensures
        s@ == sgr_color_spec(*color, 30),
{
    let mut s = String::new();
    push_sgr_color(&mut s, color, 30);
    assert(s@ =~= sgr_color_spec(*color, 30));
    s
}

/// Background SGR escape for `color`.
pub fn color_to_sgr_bg(color: &Color) -> (s: String)
    ensures
        s@ == sgr_color_spec(*color, 40),
{
    let mut s = String::new();
    push_sgr_color(&mut s, color, 40);
    assert(s@ =~= sgr_color_spec(*color, 40));
    s
}

/// `code` when `m` holds the modifier with bit `bit`, else nothing.
pub open spec fn sgr_if(m: Modifier, bit: u16, code: Seq<char>) -> Seq<char> {
    if m.spec_contains(Modifier { bits: bit }) {
        code
    } else {
        Seq::empty()
    }
}

/// The SGR escapes of the modifiers in `m`, in bit order: bold `1`, dim `2`,
/// italic `3`, underlined `4`, slow blink `5`, rapid blink `6`, reversed `7`
/// and crossed out `9`. Hidden is never emitted.
pub open spec fn modifier_sgr_spec(m: Modifier) -> Seq<char> {
    sgr_if(m, 1, "\x1b[1m"@) + sgr_if(m, 2, "\x1b[2m"@) + sgr_if(m, 4, "\x1b[3m"@) + sgr_if(
        m,
        8,
        "\x1b[4m"@,
    ) + sgr_if(m, 16, "\x1b[5m"@) + sgr_if(m, 32, "\x1b[6m"@) + sgr_if(m, 64, "\x1b[7m"@)
        + sgr_if(m, 256, "\x1b[9m"@)
}

/// Concatenated SGR escapes for every modifier set in `modifier`.
pub fn modifier_to_sgr(modifier: &Modifier) -> (s: String)
    ensures
        s@ == modifier_sgr_spec(*modifier),
{
    let mut s = String::new();
    if modifier.contains(Modifier::bold()) {
        push_str(&mut s, "\x1b[1m");
    }
    if modifier.contains(Modifier::dim()) {
        push_str(&mut s, "\x1b[2m");
    }
    if modifier.contains(Modifier::italic()) {
        push_str(&mut s, "\x1b[3m");
    }
    if modifier.contains(Modifier::underlined()) {
        push_str(&mut s, "\x1b[4m");
    }
    if modifier.contains(Modifier::slow_blink()) {
        push_str(&mut s, "\x1b[5m");
    }
    if modifier.contains(Modifier::rapid_blink()) {
        push_str(&mut s, "\x1b[6m");
    }
    if modifier.contains(Modifier::reversed()) {
        push_str(&mut s, "\x1b[7m");
    }
    // Hidden is deliberately not rendered: it would make the text invisible.
    if modifier.contains(Modifier::crossed_out()) {
        push_str(&mut s, "\x1b[9m");
    }
    assert(s@ =~= modifier_sgr_spec(*modifier));
    s
}

/// The erase escape for `clear_type`.
pub open spec fn clear_region_spec(clear_type: ClearType) -> Seq<char> {
    match clear_type {
        ClearType::All => "\x1b[2J\x1b[H"@,
        ClearType::AfterCursor => "\x1b[J"@,
        ClearType::BeforeCursor => "\x1b[1J"@,
        ClearType::CurrentLine => "\x1b[2K"@,
        ClearType::UntilNewLine => "\x1b[K"@,
    }
}

/// Erase escape for a [`ClearType`].
pub fn clear_region_to(clear_type: ClearType) -> (s: &'static str)
    ensures
        s@ == clear_region_spec(clear_type),
{
    match clear_type {
        ClearType::All => "\x1b[2J\x1b[H",
        ClearType::AfterCursor => "\x1b[J",
        ClearType::BeforeCursor => "\x1b[1J",
        ClearType::CurrentLine => "\x1b[2K",
        ClearType::UntilNewLine => "\x1b[K",
    }
}

/// One cell of a frame to draw: its 0-based position, its style, and the
/// grapheme it shows. `skip` marks the trailing columns of a wide grapheme,
/// which carry no symbol of their own.
#[derive(Clone, Debug)]
pub struct FrameCell {
    pub x: u16,
    pub y: u16,
    pub fg: Color,
    pub bg: Color,
    pub modifier: Modifier,
    pub symbol: String,
    pub skip: bool,
}

/// The escapes drawing one cell: move the cursor there, reset all
/// attributes, apply foreground, background and modifiers, then the symbol.
pub open spec fn cell_escape_spec(c: FrameCell) -> Seq<char> {
    cursor_to_spec(c.x, c.y) + "\x1b[0m"@ + sgr_color_spec(c.fg, 30) + sgr_color_spec(c.bg, 40)
        + modifier_sgr_spec(c.modifier) + c.symbol@
}

/// The escapes drawing `cells` in order, skipping the cells marked `skip`.
pub open spec fn frame_spec(cells: Seq<FrameCell>) -> Seq<char>
    decreases cells.len(),
{
    if cells.len() == 0 {
        Seq::empty()
    } else {
        frame_spec(cells.drop_last()) + if cells.last().skip {
            Seq::empty()
        } else {
            cell_escape_spec(cells.last())
        }
    }
}

/// The whole frame as one string, so that it can be written at once.
pub fn encode_frame(cells: &[FrameCell]) -> (s: String)
    ensures
        s@ == frame_spec(cells@),
{
    let mut out = String::new();
    let mut i: usize = 0;
    while i < cells.len()
        invariant
            i <= cells@.len(),
            out@ == frame_spec(cells@.subrange(0, i as int)),
        decreases cells@.len() - i,
    {
        let ghost before = out@;
        let cell = &cells[i];
        if !cell.skip {
            let cur = cursor_to(cell.x, cell.y);
            push_str(&mut out, cur.as_str());
            push_str(&mut out, "\x1b[0m");
            push_sgr_color(&mut out, &cell.fg, 30);
            push_sgr_color(&mut out, &cell.bg, 40);
            let m = modifier_to_sgr(&cell.modifier);
            push_str(&mut out, m.as_str());
            push_str(&mut out, cell.symbol.as_str());
        }
        proof {
            let sub = cells@.subrange(0, i + 1);
            assert(sub.drop_last() =~= cells@.subrange(0, i as int));
            assert(sub.last() == cells@[i as int]);
            assert(out@ =~= frame_spec(sub));
        }
        i = i + 1;
    }
    assert(cells@.subrange(0, cells@.len() as int) =~= cells@);
    out
}

/// A terminal size in cells.
#[derive(Clone, Copy, Debug, PartialEq, Eq, Structural)]
pub struct Size {
    pub width: u16,
    pub height: u16,
}

impl Size {
    /// The size `width` by `height`.
    pub fn new(width: u16, height: u16) -> (s: Size)
        ensures
            s == (Size { width, height }),
    {
        Size { width, height }
    }
}

/// A 0-based cell position.
#[derive(Clone, Copy, Debug, PartialEq, Eq, Structural)]
pub struct Position {
    pub x: u16,
    pub y: u16,
}

impl Position {
    /// The position `(x, y)`.
    pub fn new(x: u16, y: u16) -> (p: Position)
        ensures
            p == (Position { x, y }),
    {
        Position { x, y }
    }
}

/// The size of a terminal window in cells and in pixels.
#[derive(Clone, Copy, Debug, PartialEq, Eq, Structural)]
pub struct WindowSize {
    pub columns_rows: Size,
    pub pixels: Size,
}

/// The state of the terminal backend of the plugin pane: the size it was
/// given, and the last position it moved the cursor to. A plugin cannot
/// query a real cursor, so the backend answers from what it recorded.
pub struct ZellijBackend {
    size: Size,
    prev_cursor: Option<(u16, u16)>,
}

/// The backend state as plain values.
pub struct BackendView {
    pub size: Size,
    pub prev_cursor: Option<(u16, u16)>,
}

impl View for ZellijBackend {
    type V = BackendView;

    closed spec fn view(&self) -> BackendView {
        BackendView { size: self.size, prev_cursor: self.prev_cursor }
    }
}

/// The cursor position the backend reports: the last one it moved to, or
/// the origin before any move.
pub open spec fn cursor_position_spec(b: BackendView) -> Position {
    match b.prev_cursor {
        Some((x, y)) => Position { x, y },
        None => Position { x: 0, y: 0 },
    }
}

/// The backend after moving the cursor to `p`.
pub open spec fn with_cursor(b: BackendView, p: Position) -> BackendView {
    BackendView { prev_cursor: Some((p.x, p.y)), ..b }
}

/// The message of the error that a window-size query gets.
pub open spec fn window_size_message() -> Seq<char> {
    "window_size is not supported in the zellij plugin backend"@
}

impl ZellijBackend {
    /// A backend bound to the terminal size `size`, with no cursor move
    /// recorded yet.
    pub fn new(size: Size) -> (b: Self)
        ensures
            b@ == (BackendView { size, prev_cursor: None }),
    {
        ZellijBackend { size, prev_cursor: None }
    }

    /// The terminal size the backend was given.
    pub fn size(&self) -> (r: Result<Size, BackendError>)
        ensures
            r matches Ok(s) && s == self@.size,
    {
        Ok(self.size)
    }

    /// The last cursor position moved to, or the origin before any move.
    pub fn get_cursor_position(&self) -> (r: Result<Position, BackendError>)
        ensures
            r matches Ok(p) && p == cursor_position_spec(self@),
    {
        match self.prev_cursor {
            Some((x, y)) => Ok(Position { x, y }),
            None => Ok(Position { x: 0, y: 0 }),
        }
    }

    /// Records a cursor move to `position` and returns the escape that
    /// performs it.
    pub fn set_cursor_position(&mut self, position: Position) -> (r: Result<String, BackendError>)
        ensures
            final(self)@ == with_cursor(old(self)@, position),
            r matches Ok(s) && s@ == cursor_to_spec(position.x, position.y),
    {
        self.prev_cursor = Some((position.x, position.y));
        Ok(cursor_to(position.x, position.y))
    }

    /// The escape that hides the cursor.
    pub fn hide_cursor(&self) -> (s: &'static str)
        ensures
            s@ == "\x1b[?25l"@,
    {
        "\x1b[?25l"
    }

    /// The escape that shows the cursor.
    pub fn show_cursor(&self) -> (s: &'static str)
        ensures
            s@ == "\x1b[?25h"@,
    {
        "\x1b[?25h"
    }

    /// The escape that clears the whole screen and homes the cursor.
    pub fn clear(&self) -> (s: &'static str)
        ensures
            s@ == clear_region_spec(ClearType::All),
    {
        clear_region_to(ClearType::All)
    }

    /// A window size in pixels means nothing inside a plugin pane: the
    /// query always fails.
    pub fn window_size(&self) -> (r: Result<WindowSize, BackendError>)
        ensures
            r matches Err(e) && e.0@ == window_size_message(),
    {
        Err(BackendError::window_size_unsupported())
    }
}

/// Moving the cursor and then asking for it gives back the position moved
/// to, and leaves the size alone; before any move the cursor is at the
/// origin.
pub proof fn lemma_cursor_round_trip(b: BackendView, p: Position, size: Size)
    ensures
        cursor_position_spec(with_cursor(b, p)) == p,
        with_cursor(b, p).size == b.size,
        cursor_position_spec(BackendView { size, prev_cursor: None }) == (Position { x: 0, y: 0 }),
{
}

/// Error of the terminal backend: a description of what went wrong.
#[derive(Debug)]
pub struct BackendError(pub String);

impl BackendError {
    /// What the error shows when displayed: `zellij backend error: ` and
    /// the description.
    pub fn to_display_string(&self) -> (s: String)
        ensures
            s@ == "zellij backend error: "@ + self.0@,
    {
        let mut s = String::new();
        push_str(&mut s, "zellij backend error: ");
        push_str(&mut s, self.0.as_str());
        s
    }

    /// The error for a window-size query, which a plugin pane cannot
    /// answer in pixels.
    pub fn window_size_unsupported() -> (e: BackendError)
        ensures
            e.0@ == window_size_message(),
    {
        let mut s = String::new();
        push_str(&mut s, "window_size is not supported in the zellij plugin backend");
        BackendError(s)
    }
}

} // verus!
