//! What the palette draws: the frame, the input row, the result rows with
//! their highlighted matches, the no-match message and the footer, as plain
//! styled text placed in rectangles. The host draws these with its terminal
//! UI library; the click regions of the result rows are recorded here.

use vstd::prelude::*;
use crate::backend::{Color, Modifier};
use crate::click::{ClickAction, ClickRegion};
use crate::commands::{
    badge_spec, effective_icon_spec, registry, Category, Command, CommandView,
};
use crate::screens::command_palette::PaletteView;
use crate::text::{decimal, display_width, push_char, push_decimal, push_str, str_width};

verus! {

/// A rectangle of terminal cells: top-left corner and size.
#[derive(Clone, Copy, Debug, PartialEq, Eq, Structural)]
pub struct Rect {
    pub x: u16,
    pub y: u16,
    pub width: u16,
    pub height: u16,
}

/// `r` ends within the `u16` coordinate range on both axes.
pub open spec fn fits(r: Rect) -> bool {
    r.x + r.width <= u16::MAX && r.y + r.height <= u16::MAX
}

/// `r` ends within the `u16` coordinate range vertically.
pub open spec fn fits_vertically(r: Rect) -> bool {
    r.y + r.height <= u16::MAX
}

/// The rectangle at `(x, y)` of the given size, shrunk so that it ends
/// within the `u16` coordinate range.
pub open spec fn rect_spec(x: u16, y: u16, width: u16, height: u16) -> Rect {
    Rect {
        x,
        y,
        width: (if x + width > u16::MAX { u16::MAX - x } else { width as int }) as u16,
        height: (if y + height > u16::MAX { u16::MAX - y } else { height as int }) as u16,
    }
}

impl Rect {
    /// The rectangle at `(x, y)` of the given size, clamped so that it ends
    /// within the coordinate range.
    pub fn new(x: u16, y: u16, width: u16, height: u16) -> (r: Rect)
        ensures
            r == rect_spec(x, y, width, height),
            fits(r),
    {
        let w = if width > u16::MAX - x {
            u16::MAX - x
        } else {
            width
        };
        let h = if height > u16::MAX - y {
            u16::MAX - y
        } else {
            height
        };
        Rect { x, y, width: w, height: h }
    }
}

/// Colors, background and added modifiers of a piece of text. Unset colors
/// leave what is underneath.
#[derive(Clone, Copy, Debug, PartialEq, Eq, Structural)]
pub struct Style {
    pub fg: Option<Color>,
    pub bg: Option<Color>,
    pub add_modifier: Modifier,
}

/// The style that changes nothing.
pub open spec fn plain() -> Style {
    Style { fg: None, bg: None, add_modifier: Modifier { bits: 0 } }
}

/// `s` with foreground `c`.
pub open spec fn with_fg(s: Style, c: Color) -> Style {
    Style { fg: Some(c), ..s }
}

/// `s` with background `c`.
pub open spec fn with_bg(s: Style, c: Color) -> Style {
    Style { bg: Some(c), ..s }
}

/// `s` with the modifiers of `m` added.
pub open spec fn with_mod(s: Style, m: u16) -> Style {
    Style { add_modifier: Modifier { bits: s.add_modifier.bits | m }, ..s }
}

impl Style {
    /// The style that changes nothing.
    pub fn new() -> (s: Style)
        ensures
            s == plain(),
    {
        Style { fg: None, bg: None, add_modifier: Modifier::empty() }
    }

    /// This style with foreground `c`.
    pub fn fg(self, c: Color) -> (s: Style)
        ensures
            s == with_fg(self, c),
    {
        Style { fg: Some(c), ..self }
    }

    /// This style with background `c`.
    pub fn bg(self, c: Color) -> (s: Style)
        ensures
            s == with_bg(self, c),
    {
        Style { bg: Some(c), ..self }
    }

    /// This style with the modifiers of `m` added.
    pub fn add_modifier(self, m: Modifier) -> (s: Style)
        ensures
            s == with_mod(self, m.bits),
    {
        Style { add_modifier: self.add_modifier.union(m), ..self }
    }
}

/// A run of text drawn in one style.
#[derive(Clone, Debug)]
pub struct StyledText {
    pub text: String,
    pub style: Style,
}

/// A run of styled text as plain values.
pub struct SpanView {
    pub text: Seq<char>,
    pub style: Style,
}

impl View for StyledText {
    type V = SpanView;

    open spec fn view(&self) -> SpanView {
        SpanView { text: self.text@, style: self.style }
    }
}

/// One line of text drawn at the top-left of `area`: the line's `style`
/// fills the area first, then the spans are drawn left to right, clipped to
/// the area.
#[derive(Clone, Debug)]
pub struct TextLine {
    pub area: Rect,
    pub style: Style,
    pub spans: Vec<StyledText>,
}

/// A line as plain values.
pub struct LineView {
    pub area: Rect,
    pub style: Style,
    pub spans: Seq<SpanView>,
}

impl View for TextLine {
    type V = LineView;

    open spec fn view(&self) -> LineView {
        LineView { area: self.area, style: self.style, spans: self.spans@.map_values(|t: StyledText| t@) }
    }
}

/// The colors of the palette (ANSI 256-color palette indices).
#[derive(Clone, Copy, Debug, PartialEq, Eq, Structural)]
pub enum ColorRole {
    Border,
    Title,
    Prompt,
    Query,
    Separator,
    ResultText,
    SelectedBg,
    SelectedFg,
    Match,
    Marker,
    BadgeTab,
    BadgePane,
    BadgeSession,
    BadgeMode,
    BadgeSystem,
    Shortcut,
    Footer,
    Count,
    NoMatch,
}

/// The palette index of each color role: green 154, orange 166, gray 245
/// and 238, magenta 201, cyan 51, red 124.
pub open spec fn role_color(role: ColorRole) -> Color {
    match role {
        ColorRole::Border => Color::Indexed(154),
        ColorRole::Title => Color::Indexed(166),
        ColorRole::Prompt => Color::Indexed(166),
        ColorRole::Query => Color::Indexed(245),
        ColorRole::Separator => Color::Indexed(166),
        ColorRole::ResultText => Color::Indexed(245),
        ColorRole::SelectedBg => Color::Indexed(154),
        ColorRole::SelectedFg => Color::Indexed(238),
        ColorRole::Match => Color::Indexed(201),
        ColorRole::Marker => Color::Indexed(166),
        ColorRole::BadgeTab => Color::Indexed(51),
        ColorRole::BadgePane => Color::Indexed(166),
        ColorRole::BadgeSession => Color::Indexed(154),
        ColorRole::BadgeMode => Color::Indexed(201),
        ColorRole::BadgeSystem => Color::Indexed(166),
        ColorRole::Shortcut => Color::Indexed(51),
        ColorRole::Footer => Color::Indexed(154),
        ColorRole::Count => Color::Indexed(201),
        ColorRole::NoMatch => Color::Indexed(124),
    }
}

/// The color of a role.
pub fn color_of(role: ColorRole) -> (c: Color)
    ensures
        c == role_color(role),
{
    match role {
        ColorRole::Border => Color::Indexed(154),
        ColorRole::Title => Color::Indexed(166),
        ColorRole::Prompt => Color::Indexed(166),
        ColorRole::Query => Color::Indexed(245),
        ColorRole::Separator => Color::Indexed(166),
        ColorRole::ResultText => Color::Indexed(245),
        ColorRole::SelectedBg => Color::Indexed(154),
        ColorRole::SelectedFg => Color::Indexed(238),
        ColorRole::Match => Color::Indexed(201),
        ColorRole::Marker => Color::Indexed(166),
        ColorRole::BadgeTab => Color::Indexed(51),
        ColorRole::BadgePane => Color::Indexed(166),
        ColorRole::BadgeSession => Color::Indexed(154),
        ColorRole::BadgeMode => Color::Indexed(201),
        ColorRole::BadgeSystem => Color::Indexed(166),
        ColorRole::Shortcut => Color::Indexed(51),
        ColorRole::Footer => Color::Indexed(154),
        ColorRole::Count => Color::Indexed(201),
        ColorRole::NoMatch => Color::Indexed(124),
    }
}

/// The badge color of a category.
pub open spec fn badge_role(c: Category) -> ColorRole {
    match c {
        Category::Tab => ColorRole::BadgeTab,
        Category::Pane => ColorRole::BadgePane,
        Category::Session => ColorRole::BadgeSession,
        Category::Mode => ColorRole::BadgeMode,
        Category::System => ColorRole::BadgeSystem,
    }
}

/// The badge color of a category.
pub fn category_badge_color(cat: Category) -> (c: Color)
    ensures
        c == role_color(badge_role(cat)),
{
    match cat {
        Category::Tab => color_of(ColorRole::BadgeTab),
        Category::Pane => color_of(ColorRole::BadgePane),
        Category::Session => color_of(ColorRole::BadgeSession),
        Category::Mode => color_of(ColorRole::BadgeMode),
        Category::System => color_of(ColorRole::BadgeSystem),
    }
}

/// `n` copies of `c`.
pub open spec fn repeat_spec(c: char, n: nat) -> Seq<char> {
    Seq::new(n, |i: int| c)
}

/// A string of `n` copies of `c`.
pub fn repeat_char(c: char, n: usize) -> (s: String)
    ensures
        s@ == repeat_spec(c, n as nat),
{
    let mut s = String::new();
    let mut i: usize = 0;
    while i < n
        invariant
            i <= n,
            s@ == repeat_spec(c, i as nat),
        decreases n - i,
    {
        push_char(&mut s, c);
        assert(s@ =~= repeat_spec(c, (i + 1) as nat));
        i = i + 1;
    }
    s
}

/// A styled run of text.
pub open spec fn span(text: Seq<char>, style: Style) -> SpanView {
    SpanView { text, style }
}

pub(crate) fn styled(text: &str, style: Style) -> (t: StyledText)
    ensures
        t@ == span(text@, style),
{
    let mut s = String::new();
    push_str(&mut s, text);
    StyledText { text: s, style }
}

/// The brief's chars grouped into maximal runs of equal highlighting: a
/// char is highlighted when its position is in `matched`.
pub open spec fn highlight_runs(chars: Seq<char>, matched: Seq<usize>) -> Seq<(Seq<char>, bool)>
    decreases chars.len(),
{
    if chars.len() == 0 {
        Seq::empty()
    } else {
        let prev = highlight_runs(chars.drop_last(), matched);
        let h = matched.contains((chars.len() - 1) as usize);
        if prev.len() > 0 && prev.last().1 == h {
            prev.drop_last().push((prev.last().0.push(chars.last()), h))
        } else {
            prev.push((seq![chars.last()], h))
        }
    }
}

/// Whether `i` occurs in `v`.
fn contains_index(v: &[usize], i: usize) -> (b: bool)
    ensures
        b == v@.contains(i),
{
    let mut k: usize = 0;
    while k < v.len()
        invariant
            k <= v@.len(),
            forall|j: int| 0 <= j < k ==> v@[j] != i,
        decreases v@.len() - k,
    {
        if v[k] == i {
            assert(v@[k as int] == i);
            return true;
        }
        k = k + 1;
    }
    false
}

/// The highlighting runs of `brief` (see [`highlight_runs`]).
fn brief_runs(brief: &str, matched: &[usize]) -> (runs: Vec<(String, bool)>)
    ensures
        runs@.map_values(|r: (String, bool)| (r.0@, r.1)) == highlight_runs(brief@, matched@),
{
    let chars = crate::text::chars_of(brief);
    let ghost target = |k: int| highlight_runs(chars@.take(k), matched@);
    let mut done: Vec<(String, bool)> = Vec::new();
    let mut current = String::new();
    let mut current_matched = false;
    let mut i: usize = 0;
    assert(chars@.take(0) =~= Seq::<char>::empty());
    while i < chars.len()
        invariant
            i <= chars@.len(),
            chars@ == brief@,
            i == 0 ==> done@.len() == 0 && current@.len() == 0,
            i > 0 ==> current@.len() > 0 && done@.map_values(|r: (String, bool)| (r.0@, r.1)).push(
                (current@, current_matched),
            ) == highlight_runs(chars@.take(i as int), matched@),
        decreases chars@.len() - i,
    {
        let ch = chars[i];
        let is_match = contains_index(matched, i);
        let ghost dv = done@.map_values(|r: (String, bool)| (r.0@, r.1));
        let ghost prev = highlight_runs(chars@.take(i as int), matched@);
        proof {
            assert(chars@.take(i + 1).drop_last() =~= chars@.take(i as int));
            assert(chars@.take(i + 1).last() == ch);
        }
        let ghost cur0 = current@;
        proof {
            let t = chars@.take(i + 1);
            assert(t.len() == i + 1);
            assert(((t.len() - 1) as usize) == i);
            assert(highlight_runs(t, matched@) == {
                let h = matched@.contains(i);
                if prev.len() > 0 && prev.last().1 == h {
                    prev.drop_last().push((prev.last().0.push(ch), h))
                } else {
                    prev.push((seq![ch], h))
                }
            });
        }
        if i == 0 {
            push_char(&mut current, ch);
            current_matched = is_match;
            proof {
                assert(chars@.take(0) =~= Seq::<char>::empty());
                assert(prev.len() == 0);
                assert(current@ =~= seq![ch]);
                assert(done@.map_values(|r: (String, bool)| (r.0@, r.1)).push((current@, current_matched))
                    =~= highlight_runs(chars@.take(i + 1), matched@));
            }
        } else if is_match == current_matched {
            push_char(&mut current, ch);
            proof {
                assert(prev =~= dv.push((cur0, current_matched)));
                assert(prev.last() == (cur0, current_matched));
                assert(prev.drop_last() =~= dv);
                assert(done@.map_values(|r: (String, bool)| (r.0@, r.1)).push((current@, current_matched))
                    =~= highlight_runs(chars@.take(i + 1), matched@));
            }
        } else {
            let finished = current;
            let finished_matched = current_matched;
            done.push((finished, finished_matched));
            current = String::new();
            push_char(&mut current, ch);
            current_matched = is_match;
            proof {
                assert(done@.map_values(|r: (String, bool)| (r.0@, r.1)) =~= prev);
                assert(done@.map_values(|r: (String, bool)| (r.0@, r.1)).push((current@, current_matched))
                    =~= highlight_runs(chars@.take(i + 1), matched@));
            }
        }
        i = i + 1;
    }
    proof {
        assert(chars@.take(chars@.len() as int) =~= chars@);
    }
    if i > 0 {
        done.push((current, current_matched));
    }
    done
}

/// `st`, with the selected background when `selected`.
pub open spec fn stamp(st: Style, selected: bool) -> Style {
    if selected {
        with_bg(st, role_color(ColorRole::SelectedBg))
    } else {
        st
    }
}

/// Bold.
pub open spec fn bold() -> u16 {
    1
}

/// Dim.
pub open spec fn dim() -> u16 {
    2
}

/// Italic.
pub open spec fn italic() -> u16 {
    4
}

/// Underlined.
pub open spec fn underlined() -> u16 {
    8
}

/// The padding between the brief and the badge: what is left of the row
/// after the marker and icon (four columns), the brief, the badge and the
/// shortcut hint with its leading space, but at least one column.
pub open spec fn result_pad(cmd: CommandView, row_width: u16) -> int {
    let used = 4 + display_width(cmd.brief);
    let sc = shortcut_text(cmd);
    let right = display_width(badge_spec(cmd.category)) + if sc.len() == 0 {
        0
    } else {
        display_width(sc) + 1
    };
    let p = row_width - (used + right);
    if p >= 1 {
        p
    } else {
        1
    }
}

/// The shortcut hint of `cmd`, empty when it has none.
pub open spec fn shortcut_text(cmd: CommandView) -> Seq<char> {
    match cmd.shortcut {
        Some(s) => s,
        None => Seq::empty(),
    }
}

/// The spans of one result row: selection marker, icon, the brief with its
/// matched chars highlighted (bold, underlined, magenta), padding, the
/// category badge and, when there is one, the shortcut hint. A selected row
/// is drawn gray on green throughout.
pub open spec fn result_spans(cmd: CommandView, matched: Seq<usize>, selected: bool, row_width: u16) -> Seq<SpanView> {
    let base = if selected {
        role_color(ColorRole::SelectedFg)
    } else {
        role_color(ColorRole::ResultText)
    };
    let normal = stamp(with_fg(plain(), base), selected);
    let highlight = stamp(with_mod(with_fg(plain(), role_color(ColorRole::Match)), 9), selected);
    let sc = shortcut_text(cmd);
    seq![
        span(
            if selected { "▶ "@ } else { "  "@ },
            stamp(with_mod(with_fg(plain(), role_color(ColorRole::Marker)), bold()), selected),
        ),
        span(seq![effective_icon_spec(cmd), ' '], normal),
    ] + highlight_runs(cmd.brief, matched).map_values(
        |r: (Seq<char>, bool)| span(r.0, if r.1 { highlight } else { normal }),
    ) + seq![
        span(repeat_spec(' ', result_pad(cmd, row_width) as nat), stamp(plain(), selected)),
        span(
            badge_spec(cmd.category),
            stamp(with_mod(with_fg(plain(), role_color(badge_role(cmd.category))), bold()), selected),
        ),
    ] + if sc.len() == 0 {
        Seq::empty()
    } else {
        seq![
            span(
                " "@ + sc,
                stamp(with_mod(with_fg(plain(), role_color(ColorRole::Shortcut)), dim()), selected),
            ),
        ]
    }
}

/// The texts of `runs` one after another.
pub open spec fn runs_text(runs: Seq<(Seq<char>, bool)>) -> Seq<char>
    decreases runs.len(),
{
    if runs.len() == 0 {
        Seq::empty()
    } else {
        runs_text(runs.drop_last()) + runs.last().0
    }
}

/// The texts of `spans` one after another.
pub open spec fn spans_text(spans: Seq<SpanView>) -> Seq<char>
    decreases spans.len(),
{
    if spans.len() == 0 {
        Seq::empty()
    } else {
        spans_text(spans.drop_last()) + spans.last().text
    }
}

/// The highlight runs of a brief spell the brief.
pub proof fn lemma_runs_spell_brief(chars: Seq<char>, matched: Seq<usize>)
    ensures
        runs_text(highlight_runs(chars, matched)) == chars,
    decreases chars.len(),
{
    if chars.len() > 0 {
        let prev = highlight_runs(chars.drop_last(), matched);
        lemma_runs_spell_brief(chars.drop_last(), matched);
        let h = matched.contains((chars.len() - 1) as usize);
        if prev.len() > 0 && prev.last().1 == h {
            let r = prev.drop_last().push((prev.last().0.push(chars.last()), h));
            assert(r.drop_last() =~= prev.drop_last());
            assert(runs_text(prev) == runs_text(prev.drop_last()) + prev.last().0);
            assert(runs_text(r) =~= runs_text(prev) + seq![chars.last()]);
        } else {
            let r = prev.push((seq![chars.last()], h));
            assert(r.drop_last() =~= prev);
        }
        assert(chars =~= chars.drop_last() + seq![chars.last()]);
    }
}

/// Char `j` of run `i` is highlighted exactly when its position in the
/// text of all the runs is in `matched`.
pub open spec fn run_char_flag_right(runs: Seq<(Seq<char>, bool)>, matched: Seq<usize>, i: int, j: int) -> bool {
    runs[i].1 == matched.contains((runs_text(runs.take(i)).len() + j) as usize)
}

/// The highlight runs of a brief are maximal: every run holds at least one
/// char, neighbouring runs differ in highlighting, and a char is in a
/// highlighted run exactly when its position is in `matched`.
pub proof fn lemma_highlight_runs_maximal(chars: Seq<char>, matched: Seq<usize>)
    ensures
        forall|i: int|
            0 <= i < highlight_runs(chars, matched).len() ==> (#[trigger] highlight_runs(chars, matched)[i]).0.len() > 0,
        forall|i: int|
            0 <= i < highlight_runs(chars, matched).len() - 1 ==> (#[trigger] highlight_runs(chars, matched)[i]).1
                != highlight_runs(chars, matched)[i + 1].1,
        forall|i: int, j: int|
            0 <= i < highlight_runs(chars, matched).len() && 0 <= j < highlight_runs(chars, matched)[i].0.len()
                ==> #[trigger] run_char_flag_right(highlight_runs(chars, matched), matched, i, j),
    decreases chars.len(),
{
    if chars.len() > 0 {
        let prev = highlight_runs(chars.drop_last(), matched);
        lemma_highlight_runs_maximal(chars.drop_last(), matched);
        lemma_runs_spell_brief(chars.drop_last(), matched);
        let h = matched.contains((chars.len() - 1) as usize);
        let runs = highlight_runs(chars, matched);
        if prev.len() > 0 && prev.last().1 == h {
            let n = prev.len() - 1;
            assert(runs == prev.drop_last().push((prev.last().0.push(chars.last()), h)));
            assert(prev.drop_last() =~= prev.take(n));
            assert forall|i: int| 0 <= i < n implies #[trigger] runs.take(i) == prev.take(i) by {
                assert(runs.take(i) =~= prev.take(i));
            }
            assert(runs.take(n) =~= prev.take(n));
            assert(runs_text(prev) == runs_text(prev.take(n)) + prev[n].0);
            assert forall|i: int, j: int| 0 <= i < runs.len() && 0 <= j < runs[i].0.len() implies #[trigger] run_char_flag_right(
                runs,
                matched,
                i,
                j,
            ) by {
                if i < n {
                    assert(runs[i] == prev[i]);
                    assert(runs.take(i) == prev.take(i));
                    assert(run_char_flag_right(prev, matched, i, j));
                } else if j < prev[n].0.len() {
                    assert(run_char_flag_right(prev, matched, n, j));
                } else {
                    assert(runs_text(runs.take(i)).len() + j == chars.len() - 1);
                }
            }
            assert forall|i: int| 0 <= i < runs.len() - 1 implies (#[trigger] runs[i]).1 != runs[i + 1].1 by {
                assert(runs[i] == prev[i]);
                if i + 1 < n {
                    assert(runs[i + 1] == prev[i + 1]);
                }
            }
        } else {
            let n = prev.len() as int;
            assert(runs == prev.push((seq![chars.last()], h)));
            assert forall|i: int| 0 <= i <= n implies #[trigger] runs.take(i) == prev.take(i) by {
                assert(runs.take(i) =~= prev.take(i));
            }
            assert(prev.take(n) =~= prev);
            assert forall|i: int, j: int| 0 <= i < runs.len() && 0 <= j < runs[i].0.len() implies #[trigger] run_char_flag_right(
                runs,
                matched,
                i,
                j,
            ) by {
                if i < n {
                    assert(runs[i] == prev[i]);
                    assert(runs.take(i) == prev.take(i));
                    assert(run_char_flag_right(prev, matched, i, j));
                } else {
                    assert(runs.take(n) == prev);
                }
            }
            assert forall|i: int| 0 <= i < runs.len() - 1 implies (#[trigger] runs[i]).1 != runs[i + 1].1 by {
                assert(runs[i] == prev[i]);
                if i + 1 < n {
                    assert(runs[i + 1] == prev[i + 1]);
                }
            }
        }
    }
}

proof fn lemma_spans_text_append(a: Seq<SpanView>, b: Seq<SpanView>)
    ensures
        spans_text(a + b) == spans_text(a) + spans_text(b),
    decreases b.len(),
{
    if b.len() == 0 {
        assert(a + b =~= a);
    } else {
        lemma_spans_text_append(a, b.drop_last());
        assert((a + b).drop_last() =~= a + b.drop_last());
        assert((a + b).last() == b.last());
    }
}

proof fn lemma_spans_text_of_runs(runs: Seq<(Seq<char>, bool)>, hi: Style, lo: Style)
    ensures
        spans_text(runs.map_values(|r: (Seq<char>, bool)| span(r.0, if r.1 { hi } else { lo }))) == runs_text(runs),
    decreases runs.len(),
{
    if runs.len() > 0 {
        lemma_spans_text_of_runs(runs.drop_last(), hi, lo);
        let f = |r: (Seq<char>, bool)| span(r.0, if r.1 { hi } else { lo });
        assert(runs.map_values(f).drop_last() =~= runs.drop_last().map_values(f));
    }
}

/// The text of a result row: the selection marker, the icon and a space,
/// the brief, the padding, the badge and, when there is one, a space and
/// the shortcut hint.
pub proof fn lemma_result_row_text(cmd: CommandView, matched: Seq<usize>, selected: bool, row_width: u16)
    ensures
        spans_text(result_spans(cmd, matched, selected, row_width)) == (if selected { "▶ "@ } else { "  "@ })
            + seq![effective_icon_spec(cmd), ' '] + cmd.brief + repeat_spec(' ', result_pad(cmd, row_width) as nat)
            + badge_spec(cmd.category) + (if shortcut_text(cmd).len() == 0 {
            Seq::<char>::empty()
        } else {
            " "@ + shortcut_text(cmd)
        }),
{
    let base = if selected {
        role_color(ColorRole::SelectedFg)
    } else {
        role_color(ColorRole::ResultText)
    };
    let normal = stamp(with_fg(plain(), base), selected);
    let highlight = stamp(with_mod(with_fg(plain(), role_color(ColorRole::Match)), 9), selected);
    let sc = shortcut_text(cmd);
    let marker = if selected { "▶ "@ } else { "  "@ };
    let head = seq![
        span(marker, stamp(with_mod(with_fg(plain(), role_color(ColorRole::Marker)), bold()), selected)),
        span(seq![effective_icon_spec(cmd), ' '], normal),
    ];
    let runs = highlight_runs(cmd.brief, matched);
    let mid = runs.map_values(|r: (Seq<char>, bool)| span(r.0, if r.1 { highlight } else { normal }));
    let tail1 = seq![
        span(repeat_spec(' ', result_pad(cmd, row_width) as nat), stamp(plain(), selected)),
        span(
            badge_spec(cmd.category),
            stamp(with_mod(with_fg(plain(), role_color(badge_role(cmd.category))), bold()), selected),
        ),
    ];
    let tail2: Seq<SpanView> = if sc.len() == 0 {
        Seq::empty()
    } else {
        seq![span(" "@ + sc, stamp(with_mod(with_fg(plain(), role_color(ColorRole::Shortcut)), dim()), selected))]
    };
    assert(result_spans(cmd, matched, selected, row_width) == head + mid + tail1 + tail2);
    lemma_spans_text_append(head + mid + tail1, tail2);
    lemma_spans_text_append(head + mid, tail1);
    lemma_spans_text_append(head, mid);
    lemma_spans_text_of_runs(runs, highlight, normal);
    lemma_runs_spell_brief(cmd.brief, matched);
    assert(head.drop_last() =~= seq![head[0]]);
    assert(seq![head[0]].drop_last() =~= Seq::<SpanView>::empty());
    assert(spans_text(seq![head[0]]) == spans_text(Seq::<SpanView>::empty()) + head[0].text);
    assert(spans_text(head) == spans_text(seq![head[0]]) + head[1].text);
    assert(spans_text(head) =~= marker + seq![effective_icon_spec(cmd), ' ']);
    assert(tail1.drop_last() =~= seq![tail1[0]]);
    assert(seq![tail1[0]].drop_last() =~= Seq::<SpanView>::empty());
    assert(spans_text(seq![tail1[0]]) == spans_text(Seq::<SpanView>::empty()) + tail1[0].text);
    assert(spans_text(tail1) == spans_text(seq![tail1[0]]) + tail1[1].text);
    assert(spans_text(tail1) =~= repeat_spec(' ', result_pad(cmd, row_width) as nat) + badge_spec(cmd.category));
    if sc.len() > 0 {
        assert(tail2.drop_last() =~= Seq::<SpanView>::empty());
        assert(spans_text(tail2) == spans_text(Seq::<SpanView>::empty()) + tail2[0].text);
        assert(spans_text(tail2) =~= " "@ + sc);
    }
    assert(spans_text(result_spans(cmd, matched, selected, row_width)) =~= marker + seq![
        effective_icon_spec(cmd),
        ' ',
    ] + cmd.brief + repeat_spec(' ', result_pad(cmd, row_width) as nat) + badge_spec(cmd.category)
        + spans_text(tail2));
}

/// The styles of a result row: every span has the selected background when
/// the row is selected and no background otherwise; the brief is drawn run
/// by run after the marker and the icon, and a run is drawn in the match
/// color exactly when it is highlighted, then bold and underlined.
pub proof fn lemma_result_row_styles(cmd: CommandView, matched: Seq<usize>, selected: bool, row_width: u16)
    ensures
        forall|i: int|
            0 <= i < result_spans(cmd, matched, selected, row_width).len() ==> (#[trigger] result_spans(
                cmd,
                matched,
                selected,
                row_width,
            )[i]).style.bg == (if selected { Some(role_color(ColorRole::SelectedBg)) } else { None }),
        forall|k: int|
            0 <= k < highlight_runs(cmd.brief, matched).len() ==> {
                let sp = result_spans(cmd, matched, selected, row_width)[2 + k];
                let run = #[trigger] highlight_runs(cmd.brief, matched)[k];
                &&& sp.text == run.0
                &&& (sp.style.fg == Some(role_color(ColorRole::Match))) == run.1
                &&& run.1 ==> sp.style.add_modifier.bits == bold() | underlined()
            },
{
    let base = if selected {
        role_color(ColorRole::SelectedFg)
    } else {
        role_color(ColorRole::ResultText)
    };
    let normal = stamp(with_fg(plain(), base), selected);
    let highlight = stamp(with_mod(with_fg(plain(), role_color(ColorRole::Match)), 9), selected);
    let sc = shortcut_text(cmd);
    let head = seq![
        span(
            if selected { "▶ "@ } else { "  "@ },
            stamp(with_mod(with_fg(plain(), role_color(ColorRole::Marker)), bold()), selected),
        ),
        span(seq![effective_icon_spec(cmd), ' '], normal),
    ];
    let runs = highlight_runs(cmd.brief, matched);
    let mid = runs.map_values(|r: (Seq<char>, bool)| span(r.0, if r.1 { highlight } else { normal }));
    let tail1 = seq![
        span(repeat_spec(' ', result_pad(cmd, row_width) as nat), stamp(plain(), selected)),
        span(
            badge_spec(cmd.category),
            stamp(with_mod(with_fg(plain(), role_color(badge_role(cmd.category))), bold()), selected),
        ),
    ];
    let tail2: Seq<SpanView> = if sc.len() == 0 {
        Seq::empty()
    } else {
        seq![span(" "@ + sc, stamp(with_mod(with_fg(plain(), role_color(ColorRole::Shortcut)), dim()), selected))]
    };
    let all = result_spans(cmd, matched, selected, row_width);
    assert(all == head + mid + tail1 + tail2);
    assert(bold() | underlined() == 9) by (bit_vector);
    assert(0u16 | 9u16 == 9u16) by (bit_vector);
    assert forall|i: int| 0 <= i < all.len() implies (#[trigger] all[i]).style.bg == (if selected {
        Some(role_color(ColorRole::SelectedBg))
    } else {
        None
    }) by {
        if i >= 2 && i < 2 + mid.len() {
            assert(all[i] == mid[i - 2]);
        }
    }
    assert forall|k: int| 0 <= k < runs.len() implies {
        let sp = all[2 + k];
        let run = #[trigger] runs[k];
        &&& sp.text == run.0
        &&& (sp.style.fg == Some(role_color(ColorRole::Match))) == run.1
        &&& run.1 ==> sp.style.add_modifier.bits == bold() | underlined()
    } by {
        assert(all[2 + k] == mid[k]);
        assert(mid[k] == span(runs[k].0, if runs[k].1 { highlight } else { normal }));
        assert(role_color(ColorRole::Match) != base);
    }
}

/// The spans of one result row (see [`result_spans`]).
pub fn build_result_line(cmd: &Command, matched: &[usize], is_selected: bool, row_width: u16) -> (spans: Vec<StyledText>)
    ensures
        spans@.map_values(|t: StyledText| t@) == result_spans(cmd@, matched@, is_selected, row_width),
{
    let base_fg = if is_selected {
        color_of(ColorRole::SelectedFg)
    } else {
        color_of(ColorRole::ResultText)
    };
    let selected_bg = color_of(ColorRole::SelectedBg);
    let stamp_bg = |st: Style| -> (r: Style)
        ensures
            r == stamp(st, is_selected),
        {
            if is_selected {
                st.bg(selected_bg)
            } else {
                st
            }
        };
    let mut spans: Vec<StyledText> = Vec::new();
    let marker_style = stamp_bg(Style::new().fg(color_of(ColorRole::Marker)).add_modifier(Modifier::bold()));
    spans.push(
        styled(
            if is_selected {
                "▶ "
            } else {
                "  "
            },
            marker_style,
        ),
    );
    let normal_style = stamp_bg(Style::new().fg(base_fg));
    let mut icon = String::new();
    push_char(&mut icon, cmd.effective_icon());
    push_char(&mut icon, ' ');
    proof {
        assert(icon@ =~= seq![effective_icon_spec(cmd@), ' ']);
        assert(marker_style == stamp(with_mod(with_fg(plain(), role_color(ColorRole::Marker)), bold()), is_selected));
        assert(spans@.len() == 1);
    }
    spans.push(StyledText { text: icon, style: normal_style });
    let highlight_style = stamp_bg(
        Style::new().fg(color_of(ColorRole::Match)).add_modifier(Modifier::bold().union(Modifier::underlined())),
    );
    let runs = brief_runs(cmd.brief, matched);
    let ghost rv = runs@.map_values(|r: (String, bool)| (r.0@, r.1));
    let ghost head = spans@.map_values(|t: StyledText| t@);
    proof {
        reveal_strlit("▶ ");
        reveal_strlit("  ");
        assert(head =~= seq![
            span(
                if is_selected { "▶ "@ } else { "  "@ },
                stamp(with_mod(with_fg(plain(), role_color(ColorRole::Marker)), bold()), is_selected),
            ),
            span(seq![effective_icon_spec(cmd@), ' '], normal_style),
        ]);
    }
    let mut runs = runs;
    let mut tail: Vec<StyledText> = Vec::new();
    // Drain the runs back to front, then append them in order.
    while runs.len() > 0
        invariant
            runs@.len() <= rv.len(),
            runs@.map_values(|r: (String, bool)| (r.0@, r.1)) == rv.take(runs@.len() as int),
            tail@.map_values(|t: StyledText| t@) == rv.skip(runs@.len() as int).map_values(
                |r: (Seq<char>, bool)| span(r.0, if r.1 { highlight_style } else { normal_style }),
            ),
        decreases runs@.len(),
    {
        let ghost k = runs@.len() - 1;
        let ghost before = runs@;
        let (text, is_match) = runs.pop().unwrap();
        proof {
            assert(before.map_values(|r: (String, bool)| (r.0@, r.1))[k] == rv[k]);
            assert(runs@.map_values(|r: (String, bool)| (r.0@, r.1)) =~= rv.take(k));
        }
        let style = if is_match {
            highlight_style
        } else {
            normal_style
        };
        let ghost old_tail = tail@.map_values(|t: StyledText| t@);
        tail.insert(0, StyledText { text, style });
        proof {
            assert(tail@.map_values(|t: StyledText| t@) =~= seq![span(rv[k].0, style)] + old_tail);
            assert(rv.skip(k) =~= seq![rv[k]] + rv.skip(k + 1));
            assert(tail@.map_values(|t: StyledText| t@) =~= rv.skip(k).map_values(
                |r: (Seq<char>, bool)| span(r.0, if r.1 { highlight_style } else { normal_style }),
            ));
        }
    }
    assert(rv.skip(0) =~= rv);
    let ghost mid = tail@.map_values(|t: StyledText| t@);
    spans.append(&mut tail);
    let badge = cmd.category.badge();
    let shortcut = match cmd.shortcut {
        Some(s) => s,
        None => "",
    };
    let brief_w = str_width(cmd.brief);
    let badge_w = str_width(badge);
    let sc_len = shortcut.unicode_len();
    let shortcut_w: u128 = if sc_len == 0 {
        0
    } else {
        str_width(shortcut) as u128 + 1
    };
    let used: u128 = 4 + brief_w as u128;
    let right: u128 = badge_w as u128 + shortcut_w;
    let avail: u128 = row_width as u128;
    let pad: usize = if avail > used + right {
        (avail - (used + right)) as usize
    } else {
        1
    };
    let pad: usize = if pad >= 1 {
        pad
    } else {
        1
    };
    proof {
        reveal_strlit("");
        assert(shortcut@ == shortcut_text(cmd@));
        assert(pad == result_pad(cmd@, row_width));
    }
    let ghost before_pad = spans@.map_values(|t: StyledText| t@);
    proof {
        assert(before_pad =~= head + mid);
    }
    spans.push(StyledText { text: repeat_char(' ', pad), style: stamp_bg(Style::new()) });
    let badge_style = stamp_bg(
        Style::new().fg(category_badge_color(cmd.category)).add_modifier(Modifier::bold()),
    );
    spans.push(styled(badge, badge_style));
    let ghost after_badge = spans@.map_values(|t: StyledText| t@);
    proof {
        assert(after_badge =~= head + mid + seq![
            span(repeat_spec(' ', result_pad(cmd@, row_width) as nat), stamp(plain(), is_selected)),
            span(
                badge_spec(cmd@.category),
                stamp(with_mod(with_fg(plain(), role_color(badge_role(cmd@.category))), bold()), is_selected),
            ),
        ]);
    }
    if sc_len > 0 {
        let sc_style = stamp_bg(Style::new().fg(color_of(ColorRole::Shortcut)).add_modifier(Modifier::dim()));
        let mut text = String::new();
        push_char(&mut text, ' ');
        push_str(&mut text, shortcut);
        proof {
            reveal_strlit(" ");
            assert(text@ =~= " "@ + shortcut@);
        }
        spans.push(StyledText { text, style: sc_style });
    }
    proof {
        assert(1u16 | 8u16 == 9u16) by (bit_vector);
        let r = result_spans(cmd@, matched@, is_selected, row_width);
        let hs = stamp(with_mod(with_fg(plain(), role_color(ColorRole::Match)), 9), is_selected);
        assert(highlight_style == hs);
        assert(mid =~= highlight_runs(cmd@.brief, matched@).map_values(
            |r: (Seq<char>, bool)| span(r.0, if r.1 { hs } else { normal_style }),
        ));
        assert(spans@.map_values(|t: StyledText| t@) =~= r);
    }
    spans
}

/// A line as plain values.
pub open spec fn line(area: Rect, style: Style, spans: Seq<SpanView>) -> LineView {
    LineView { area, style, spans }
}

/// The input section: the prompt and the query (or a dim italic
/// placeholder when the query is empty) on the first row, and a separator
/// across the second row when there is one.
pub open spec fn input_lines(query: Seq<char>, area: Rect) -> Seq<LineView> {
    if area.height == 0 || area.width == 0 {
        Seq::empty()
    } else {
        let prompt = with_mod(with_fg(plain(), role_color(ColorRole::Prompt)), bold());
        let qs = with_fg(plain(), role_color(ColorRole::Query));
        let first = line(
            rect_spec(area.x, area.y, area.width, 1),
            plain(),
            seq![
                span("❯ "@, prompt),
                if query.len() == 0 {
                    span("Type to search commands..."@, with_mod(with_mod(qs, dim()), italic()))
                } else {
                    span(query, qs)
                },
            ],
        );
        if area.height >= 2 {
            seq![
                first,
                line(
                    rect_spec(area.x, (area.y + 1) as u16, area.width, 1),
                    with_fg(plain(), role_color(ColorRole::Separator)),
                    seq![span(repeat_spec('─', area.width as nat), plain())],
                ),
            ]
        } else {
            seq![first]
        }
    }
}

/// The column at which text `w` columns wide is centered in `area`; the
/// left edge when it does not fit. A column past the coordinate range
/// wraps around it.
pub open spec fn centered_x(area: Rect, w: usize) -> u16 {
    if area.width > w {
        (area.x + (area.width - w) / 2) as u16
    } else {
        area.x
    }
}

/// The no-match message for `query`.
pub open spec fn no_match_message(query: Seq<char>) -> Seq<char> {
    "No commands matching \""@ + query + "\""@
}

/// The hint under the no-match message.
pub open spec fn no_match_hint() -> Seq<char> {
    "Press Backspace or Esc to clear your search."@
}

/// The result section when nothing matches: the message, bold italic red,
/// centered on the middle row, and the hint centered under it when the area
/// has more than two rows.
pub open spec fn no_match_lines(query: Seq<char>, area: Rect) -> Seq<LineView> {
    if area.height == 0 || area.width == 0 {
        Seq::empty()
    } else {
        let mid_y = (area.y + area.height / 2) as u16;
        let msg = no_match_message(query);
        let first = line(
            rect_spec(centered_x(area, display_width(msg)), mid_y, area.width, 1),
            with_mod(with_mod(with_fg(plain(), role_color(ColorRole::NoMatch)), bold()), italic()),
            seq![span(msg, plain())],
        );
        if area.height > 2 {
            seq![
                first,
                line(
                    rect_spec(
                        centered_x(area, display_width(no_match_hint())),
                        (mid_y + 1) as u16,
                        area.width,
                        1,
                    ),
                    with_mod(with_fg(plain(), role_color(ColorRole::Query)), dim()),
                    seq![span(no_match_hint(), plain())],
                ),
            ]
        } else {
            seq![first]
        }
    }
}

/// The footer's key help.
pub open spec fn footer_help() -> Seq<char> {
    "↑↓ Navigate · ⏎ Run · Esc Close · Type to search"@
}

/// The result count: `"{total} commands"` for an empty query, else
/// `"{n} of {total} results"`.
pub open spec fn count_text(query_empty: bool, n: nat, total: nat) -> Seq<char> {
    if query_empty {
        decimal(total) + " commands"@
    } else {
        decimal(n) + " of "@ + decimal(total) + " results"@
    }
}

/// The footer: the help on the left and the count on the right, when both
/// fit with two columns to spare; otherwise the help alone.
pub open spec fn footer_lines(query_empty: bool, n: nat, total: nat, area: Rect) -> Seq<LineView> {
    if area.height == 0 || area.width == 0 {
        Seq::empty()
    } else {
        let help = footer_help();
        let count = count_text(query_empty, n, total);
        let hw = display_width(help);
        let cw = display_width(count);
        let fs = with_mod(with_fg(plain(), role_color(ColorRole::Footer)), dim());
        let cs = with_mod(with_fg(plain(), role_color(ColorRole::Count)), dim());
        if hw + cw + 2 <= area.width {
            seq![
                line(
                    area,
                    plain(),
                    seq![
                        span(help, fs),
                        span(repeat_spec(' ', (area.width - (hw + cw)) as nat), plain()),
                        span(count, cs),
                    ],
                ),
            ]
        } else {
            seq![line(area, fs, seq![span(help, plain())])]
        }
    }
}

/// How many result rows are visible in an area `height` rows high.
pub open spec fn visible_rows(s: PaletteView, height: u16) -> nat {
    if s.scroll_offset >= s.matches.len() {
        0
    } else if s.matches.len() - s.scroll_offset < height {
        (s.matches.len() - s.scroll_offset) as nat
    } else {
        height as nat
    }
}

/// The visible result rows, from the scroll offset down: one row per
/// result, the selected one highlighted.
pub open spec fn result_row_lines(s: PaletteView, area: Rect) -> Seq<LineView> {
    Seq::new(
        visible_rows(s, area.height),
        |r: int|
            {
                let idx = s.scroll_offset + r;
                let m = s.matches[idx];
                line(
                    rect_spec(area.x, (area.y + r) as u16, area.width, 1),
                    plain(),
                    result_spans(
                        registry()[m.cmd_index as int],
                        m.matched_indices,
                        idx == s.selected,
                        area.width,
                    ),
                )
            },
    )
}

/// The click regions of the visible result rows: each covers its row, up to
/// where the row's rectangle ends within the coordinate range, and executes
/// its result.
pub open spec fn result_regions(s: PaletteView, area: Rect) -> Seq<ClickRegion> {
    Seq::new(
        visible_rows(s, area.height),
        |r: int|
            ClickRegion {
                row_start: (area.y + r) as usize,
                row_end: (area.y + r + 1) as usize,
                col_start: area.x as usize,
                col_end: (area.x + rect_spec(area.x, (area.y + r) as u16, area.width, 1).width) as usize,
                action: ClickAction::ExecuteCommand((s.scroll_offset + r) as usize),
            },
    )
}

/// Every result in the scroll window gets a row and a click region: over an
/// area `height` rows high, as many rows are drawn as there are results
/// from the scroll offset on, up to the height (none when the offset is
/// past the last result); row `r` is drawn on the area's `r`-th line,
/// shows result `scroll_offset + r` (marked when it is the selection), and
/// its region executes that result.
pub proof fn lemma_result_rows_cover_window(s: PaletteView, area: Rect)
    ensures
        result_row_lines(s, area).len() == result_regions(s, area).len(),
        result_regions(s, area).len() == (if s.scroll_offset >= s.matches.len() {
            0
        } else {
            let left = s.matches.len() - s.scroll_offset;
            if left < area.height { left } else { area.height as int }
        }),
        forall|r: int|
            0 <= r < result_regions(s, area).len() ==> {
                &&& s.scroll_offset + r < s.matches.len()
                &&& r < area.height
                &&& (#[trigger] result_regions(s, area)[r]).action == ClickAction::ExecuteCommand(
                    (s.scroll_offset + r) as usize,
                )
                &&& result_regions(s, area)[r].row_start == (area.y + r) as usize
                &&& result_row_lines(s, area)[r].area.y == (area.y + r) as u16
                &&& result_row_lines(s, area)[r].spans == result_spans(
                    registry()[s.matches[s.scroll_offset + r].cmd_index as int],
                    s.matches[s.scroll_offset + r].matched_indices,
                    s.scroll_offset + r == s.selected,
                    area.width,
                )
            },
{
}

/// The result section: the no-match message when there are no results,
/// else the visible result rows.
pub open spec fn result_lines(s: PaletteView, area: Rect) -> Seq<LineView> {
    if s.matches.len() == 0 {
        no_match_lines(s.query, area)
    } else {
        result_row_lines(s, area)
    }
}

/// The views of a sequence of lines.
pub open spec fn line_views(v: Seq<TextLine>) -> Seq<LineView> {
    v.map_values(|l: TextLine| l@)
}

pub(crate) fn one_line(area: Rect, style: Style, spans: Vec<StyledText>) -> (l: TextLine)
    ensures
        l@ == line(area, style, spans@.map_values(|t: StyledText| t@)),
{
    TextLine { area, style, spans }
}

pub(crate) fn input_section(query: &str, area: Rect) -> (lines: Vec<TextLine>)
    requires
        fits_vertically(area),
    ensures
        line_views(lines@) == input_lines(query@, area),
{
    let mut lines: Vec<TextLine> = Vec::new();
    if area.height == 0 || area.width == 0 {
        assert(line_views(lines@) =~= input_lines(query@, area));
        return lines;
    }
    let prompt_style = Style::new().fg(color_of(ColorRole::Prompt)).add_modifier(Modifier::bold());
    let query_style = Style::new().fg(color_of(ColorRole::Query));
    let mut spans: Vec<StyledText> = Vec::new();
    spans.push(styled("❯ ", prompt_style));
    if query.unicode_len() == 0 {
        spans.push(
            styled(
                "Type to search commands...",
                query_style.add_modifier(Modifier::dim()).add_modifier(Modifier::italic()),
            ),
        );
    } else {
        spans.push(styled(query, query_style));
    }
    let ghost qs = with_fg(plain(), role_color(ColorRole::Query));
    assert(spans@.map_values(|t: StyledText| t@) =~= seq![
        span("❯ "@, with_mod(with_fg(plain(), role_color(ColorRole::Prompt)), bold())),
        if query@.len() == 0 {
            span("Type to search commands..."@, with_mod(with_mod(qs, dim()), italic()))
        } else {
            span(query@, qs)
        },
    ]);
    lines.push(one_line(Rect::new(area.x, area.y, area.width, 1), Style::new(), spans));
    if area.height >= 2 {
        let sep = StyledText { text: repeat_char('─', area.width as usize), style: Style::new() };
        let mut sep_spans: Vec<StyledText> = Vec::new();
        sep_spans.push(sep);
        assert(sep_spans@.map_values(|t: StyledText| t@) =~= seq![span(repeat_spec('─', area.width as nat), plain())]);
        lines.push(
            one_line(
                Rect::new(area.x, area.y + 1, area.width, 1),
                Style::new().fg(color_of(ColorRole::Separator)),
                sep_spans,
            ),
        );
    }
    assert(line_views(lines@) =~= input_lines(query@, area));
    lines
}

pub(crate) fn centered(area: Rect, w: usize) -> (x: u16)
    ensures
        x == centered_x(area, w),
{
    if area.width as usize > w {
        let v: u32 = area.x as u32 + ((area.width as usize - w) / 2) as u32;
        v as u16
    } else {
        area.x
    }
}

pub(crate) fn no_match_section(query: &str, area: Rect) -> (lines: Vec<TextLine>)
    requires
        fits_vertically(area),
    ensures
        line_views(lines@) == no_match_lines(query@, area),
{
    let mut lines: Vec<TextLine> = Vec::new();
    if area.height == 0 || area.width == 0 {
        assert(line_views(lines@) =~= no_match_lines(query@, area));
        return lines;
    }
    let mid_y = area.y + area.height / 2;
    let mut msg = String::new();
    push_str(&mut msg, "No commands matching \"");
    push_str(&mut msg, query);
    push_str(&mut msg, "\"");
    let msg_w = str_width(msg.as_str());
    let x = centered(area, msg_w);
    let mut spans: Vec<StyledText> = Vec::new();
    spans.push(StyledText { text: msg, style: Style::new() });
    assert(msg@ =~= no_match_message(query@));
    assert(spans@.map_values(|t: StyledText| t@) =~= seq![span(no_match_message(query@), plain())]);
    lines.push(
        one_line(
            Rect::new(x, mid_y, area.width, 1),
            Style::new().fg(color_of(ColorRole::NoMatch)).add_modifier(Modifier::bold()).add_modifier(
                Modifier::italic(),
            ),
            spans,
        ),
    );
    if area.height > 2 {
        let sub = "Press Backspace or Esc to clear your search.";
        let sub_w = str_width(sub);
        let sx = centered(area, sub_w);
        let mut sub_spans: Vec<StyledText> = Vec::new();
        sub_spans.push(styled(sub, Style::new()));
        assert(sub_spans@.map_values(|t: StyledText| t@) =~= seq![span(no_match_hint(), plain())]);
        lines.push(
            one_line(
                Rect::new(sx, mid_y + 1, area.width, 1),
                Style::new().fg(color_of(ColorRole::Query)).add_modifier(Modifier::dim()),
                sub_spans,
            ),
        );
    }
    assert(line_views(lines@) =~= no_match_lines(query@, area));
    lines
}

pub(crate) fn footer_section(query_empty: bool, n: usize, total: usize, area: Rect) -> (lines: Vec<TextLine>)
    ensures
        line_views(lines@) == footer_lines(query_empty, n as nat, total as nat, area),
{
    let mut lines: Vec<TextLine> = Vec::new();
    if area.height == 0 || area.width == 0 {
        assert(line_views(lines@) =~= footer_lines(query_empty, n as nat, total as nat, area));
        return lines;
    }
    let help = "↑↓ Navigate · ⏎ Run · Esc Close · Type to search";
    let mut count = String::new();
    if query_empty {
        push_decimal(&mut count, total as u64);
        push_str(&mut count, " commands");
    } else {
        push_decimal(&mut count, n as u64);
        push_str(&mut count, " of ");
        push_decimal(&mut count, total as u64);
        push_str(&mut count, " results");
    }
    assert(count@ =~= count_text(query_empty, n as nat, total as nat));
    let help_w = str_width(help);
    let count_w = str_width(count.as_str());
    let area_w = area.width as usize;
    let footer_style = Style::new().fg(color_of(ColorRole::Footer)).add_modifier(Modifier::dim());
    let count_style = Style::new().fg(color_of(ColorRole::Count)).add_modifier(Modifier::dim());
    let fits_both = help_w <= area_w && count_w <= area_w - help_w && 2 <= area_w - help_w - count_w;
    if fits_both {
        let gap = area_w - (help_w + count_w);
        let mut spans: Vec<StyledText> = Vec::new();
        spans.push(styled(help, footer_style));
        spans.push(StyledText { text: repeat_char(' ', gap), style: Style::new() });
        spans.push(StyledText { text: count, style: count_style });
        assert(spans@.map_values(|t: StyledText| t@) =~= seq![
            span(footer_help(), footer_style),
            span(repeat_spec(' ', gap as nat), plain()),
            span(count_text(query_empty, n as nat, total as nat), count_style),
        ]);
        lines.push(one_line(area, Style::new(), spans));
    } else {
        let mut spans: Vec<StyledText> = Vec::new();
        spans.push(styled(help, Style::new()));
        assert(spans@.map_values(|t: StyledText| t@) =~= seq![span(footer_help(), plain())]);
        lines.push(one_line(area, footer_style, spans));
    }
    assert(line_views(lines@) =~= footer_lines(query_empty, n as nat, total as nat, area));
    lines
}

/// The inner area of a bordered block over `area`: one cell in from each
/// side, never past the far edges.
pub open spec fn bordered_inner_spec(area: Rect) -> Rect {
    let right = if area.x + area.width > u16::MAX { u16::MAX as int } else { area.x + area.width };
    let bottom = if area.y + area.height > u16::MAX { u16::MAX as int } else { area.y + area.height };
    let x1 = if area.x + 1 > u16::MAX { u16::MAX as int } else { area.x + 1 };
    let y1 = if area.y + 1 > u16::MAX { u16::MAX as int } else { area.y + 1 };
    Rect {
        x: (if x1 < right { x1 } else { right }) as u16,
        y: (if y1 < bottom { y1 } else { bottom }) as u16,
        width: (if area.width >= 2 { area.width - 2 } else { 0 }) as u16,
        height: (if area.height >= 2 { area.height - 2 } else { 0 }) as u16,
    }
}

/// The inner area of a bordered block over `area`.
///
/// Trusted: calls `Block::inner` of `ratatui-widgets` on `Block::bordered()`.
/// Its source moves the left and top edges in by one cell (saturating, and
/// never past the right and bottom edges) and takes one cell off each of
/// the four sides from the size (saturating); a bordered block has no
/// padding. The contract states that formula.
#[verifier::external_body]
pub(crate) fn bordered_inner(area: Rect) -> (r: Rect)
    ensures
        r == bordered_inner_spec(area),
{
    let r = ratatui::widgets::Block::bordered().inner(ratatui::layout::Rect {
        x: area.x,
        y: area.y,
        width: area.width,
        height: area.height,
    });
    Rect { x: r.x, y: r.y, width: r.width, height: r.height }
}

/// The far edge of `area` along the vertical axis, clamped to the
/// coordinate range.
pub open spec fn bottom_edge(area: Rect) -> int {
    if area.y + area.height > u16::MAX { u16::MAX as int } else { area.y + area.height }
}

/// Three sections that ratatui's vertical `Layout` with the constraints
/// `Length(top)`, `Min(middle_min)` and `Length(bottom)` may make of `area`:
/// full width at the area's left edge, stacked from its top edge with no
/// gap, the last one ending at its bottom edge; and, where the area has room
/// for all three constraints, the top and bottom sections exactly `top` and
/// `bottom` rows high.
pub open spec fn stacked_sections(area: Rect, top: u16, middle_min: u16, bottom: u16, r: (Rect, Rect, Rect)) -> bool {
    let (a, b, c) = r;
    &&& a.x == area.x && b.x == area.x && c.x == area.x
    &&& a.width == area.width && b.width == area.width && c.width == area.width
    &&& a.y == area.y
    &&& b.y == a.y + a.height
    &&& c.y == b.y + b.height
    &&& c.y + c.height == bottom_edge(area)
    &&& bottom_edge(area) - area.y >= top + middle_min + bottom ==> a.height == top && c.height == bottom
}

/// Splits `area` into a top section of `top` rows, a middle section of at
/// least `middle_min` rows and a bottom section of `bottom` rows.
///
/// Trusted: calls `Layout::split` of `ratatui-core` on
/// `Layout::vertical([Length(top), Min(middle_min), Length(bottom)])`, which
/// solves the layout with the `kasuari` constraint solver. Its required
/// constraints keep every edge within the area and each section's start at
/// or before its end; the spacers between sections and before the first
/// are held at zero far more strongly than the lengths, and `Min` grows to
/// take what is left before the trailing spacer does; the solution is
/// rounded to cells and each section gets the area's `x` and `width`. The
/// contract states what follows for every outcome (see
/// [`stacked_sections`]). Where the area is too small for the constraints,
/// which length gives way is a tie the solver breaks by walking hash maps
/// whose seed varies by process, so the section heights there are not
/// stated, nor is the result named as a function of the arguments.
#[verifier::external_body]
pub(crate) fn split_vertical(area: Rect, top: u16, middle_min: u16, bottom: u16) -> (r: (Rect, Rect, Rect))
    ensures
        stacked_sections(area, top, middle_min, bottom, r),
{
    let chunks = ratatui::layout::Layout::vertical([
        ratatui::layout::Constraint::Length(top),
        ratatui::layout::Constraint::Min(middle_min),
        ratatui::layout::Constraint::Length(bottom),
    ]).split(ratatui::layout::Rect { x: area.x, y: area.y, width: area.width, height: area.height });
    let a = chunks[0];
    let b = chunks[1];
    let c = chunks[2];
    (
        Rect { x: a.x, y: a.y, width: a.width, height: a.height },
        Rect { x: b.x, y: b.y, width: b.width, height: b.height },
        Rect { x: c.x, y: c.y, width: c.width, height: c.height },
    )
}

/// The palette's sections over `area`: inside the border, three rows of
/// input, the results, one row of footer, as [`stacked_sections`] allows.
pub open spec fn palette_sections(area: Rect, r: (Rect, Rect, Rect)) -> bool {
    stacked_sections(bordered_inner_spec(area), 3, 0, 1, r)
}

/// The whole palette: its outer area with a green border and an orange bold
/// title, and the lines to draw inside.
#[derive(Clone, Debug)]
pub struct PaletteFrame {
    pub area: Rect,
    /// The input section inside the border.
    pub input_area: Rect,
    /// The result section inside the border.
    pub results_area: Rect,
    /// The footer section inside the border.
    pub footer_area: Rect,
    pub border_style: Style,
    pub title: StyledText,
    pub lines: Vec<TextLine>,
}

/// A frame as plain values.
pub struct FrameView {
    pub area: Rect,
    pub sections: (Rect, Rect, Rect),
    pub border_style: Style,
    pub title: SpanView,
    pub lines: Seq<LineView>,
}

impl View for PaletteFrame {
    type V = FrameView;

    open spec fn view(&self) -> FrameView {
        FrameView {
            area: self.area,
            sections: (self.input_area, self.results_area, self.footer_area),
            border_style: self.border_style,
            title: self.title@,
            lines: line_views(self.lines@),
        }
    }
}

/// The palette drawn over `area` in state `s` with the given input, result
/// and footer sections: border, title, then the lines of the sections in
/// that order.
pub open spec fn frame_spec(s: PaletteView, area: Rect, sections: (Rect, Rect, Rect)) -> FrameView {
    let (a, b, c) = sections;
    FrameView {
        area,
        sections,
        border_style: with_fg(plain(), role_color(ColorRole::Border)),
        title: span(" Command Palette "@, with_mod(with_fg(plain(), role_color(ColorRole::Title)), bold())),
        lines: input_lines(s.query, a) + result_lines(s, b) + footer_lines(
            s.query.len() == 0,
            s.matches.len(),
            registry().len(),
            c,
        ),
    }
}

} // verus!
