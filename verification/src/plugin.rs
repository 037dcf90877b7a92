//! The plugin's decisions: what each host event does to the palette, which
//! command runs, and whether the palette hides or redraws. The host side
//! performs what the returned [`UpdateOutcome`] asks for.

use vstd::prelude::*;
use crate::click::ClickAction;
use crate::commands::{all_commands, registry, CommandAction};
use crate::keys::KeyWithModifier;
use crate::screens::ActiveScreen;
use crate::screens::command_palette::{
    click_target, filter_spec, key_command_spec, lemma_filter_results, move_spec, refresh_spec,
    step_spec, CommandPaletteState, KeyCommand, PaletteAction, PaletteView,
};
use crate::screens::render::{
    fits, frame_spec, palette_sections, result_regions, PaletteFrame, Rect,
};

verus! {

/// A host event, as the plugin reads it.
#[derive(Clone, Debug)]
pub enum PluginEvent {
    /// The plugin pane became visible (`true`) or hidden (`false`).
    Visible(bool),
    /// An intercepted key press.
    Key(KeyWithModifier),
    /// A left click at a pane-relative row and column.
    LeftClick { row: usize, col: usize },
    /// The mouse hovers at a pane-relative row and column.
    Hover { row: usize, col: usize },
    /// The mouse wheel scrolled down.
    ScrollDown,
    /// The mouse wheel scrolled up.
    ScrollUp,
    /// Any other event.
    Other,
}

/// What the host should do after an event: keep intercepting key presses,
/// run a command, hide the plugin pane, and redraw.
#[derive(Clone, Copy, Debug, PartialEq, Eq, Structural)]
pub struct UpdateOutcome {
    /// Intercept key presses again (the palette was showing).
    pub intercept_keys: bool,
    /// The action of the command to run, if any.
    pub run: Option<CommandAction>,
    /// Hide the plugin pane.
    pub hide: bool,
    /// Redraw the plugin.
    pub redraw: bool,
}

/// The plugin state: which screen shows, the palette, and whether the pane
/// is visible.
pub struct State {
    screen: ActiveScreen,
    palette: CommandPaletteState,
    is_visible: bool,
}

/// The plugin state as plain values.
#[verifier::ext_equal]
pub struct StateView {
    pub screen: ActiveScreen,
    pub palette: PaletteView,
    pub is_visible: bool,
}

impl View for State {
    type V = StateView;

    closed spec fn view(&self) -> StateView {
        StateView { screen: self.screen, palette: self.palette@, is_visible: self.is_visible }
    }
}

/// The palette's results, selection and click regions all refer to the
/// registry: at most one result per command, every result names a
/// command, and the selection and every clickable row stay within the
/// registry's size.
pub open spec fn palette_in_registry(p: PaletteView) -> bool {
    &&& p.matches.len() <= registry().len()
    &&& forall|i: int| 0 <= i < p.matches.len() ==> (#[trigger] p.matches[i]).cmd_index < registry().len()
    &&& p.selected <= registry().len()
    &&& forall|i: int|
        0 <= i < p.click_regions.len() ==> ((#[trigger] p.click_regions[i]).action matches ClickAction::ExecuteCommand(
            k,
        ) ==> k < registry().len())
}

/// The outcome that hides the palette, possibly running `run`.
pub open spec fn hide_outcome(intercept: bool, run: Option<CommandAction>) -> UpdateOutcome {
    UpdateOutcome { intercept_keys: intercept, run, hide: true, redraw: false }
}

/// The outcome that keeps the palette, redrawing or not.
pub open spec fn stay_outcome(intercept: bool, redraw: bool) -> UpdateOutcome {
    UpdateOutcome { intercept_keys: intercept, run: None, hide: false, redraw }
}

/// The action of registry command `idx`, when there is one.
pub open spec fn registry_action(idx: usize) -> Option<CommandAction> {
    if idx < registry().len() {
        Some(registry()[idx as int].action)
    } else {
        None
    }
}

/// The state with the palette hidden.
pub open spec fn hidden(s: StateView, p: PaletteView) -> StateView {
    StateView { screen: ActiveScreen::Hidden, palette: p, is_visible: false }
}

/// How the plugin answers `e` in state `s`.
///
/// - Becoming visible after being hidden shows the palette afresh: empty
///   query, selection and scroll at the top, results refreshed.
/// - A key goes to the palette; Execute runs the chosen registry command
///   and hides the palette, Close hides it, anything else redraws.
/// - A left click on a result row runs that row's command and hides the
///   palette; elsewhere it only redraws.
/// - Hovering over a result row selects it; scrolling moves the selection.
/// - Key presses are intercepted again whenever the palette was showing.
pub open spec fn update_spec(s: StateView, e: PluginEvent) -> (StateView, UpdateOutcome) {
    let intercept = s.screen != ActiveScreen::Hidden;
    let p = s.palette;
    match e {
        PluginEvent::Visible(v) => {
            let s2 = if v && !s.is_visible {
                StateView {
                    screen: ActiveScreen::Palette,
                    palette: refresh_spec(
                        PaletteView { query: Seq::empty(), selected: 0, scroll_offset: 0, ..p },
                    ),
                    ..s
                }
            } else {
                s
            };
            (StateView { is_visible: v, ..s2 }, stay_outcome(intercept, true))
        },
        PluginEvent::Key(key) => {
            let (p2, action) = step_spec(p, key_command_spec(key));
            match action {
                PaletteAction::Execute(idx) => (hidden(s, p2), hide_outcome(intercept, registry_action(idx))),
                PaletteAction::Close => (hidden(s, p2), hide_outcome(intercept, None)),
                _ => (StateView { palette: p2, ..s }, stay_outcome(intercept, true)),
            }
        },
        PluginEvent::LeftClick { row, col } => match click_target(p.click_regions, row, col) {
            Some(m) => (
                hidden(s, p),
                hide_outcome(
                    intercept,
                    if m < p.matches.len() { registry_action(p.matches[m as int].cmd_index) } else { None },
                ),
            ),
            None => (s, stay_outcome(intercept, true)),
        },
        PluginEvent::Hover { row, col } => match click_target(p.click_regions, row, col) {
            Some(m) => (StateView { palette: PaletteView { selected: m, ..p }, ..s }, stay_outcome(intercept, true)),
            None => (s, stay_outcome(intercept, true)),
        },
        PluginEvent::ScrollDown => (StateView { palette: move_spec(p, 1), ..s }, stay_outcome(intercept, true)),
        PluginEvent::ScrollUp => (StateView { palette: move_spec(p, -1), ..s }, stay_outcome(intercept, true)),
        PluginEvent::Other => (s, stay_outcome(intercept, true)),
    }
}

/// Mouse events: a left click on a result row hides the palette and runs
/// the command of the result that row shows; hovering over a result row
/// selects it; the wheel moves the selection one row down or up, wrapping;
/// a click or hover anywhere else only redraws.
pub proof fn lemma_mouse_events(s: StateView, row: usize, col: usize)
    ensures
        ({
            let (t, o) = update_spec(s, PluginEvent::LeftClick { row, col });
            match click_target(s.palette.click_regions, row, col) {
                Some(j) => {
                    &&& t == hidden(s, s.palette)
                    &&& o.hide && !o.redraw
                    &&& o.run == (if j < s.palette.matches.len() {
                        registry_action(s.palette.matches[j as int].cmd_index)
                    } else {
                        None
                    })
                },
                None => t == s && !o.hide && o.redraw && o.run is None,
            }
        }),
        ({
            let (t, o) = update_spec(s, PluginEvent::Hover { row, col });
            &&& !o.hide && o.redraw && o.run is None
            &&& match click_target(s.palette.click_regions, row, col) {
                Some(j) => t == (StateView { palette: PaletteView { selected: j, ..s.palette }, ..s }),
                None => t == s,
            }
        }),
        ({
            let (t, o) = update_spec(s, PluginEvent::ScrollDown);
            t == (StateView { palette: move_spec(s.palette, 1), ..s }) && !o.hide && o.redraw && o.run is None
        }),
        ({
            let (t, o) = update_spec(s, PluginEvent::ScrollUp);
            t == (StateView { palette: move_spec(s.palette, -1), ..s }) && !o.hide && o.redraw && o.run is None
        }),
{
}

/// `area` scaled to `percent_x` percent of its width and `percent_y`
/// percent of its height (rounded down), centered in it.
pub open spec fn centered_rect_spec(percent_x: u16, percent_y: u16, area: Rect) -> Rect {
    let w = area.width * percent_x / 100;
    let h = area.height * percent_y / 100;
    Rect {
        x: (area.x + (area.width - w) / 2) as u16,
        y: (area.y + (area.height - h) / 2) as u16,
        width: w as u16,
        height: h as u16,
    }
}

/// A rectangle `percent_x` by `percent_y` percent of `area`, centered in
/// it.
pub fn centered_rect(percent_x: u16, percent_y: u16, area: Rect) -> (r: Rect)
    requires
        percent_x <= 100,
        percent_y <= 100,
        area.width * percent_x <= u16::MAX,
        area.height * percent_y <= u16::MAX,
        fits(area),
    ensures
        r == centered_rect_spec(percent_x, percent_y, area),
{
    let w = area.width * percent_x / 100;
    let h = area.height * percent_y / 100;
    assert(w <= area.width) by (nonlinear_arith)
        requires
            w == area.width * percent_x / 100,
            percent_x <= 100,
    ;
    assert(h <= area.height) by (nonlinear_arith)
        requires
            h == area.height * percent_y / 100,
            percent_y <= 100,
    ;
    let x = area.x + (area.width - w) / 2;
    let y = area.y + (area.height - h) / 2;
    Rect { x, y, width: w, height: h }
}

/// Re-filtering keeps the palette within the registry.
proof fn lemma_refresh_in_registry(p: PaletteView)
    requires
        palette_in_registry(p),
    ensures
        palette_in_registry(refresh_spec(p)),
{
    lemma_filter_results(registry(), p.query);
}

/// Every key command keeps the palette within the registry, and its limits
/// hold there.
proof fn lemma_step_in_registry(p: PaletteView, cmd: KeyCommand)
    requires
        palette_in_registry(p),
    ensures
        crate::screens::command_palette::step_fits(p, cmd),
        palette_in_registry(step_spec(p, cmd).0),
{
    crate::commands::lemma_registry_categories();
    assert((p.selected as isize) as int == p.selected);
    match cmd {
        KeyCommand::Escape | KeyCommand::ClearQuery => {
            lemma_refresh_in_registry(PaletteView { query: Seq::empty(), ..p });
        },
        KeyCommand::Backspace => {
            lemma_refresh_in_registry(
                PaletteView { query: if p.query.len() == 0 { p.query } else { p.query.drop_last() }, ..p },
            );
        },
        KeyCommand::DeleteWord => {
            lemma_refresh_in_registry(
                PaletteView {
                    query: crate::screens::command_palette::delete_last_word_spec(p.query),
                    ..p
                },
            );
        },
        KeyCommand::Insert(ch) => {
            lemma_refresh_in_registry(PaletteView { query: p.query.push(ch), ..p });
        },
        _ => {},
    }
}

impl State {
    /// The state is consistent: the palette stays within the registry.
    pub closed spec fn wf(&self) -> bool {
        palette_in_registry(self.palette@)
    }

    /// The plugin at start: the palette showing with every command listed,
    /// and the pane visible.
    pub fn new() -> (s: State)
        ensures
            s.wf(),
            s@.screen == ActiveScreen::Palette,
            s@.is_visible,
            s@.palette == (PaletteView {
                query: Seq::empty(),
                matches: filter_spec(registry(), Seq::empty()),
                selected: 0,
                scroll_offset: 0,
                viewport_height: 8,
                click_regions: Seq::empty(),
            }),
    {
        let palette = CommandPaletteState::new();
        proof {
            crate::commands::lemma_registry_categories();
            lemma_filter_results(registry(), Seq::empty());
        }
        State { screen: ActiveScreen::Palette, palette, is_visible: true }
    }

    /// Which screen shows.
    pub fn screen(&self) -> (s: ActiveScreen)
        ensures
            s == self@.screen,
    {
        self.screen
    }

    /// The palette.
    pub fn palette(&self) -> (p: &CommandPaletteState)
        ensures
            p@ == self@.palette,
    {
        &self.palette
    }

    /// The plugin was loaded: re-filter the palette's results.
    pub fn load(&mut self)
        requires
            old(self).wf(),
        ensures
            final(self).wf(),
            final(self)@ == (StateView { palette: refresh_spec(old(self)@.palette), ..old(self)@ }),
    {
        self.palette.refresh_matches();
        proof {
            lemma_refresh_in_registry(old(self)@.palette);
        }
    }

    /// Answers one host event (see [`update_spec`]).
    pub fn update(&mut self, event: PluginEvent) -> (outcome: UpdateOutcome)
        requires
            old(self).wf(),
        ensures
            final(self).wf(),
            final(self)@ == update_spec(old(self)@, event).0,
            outcome == update_spec(old(self)@, event).1,
    {
        let intercept = self.screen != ActiveScreen::Hidden;
        let ghost p0 = self.palette@;
        proof {
            crate::commands::lemma_registry_categories();
        }
        match event {
            PluginEvent::Visible(v) => {
                if v && !self.is_visible {
                    self.screen = ActiveScreen::Palette;
                    self.palette.reset();
                    proof {
                        lemma_refresh_in_registry(
                            PaletteView { query: Seq::empty(), selected: 0, scroll_offset: 0, ..p0 },
                        );
                    }
                }
                self.is_visible = v;
                let out = UpdateOutcome { intercept_keys: intercept, run: None, hide: false, redraw: true };
                proof {
                    assert(self@ =~= update_spec(old(self)@, event).0);
                    assert(out == update_spec(old(self)@, event).1);
                }
                out
            },
            PluginEvent::Key(key) => {
                proof {
                    lemma_step_in_registry(p0, key_command_spec(key));
                }
                let action = self.palette.on_key(&key);
                match action {
                    PaletteAction::Execute(idx) => {
                        let commands = all_commands();
                        let run = if idx < commands.len() {
                            assert(commands@[idx as int]@ == registry()[idx as int]);
                            Some(commands[idx].action)
                        } else {
                            None
                        };
                        self.screen = ActiveScreen::Hidden;
                        self.is_visible = false;
                        UpdateOutcome { intercept_keys: intercept, run, hide: true, redraw: false }
                    },
                    PaletteAction::Close => {
                        self.screen = ActiveScreen::Hidden;
                        self.is_visible = false;
                        UpdateOutcome { intercept_keys: intercept, run: None, hide: true, redraw: false }
                    },
                    _ => UpdateOutcome { intercept_keys: intercept, run: None, hide: false, redraw: true },
                }
            },
            PluginEvent::LeftClick { row, col } => {
                match self.palette.on_click(row, col) {
                    Some(match_idx) => {
                        let commands = all_commands();
                        let mut run: Option<CommandAction> = None;
                        match self.palette.command_index_of(match_idx) {
                            Some(cmd_idx) => {
                                if cmd_idx < commands.len() {
                                    assert(commands@[cmd_idx as int]@ == registry()[cmd_idx as int]);
                                    run = Some(commands[cmd_idx].action);
                                }
                            },
                            None => {},
                        }
                        self.screen = ActiveScreen::Hidden;
                        self.is_visible = false;
                        UpdateOutcome { intercept_keys: intercept, run, hide: true, redraw: false }
                    },
                    None => UpdateOutcome { intercept_keys: intercept, run: None, hide: false, redraw: true },
                }
            },
            PluginEvent::Hover { row, col } => {
                match self.palette.on_hover(row, col) {
                    Some(idx) => {
                        proof {
                            let rs = p0.click_regions;
                            let i = choose|i: int| crate::click::is_first_hit(rs, i, row, col);
                            assert(rs[i].action == ClickAction::ExecuteCommand(idx));
                        }
                        self.palette.select(idx);
                        UpdateOutcome { intercept_keys: intercept, run: None, hide: false, redraw: true }
                    },
                    None => UpdateOutcome { intercept_keys: intercept, run: None, hide: false, redraw: true },
                }
            },
            PluginEvent::ScrollDown => {
                proof {
                    lemma_step_in_registry(p0, KeyCommand::Down);
                }
                self.palette.move_selection_down();
                UpdateOutcome { intercept_keys: intercept, run: None, hide: false, redraw: true }
            },
            PluginEvent::ScrollUp => {
                proof {
                    lemma_step_in_registry(p0, KeyCommand::Up);
                }
                self.palette.move_selection_up();
                UpdateOutcome { intercept_keys: intercept, run: None, hide: false, redraw: true }
            },
            PluginEvent::Other => UpdateOutcome { intercept_keys: intercept, run: None, hide: false, redraw: true },
        }
    }

    /// What to draw over the pane `area`: nothing while the palette is
    /// hidden; else the palette over the centered 80% by 60% of the pane
    /// (see [`CommandPaletteState::render`]).
    pub fn render(&mut self, area: Rect) -> (frame: Option<PaletteFrame>)
        requires
            old(self).wf(),
            fits(area),
            area.width * 80 <= u16::MAX,
            area.height * 60 <= u16::MAX,
        ensures
            final(self).wf(),
            old(self)@.screen == ActiveScreen::Hidden ==> frame is None && final(self)@ == old(self)@,
            old(self)@.screen != ActiveScreen::Hidden ==> ({
                let pa = centered_rect_spec(80, 60, area);
                &&& frame matches Some(f)
                &&& palette_sections(pa, f@.sections)
                &&& f@ == frame_spec(old(self)@.palette, pa, f@.sections)
                &&& final(self)@ == (StateView {
                    palette: PaletteView {
                        viewport_height: f@.sections.1.height,
                        click_regions: result_regions(old(self)@.palette, f@.sections.1),
                        ..old(self)@.palette
                    },
                    ..old(self)@
                })
            }),
    {
        if self.screen == ActiveScreen::Hidden {
            return None;
        }
        let pa = centered_rect(80, 60, area);
        let frame = self.palette.render(pa);
        proof {
            let p = old(self)@.palette;
            assert forall|i: int| 0 <= i < self.palette@.click_regions.len() implies ((#[trigger] self.palette@.click_regions[i]).action matches ClickAction::ExecuteCommand(
                k,
            ) ==> k < registry().len()) by {
                assert(self.palette@.click_regions == result_regions(p, frame@.sections.1));
            }
        }
        Some(frame)
    }
}

impl Default for State {
    /// The plugin at start (see [`State::new`]).
    fn default() -> (s: Self)
        ensures
            s.wf(),
            s@.screen == ActiveScreen::Palette,
            s@.is_visible,
    {
        Self::new()
    }
}

} // verus!
