//! What the overlay shows: its texts, its chips and their colours. How they are laid out and drawn is
//! left to the host.

use crate::agent::AgentNames;
use crate::numerals::{decimal, to_decimal};
use crate::overlay::{ClaudePromptOverlay, ClaudePromptOverlayAction, OverlayView};
use crate::popover::{row_views, PopoverRow, PopoverState, PopoverView, RowView};
use crate::screen::AltScreen;
use crate::status_parser::{mode_key, opt_view, ModeKey, ParsedStatus, StatusView};
use vstd::prelude::*;
use vstd::string::*;

verus! {

/// The hint below the prompt.
pub const PROMPT_HINT: &'static str = "Enter ↵ send · Shift+Enter newline";

/// The hint while a popover is open.
pub const PROMPT_HINT_POPOVER: &'static str = "Enter ↵ select & send · Tab complete · Esc close";

/// The hint while a prompt is on its way.
pub const PROMPT_HINT_SUBMITTING: &'static str = "Submitting prompt...";

/// What an empty editor shows.
pub fn prompt_placeholder(agent: &AgentNames) -> (r: String)
    ensures
        r@ == "Tell "@ + agent@.title + " what to do..."@,
{
    "Tell ".to_owned().concat(agent.title.as_str()).concat(" what to do...")
}

/// A colour: red, green, blue and opacity.
#[derive(Debug, Clone, Copy, PartialEq, Eq, Structural)]
pub struct Color {
    pub r: u8,
    pub g: u8,
    pub b: u8,
    pub a: u8,
}

impl Color {
    /// The colour with an opacity of `alpha_pct` percent, at most full.
    pub open spec fn faded(self, alpha_pct: int) -> Color {
        let a = alpha_pct * 255 / 100;
        Color {
            a: if a > 255 {
                255
            } else {
                a as u8
            },
            ..self
        }
    }

    /// The colour of the secondary text beside a text of this colour: 65 percent of its opacity.
    pub open spec fn secondary(self) -> Color {
        Color { a: (self.a * 65 / 100) as u8, ..self }
    }

    /// The colour with an opacity of `alpha_pct` percent, at most full.
    pub fn with_alpha(self, alpha_pct: u8) -> (r: Color)
        ensures
            r == self.faded(alpha_pct as int),
    {
        let a: u32 = (alpha_pct as u32 * 255) / 100;
        Color {
            r: self.r,
            g: self.g,
            b: self.b,
            a: if a > 255 {
                255
            } else {
                a as u8
            },
        }
    }

    /// The colour of the secondary text beside a text of this colour.
    pub fn sub_color(self) -> (r: Color)
        ensures
            r == self.secondary(),
    {
        Color { r: self.r, g: self.g, b: self.b, a: ((self.a as u32 * 65) / 100) as u8 }
    }
}

/// The colours of the theme that the overlay uses.
#[derive(Debug, Clone, Copy, PartialEq, Eq, Structural)]
pub struct Palette {
    pub red: Color,
    pub green: Color,
    pub yellow: Color,
    pub blue: Color,
    pub magenta: Color,
    /// Secondary text on the prompt's surface.
    pub text_sub: Color,
    /// Text, secondary text, surface and border of neutral chips and of popovers.
    pub neutral_text: Color,
    pub neutral_sub: Color,
    pub neutral_surface: Color,
    pub neutral_border: Color,
}

/// The colours of a chip: its text, its surface and its border.
#[derive(Debug, Clone, Copy, PartialEq, Eq, Structural)]
pub struct ChipColors {
    pub text: Color,
    pub surface: Color,
    pub border: Color,
}

impl ChipColors {
    /// The colours of a chip in `base`: its surface and border are washes of the text's colour.
    pub open spec fn wash(base: Color) -> ChipColors {
        ChipColors { text: base, surface: base.faded(30), border: base.faded(90) }
    }

    /// The colours of a chip in `base`.
    pub fn washed(base: Color) -> (r: ChipColors)
        ensures
            r == ChipColors::wash(base),
    {
        ChipColors { text: base, surface: base.with_alpha(30), border: base.with_alpha(90) }
    }
}

/// The colour of the chip for a mode.
pub open spec fn mode_color(key: ModeKey, palette: Palette) -> Color {
    match key {
        ModeKey::Plan => palette.green,
        ModeKey::Auto => palette.yellow,
        ModeKey::Bypass => palette.red,
        ModeKey::Accept => palette.magenta,
        ModeKey::Default => palette.text_sub,
    }
}

/// The colours of the chip for a mode.
pub fn mode_chip_colors(key: ModeKey, palette: &Palette) -> (r: ChipColors)
    ensures
        r == ChipColors::wash(mode_color(key, *palette)),
{
    let base = match key {
        ModeKey::Plan => palette.green,
        ModeKey::Auto => palette.yellow,
        ModeKey::Bypass => palette.red,
        ModeKey::Accept => palette.magenta,
        ModeKey::Default => palette.text_sub,
    };
    ChipColors::washed(base)
}

/// A small badge with a text, and perhaps a secondary text behind it.
#[derive(Debug, PartialEq)]
pub struct Chip {
    pub text: String,
    pub sub: Option<String>,
    pub colors: ChipColors,
    /// The colour of the secondary text.
    pub sub_color: Color,
}

/// The mathematical content of a chip.
#[verifier::ext_equal]
pub struct ChipView {
    pub text: Seq<char>,
    pub sub: Option<Seq<char>>,
    pub colors: ChipColors,
    pub sub_color: Color,
}

impl View for Chip {
    type V = ChipView;

    open spec fn view(&self) -> ChipView {
        ChipView {
            text: self.text@,
            sub: opt_view(self.sub),
            colors: self.colors,
            sub_color: self.sub_color,
        }
    }
}

/// The contents of a list of chips.
pub open spec fn chips(list: Seq<Chip>) -> Seq<ChipView> {
    list.map_values(|c: Chip| c@)
}

/// A chip.
pub open spec fn chip(text: Seq<char>, sub: Option<Seq<char>>, colors: ChipColors) -> ChipView {
    ChipView { text, sub, colors, sub_color: colors.text.secondary() }
}

/// A chip with the given texts and colours.
pub fn build_chip(text: String, sub: Option<String>, colors: ChipColors) -> (r: Chip)
    ensures
        r@ == chip(text@, opt_view(sub), colors),
{
    Chip { text, sub, colors, sub_color: colors.text.sub_color() }
}

/// What is known of a session besides its screen.
#[derive(Debug, PartialEq)]
pub struct SessionLabel {
    /// The agent's name.
    pub agent: String,
    /// The version of the plugin that reports on the session.
    pub plugin_version: Option<String>,
}

/// The mathematical content of a `SessionLabel`.
pub struct LabelView {
    pub agent: Seq<char>,
    pub plugin_version: Option<Seq<char>>,
}

impl View for SessionLabel {
    type V = LabelView;

    open spec fn view(&self) -> LabelView {
        LabelView { agent: self.agent@, plugin_version: opt_view(self.plugin_version) }
    }
}

/// The chip for the mode, if there is one.
pub open spec fn mode_chips(status: StatusView, palette: Palette) -> Seq<ChipView> {
    match status.mode {
        Some(mode) => seq![
            chip(mode, None, ChipColors::wash(mode_color(mode_key(mode), palette))),
        ],
        None => seq![],
    }
}

/// The chip for the model and its context; where the screen names no model, for the agent and the
/// plugin's version.
pub open spec fn model_chip(status: StatusView, label: LabelView, palette: Palette) -> ChipView {
    let colors = ChipColors {
        text: palette.neutral_text,
        surface: palette.neutral_surface,
        border: palette.neutral_border,
    };
    match status.model {
        Some(model) => chip(model, status.context_info, colors),
        None => chip(
            label.agent,
            match label.plugin_version {
                Some(version) => Some("v"@ + version),
                None => None,
            },
            colors,
        ),
    }
}

/// The label of a number of shells.
pub open spec fn shells_label(n: nat) -> Seq<char> {
    if n == 1 {
        "1 shell"@
    } else {
        decimal(n) + " shells"@
    }
}

/// The chip for the shells, if their number is known.
pub open spec fn shell_chips(status: StatusView, palette: Palette) -> Seq<ChipView> {
    match status.shells {
        Some(n) => seq![chip(shells_label(n as nat), None, ChipColors::wash(palette.blue))],
        None => seq![],
    }
}

/// The chip that is there if `shown` is.
pub open spec fn flag_chips(shown: bool, text: Seq<char>, color: Color) -> Seq<ChipView> {
    if shown {
        seq![chip(text, None, ChipColors::wash(color))]
    } else {
        seq![]
    }
}

/// The chips for a status, in order.
pub open spec fn status_chips(status: StatusView, label: LabelView, palette: Palette) -> Seq<
    ChipView,
> {
    mode_chips(status, palette) + seq![model_chip(status, label, palette)] + shell_chips(
        status,
        palette,
    ) + flag_chips(status.remote, "remote"@, palette.magenta) + flag_chips(
        status.focused,
        "focus"@,
        palette.green,
    )
}

/// A progress bar with its label.
#[derive(Debug, PartialEq)]
pub struct ProgressBar {
    /// How much of the bar is filled, in percent.
    pub filled_pct: u8,
    pub label: String,
}

/// A progress bar at `progress` percent.
pub fn progress_bar_chip(progress: u8) -> (r: ProgressBar)
    ensures
        r.filled_pct == (if progress > 100 {
            100
        } else {
            progress
        }),
        r.label@ == decimal(progress as nat) + "%"@,
{
    ProgressBar {
        filled_pct: if progress > 100 {
            100
        } else {
            progress
        },
        label: to_decimal(progress as u64).concat("%"),
    }
}

/// The row of chips below the prompt, and the progress bar at its end.
#[derive(Debug, PartialEq)]
pub struct StatusRow {
    pub chips: Vec<Chip>,
    pub progress: Option<ProgressBar>,
}

impl StatusRow {
    /// Whether this is the row for a status.
    pub open spec fn shows(self, status: StatusView, label: LabelView, palette: Palette) -> bool {
        &&& chips(self.chips@) == status_chips(status, label, palette)
        &&& match self.progress {
            Some(bar) => status.progress matches Some(p) && bar.filled_pct == (if p > 100 {
                100
            } else {
                p
            }) && bar.label@ == decimal(p as nat) + "%"@,
            None => status.progress is None,
        }
    }
}

fn push_chip(list: &mut Vec<Chip>, chip: Chip)
    ensures
        chips(final(list)@) == chips(old(list)@) + seq![chip@],
{
    let ghost before = chips(list@);
    list.push(chip);
    assert(chips(list@) =~= before + seq![chip@]);
}

/// The row of chips for a status.
pub fn status_row(status: &ParsedStatus, label: &SessionLabel, palette: &Palette) -> (r: StatusRow)
    ensures
        r.shows(status@, label@, *palette),
{
    let mut list: Vec<Chip> = Vec::new();
    assert(chips(list@) =~= seq![]);
    if let Some(mode) = &status.mode {
        let colors = mode_chip_colors(ModeKey::from_label(mode.as_str()), palette);
        push_chip(&mut list, build_chip(mode.clone(), None, colors));
    }
    assert(chips(list@) =~= mode_chips(status@, *palette));
    let neutral = ChipColors {
        text: palette.neutral_text,
        surface: palette.neutral_surface,
        border: palette.neutral_border,
    };
    let (text, sub) = match &status.model {
        Some(model) => (
            model.clone(),
            match &status.context_info {
                Some(info) => Some(info.clone()),
                None => None,
            },
        ),
        None => (
            label.agent.clone(),
            match &label.plugin_version {
                Some(version) => Some("v".to_owned().concat(version.as_str())),
                None => None,
            },
        ),
    };
    push_chip(&mut list, build_chip(text, sub, neutral));
    let ghost two = mode_chips(status@, *palette) + seq![model_chip(status@, label@, *palette)];
    assert(chips(list@) =~= two);
    if let Some(n) = status.shells {
        let text = if n == 1 {
            "1 shell".to_owned()
        } else {
            to_decimal(n as u64).concat(" shells")
        };
        push_chip(&mut list, build_chip(text, None, ChipColors::washed(palette.blue)));
    }
    let ghost three = two + shell_chips(status@, *palette);
    assert(chips(list@) =~= three);
    if status.remote {
        push_chip(
            &mut list,
            build_chip("remote".to_owned(), None, ChipColors::washed(palette.magenta)),
        );
    }
    let ghost four = three + flag_chips(status.remote, "remote"@, palette.magenta);
    assert(chips(list@) =~= four);
    if status.focused {
        push_chip(
            &mut list,
            build_chip("focus".to_owned(), None, ChipColors::washed(palette.green)),
        );
    }
    assert(chips(list@) =~= status_chips(status@, label@, *palette));
    let progress = match status.progress {
        Some(p) => Some(progress_bar_chip(p)),
        None => None,
    };
    StatusRow { chips: list, progress }
}

/// Whether `row` is the row of chips for a status. There is none where the status says nothing or
/// the pane has no session.
pub open spec fn is_row_for(
    row: Option<StatusRow>,
    status: StatusView,
    session: Option<LabelView>,
    palette: Palette,
) -> bool {
    match row {
        Some(r) => session matches Some(label) && !status.is_empty() && r.shows(
            status,
            label,
            palette,
        ),
        None => session is None || status.is_empty(),
    }
}

/// The row of chips for a status, if there is anything to show.
pub fn gated_row(
    status: &ParsedStatus,
    session: &Option<SessionLabel>,
    palette: &Palette,
) -> (r: Option<StatusRow>)
    ensures
        is_row_for(r, status@, label_view(*session), *palette),
{
    if status.is_empty() {
        return None;
    }
    match session {
        Some(label) => Some(status_row(status, label, palette)),
        None => None,
    }
}

/// The row of chips for the status on the screen. There is none where the screen is not active or
/// its status says nothing, nor where the pane has no session.
pub fn render_status_chips(
    screen: &AltScreen,
    session: &Option<SessionLabel>,
    palette: &Palette,
) -> (r: Option<StatusRow>)
    ensures
        is_row_for(r, screen@.status(), label_view(*session), *palette),
{
    let status = screen.read_parsed_status();
    gated_row(&status, session, palette)
}

/// A row of a popover with its colours.
#[derive(Debug, PartialEq)]
pub struct RowScene {
    pub row: PopoverRow,
    pub name_color: Color,
    pub desc_color: Color,
    /// The surface and the border behind the row, if it is selected.
    pub highlight: Option<ChipColors>,
}

/// The mathematical content of a `RowScene`.
#[verifier::ext_equal]
pub struct RowSceneView {
    pub row: RowView,
    pub name_color: Color,
    pub desc_color: Color,
    pub highlight: Option<ChipColors>,
}

impl View for RowScene {
    type V = RowSceneView;

    open spec fn view(&self) -> RowSceneView {
        RowSceneView {
            row: self.row@,
            name_color: self.name_color,
            desc_color: self.desc_color,
            highlight: self.highlight,
        }
    }
}

/// The contents of a list of rows.
pub open spec fn row_scenes(list: Seq<RowScene>) -> Seq<RowSceneView> {
    list.map_values(|r: RowScene| r@)
}

/// The colours of a popover's selected row: its name, its surface and its border.
pub open spec fn selection(palette: Palette) -> ChipColors {
    ChipColors {
        text: palette.blue,
        surface: palette.blue.faded(20),
        border: palette.blue.faded(60),
    }
}

/// A row of a popover as it is drawn.
pub open spec fn row_scene(row: RowView, palette: Palette) -> RowSceneView {
    RowSceneView {
        row,
        name_color: if row.is_selected {
            palette.blue
        } else {
            palette.neutral_text
        },
        desc_color: palette.neutral_sub,
        highlight: if row.is_selected {
            Some(selection(palette))
        } else {
            None
        },
    }
}

/// A popover as it is drawn: its header, and its rows below.
#[derive(Debug, PartialEq)]
pub struct PopoverScene {
    pub header: String,
    pub header_color: Color,
    pub rows: Vec<RowScene>,
}

impl PopoverScene {
    /// Whether this is how a popover is drawn.
    pub open spec fn shows(self, popover: PopoverView, palette: Palette) -> bool {
        &&& self.header@ == popover.header()
        &&& self.header_color == palette.neutral_sub
        &&& row_scenes(self.rows@) == popover.rows().map_values(
            |row: RowView| row_scene(row, palette),
        )
    }
}

/// The colours of a popover's selected row.
pub fn selection_colors(palette: &Palette) -> (r: ChipColors)
    ensures
        r == selection(*palette),
{
    ChipColors {
        text: palette.blue,
        surface: palette.blue.with_alpha(20),
        border: palette.blue.with_alpha(60),
    }
}

/// How a popover is drawn.
pub fn render_popover(popover: &PopoverState, palette: &Palette) -> (r: PopoverScene)
    requires
        popover@.window_start() <= popover@.items.len(),
        popover.selected < usize::MAX,
    ensures
        r.shows(popover@, *palette),
{
    let shown = popover.visible_rows();
    let ghost all = row_views(shown@);
    let mut rows: Vec<RowScene> = Vec::new();
    let mut i: usize = 0;
    while i < shown.len()
        invariant
            i <= shown.len(),
            all == row_views(shown@),
            rows@.len() == i,
            forall|j: int| 0 <= j < i ==> (#[trigger] rows@[j])@ == row_scene(all[j], *palette),
        decreases shown.len() - i,
    {
        let selected = shown[i].is_selected;
        let scene = RowScene {
            row: PopoverRow {
                name: shown[i].name.clone(),
                desc: shown[i].desc.clone(),
                is_selected: selected,
            },
            name_color: if selected {
                palette.blue
            } else {
                palette.neutral_text
            },
            desc_color: palette.neutral_sub,
            highlight: if selected {
                Some(selection_colors(palette))
            } else {
                None
            },
        };
        assert(scene@.row == all[i as int]);
        rows.push(scene);
        i = i + 1;
    }
    assert(row_scenes(rows@) =~= all.map_values(|row: RowView| row_scene(row, *palette)));
    PopoverScene { header: popover.header_text(), header_color: palette.neutral_sub, rows }
}

/// The prompt as it is drawn: a popover above it if there is one, the hint below the editor, and the
/// row of chips below the hint if there is one.
#[derive(Debug, PartialEq)]
pub struct PromptScene {
    pub popover: Option<PopoverScene>,
    pub hint: &'static str,
    pub status: Option<StatusRow>,
}

/// The overlay as it is drawn.
#[derive(Debug, PartialEq)]
pub enum Scene {
    /// Nothing at all, so that the agent's question is not covered.
    Nothing,
    /// Nothing but a pill.
    Pill,
    Prompt(PromptScene),
}

impl PromptScene {
    /// Whether this is how the prompt of an overlay is drawn.
    pub open spec fn shows(
        self,
        overlay: OverlayView,
        status: StatusView,
        session: Option<LabelView>,
        palette: Palette,
    ) -> bool {
        &&& self.hint@ == hint_of(overlay)
        &&& match self.popover {
            Some(scene) => overlay.popover matches Some(p) && scene.shows(p, palette),
            None => overlay.popover is None,
        }
        &&& is_row_for(self.status, status, session, palette)
    }
}

impl Scene {
    /// Whether this is how an overlay is drawn over a screen with the given status. An overlay that
    /// the user has hidden is a pill; one over an active screen that asks a question hides by itself.
    pub open spec fn shows(
        self,
        overlay: OverlayView,
        is_active: bool,
        status: StatusView,
        session: Option<LabelView>,
        palette: Palette,
    ) -> bool {
        let hides = is_active && status.is_question_mode();
        match self {
            Scene::Pill => overlay.is_hidden,
            Scene::Nothing => !overlay.is_hidden && hides,
            Scene::Prompt(prompt) => !overlay.is_hidden && !hides && prompt.shows(
                overlay,
                status,
                session,
                palette,
            ),
        }
    }
}

/// The content of an optional label.
pub open spec fn label_view(session: Option<SessionLabel>) -> Option<LabelView> {
    match session {
        Some(label) => Some(label@),
        None => None,
    }
}

/// What a left click on the overlay does.
#[derive(Debug, Clone, Copy, PartialEq, Eq, Structural)]
pub struct Click {
    pub action: ClaudePromptOverlayAction,
    /// Whether what is below the overlay does not get the click.
    pub stops_propagation: bool,
}

/// The hint that an overlay shows.
pub open spec fn hint_of(overlay: OverlayView) -> Seq<char> {
    if overlay.is_submitting {
        PROMPT_HINT_SUBMITTING@
    } else if overlay.popover is Some {
        PROMPT_HINT_POPOVER@
    } else {
        PROMPT_HINT@
    }
}

impl ClaudePromptOverlay {
    /// The overlay as it is drawn; `session` is what is known of the pane's session if it has one.
    pub fn render(
        &self,
        screen: &AltScreen,
        session: &Option<SessionLabel>,
        palette: &Palette,
    ) -> (r: Scene)
        requires
            self.wf(),
        ensures
            r.shows(
                self@,
                screen@ is Active,
                screen@.status(),
                label_view(*session),
                *palette,
            ),
    {
        let is_active = match screen {
            AltScreen::Active { .. } => true,
            _ => false,
        };
        let status = screen.read_parsed_status();
        self.render_over(is_active, &status, session, palette)
    }

    /// The overlay as it is drawn over a screen with the given status. A screen that is not active
    /// asks nothing, whatever its status.
    pub fn render_over(
        &self,
        is_active: bool,
        status: &ParsedStatus,
        session: &Option<SessionLabel>,
        palette: &Palette,
    ) -> (r: Scene)
        requires
            self.wf(),
        ensures
            r.shows(self@, is_active, status@, label_view(*session), *palette),
    {
        if self.is_hidden {
            return Scene::Pill;
        }
        if is_active && status.is_question_mode() {
            return Scene::Nothing;
        }
        let popover = match &self.popover {
            Some(popover) => Some(render_popover(popover, palette)),
            None => None,
        };
        let status = gated_row(status, session, palette);
        Scene::Prompt(PromptScene { popover, hint: self.hint(), status })
    }

    /// The hint below the prompt.
    pub fn hint(&self) -> (r: &'static str)
        ensures
            r@ == hint_of(self@),
    {
        if self.is_submitting {
            PROMPT_HINT_SUBMITTING
        } else if self.popover.is_some() {
            PROMPT_HINT_POPOVER
        } else {
            PROMPT_HINT
        }
    }

    /// What a left click does: on the pill it shows the overlay again; anywhere on the prompt it
    /// focuses the editor, and still reaches what was clicked.
    pub fn on_click(&self) -> (r: Click)
        ensures
            r == (if self@.is_hidden {
                Click { action: ClaudePromptOverlayAction::ToggleHide, stops_propagation: true }
            } else {
                Click { action: ClaudePromptOverlayAction::FocusEditor, stops_propagation: false }
            }),
    {
        if self.is_hidden {
            Click { action: ClaudePromptOverlayAction::ToggleHide, stops_propagation: true }
        } else {
            Click { action: ClaudePromptOverlayAction::FocusEditor, stops_propagation: false }
        }
    }
}

/// Secondary text is never more opaque than the text beside it, and a wash never hides what is
/// behind it.
pub proof fn law_opacity(color: Color, alpha_pct: int)
    requires
        0 <= alpha_pct < 100,
    ensures
        color.secondary().a <= color.a,
        color.faded(alpha_pct).a < 255,
        color.faded(100).a == 255,
        color.faded(0).a == 0,
        color.faded(alpha_pct).r == color.r,
        color.faded(alpha_pct).g == color.g,
        color.faded(alpha_pct).b == color.b,
{
}

/// The row has one chip at least, for the model or the agent, and five at most.
pub proof fn law_chip_count(status: StatusView, label: LabelView, palette: Palette)
    ensures
        1 <= status_chips(status, label, palette).len() <= 5,
        status_chips(status, label, palette).contains(model_chip(status, label, palette)),
{
    let at = mode_chips(status, palette).len() as int;
    assert(status_chips(status, label, palette)[at] == model_chip(status, label, palette));
}

} // verus!
