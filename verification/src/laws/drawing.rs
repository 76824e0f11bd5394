//! Laws of what the overlay shows.

use crate::numerals::decimal;
use crate::overlay::{ClaudePromptOverlay, ClaudePromptOverlayAction, OverlayView};
use crate::popover::{PopoverView, RowView};
use crate::render::{
    chip, is_row_for, mode_color, row_scene, row_scenes, status_chips, ChipColors, Click, Color,
    LabelView, Palette, PopoverScene, Scene, StatusRow,
};

use crate::status_parser::{mode_key, ModeKey, StatusView};
use vstd::prelude::*;
use vstd::string::*;

verus! {

/// An opacity in percent, of 255 and rounded down; secondary text has 65 percent of the opacity of
/// the text beside it, rounded down. Nothing but the opacity changes.
pub proof fn law_shares_of_opacity(color: Color, pct: int)
    requires
        0 <= pct,
    ensures
        color.faded(pct).r == color.r && color.secondary().r == color.r,
        color.faded(pct).g == color.g && color.secondary().g == color.g,
        color.faded(pct).b == color.b && color.secondary().b == color.b,
        pct <= 100 ==> 100 * color.faded(pct).a <= 255 * pct < 100 * (color.faded(pct).a + 1),
        pct > 100 ==> color.faded(pct).a == 255,
        100 * color.secondary().a <= 65 * color.a < 100 * (color.secondary().a + 1),
{
}

/// A chip's text is in its base colour; the surface has 30 percent of the full opacity, the border
/// 90, in the same colour.
pub proof fn law_wash(base: Color)
    ensures
        ({
            let colors = ChipColors::wash(base);
            &&& colors.text == base
            &&& colors.surface == Color { r: base.r, g: base.g, b: base.b, a: 76 }
            &&& colors.border == Color { r: base.r, g: base.g, b: base.b, a: 229 }
        }),
{
}

/// The colour for each kind of mode.
pub proof fn law_colors_of_modes(palette: Palette)
    ensures
        mode_color(ModeKey::Plan, palette) == palette.green,
        mode_color(ModeKey::Auto, palette) == palette.yellow,
        mode_color(ModeKey::Bypass, palette) == palette.red,
        mode_color(ModeKey::Accept, palette) == palette.magenta,
        mode_color(ModeKey::Default, palette) == palette.text_sub,
{
}

/// A chip has the texts and colours that it is given, and its secondary text is in the secondary
/// colour of its text.
pub proof fn law_chip(text: Seq<char>, sub: Option<Seq<char>>, colors: ChipColors)
    ensures
        chip(text, sub, colors).text == text,
        chip(text, sub, colors).sub == sub,
        chip(text, sub, colors).colors == colors,
        chip(text, sub, colors).sub_color == colors.text.secondary(),
{
}

/// The chips of a status, each at its place: the mode if there is one, the model or the agent, the
/// shells if they are known, `remote` and `focus` where the status has them; and no others.
pub proof fn law_chips_in_order(status: StatusView, label: LabelView, palette: Palette)
    ensures
        ({
            let all = status_chips(status, label, palette);
            let model_at: int = if status.mode is Some {
                1
            } else {
                0
            };
            let remote_at = model_at + if status.shells is Some {
                2int
            } else {
                1int
            };
            let focus_at = remote_at + if status.remote {
                1int
            } else {
                0int
            };
            let end = focus_at + if status.focused {
                1int
            } else {
                0int
            };
            &&& all.len() == end
            &&& status.mode matches Some(mode) ==> all[0].text == mode && all[0].sub is None
                && all[0].colors == ChipColors::wash(mode_color(mode_key(mode), palette))
            &&& status.model matches Some(model) ==> all[model_at].text == model
                && all[model_at].sub == status.context_info
            &&& status.model is None ==> all[model_at].text == label.agent && (
            label.plugin_version is None ==> all[model_at].sub is None) && (
            label.plugin_version matches Some(version) ==> all[model_at].sub == Some(
                "v"@ + version,
            ))
            &&& all[model_at].colors.text == palette.neutral_text
            &&& all[model_at].colors.surface == palette.neutral_surface
            &&& all[model_at].colors.border == palette.neutral_border
            &&& status.shells matches Some(n) ==> all[model_at + 1].text == (if n == 1 {
                "1 shell"@
            } else {
                decimal(n as nat) + " shells"@
            }) && all[model_at + 1].sub is None && all[model_at + 1].colors == ChipColors::wash(
                palette.blue,
            )
            &&& status.remote ==> all[remote_at].text == "remote"@ && all[remote_at].sub is None
                && all[remote_at].colors == ChipColors::wash(palette.magenta)
            &&& status.focused ==> all[focus_at].text == "focus"@ && all[focus_at].sub is None
                && all[focus_at].colors == ChipColors::wash(palette.green)
        }),
        forall|i: int|
            0 <= i < status_chips(status, label, palette).len() ==> (#[trigger] status_chips(
                status,
                label,
                palette,
            )[i]).sub_color == status_chips(status, label, palette)[i].colors.text.secondary(),
{
}

/// A row of chips shows the status: its chips, and a bar where there is a progress, filled as far
/// as that goes and labelled with it.
pub proof fn law_row_shows_the_status(
    row: StatusRow,
    status: StatusView,
    label: LabelView,
    palette: Palette,
)
    requires
        row.shows(status, label, palette),
    ensures
        row.chips@.len() == status_chips(status, label, palette).len(),
        forall|i: int|
            0 <= i < row.chips@.len() ==> (#[trigger] row.chips@[i])@ == status_chips(
                status,
                label,
                palette,
            )[i],
        status.progress is Some <==> row.progress is Some,
        row.progress matches Some(bar) ==> bar.label@ == decimal(status.progress->0 as nat) + "%"@
            && bar.filled_pct <= 100 && (status.progress->0 <= 100 ==> bar.filled_pct
            == status.progress->0) && (status.progress->0 > 100 ==> bar.filled_pct == 100),
{
    let all = crate::render::chips(row.chips@);
    assert forall|i: int| 0 <= i < row.chips@.len() implies (#[trigger] row.chips@[i])@
        == status_chips(status, label, palette)[i] by {
        assert(all[i] == row.chips@[i]@);
    }
}

/// There is a row of chips exactly where the pane has a session and the status says anything, and
/// it shows that status.
pub proof fn law_row_is_there_where_needed(
    row: Option<StatusRow>,
    status: StatusView,
    session: Option<LabelView>,
    palette: Palette,
)
    requires
        is_row_for(row, status, session, palette),
    ensures
        row is Some <==> session is Some && (status.mode is Some || status.model is Some
            || status.context_info is Some || status.progress is Some || status.shells is Some
            || status.remote || status.focused),
        row matches Some(r) ==> session matches Some(label) && r.shows(status, label, palette),
{
}

/// The row of a popover that is drawn: the selected one in blue on a wash of blue, of 20 and 60
/// percent, the others plain.
pub proof fn law_rows_are_drawn(row: RowView, palette: Palette)
    ensures
        ({
            let scene = row_scene(row, palette);
            let blue = palette.blue;
            &&& scene.row == row
            &&& scene.desc_color == palette.neutral_sub
            &&& row.is_selected ==> scene.name_color == blue && scene.highlight == Some(
                ChipColors {
                    text: blue,
                    surface: Color { r: blue.r, g: blue.g, b: blue.b, a: 51 },
                    border: Color { r: blue.r, g: blue.g, b: blue.b, a: 153 },
                },
            )
            &&& !row.is_selected ==> scene.name_color == palette.neutral_text
                && scene.highlight is None
        }),
{
}

/// A popover is drawn with its header and with its rows, one for one.
pub proof fn law_popover_is_drawn(scene: PopoverScene, popover: PopoverView, palette: Palette)
    requires
        scene.shows(popover, palette),
    ensures
        scene.header@ == popover.header(),
        scene.header_color == palette.neutral_sub,
        scene.rows@.len() == popover.rows().len(),
        forall|i: int|
            0 <= i < scene.rows@.len() ==> (#[trigger] scene.rows@[i])@.row == popover.rows()[i]
                && scene.rows@[i]@ == row_scene(popover.rows()[i], palette),
{
    let all = row_scenes(scene.rows@);
    let drawn = popover.rows().map_values(|row: RowView| row_scene(row, palette));
    assert(all == drawn);
    assert(all.len() == scene.rows@.len());
    assert(drawn.len() == popover.rows().len());
    assert forall|i: int| 0 <= i < scene.rows@.len() implies (#[trigger] scene.rows@[i])@
        == row_scene(popover.rows()[i], palette) by {
        assert(all[i] == scene.rows@[i]@);
    }
}

/// What is drawn: a pill where the overlay is hidden, whatever is on the screen; nothing where it
/// is not and an active screen asks something; otherwise the prompt, with its hint, its popover if
/// it has one, and the row of chips where there is one.
pub proof fn law_what_is_drawn(
    scene: Scene,
    overlay: OverlayView,
    is_active: bool,
    status: StatusView,
    session: Option<LabelView>,
    palette: Palette,
)
    requires
        scene.shows(overlay, is_active, status, session, palette),
    ensures
        ({
            let asks = status.menu_mode || !status.has_input_box && status.model is None
                && !status.focused;
            &&& overlay.is_hidden ==> scene is Pill
            &&& !overlay.is_hidden && is_active && asks ==> scene is Nothing
            &&& !overlay.is_hidden && !(is_active && asks) ==> scene is Prompt
        }),
        scene matches Scene::Prompt(prompt) ==> (prompt.popover is Some
            <==> overlay.popover is Some) && (prompt.popover matches Some(drawn) ==> drawn.shows(overlay.popover->0, palette))
            && is_row_for(prompt.status, status, session, palette),
        scene matches Scene::Prompt(prompt) ==> overlay.is_submitting ==> prompt.hint@
            == "Submitting prompt..."@,
        scene matches Scene::Prompt(prompt) ==> !overlay.is_submitting && overlay.popover is Some
            ==> prompt.hint@ == "Enter ↵ select & send · Tab complete · Esc close"@,
        scene matches Scene::Prompt(prompt) ==> !overlay.is_submitting && overlay.popover is None
            ==> prompt.hint@ == "Enter ↵ send · Shift+Enter newline"@,
{
}

/// A click on the pill shows the overlay again and goes no further; on the prompt it focuses the
/// editor and still reaches what was clicked.
pub proof fn law_clicks(overlay: ClaudePromptOverlay, click: Click)
    requires
        call_ensures(ClaudePromptOverlay::on_click, (&overlay,), click),
    ensures
        overlay@.is_hidden <==> click.action == ClaudePromptOverlayAction::ToggleHide,
        !overlay@.is_hidden <==> click.action == ClaudePromptOverlayAction::FocusEditor,
        click.stops_propagation == overlay@.is_hidden,
{
}

} // verus!
