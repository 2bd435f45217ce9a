//! What the client says of a terminal and of its own preferences.

use vstd::prelude::*;

use crate::capabilities::{
    degradations_of, negotiated, Capability, CapsError, Degradation, Fallback,
    BASELINE,
};
use crate::commands::{
    action_rows, palette_rows, surface_for, surface_rows, ClientSurface, CommandOutcome,
    CommandView, PALETTE_SURFACES,
};
use crate::keymap::{bound, Binding, Key};
use crate::motion::MotionSettings;
use crate::overlay::{detail_fields, PaneDetails};
use crate::overlay_laws::stands_somewhere;
use crate::proto::TermCaps;
use crate::settings::{
    config_list, config_of, config_row, name_column, ConfigRowView, Swatches,
    ThemeChoice, ThemeName, VisualConfig,
};
use crate::text::{decimal, occurs, occurs_at, same_ignoring_case};
use crate::theme::Theme;

verus! {

// The terminal.

/// A terminal is negotiated with wherever it names itself as anything but dumb.
/// It is then taken to paste, report its mouse and its focus; to draw in full
/// colour where either string says so; and to do nothing that would have to be
/// asked.
pub proof fn a_named_terminal_is_negotiated_with(term: Seq<char>, colorterm: Seq<char>)
    ensures
        negotiated(term, colorterm) is Ok <==> term.len() > 0 && term != "dumb"@,
        term.len() == 0 ==> negotiated(term, colorterm) == Err::<TermCaps, CapsError>(
            CapsError::TermUnset,
        ),
        term.len() > 0 && term == "dumb"@ ==> negotiated(term, colorterm) == Err::<
            TermCaps,
            CapsError,
        >(CapsError::TermDumb),
        negotiated(term, colorterm) matches Ok(caps) ==> {
            &&& caps.bracketed_paste && caps.sgr_mouse && caps.focus_events
            &&& !caps.extended_keys && !caps.clipboard_osc52 && !caps.hyperlinks && !caps.graphics
            &&& caps.truecolor <==> stands_somewhere(term, "truecolor"@) || stands_somewhere(
                term,
                "direct"@,
            ) || same_ignoring_case(colorterm, "truecolor"@) || same_ignoring_case(
                colorterm,
                "24bit"@,
            )
        },
{
    occurring_is_standing(term, "truecolor"@);
    occurring_is_standing(term, "direct"@);
}

proof fn occurring_is_standing(haystack: Seq<char>, needle: Seq<char>)
    ensures
        occurs(haystack, needle) <==> stands_somewhere(haystack, needle),
{
    if occurs(haystack, needle) {
        let at = choose|at: int| occurs_at(haystack, needle, at);
        assert(haystack.subrange(at, at + needle.len()) == needle);
    }
    if stands_somewhere(haystack, needle) {
        let at = choose|at: int|
            0 <= at <= haystack.len() - needle.len() && #[trigger] haystack.subrange(
                at,
                at + needle.len(),
            ) == needle;
        assert(occurs_at(haystack, needle, at));
    }
}

/// Each capability is the one of its name, has its own name, and is made up for in
/// its own way.
pub proof fn each_capability_is_its_own(caps: TermCaps)
    ensures
        Capability::Truecolor.present_in(caps) == caps.truecolor,
        Capability::BracketedPaste.present_in(caps) == caps.bracketed_paste,
        Capability::SgrMouse.present_in(caps) == caps.sgr_mouse,
        Capability::FocusEvents.present_in(caps) == caps.focus_events,
        Capability::ExtendedKeys.present_in(caps) == caps.extended_keys,
        Capability::ClipboardOsc52.present_in(caps) == caps.clipboard_osc52,
        Capability::Hyperlinks.present_in(caps) == caps.hyperlinks,
        Capability::Graphics.present_in(caps) == caps.graphics,
        Capability::Truecolor.fallback() == Fallback::Downsample256,
        Capability::BracketedPaste.fallback() == Fallback::PasteAsTypedInput,
        Capability::SgrMouse.fallback() == Fallback::ChromeKeyboardOnly,
        Capability::FocusEvents.fallback() == Fallback::AssumeFocused,
        Capability::ExtendedKeys.fallback() == Fallback::LegacyKeyEncoding,
        Capability::ClipboardOsc52.fallback() == Fallback::SuppressEffect,
        Capability::Hyperlinks.fallback() == Fallback::SuppressEffect,
        Capability::Graphics.fallback() == Fallback::SuppressEffect,
        Capability::Truecolor.words() == "truecolor"@,
        Capability::BracketedPaste.words() == "bracketed paste"@,
        Capability::SgrMouse.words() == "SGR mouse reporting"@,
        Capability::FocusEvents.words() == "focus events"@,
        Capability::ExtendedKeys.words() == "extended keys"@,
        Capability::ClipboardOsc52.words() == "OSC 52 clipboard"@,
        Capability::Hyperlinks.words() == "OSC 8 hyperlinks"@,
        Capability::Graphics.words() == "inline graphics"@,
        Fallback::Downsample256.words() == "colours are downsampled to the 256-colour palette"@,
        Fallback::PasteAsTypedInput.words() == "pasted text is forwarded as typed input"@,
        Fallback::ChromeKeyboardOnly.words() == "chrome is driven from the keyboard only"@,
        Fallback::AssumeFocused.words() == "the client is treated as always focused"@,
        Fallback::LegacyKeyEncoding.words() == "keys use the legacy encoding"@,
        Fallback::SuppressEffect.words() == "the effect is suppressed"@,
{
}

/// A terminal is told of what it lacks that an application counts on, in one
/// order: colour, paste, mouse, focus, keys. It is told of nothing that it has.
pub proof fn what_is_lacking_is_told_in_order(caps: TermCaps)
    ensures
        ({
            let lacking = |missing: bool, capability: Capability, fallback: Fallback|
                if missing {
                    seq![Degradation { capability, fallback }]
                } else {
                    seq![]
                };
            degradations_of(caps, 5) == lacking(
                !caps.truecolor,
                Capability::Truecolor,
                Fallback::Downsample256,
            ) + lacking(
                !caps.bracketed_paste,
                Capability::BracketedPaste,
                Fallback::PasteAsTypedInput,
            ) + lacking(!caps.sgr_mouse, Capability::SgrMouse, Fallback::ChromeKeyboardOnly)
                + lacking(!caps.focus_events, Capability::FocusEvents, Fallback::AssumeFocused)
                + lacking(
                !caps.extended_keys,
                Capability::ExtendedKeys,
                Fallback::LegacyKeyEncoding,
            )
        }),
        BASELINE@.len() == 5,
{
    reveal_with_fuel(degradations_of, 6);
    let lacking = |missing: bool, capability: Capability, fallback: Fallback|
        if missing {
            seq![Degradation { capability, fallback }]
        } else {
            seq![]
        };
    assert(degradations_of(caps, 5) =~= lacking(
        !caps.truecolor,
        Capability::Truecolor,
        Fallback::Downsample256,
    ) + lacking(!caps.bracketed_paste, Capability::BracketedPaste, Fallback::PasteAsTypedInput)
        + lacking(!caps.sgr_mouse, Capability::SgrMouse, Fallback::ChromeKeyboardOnly) + lacking(
        !caps.focus_events,
        Capability::FocusEvents,
        Fallback::AssumeFocused,
    ) + lacking(!caps.extended_keys, Capability::ExtendedKeys, Fallback::LegacyKeyEncoding));
}

// The preferences.

/// Motion is reduced where it was switched off or asked to be, and in no other
/// case.
pub proof fn motion_is_reduced_where_it_was_asked(visual: VisualConfig)
    ensures
        MotionSettings::from_visual(visual).reduce_motion <==> !visual.motion
            || visual.reduce_motion,
{
}

/// The configuration surface lists each preference under its name as the client
/// resolved it, and then the palettes.
#[verifier::rlimit(40)]
pub proof fn the_configuration_says_what_was_resolved(visual: VisualConfig, prefix: Seq<char>)
    ensures
        ({
            let rows = config_list(visual, prefix);
            let says = |i: int, name: Seq<char>, value: Seq<char>|
                rows[i] == ConfigRowView::Setting { name, value };
            let offers = |i: int, name: ThemeName|
                rows[i] == (ConfigRowView::Theme {
                    name,
                    active: visual.theme is Named && visual.theme->Named_0 == name,
                });
            &&& rows.len() == 11
            &&& visual.theme is Terminal ==> says(0, "theme "@, "terminal"@)
            &&& visual.theme == ThemeChoice::Named(ThemeName::Storm) ==> says(
                0,
                "theme "@,
                "storm"@,
            )
            &&& visual.theme == ThemeChoice::Named(ThemeName::Night) ==> says(
                0,
                "theme "@,
                "night"@,
            )
            &&& visual.theme == ThemeChoice::Named(ThemeName::Gruvbox) ==> says(
                0,
                "theme "@,
                "gruvbox"@,
            )
            &&& visual.theme == ThemeChoice::Named(ThemeName::Nord) ==> says(0, "theme "@, "nord"@)
            &&& visual.dim_unfocused ==> says(1, "focus "@, "dim unfocused"@)
            &&& !visual.dim_unfocused ==> says(1, "focus "@, "no dim"@)
            &&& visual.status is Minimal ==> says(2, "status"@, "minimal"@)
            &&& visual.status is Powerline ==> says(2, "status"@, "powerline"@)
            &&& visual.motion ==> says(3, "motion"@, "on"@)
            &&& !visual.motion ==> says(3, "motion"@, "off"@)
            &&& visual.reduce_motion ==> says(4, "reduce"@, "on"@)
            &&& !visual.reduce_motion ==> says(4, "reduce"@, "off"@)
            &&& says(5, "keys  "@, prefix)
            &&& rows[6] == ConfigRowView::Section("themes"@)
            &&& offers(7, ThemeName::Storm)
            &&& offers(8, ThemeName::Night)
            &&& offers(9, ThemeName::Gruvbox)
            &&& offers(10, ThemeName::Nord)
        }),
{
}

/// A palette's row carries a star where it is the active one, its own name, and
/// chips in its own colours.
#[verifier::rlimit(40)]
pub proof fn a_palette_row_shows_its_own_colours(
    visual: VisualConfig,
    prefix: Seq<char>,
    swatches: Swatches,
    selected: bool,
    theme: Theme,
)
    ensures
        ({
            let config = config_of(visual, prefix, swatches);
            let shows = |i: int, name: ThemeName, word: Seq<char>, swatch: Theme| {
                let row = config_row(config, i, selected, theme);
                &&& row.selected == selected
                &&& row.lead.text == (if visual.theme == ThemeChoice::Named(name) {
                    "*"@
                } else {
                    " "@
                })
                &&& row.title.text.len() == 7
                &&& row.title.text.take(word.len() as int) == word
                &&& forall|k: int| word.len() <= k < 7 ==> (#[trigger] row.title.text[k]) == ' '
                &&& row.extras.len() == 5
                &&& row.extras[0].fg == swatch.accent
                &&& row.extras[1].fg == swatch.info
                &&& row.extras[2].fg == swatch.success
                &&& row.extras[3].fg == swatch.warning
                &&& row.extras[4].fg == swatch.error
                &&& forall|k: int| 0 <= k < 5 ==> (#[trigger] row.extras[k]).text == "#"@
            };
            &&& shows(7, ThemeName::Storm, "storm"@, swatches.storm)
            &&& shows(8, ThemeName::Night, "night"@, swatches.night)
            &&& shows(9, ThemeName::Gruvbox, "gruvbox"@, swatches.gruvbox)
            &&& shows(10, ThemeName::Nord, "nord"@, swatches.nord)
        }),
{
    reveal_strlit("storm");
    reveal_strlit("night");
    reveal_strlit("gruvbox");
    reveal_strlit("nord");
    assert(name_column(ThemeName::Storm).take(5) =~= "storm"@);
    assert(name_column(ThemeName::Night).take(5) =~= "night"@);
    assert(name_column(ThemeName::Gruvbox).take(7) =~= "gruvbox"@);
    assert(name_column(ThemeName::Nord).take(4) =~= "nord"@);
}

/// A preference's row carries its name and then its value, the value in the accent
/// colour under the cursor.
pub proof fn a_preference_row_says_its_value(
    config: crate::settings::ConfigView,
    index: int,
    name: Seq<char>,
    value: Seq<char>,
    selected: bool,
    theme: Theme,
)
    requires
        0 <= index < config.rows.len(),
        config.rows[index] == (ConfigRowView::Setting { name, value }),
    ensures
        ({
            let row = config_row(config, index, selected, theme);
            &&& row.selected == selected
            &&& row.lead.text == name
            &&& row.title.text == value
            &&& row.title.fg == (if selected {
                theme.accent
            } else {
                theme.primary
            })
            &&& row.extras.len() == 0
        }),
{
}

/// The details of a pane are what the server reported of it, under their names: a
/// task that was never set is not listed.
pub proof fn details_say_what_was_reported(details: PaneDetails)
    ensures
        ({
            let fields = detail_fields(details);
            let tail = if details.task is Some {
                1int
            } else {
                0
            };
            &&& fields.len() == 5 + tail
            &&& fields[0].0 == "pane"@ && fields[0].1 == decimal(details.pane.0 as nat)
            &&& fields[1].0 == "profile"@ && fields[1].1 == details.profile@
            &&& fields[2].0 == "name"@ && fields[2].1 == details.name@
            &&& details.task matches Some(task) ==> fields[3].0 == "task"@ && fields[3].1 == task@
            &&& fields[3 + tail].0 == "cwd"@ && fields[3 + tail].1 == details.cwd@
            &&& fields[4 + tail].0 == "state"@ && fields[4 + tail].1 == seq![
                details.attention.glyph(),
                ' ',
            ] + details.attention.words()
        }),
{
}

// The client's own surfaces.

/// The surface each key opens, and what the palette calls it.
pub proof fn each_surface_has_its_key_and_its_name()
    ensures
        surface_for('a') == Some(ClientSurface::Launcher),
        surface_for('s') == Some(ClientSurface::Sessions),
        surface_for('!') == Some(ClientSurface::Attention),
        surface_for('i') == Some(ClientSurface::Details),
        surface_for(',') == Some(ClientSurface::Config),
        forall|key: char|
            key != 'a' && key != 's' && key != '!' && key != 'i' && key != ',' ==> (
            #[trigger] surface_for(key)) is None,
        ClientSurface::Launcher.words() == "add pane"@,
        ClientSurface::Sessions.words() == "sessions"@,
        ClientSurface::Attention.words() == "attention queue"@,
        ClientSurface::Details.words() == "pane details"@,
        ClientSurface::Config.words() == "configuration"@,
{
}

proof fn free_surfaces_have_rows(bindings: Seq<Binding>, count: nat, i: int)
    requires
        0 <= i < count <= 5,
        bound(bindings, Key::char(PALETTE_SURFACES[i].key())) is None,
    ensures
        exists|k: int|
            0 <= k < surface_rows(bindings, count).len() && opens(
                #[trigger] surface_rows(bindings, count)[k],
                PALETTE_SURFACES[i],
            ),
    decreases count,
{
    let all = surface_rows(bindings, count);
    let rest = surface_rows(bindings, (count - 1) as nat);
    if i < count - 1 {
        free_surfaces_have_rows(bindings, (count - 1) as nat, i);
        let k = choose|k: int|
            0 <= k < rest.len() && opens(#[trigger] rest[k], PALETTE_SURFACES[i]);
        assert(all[k] == rest[k]);
    } else {
        assert(opens(all[rest.len() as int], PALETTE_SURFACES[i]));
    }
}

/// Whether a row opens a surface, under that surface's own key and name.
pub open spec fn opens(row: CommandView, surface: ClientSurface) -> bool {
    &&& row.key.len() == 1 && surface_for(row.key[0]) == Some(surface)
    &&& row.label == surface.words()
    &&& row.note == "client"@
    &&& row.outcome == CommandOutcome::Open(surface)
}

/// The palette offers every surface whose key nothing was bound to, and it opens
/// that surface.
pub proof fn every_free_surface_is_offered(bindings: Seq<Binding>, key: char)
    requires
        surface_for(key) is Some,
        bound(bindings, Key::char(key)) is None,
    ensures
        exists|k: int|
            0 <= k < palette_rows(bindings).len() && opens(
                #[trigger] palette_rows(bindings)[k],
                surface_for(key)->0,
            ),
{
    let surface = surface_for(key)->0;
    let i = match surface {
        ClientSurface::Launcher => 0int,
        ClientSurface::Sessions => 1,
        ClientSurface::Attention => 2,
        ClientSurface::Details => 3,
        ClientSurface::Config => 4,
    };
    assert(PALETTE_SURFACES[i] == surface && surface.key() == key);
    free_surfaces_have_rows(bindings, 5, i);
    let rows = surface_rows(bindings, 5);
    let actions = action_rows(bindings, 14);
    let k = choose|k: int| 0 <= k < rows.len() && opens(#[trigger] rows[k], surface);
    assert(palette_rows(bindings)[actions.len() + k] == rows[k]);
}

} // verus!
