use cloo_client::motion::{
    frame_budget, motion_duration, phase_cell, phase_cells, phase_span, Motion, MotionKind,
    MotionSettings, Phase, MOTION_STEPS,
};
use cloo_client::proto::{Cell, CellAttrs, Color, Point};
use cloo_client::renderer::Span;
use cloo_client::theme::{Theme, ThemeToken};
use cloo_client::time::{Duration, Instant};

fn start_of_time() -> Instant {
    Instant {
        nanos: 1_000_000_000,
    }
}

fn frame() -> Color {
    Theme::storm().color(ThemeToken::Frame)
}

fn accent_cell() -> Cell {
    Cell {
        ch: 'x',
        fg: Theme::storm().color(ThemeToken::Accent),
        bg: Theme::storm().color(ThemeToken::Surface),
        attrs: CellAttrs::bold(),
    }
}

/// A transition's whole span of ticks, one per frame budget, starting at
/// `now`.
fn frames(now: Instant) -> impl Iterator<Item = Instant> {
    (0..=u32::from(MOTION_STEPS)).map(move |n| now.plus(frame_budget().times(n)))
}

// -- Budget -----------------------------------------------------------

#[test]
fn a_transition_fits_inside_the_style_guides_hundred_and_twenty_milliseconds() {
    let drawn = frame_budget().times(u32::from(MOTION_STEPS));
    assert!(drawn.nanos <= motion_duration().nanos, "{drawn:?} exceeds the budget");
    assert!(
        drawn.nanos + frame_budget().nanos > motion_duration().nanos,
        "a whole extra frame fits; the step count is too low"
    );
}

#[test]
fn the_frame_budget_is_the_render_loops() {
    // The client renders at roughly 60fps; motion must be quantized into
    // that same tick or it would ask for frames the cap refuses.
    assert_eq!(frame_budget(), Duration::from_millis(16));
}

// -- Model ------------------------------------------------------------

#[test]
fn a_transition_starts_unsettled_and_advances_one_step_per_frame() {
    let now = start_of_time();
    let mut motion = Motion::default();
    let start = motion.start(MotionKind::Split, now);
    assert_eq!(start.step(), 0);
    assert!(!start.is_settled());

    for (expected, at) in frames(now).enumerate().skip(1) {
        let phase = motion.tick(at).expect("a new frame each budget");
        assert_eq!(usize::from(phase.step()), expected);
        assert_eq!(phase.kind(), MotionKind::Split);
    }
    assert!(!motion.is_active(), "the last frame settles the transition");
}

#[test]
fn the_last_frame_of_a_transition_is_the_settled_one() {
    let now = start_of_time();
    let mut motion = Motion::default();
    motion.start(MotionKind::Overlay, now);
    let last = frames(now)
        .skip(1)
        .filter_map(|at| motion.tick(at))
        .last()
        .expect("the transition drew frames");
    assert!(last.is_settled());
    assert_eq!(last.percent(), 100);
}

#[test]
fn sampling_faster_than_the_frame_budget_produces_no_extra_frames() {
    let now = start_of_time();
    let mut motion = Motion::default();
    motion.start(MotionKind::Focus, now);
    // A thousand samples inside one budget — a burst of PTY reads, say.
    let within: Vec<_> = (0..1000)
        .filter_map(|n| motion.tick(now.plus(Duration::from_micros(n * 15))))
        .collect();
    assert!(
        within.is_empty(),
        "a step already drawn must not be drawn again"
    );
}

#[test]
fn a_whole_transition_costs_a_bounded_number_of_frames_however_often_it_is_sampled() {
    let now = start_of_time();
    let mut motion = Motion::default();
    let mut drawn = 1; // The frame `start` itself returns.
    motion.start(MotionKind::Close, now);
    // One sample every 200 microseconds for the whole transition: eighty
    // times the frame budget's rate, which is what a large `cat` looks like.
    for n in 0..1000 {
        if motion.tick(now.plus(Duration::from_micros(n * 200))).is_some() {
            drawn += 1;
        }
    }
    assert!(
        drawn <= usize::from(MOTION_STEPS) + 1,
        "{drawn} frames for one transition"
    );
}

#[test]
fn a_late_tick_settles_rather_than_overshooting() {
    let now = start_of_time();
    let mut motion = Motion::default();
    motion.start(MotionKind::Focus, now);
    let phase = motion
        .tick(now.plus(Duration::from_secs(30)))
        .expect("a late tick still draws the end state");
    assert!(phase.is_settled());
    assert_eq!(phase.step(), MOTION_STEPS);
    assert!(!motion.is_active());
    assert_eq!(motion.tick(now.plus(Duration::from_secs(60))), None);
}

#[test]
fn a_clock_that_went_backwards_reads_as_the_start() {
    let now = start_of_time().plus(Duration::from_secs(10));
    let mut motion = Motion::default();
    motion.start(MotionKind::Focus, now);
    assert_eq!(motion.tick(Instant { nanos: now.nanos - Duration::from_secs(5).nanos }), None);
    assert!(motion.is_active());
}

#[test]
fn a_second_transition_replaces_the_one_in_flight() {
    let now = start_of_time();
    let mut motion = Motion::default();
    motion.start(MotionKind::Focus, now);
    let _ = motion.tick(now.plus(frame_budget().times(3)));
    let restart = motion.start(MotionKind::Split, now.plus(frame_budget().times(3)));
    assert_eq!(restart.step(), 0, "the newer change starts from the top");
    assert_eq!(motion.kind(), Some(MotionKind::Split));
}

#[test]
fn nothing_in_flight_ticks_to_nothing() {
    let mut motion = Motion::default();
    assert_eq!(motion.tick(start_of_time()), None);
    assert_eq!(motion.interrupt(), None);
    assert_eq!(motion.kind(), None);
}

// -- Interruption -----------------------------------------------------

#[test]
fn input_a_resize_and_a_state_change_interrupt_at_the_end_state() {
    let now = start_of_time();
    // One fixture per interrupting event, because each one is a different
    // branch of the render loop and all three must answer the same way.
    for kind in MotionKind::ALL {
        let mut motion = Motion::default();
        motion.start(kind, now);
        let _ = motion.tick(now.plus(frame_budget().times(2)));
        let settled = motion.interrupt().expect("a transition was in flight");
        assert!(settled.is_settled(), "an interruption never leaves a ramp");
        assert_eq!(settled.kind(), kind);
        assert!(!motion.is_active());
        assert_eq!(
            motion.tick(now.plus(frame_budget().times(3))),
            None,
            "an interrupted transition asks for no further frames"
        );
    }
}

#[test]
fn an_interrupted_transition_paints_exactly_what_no_motion_would() {
    let now = start_of_time();
    let mut motion = Motion::default();
    motion.start(MotionKind::Focus, now);
    let mid = motion.tick(now.plus(frame_budget())).expect("a mid frame");
    assert_ne!(
        phase_cell(accent_cell(), mid, frame()),
        accent_cell(),
        "a mid-transition frame is visibly different"
    );
    let settled = motion.interrupt().expect("in flight");
    assert_eq!(
        phase_cell(accent_cell(), settled, frame()),
        accent_cell(),
        "the settled frame is the chrome's own cells, unchanged"
    );
}

// -- Reduce motion ----------------------------------------------------

#[test]
fn reduce_motion_settles_immediately_and_draws_nothing_extra() {
    let now = start_of_time();
    let mut motion = Motion::new(MotionSettings::reduced());
    for kind in MotionKind::ALL {
        let phase = motion.start(kind, now);
        assert!(phase.is_settled(), "{kind:?} must not animate");
        assert!(!motion.is_active());
        assert_eq!(motion.tick(now.plus(frame_budget())), None);
        assert_eq!(
            phase_cell(accent_cell(), phase, frame()),
            accent_cell(),
            "reduce-motion paints the end state and nothing else"
        );
    }
}

#[test]
fn the_default_settings_animate() {
    assert_eq!(MotionSettings::default(), MotionSettings::animated());
    assert!(!MotionSettings::default().reduce_motion);
    assert!(MotionSettings::reduced().reduce_motion);
}

// -- Painting ---------------------------------------------------------

#[test]
fn every_step_keeps_its_character_and_stays_readable() {
    let now = start_of_time();
    let mut motion = Motion::default();
    let mut phases = vec![motion.start(MotionKind::Split, now)];
    phases.extend(frames(now).skip(1).filter_map(|at| motion.tick(at)));
    assert_eq!(phases.len(), usize::from(MOTION_STEPS) + 1);

    for phase in phases {
        let cell = phase_cell(accent_cell(), phase, frame());
        assert_eq!(cell.ch, 'x', "motion never changes a character");
        assert_ne!(cell.fg, frame(), "a step never blends all the way out");
        assert!(
            cell.attrs.contains(CellAttrs::bold()),
            "a cell keeps the attributes chrome gave it"
        );
    }
}

#[test]
fn the_ramp_runs_toward_the_chromes_own_colour() {
    let now = start_of_time();
    let mut motion = Motion::default();
    let start = motion.start(MotionKind::Focus, now);
    let mid = motion.tick(now.plus(frame_budget().times(4))).expect("a mid frame");
    let settled = Phase::settled(MotionKind::Focus);

    let distance = |phase: Phase| -> u16 {
        let Color::Rgb(r, ..) = phase_cell(accent_cell(), phase, frame()).fg else {
            unreachable!("the accent is 24-bit")
        };
        let Color::Rgb(target, ..) = accent_cell().fg else {
            unreachable!("the accent is 24-bit")
        };
        u16::from(target.abs_diff(r))
    };
    assert!(distance(start) > distance(mid), "the ramp closes");
    assert_eq!(distance(settled), 0, "and lands exactly on the chrome");
}

#[test]
fn a_palette_colour_falls_back_to_the_dim_attribute() {
    let cell = Cell {
        ch: 'a',
        fg: Color::Indexed(4),
        bg: Color::Default,
        attrs: CellAttrs::none(),
    };
    let moving = phase_cell(
        cell,
        Phase {
            kind: MotionKind::Focus,
            step: 0,
        },
        frame(),
    );
    assert_eq!(moving.fg, Color::Indexed(4), "no colour is invented");
    assert!(moving.attrs.contains(CellAttrs::dim()));

    let settled = phase_cell(cell, Phase::settled(MotionKind::Focus), frame());
    assert_eq!(settled, cell, "the end state drops the fallback too");
}

#[test]
fn a_terminal_palette_theme_has_no_frame_to_blend_toward() {
    let cell = accent_cell();
    let moving = phase_cell(
        cell,
        Phase {
            kind: MotionKind::Overlay,
            step: 0,
        },
        Color::Default,
    );
    assert!(
        moving.attrs.contains(CellAttrs::dim()),
        "an unknown background takes the attribute path"
    );
    assert_eq!(moving.fg, cell.fg);
}

#[test]
fn a_span_keeps_its_origin_and_its_length() {
    let span = Span::new(Point::new(3, 9), vec![accent_cell(); 4]);
    let moved = phase_span(
        &span,
        Phase {
            kind: MotionKind::Split,
            step: 2,
        },
        frame(),
    );
    assert_eq!(moved.at, span.at, "motion never moves chrome");
    assert_eq!(moved.cells.len(), span.cells.len());
    assert_ne!(moved.cells, span.cells);
}

#[test]
fn phase_cells_matches_the_single_cell_answer() {
    let phase = Phase {
        kind: MotionKind::Close,
        step: 3,
    };
    let cells = [accent_cell(); 3];
    assert_eq!(
        phase_cells(&cells, phase, frame()),
        cells
            .iter()
            .map(|c| phase_cell(*c, phase, frame()))
            .collect::<Vec<_>>()
    );
}
