use cloo_client::capabilities::{
    attach_caps, caps_from_env, degradations, Capability, CapsError, Degradation, Fallback, ALL,
    BASELINE,
};
use cloo_client::proto::TermCaps;

#[test]
fn an_unresolvable_term_refuses_an_attach() {
    assert_eq!(
        attach_caps(None, Some("truecolor")),
        Err(CapsError::TermUnset)
    );
    assert_eq!(attach_caps(Some(""), None), Err(CapsError::TermUnset));
    assert_eq!(
        attach_caps(Some("dumb"), Some("truecolor")),
        Err(CapsError::TermDumb)
    );
}

#[test]
fn the_refusal_says_what_to_do_about_it() {
    for err in [CapsError::TermUnset, CapsError::TermDumb] {
        let message = err.message();
        assert!(message.contains("set TERM"), "got: {message}");
        assert!(message.contains("xterm-256color"), "got: {message}");
        assert!(
            message.contains("local pane"),
            "the two behaviours differ and the message is one of the two places \
             that must say so, got: {message}"
        );
    }
}

#[test]
fn a_dumb_or_absent_terminal_still_runs_a_local_pane() {
    assert_eq!(caps_from_env(None, Some("truecolor")), TermCaps::default());
    assert_eq!(caps_from_env(Some(""), None), TermCaps::default());
    assert_eq!(
        caps_from_env(Some("dumb"), Some("truecolor")),
        TermCaps::default()
    );
}

#[test]
fn colorterm_is_what_establishes_truecolor() {
    let caps = |term, colorterm| caps_from_env(Some(term), colorterm).truecolor;
    assert!(caps("xterm-256color", Some("truecolor")));
    assert!(caps("xterm-256color", Some("24bit")));
    assert!(caps("xterm-256color", Some("TrueColor")));
    assert!(!caps("xterm-256color", None));
    assert!(!caps("xterm-256color", Some("")));
}

#[test]
fn a_direct_color_term_entry_also_establishes_truecolor() {
    assert!(caps_from_env(Some("xterm-direct"), None).truecolor);
}

#[test]
fn unestablished_capabilities_stay_false() {
    let caps = caps_from_env(Some("xterm-256color"), Some("truecolor"));
    assert!(!caps.extended_keys, "needs a query and a reply");
    assert!(!caps.clipboard_osc52);
    assert!(!caps.hyperlinks);
    assert!(!caps.graphics);
}

#[test]
fn every_capability_reads_its_own_field() {
    for cap in ALL {
        let mut caps = TermCaps::default();
        match cap {
            Capability::Truecolor => caps.truecolor = true,
            Capability::BracketedPaste => caps.bracketed_paste = true,
            Capability::SgrMouse => caps.sgr_mouse = true,
            Capability::FocusEvents => caps.focus_events = true,
            Capability::ExtendedKeys => caps.extended_keys = true,
            Capability::ClipboardOsc52 => caps.clipboard_osc52 = true,
            Capability::Hyperlinks => caps.hyperlinks = true,
            Capability::Graphics => caps.graphics = true,
        }
        // Exactly the one field, or `present_in` is reading a neighbour and
        // every fallback decision built on it is wrong.
        let set: Vec<Capability> = ALL.into_iter().filter(|c| c.present_in(caps)).collect();
        assert_eq!(set, vec![cap], "{} did not read its own field", cap.name());
    }
}

#[test]
fn a_terminal_with_nothing_falls_back_across_the_whole_baseline() {
    let taken = degradations(TermCaps::default());
    assert_eq!(taken.len(), BASELINE.len());
    for degradation in &taken {
        assert_eq!(
            degradation.fallback,
            degradation.capability.fallback(),
            "a fallback must be the capability's documented one"
        );
    }
    assert!(
        taken
            .iter()
            .any(|d| d.capability == Capability::Truecolor
                && d.fallback == Fallback::Downsample256),
        "the renderer's downsample is the truecolor fallback"
    );
}

#[test]
fn a_present_capability_takes_no_fallback() {
    let caps = attach_caps(Some("xterm-256color"), Some("truecolor"))
        .expect("a resolvable TERM negotiates");
    let taken = degradations(caps);
    assert_eq!(
        taken,
        vec![Degradation {
            capability: Capability::ExtendedKeys,
            fallback: Fallback::LegacyKeyEncoding,
        }],
        "only what env detection cannot establish should degrade, got {taken:?}"
    );
}

#[test]
fn an_optional_capability_is_never_a_baseline_requirement() {
    assert!(
        !BASELINE.contains(&Capability::Graphics),
        "inline graphics are an enhancement, never a compatibility requirement"
    );
    assert_eq!(Capability::Graphics.fallback(), Fallback::SuppressEffect);
}

#[test]
fn a_degradation_names_the_capability_and_its_fallback() {
    for degradation in degradations(TermCaps::default()) {
        let line = degradation.message();
        assert!(line.contains(degradation.capability.name()), "got: {line}");
        assert!(
            line.contains(degradation.fallback.describe()),
            "got: {line}"
        );
    }
}
