use cloo_client::effects::{base64, effect_bytes, EffectPolicy};
use cloo_client::proto::{
    ClipboardTarget, GraphicsEffect, OuterTerminalEffect, ProgressState, TermCaps,
};

/// Writes an effect to an in-memory terminal, reporting whether it did.
fn apply_effect(
    terminal: &mut Vec<u8>,
    caps: TermCaps,
    policy: EffectPolicy,
    effect: &OuterTerminalEffect,
) -> bool {
    match effect_bytes(caps, policy, effect) {
        Some(bytes) => {
            terminal.extend_from_slice(&bytes);
            true
        }
        None => false,
    }
}

#[test]
fn a_permitted_title_reaches_the_terminal_once() {
    let mut terminal = Vec::new();
    let applied = apply_effect(
        &mut terminal,
        TermCaps::default(),
        EffectPolicy::allow_title(),
        &OuterTerminalEffect::SetTitle("agent task".into()),
    );

    assert!(applied);
    assert_eq!(terminal, b"\x1b]2;agent task\x1b\\");
    assert_eq!(
        terminal
            .windows(2)
            .filter(|bytes| *bytes == b"\x1b]")
            .count(),
        1
    );
}

#[test]
fn clipboard_requires_both_capability_and_policy() {
    let effect = OuterTerminalEffect::ClipboardStore {
        target: ClipboardTarget::Clipboard,
        text: "hi".into(),
    };
    let capable = TermCaps {
        clipboard_osc52: true,
        ..TermCaps::default()
    };

    assert_eq!(
        effect_bytes(
            TermCaps::default(),
            EffectPolicy::allow_supported(),
            &effect
        ),
        None
    );
    assert_eq!(
        effect_bytes(capable, EffectPolicy::default(), &effect),
        None
    );
    assert_eq!(
        effect_bytes(capable, EffectPolicy::allow_supported(), &effect),
        Some(b"\x1b]52;c;aGk=\x1b\\".to_vec())
    );
}

#[test]
fn denied_effects_leave_the_terminal_output_untouched() {
    let mut terminal = b"rendered grid".to_vec();
    let before = terminal.clone();
    let applied = apply_effect(
        &mut terminal,
        TermCaps {
            clipboard_osc52: true,
            ..TermCaps::default()
        },
        EffectPolicy::default(),
        &OuterTerminalEffect::ClipboardStore {
            target: ClipboardTarget::PrimarySelection,
            text: "do not copy".into(),
        },
    );

    assert!(!applied);
    assert_eq!(terminal, before, "policy denial must be a no-op");
}

#[test]
fn unsafe_or_unimplemented_effects_are_suppressed() {
    let policy = EffectPolicy::allow_supported();
    assert_eq!(
        effect_bytes(
            TermCaps::default(),
            policy,
            &OuterTerminalEffect::SetTitle("ok\x1b]52;c;injected".into())
        ),
        None
    );
    assert_eq!(
        effect_bytes(
            TermCaps {
                hyperlinks: true,
                graphics: true,
                ..TermCaps::default()
            },
            policy,
            &OuterTerminalEffect::Hyperlink {
                uri: "https://example.invalid".into(),
            }
        ),
        None
    );
    assert_eq!(
        effect_bytes(
            TermCaps::default(),
            policy,
            &OuterTerminalEffect::Progress(ProgressState::Indeterminate)
        ),
        None
    );
    assert_eq!(
        effect_bytes(
            TermCaps::default(),
            policy,
            &OuterTerminalEffect::Graphics(GraphicsEffect::Unavailable)
        ),
        None
    );
}

#[test]
fn base64_covers_each_padding_shape() {
    assert_eq!(base64(b""), "");
    assert_eq!(base64(b"a"), "YQ==");
    assert_eq!(base64(b"ab"), "YWI=");
    assert_eq!(base64(b"abc"), "YWJj");
}

#[test]
fn a_stored_text_is_encoded_as_its_bytes() {
    let capable = TermCaps {
        clipboard_osc52: true,
        ..TermCaps::default()
    };
    assert_eq!(
        effect_bytes(
            capable,
            EffectPolicy::allow_supported(),
            &OuterTerminalEffect::ClipboardStore {
                target: ClipboardTarget::PrimarySelection,
                text: "\u{e9}".into(),
            }
        ),
        Some(b"\x1b]52;p;w6k=\x1b\\".to_vec())
    );
}

#[test]
fn the_default_policy_permits_nothing() {
    let every = TermCaps {
        clipboard_osc52: true,
        hyperlinks: true,
        graphics: true,
        ..TermCaps::default()
    };
    for effect in [
        OuterTerminalEffect::SetTitle("agent".into()),
        OuterTerminalEffect::ClipboardStore {
            target: ClipboardTarget::Clipboard,
            text: "hi".into(),
        },
        OuterTerminalEffect::Progress(ProgressState::Indeterminate),
    ] {
        assert_eq!(effect_bytes(every, EffectPolicy::default(), &effect), None);
    }
    assert!(!EffectPolicy::default().permits_clipboard(every));
    assert!(EffectPolicy::allow_supported().permits_clipboard(every));
}
