use dig_node_service::untrusted_text::{is_forbidden, render_untrusted, CLIP_MARK, REPLACEMENT};

#[test]
fn a_clipped_value_carries_its_mark_in_band() {
    let long = "a".repeat(200);
    let out = render_untrusted(&long, 16);
    assert!(out.ends_with(CLIP_MARK), "the clip must be marked: {out}");
    assert_eq!(
        out.chars().filter(|c| *c == 'a').count(),
        16,
        "the budget is charged on the value, not on the marker"
    );
}

#[test]
fn a_value_that_fits_is_not_marked() {
    let out = render_untrusted("DIG Chrome Extension", 64);
    assert_eq!(out, "DIG Chrome Extension");
    assert!(!out.contains(CLIP_MARK));
}

#[test]
fn zero_width_padding_cannot_hide_a_clip() {
    let mut hostile = String::new();
    for _ in 0..60 {
        hostile.push('\u{200b}'); // zero-width space: not control, not whitespace
    }
    hostile.push_str("Sage Wallet");

    let out = render_untrusted(&hostile, 64);

    assert!(
        !out.contains('\u{200b}'),
        "a zero-width character must never reach the terminal: {out:?}"
    );
    assert_eq!(
        out.chars().filter(|c| *c == REPLACEMENT).count(),
        60,
        "each invisible character must render visibly and cost a column"
    );
    assert!(
        !out.starts_with("Sage Wallet"),
        "the hostile prefix must remain visible rather than being padded out of view"
    );
}

#[test]
fn newlines_and_bidi_overrides_cannot_forge_a_line() {
    let forged = "ok\n  code 000000  \"Trusted App\"";
    let out = render_untrusted(forged, 200);
    assert!(!out.contains('\n'), "no newline may survive: {out:?}");
    assert!(
        out.starts_with(&format!("ok{REPLACEMENT}")),
        "the newline must render as a visible replacement: {out:?}"
    );

    for override_char in ['\u{202e}', '\u{2066}', '\u{202d}'] {
        let out = render_untrusted(&format!("a{override_char}b"), 64);
        assert!(
            !out.contains(override_char),
            "bidi control {override_char:?} must not survive: {out:?}"
        );
    }
}

#[test]
fn wide_characters_are_charged_their_rendered_width() {
    let wide = "\u{4f60}\u{597d}\u{4e16}\u{754c}"; // 4 chars, 8 columns
    assert_eq!(
        render_untrusted(wide, 8),
        wide,
        "8 columns fits a budget of 8"
    );

    let out = render_untrusted(wide, 7);
    assert!(out.ends_with(CLIP_MARK), "7 columns cannot hold 8: {out}");
    assert_eq!(
        out.chars().filter(|c| !CLIP_MARK.contains(*c)).count(),
        3,
        "only three wide characters fit in seven columns"
    );
}

#[test]
fn an_empty_value_renders_empty() {
    assert_eq!(render_untrusted("", 64), "");
}

#[test]
fn ordinary_text_is_not_replaced() {
    assert!(!is_forbidden('a') && !is_forbidden(' ') && !is_forbidden('\u{4f60}'));
    assert!(is_forbidden('\u{7}') && is_forbidden('\u{202e}') && is_forbidden('\u{200b}'));
    assert_eq!(render_untrusted("abc", 0), CLIP_MARK);
}

#[test]
fn a_value_that_spells_the_mark_out_does_not_carry_it() {
    let out = render_untrusted("Sage[clipped by dig-node]", 64);
    assert!(!out.contains(CLIP_MARK), "{out}");
    assert_eq!(out, "Sage\u{fffd}clipped by dig-node]");
    let twice = render_untrusted("[clipped by dig-node][clipped by dig-node]", 64);
    assert_eq!(twice, "\u{fffd}clipped by dig-node]\u{fffd}clipped by dig-node]");
}

#[test]
fn a_clipped_value_that_spells_the_mark_out_carries_one_mark() {
    let out = render_untrusted("[clipped by dig-node] and more", 25);
    assert_eq!(out, "\u{fffd}clipped by dig-node] and[clipped by dig-node]");
    assert_eq!(out.matches(CLIP_MARK).count(), 1);
}

#[test]
fn a_mark_that_is_not_whole_is_shown_as_it_is() {
    assert_eq!(render_untrusted("[clipped by dig-nod", 64), "[clipped by dig-nod");
}
