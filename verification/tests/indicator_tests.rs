use tab_bar::line::{left_more_message, right_more_message, tab_separator, MANY_TABS_CUTOFF};
use tab_bar::parts::{LinePart, Palette, PaletteColor, PluginCapabilities};

fn palette() -> Palette {
    Palette {
        black: PaletteColor::EightBit(0),
        white: PaletteColor::EightBit(15),
        cyan: PaletteColor::EightBit(6),
        orange: PaletteColor::Rgb(255, 165, 0),
    }
}

#[test]
fn zero_count_yields_empty_indicator() {
    let left = left_more_message(0, palette(), "");
    assert_eq!(left.len, 0);
    assert_eq!(left.part, String::new());
    let right = right_more_message(0, palette(), "\u{e0b0}");
    assert_eq!(right.len, 0);
    assert_eq!(right.part, String::new());
}

#[test]
fn small_count_left_text() {
    let left = left_more_message(3, palette(), "");
    // " ← +3 " is six characters; no separator on either side
    assert_eq!(left.len, 6);
    assert!(left.part.contains(" \u{2190} +3 "));
    // the styling wraps the text in escape codes: the part is more than the text
    assert_ne!(left.part, " \u{2190} +3 ".to_string());
}

#[test]
fn small_count_right_text() {
    let right = right_more_message(3, palette(), "");
    assert_eq!(right.len, 6);
    assert!(right.part.contains(" +3 \u{2192} "));
    assert_ne!(right.part, " +3 \u{2192} ".to_string());
}

#[test]
fn separator_width_counts_twice() {
    // " ← +42 " is seven characters, plus one separator character per side
    let left = left_more_message(42, palette(), ">");
    assert_eq!(left.len, 9);
    assert!(left.part.contains(" \u{2190} +42 "));
    assert!(left.part.contains('>'));
}

#[test]
fn four_digit_count_is_spelled_out() {
    let left = left_more_message(9999, palette(), "");
    assert_eq!(left.len, 9);
    assert!(left.part.contains(" \u{2190} +9999 "));
    let right = right_more_message(9999, palette(), "");
    assert_eq!(right.len, 9);
    assert!(right.part.contains(" +9999 \u{2192} "));
}

#[test]
fn cutoff_count_reads_many() {
    let left = left_more_message(MANY_TABS_CUTOFF, palette(), "");
    assert_eq!(left.len, 9);
    assert!(left.part.contains(" \u{2190} +many "));
    assert!(!left.part.contains("10000"));
    let right = right_more_message(MANY_TABS_CUTOFF, palette(), "");
    assert_eq!(right.len, 9);
    assert!(right.part.contains(" +many \u{2192} "));
    assert!(!right.part.contains("10000"));
}

#[test]
fn count_far_past_cutoff_reads_many() {
    let left = left_more_message(123456, palette(), "");
    assert_eq!(left.len, 9);
    assert!(left.part.contains("+many"));
    assert!(!left.part.contains("123456"));
}

#[test]
fn separator_follows_arrow_capability() {
    assert_eq!(tab_separator(PluginCapabilities { arrow_fonts: false }), "\u{e0b0}");
    assert_eq!(tab_separator(PluginCapabilities { arrow_fonts: true }), "");
}

#[test]
fn default_line_part_is_empty() {
    let part = LinePart::default();
    assert_eq!(part.len, 0);
    assert_eq!(part.part, String::new());
}
