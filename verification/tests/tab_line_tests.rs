use tab_bar::line::{tab_line, tab_line_prefix};
use tab_bar::parts::{LinePart, Palette, PaletteColor, PluginCapabilities};

fn palette() -> Palette {
    Palette {
        black: PaletteColor::EightBit(0),
        white: PaletteColor::EightBit(15),
        cyan: PaletteColor::EightBit(6),
        orange: PaletteColor::Rgb(255, 165, 0),
    }
}

fn no_arrows() -> PluginCapabilities {
    PluginCapabilities { arrow_fonts: true }
}

fn tab(text: &str, width: usize) -> LinePart {
    LinePart { part: text.to_string(), len: width }
}

fn total_width(parts: &[LinePart]) -> usize {
    parts.iter().map(|p| p.len).sum()
}

#[test]
fn all_tabs_fit() {
    // five tabs of width 10 in 80 columns beside the 8-column prefix: all five
    // are shown, in order, with no indicators
    let tabs = vec![
        tab("t0", 10),
        tab("t1", 10),
        tab("t2", 10),
        tab("t3", 10),
        tab("t4", 10),
    ];
    let line = tab_line(None, tabs, 2, 80, palette(), no_arrows());
    assert_eq!(line.len(), 6);
    assert_eq!(line[0].len, 8);
    for (i, part) in line[1..].iter().enumerate() {
        assert_eq!(part.part, format!("t{}", i));
        assert_eq!(part.len, 10);
    }
    assert_eq!(total_width(&line), 58);
}

#[test]
fn only_active_fits() {
    // 20 columns, 8 of them for the prefix: beside the active tab of width 4
    // nothing else fits — not even the two seven-cell indicators
    let mut tabs = Vec::new();
    for i in 0..10 {
        tabs.push(tab(&format!("l{}", i), 10));
    }
    tabs.push(tab("ACTIVE", 4));
    for i in 0..10 {
        tabs.push(tab(&format!("r{}", i), 10));
    }
    let line = tab_line(None, tabs, 10, 20, palette(), no_arrows());
    assert_eq!(line.len(), 2);
    assert_eq!(line[1].part, "ACTIVE".to_string());
    assert_eq!(total_width(&line), 12);
}

#[test]
fn active_too_wide_yields_prefix_only() {
    // the active tab alone exceeds the budget: the line is exactly the prefix
    let tabs = vec![tab("wide", 10)];
    let line = tab_line(None, tabs, 0, 5, palette(), no_arrows());
    assert_eq!(line.len(), 1);
    assert_eq!(line[0].len, 8);
    assert!(line[0].part.contains(" Zellij "));
}

#[test]
fn session_name_omitted_when_too_wide() {
    // "(work) " needs seven columns; beside the 8-column label only 0 remain
    let parts = tab_line_prefix(Some("work"), palette(), 8);
    assert_eq!(parts.len(), 1);
    assert_eq!(parts[0].len, 8);
    assert!(!parts.iter().any(|p| p.part.contains("work")));
}

#[test]
fn session_name_kept_when_it_fits() {
    let parts = tab_line_prefix(Some("work"), palette(), 15);
    assert_eq!(parts.len(), 2);
    assert_eq!(parts[1].len, 7);
    assert!(parts[1].part.contains("(work) "));
}

#[test]
fn session_name_boundary_is_exact() {
    // 15 columns fit the name exactly; 14 do not
    let kept = tab_line_prefix(Some("work"), palette(), 15);
    assert_eq!(kept.len(), 2);
    let omitted = tab_line_prefix(Some("work"), palette(), 14);
    assert_eq!(omitted.len(), 1);
}

#[test]
fn huge_left_overflow_reads_many() {
    // 20000 tabs before the active one and none after: once the hidden count
    // is at or past the cutoff the indicator reads "+many", never five digits
    let mut tabs = Vec::new();
    for _ in 0..20000 {
        tabs.push(tab("tab", 2));
    }
    tabs.push(tab("ACTIVE", 2));
    let line = tab_line(None, tabs, 20000, 30, palette(), no_arrows());
    // prefix, the "+many" indicator, five pulled neighbours, the active tab
    assert_eq!(line.len(), 8);
    assert!(line[1].part.contains("+many"));
    assert_eq!(line[1].len, 9);
    assert!(line.iter().all(|p| !p.part.contains("19995")));
    assert_eq!(line.last().unwrap().part, "ACTIVE".to_string());
    assert_eq!(total_width(&line), 29);
}

#[test]
fn centered_with_same_width_sides() {
    // ten tabs of width 6 on each side and a budget that admits three
    // neighbours per side: both sides get exactly three, the rest collapse
    let mut tabs = Vec::new();
    for i in 0..10 {
        tabs.push(tab(&format!("l{}", i), 6));
    }
    tabs.push(tab("ACTIVE", 4));
    for i in 0..10 {
        tabs.push(tab(&format!("r{}", i), 6));
    }
    let line = tab_line(None, tabs, 10, 60, palette(), no_arrows());
    let active_at = line.iter().position(|p| p.part == "ACTIVE").unwrap();
    let left_tabs = line[..active_at].iter().filter(|p| p.part.starts_with('l')).count();
    let right_tabs = line[active_at..].iter().filter(|p| p.part.starts_with('r')).count();
    assert_eq!(left_tabs, 3);
    assert_eq!(right_tabs, 3);
    // both overflow indicators are present and the line fills the width
    assert!(line[1].part.contains(" \u{2190} +7 "));
    assert!(line.last().unwrap().part.contains(" +7 \u{2192} "));
    assert_eq!(total_width(&line), 60);
    assert_eq!(line.len(), 10);
}

#[test]
fn output_never_exceeds_budget() {
    // the budget bound on a mixed-width layout
    let widths = [3, 9, 2, 7, 5, 4, 8, 1, 6, 2, 9];
    let mut tabs = Vec::new();
    for (i, w) in widths.iter().enumerate() {
        tabs.push(tab(&format!("t{}", i), *w));
    }
    for cols in [8usize, 12, 17, 23, 30, 41, 64] {
        let line = tab_line(None, tabs.clone(), 5, cols, palette(), no_arrows());
        let prefix_and_active = 8 + 4;
        if prefix_and_active <= cols {
            assert!(total_width(&line) <= cols);
            assert!(line.iter().any(|p| p.part == "t5"));
        } else {
            assert_eq!(line.len(), 1);
        }
    }
}

#[test]
fn identical_inputs_identical_output() {
    let tabs = || {
        vec![tab("a", 5), tab("b", 7), tab("c", 3), tab("d", 9)]
    };
    let first = tab_line(Some("s"), tabs(), 1, 25, palette(), no_arrows());
    let second = tab_line(Some("s"), tabs(), 1, 25, palette(), no_arrows());
    assert_eq!(first, second);
}

#[test]
fn single_tab_line() {
    let line = tab_line(None, vec![tab("only", 4)], 0, 40, palette(), no_arrows());
    assert_eq!(line.len(), 2);
    assert_eq!(line[1].part, "only".to_string());
    assert_eq!(total_width(&line), 12);
}

#[test]
fn widest_possible_terminal() {
    // the widest budget the arithmetic admits
    let cols = usize::MAX - 22;
    let line = tab_line(None, vec![tab("a", 3), tab("b", 3)], 0, cols, palette(), no_arrows());
    assert_eq!(line.len(), 3);
    assert_eq!(total_width(&line), 14);
}

#[test]
fn arrow_separator_widens_indicators() {
    // with the powerline glyph as separator each indicator gains two cells
    let mut tabs = Vec::new();
    for i in 0..10 {
        tabs.push(tab(&format!("l{}", i), 6));
    }
    tabs.push(tab("ACTIVE", 4));
    for i in 0..10 {
        tabs.push(tab(&format!("r{}", i), 6));
    }
    let caps = PluginCapabilities { arrow_fonts: false };
    let line = tab_line(None, tabs, 10, 60, palette(), caps);
    assert!(total_width(&line) <= 60);
    let left_indicator = line.iter().find(|p| p.part.contains("\u{2190}")).unwrap();
    assert_eq!(left_indicator.len, 6 + 2);
}
