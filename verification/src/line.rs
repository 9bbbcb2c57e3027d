use vstd::prelude::*;
use vstd::string::*;
use crate::parts::{
    LinePart, LinePartV, Palette, PluginCapabilities, empty_part, views_of, total_len,
    get_current_title_len,
};
use crate::style::{styled_of, paint_styled};

verus! {

/// Hidden-tab counts at or above this cutoff are shown as "+many", so the
/// indicator's width stays bounded whatever the count.
pub const MANY_TABS_CUTOFF: usize = 10000;

/// Addition of widths, capped at the machine maximum.
pub open spec fn sat_add(a: nat, b: nat) -> nat {
    if a + b > usize::MAX as nat {
        usize::MAX as nat
    } else {
        (a + b) as nat
    }
}

/// Subtraction of widths, stopping at zero.
pub open spec fn sat_sub(a: nat, b: nat) -> nat {
    if a >= b {
        (a - b) as nat
    } else {
        0
    }
}

pub open spec fn digit_char(d: nat) -> char {
    if d == 0 {
        '0'
    } else if d == 1 {
        '1'
    } else if d == 2 {
        '2'
    } else if d == 3 {
        '3'
    } else if d == 4 {
        '4'
    } else if d == 5 {
        '5'
    } else if d == 6 {
        '6'
    } else if d == 7 {
        '7'
    } else if d == 8 {
        '8'
    } else {
        '9'
    }
}

/// The decimal numeral of `n`, most significant digit first.
pub open spec fn dec_rep(n: nat) -> Seq<char>
    decreases n,
{
    if n < 10 {
        seq![digit_char(n)]
    } else {
        dec_rep(n / 10).push(digit_char(n % 10))
    }
}

/// A numeral below the cutoff has one to four digits.
pub proof fn lemma_dec_rep_len(n: nat)
    requires
        n < 10000,
    ensures
        1 <= dec_rep(n).len() <= 4,
{
    reveal_with_fuel(dec_rep, 5);
    if 10 <= n {
        assert(n / 10 < 1000);
        if 10 <= n / 10 {
            assert(n / 10 / 10 < 100);
            if 10 <= n / 10 / 10 {
                assert(n / 10 / 10 / 10 < 10);
            }
        }
    }
}

fn push_digit(s: &mut String, d: usize)
    requires
        d < 10,
    ensures
        final(s)@ == old(s)@ + seq![digit_char(d as nat)],
{
    let digit: &'static str = if d == 0 {
        "0"
    } else if d == 1 {
        "1"
    } else if d == 2 {
        "2"
    } else if d == 3 {
        "3"
    } else if d == 4 {
        "4"
    } else if d == 5 {
        "5"
    } else if d == 6 {
        "6"
    } else if d == 7 {
        "7"
    } else if d == 8 {
        "8"
    } else {
        "9"
    };
    proof {
        reveal_strlit("0");
        reveal_strlit("1");
        reveal_strlit("2");
        reveal_strlit("3");
        reveal_strlit("4");
        reveal_strlit("5");
        reveal_strlit("6");
        reveal_strlit("7");
        reveal_strlit("8");
        reveal_strlit("9");
        assert(digit@ =~= seq![digit_char(d as nat)]);
    }
    s.append(digit);
}

/// Appends the decimal numeral of `n` to `s`.
fn push_dec(s: &mut String, n: usize)
    ensures
        final(s)@ == old(s)@ + dec_rep(n as nat),
    decreases n,
{
    if n >= 10 {
        push_dec(s, n / 10);
    }
    push_digit(s, n % 10);
    proof {
        if n < 10 {
            assert(seq![digit_char((n % 10) as nat)] =~= dec_rep(n as nat));
            assert(s@ =~= old(s)@ + dec_rep(n as nat));
        } else {
            assert(s@ =~= old(s)@ + dec_rep(n as nat));
        }
    }
}

/// The bare text of the indicator that stands for `count` hidden tabs to the
/// left of the visible ones.
pub open spec fn left_more_text(count: nat) -> Seq<char> {
    if count < MANY_TABS_CUTOFF as nat {
        " \u{2190} +"@ + dec_rep(count) + " "@
    } else {
        " \u{2190} +many "@
    }
}

/// The bare text of the indicator that stands for `count` hidden tabs to the
/// right of the visible ones.
pub open spec fn right_more_text(count: nat) -> Seq<char> {
    if count < MANY_TABS_CUTOFF as nat {
        " +"@ + dec_rep(count) + " \u{2192} "@
    } else {
        " +many \u{2192} "@
    }
}

/// Indicator texts are six to nine characters, whatever the count.
pub proof fn lemma_more_text_len(count: nat)
    ensures
        6 <= left_more_text(count).len() <= 9,
        6 <= right_more_text(count).len() <= 9,
{
    reveal_strlit(" \u{2190} +");
    reveal_strlit(" ");
    reveal_strlit(" \u{2190} +many ");
    reveal_strlit(" +");
    reveal_strlit(" \u{2192} ");
    reveal_strlit(" +many \u{2192} ");
    if count < MANY_TABS_CUTOFF as nat {
        lemma_dec_rep_len(count);
    }
}

/// The segment summarizing `count` hidden tabs on the left: the styled text
/// bracketed by one styled separator glyph on each side. Empty for zero.
pub open spec fn spec_left_more(count: nat, palette: Palette, sep: Seq<char>) -> LinePartV {
    if count == 0 {
        empty_part()
    } else {
        let text = left_more_text(count);
        LinePartV {
            part: styled_of(palette.cyan, palette.orange, false, sep)
                + styled_of(palette.black, palette.orange, true, text)
                + styled_of(palette.orange, palette.cyan, false, sep),
            len: text.len() + 2 * sep.len(),
        }
    }
}

/// The segment summarizing `count` hidden tabs on the right; empty for zero.
pub open spec fn spec_right_more(count: nat, palette: Palette, sep: Seq<char>) -> LinePartV {
    if count == 0 {
        empty_part()
    } else {
        let text = right_more_text(count);
        LinePartV {
            part: styled_of(palette.cyan, palette.orange, false, sep)
                + styled_of(palette.black, palette.orange, true, text)
                + styled_of(palette.orange, palette.cyan, false, sep),
            len: text.len() + 2 * sep.len(),
        }
    }
}

pub fn left_more_message(tab_count_to_the_left: usize, palette: Palette, separator: &str) -> (r: LinePart)
    requires
        left_more_text(tab_count_to_the_left as nat).len() + 2 * separator@.len() <= usize::MAX,
    ensures
        r@ == spec_left_more(tab_count_to_the_left as nat, palette, separator@),
{
    if tab_count_to_the_left == 0 {
        return LinePart::default();
    }
    let mut more_text = String::new();
    if tab_count_to_the_left < MANY_TABS_CUTOFF {
        more_text.append(" \u{2190} +");
        push_dec(&mut more_text, tab_count_to_the_left);
        more_text.append(" ");
    } else {
        more_text.append(" \u{2190} +many ");
    }
    proof {
        assert(more_text@ =~= left_more_text(tab_count_to_the_left as nat));
    }
    let text_len = more_text.as_str().unicode_len();
    let sep_len = separator.unicode_len();
    let more_text_len = text_len + 2 * sep_len;
    let mut part = paint_styled(palette.cyan, palette.orange, false, separator);
    let body = paint_styled(palette.black, palette.orange, true, more_text.as_str());
    let tail = paint_styled(palette.orange, palette.cyan, false, separator);
    part.append(body.as_str());
    part.append(tail.as_str());
    LinePart { part, len: more_text_len }
}

pub fn right_more_message(tab_count_to_the_right: usize, palette: Palette, separator: &str) -> (r: LinePart)
    requires
        right_more_text(tab_count_to_the_right as nat).len() + 2 * separator@.len() <= usize::MAX,
    ensures
        r@ == spec_right_more(tab_count_to_the_right as nat, palette, separator@),
{
    if tab_count_to_the_right == 0 {
        return LinePart::default();
    }
    let mut more_text = String::new();
    if tab_count_to_the_right < MANY_TABS_CUTOFF {
        more_text.append(" +");
        push_dec(&mut more_text, tab_count_to_the_right);
        more_text.append(" \u{2192} ");
    } else {
        more_text.append(" +many \u{2192} ");
    }
    proof {
        assert(more_text@ =~= right_more_text(tab_count_to_the_right as nat));
    }
    let text_len = more_text.as_str().unicode_len();
    let sep_len = separator.unicode_len();
    let more_text_len = text_len + 2 * sep_len;
    let mut part = paint_styled(palette.cyan, palette.orange, false, separator);
    let body = paint_styled(palette.black, palette.orange, true, more_text.as_str());
    let tail = paint_styled(palette.orange, palette.cyan, false, separator);
    part.append(body.as_str());
    part.append(tail.as_str());
    LinePart { part, len: more_text_len }
}

/// The fixed label that opens the status line.
pub open spec fn prefix_text() -> Seq<char> {
    " Zellij "@
}

pub open spec fn opt_view(s: Option<&str>) -> Option<Seq<char>> {
    match s {
        Option::None => Option::None,
        Option::Some(x) => Option::Some(x@),
    }
}

/// The leading chrome of the line: the bolded label, then — only when it fits
/// beside the label within `cols` — the session name as `"({name}) "`.
pub open spec fn spec_tab_line_prefix(session_name: Option<Seq<char>>, palette: Palette, cols: nat) -> Seq<LinePartV> {
    let label = LinePartV {
        part: styled_of(palette.white, palette.cyan, true, prefix_text()),
        len: prefix_text().len(),
    };
    match session_name {
        Option::None => seq![label],
        Option::Some(name) => {
            let name_text = "("@ + name + ") "@;
            if sat_sub(cols, prefix_text().len()) >= name_text.len() {
                seq![
                    label,
                    LinePartV {
                        part: styled_of(palette.white, palette.cyan, true, name_text),
                        len: name_text.len(),
                    },
                ]
            } else {
                seq![label]
            }
        },
    }
}

/// The prefix never grows wider than the label and `cols` together.
pub proof fn lemma_prefix_len(session_name: Option<Seq<char>>, palette: Palette, cols: nat)
    ensures
        total_len(spec_tab_line_prefix(session_name, palette, cols)) <= 8 + cols,
{
    reveal_strlit(" Zellij ");
    reveal_with_fuel(total_len, 3);
    let prefix = spec_tab_line_prefix(session_name, palette, cols);
    if prefix.len() == 2 {
        assert(prefix.drop_last() =~= seq![prefix[0]]);
        assert(seq![prefix[0]].drop_last() =~= Seq::<LinePartV>::empty());
        assert(total_len(seq![prefix[0]]) == prefix[0].len);
        assert(total_len(prefix) == prefix[0].len + prefix[1].len);
    } else {
        assert(prefix.drop_last() =~= Seq::<LinePartV>::empty());
        assert(total_len(prefix) == prefix[0].len);
    }
}

pub fn tab_line_prefix(session_name: Option<&str>, palette: Palette, cols: usize) -> (r: Vec<LinePart>)
    ensures
        views_of(r@) == spec_tab_line_prefix(opt_view(session_name), palette, cols as nat),
{
    let prefix_str = " Zellij ";
    proof {
        reveal_strlit(" Zellij ");
    }
    let prefix_text_len = prefix_str.unicode_len();
    let styled_label = paint_styled(palette.white, palette.cyan, true, prefix_str);
    let mut parts: Vec<LinePart> = Vec::new();
    parts.push(LinePart { part: styled_label, len: prefix_text_len });
    if let Some(name) = session_name {
        let mut name_part = String::new();
        name_part.append("(");
        name_part.append(name);
        name_part.append(") ");
        proof {
            assert(name_part@ =~= "("@ + name@ + ") "@);
        }
        let name_part_len = name_part.as_str().unicode_len();
        if cols.saturating_sub(prefix_text_len) >= name_part_len {
            let styled_name = paint_styled(palette.white, palette.cyan, true, name_part.as_str());
            parts.push(LinePart { part: styled_name, len: name_part_len });
        }
    }
    proof {
        let model = spec_tab_line_prefix(opt_view(session_name), palette, cols as nat);
        assert(views_of(parts@) =~= model);
    }
    parts
}

/// The separator glyph between chrome segments: the powerline arrow where the
/// font lacks native arrow glyphs, nothing otherwise.
pub open spec fn spec_tab_separator(capabilities: PluginCapabilities) -> Seq<char> {
    if !capabilities.arrow_fonts {
        "\u{e0b0}"@
    } else {
        ""@
    }
}

pub fn tab_separator(capabilities: PluginCapabilities) -> (r: &'static str)
    ensures
        r@ == spec_tab_separator(capabilities),
        r@.len() <= 1,
{
    proof {
        reveal_strlit("\u{e0b0}");
        reveal_strlit("");
    }
    if !capabilities.arrow_fonts {
        "\u{e0b0}"
    } else {
        ""
    }
}

/// The width a side's candidate would bring the rendered middle to: the
/// candidate's width on top of the current total, less the side's indicator
/// when taking the candidate would drain that side (its indicator then
/// disappears). An exhausted side is given an unreachable width, so it can
/// never register as fitting.
pub open spec fn spec_size_by_adding(side: Seq<LinePartV>, total_size: nat, collapsed_len: nat) -> nat {
    let candidate = if side.len() > 0 {
        side.last().len
    } else {
        usize::MAX as nat
    };
    sat_sub(
        sat_add(candidate, total_size),
        if side.len() == 1 {
            collapsed_len
        } else {
            0
        },
    )
}

/// One full run of the greedy two-sided balancing loop, from the given state
/// to its end. `before` holds the hidden tabs left of the rendered middle
/// (nearest-neighbour last), `after` those right of it (nearest-neighbour
/// first), `middle` the rendered middle itself, whose total width is
/// `middle_size`; `total_left` and `total_right` are the widths pulled so far
/// from each side. The result is the final state: leftover `before`, leftover
/// `after`, and the rendered middle with overflow indicators attached when
/// tabs stay hidden.
pub open spec fn spec_populate(
    before: Seq<LinePartV>,
    after: Seq<LinePartV>,
    middle: Seq<LinePartV>,
    middle_size: nat,
    total_left: nat,
    total_right: nat,
    cols: nat,
    palette: Palette,
    sep: Seq<char>,
) -> (Seq<LinePartV>, Seq<LinePartV>, Seq<LinePartV>)
    decreases before.len() + after.len(),
{
    let collapsed_left = spec_left_more(before.len(), palette, sep);
    let collapsed_right = spec_right_more(after.len(), palette, sep);
    let total_size = collapsed_left.len + middle_size + collapsed_right.len;
    if total_size > cols {
        // not even the indicators fit beside the current middle: stop, and do
        // not attach them
        (before, after, middle)
    } else {
        let size_by_adding_left = spec_size_by_adding(before, total_size, collapsed_left.len);
        let size_by_adding_right = spec_size_by_adding(after.reverse(), total_size, collapsed_right.len);
        let left_fits = size_by_adding_left <= cols;
        let right_fits = size_by_adding_right <= cols;
        if before.len() > 0 && (total_left <= total_right || !right_fits) && left_fits {
            spec_populate(
                before.drop_last(),
                after,
                middle.insert(0, before.last()),
                middle_size + before.last().len,
                total_left + before.last().len,
                total_right,
                cols,
                palette,
                sep,
            )
        } else if after.len() > 0 && right_fits {
            spec_populate(
                before,
                after.drop_first(),
                middle.push(after.first()),
                middle_size + after.first().len,
                total_left,
                total_right + after.first().len,
                cols,
                palette,
                sep,
            )
        } else {
            let with_left = if before.len() > 0 {
                middle.insert(0, collapsed_left)
            } else {
                middle
            };
            let with_both = if after.len() > 0 {
                with_left.push(collapsed_right)
            } else {
                with_left
            };
            (before, after, with_both)
        }
    }
}

/// Moves tabs from `tabs_before_active` and `tabs_after_active` into
/// `tabs_to_render` while they fit in `cols`, keeping the middle centred by
/// feeding the narrower side first, and attaches a collapsed indicator on
/// each side where tabs stay hidden.
///
/// The `cols + 22` bound keeps the width sums clear of the machine maximum:
/// an indicator is at most eleven cells wide (nine characters of text plus
/// one separator character on each side), and the middle never exceeds
/// `cols`, so the middle plus both indicators always fits in a `usize`.
pub fn populate_tabs_in_tab_line(
    tabs_before_active: &mut Vec<LinePart>,
    tabs_after_active: &mut Vec<LinePart>,
    tabs_to_render: &mut Vec<LinePart>,
    cols: usize,
    palette: Palette,
    capabilities: PluginCapabilities,
)
    requires
        total_len(views_of(old(tabs_to_render)@)) <= cols,
        cols + 22 <= usize::MAX,
    ensures
        ({
            let end_state = spec_populate(
                views_of(old(tabs_before_active)@),
                views_of(old(tabs_after_active)@),
                views_of(old(tabs_to_render)@),
                total_len(views_of(old(tabs_to_render)@)),
                0,
                0,
                cols as nat,
                palette,
                spec_tab_separator(capabilities),
            );
            views_of(final(tabs_before_active)@) == end_state.0
                && views_of(final(tabs_after_active)@) == end_state.1
                && views_of(final(tabs_to_render)@) == end_state.2
        }),
{
    let ghost sep: Seq<char> = spec_tab_separator(capabilities);
    let separator = tab_separator(capabilities);
    let mut middle_size = get_current_title_len(tabs_to_render);
    let mut total_left: usize = 0;
    let mut total_right: usize = 0;
    let ghost end_state = spec_populate(
        views_of(tabs_before_active@),
        views_of(tabs_after_active@),
        views_of(tabs_to_render@),
        middle_size as nat,
        0,
        0,
        cols as nat,
        palette,
        sep,
    );
    loop
        invariant_except_break
            cols + 22 <= usize::MAX,
            separator@ == sep,
            sep.len() <= 1,
            spec_populate(
                views_of(tabs_before_active@),
                views_of(tabs_after_active@),
                views_of(tabs_to_render@),
                middle_size as nat,
                total_left as nat,
                total_right as nat,
                cols as nat,
                palette,
                sep,
            ) == end_state,
            middle_size <= cols,
            total_left <= middle_size,
            total_right <= middle_size,
        ensures
            views_of(tabs_before_active@) == end_state.0,
            views_of(tabs_after_active@) == end_state.1,
            views_of(tabs_to_render@) == end_state.2,
        decreases tabs_before_active@.len() + tabs_after_active@.len(),
    {
        let ghost b0 = views_of(tabs_before_active@);
        let ghost a0 = views_of(tabs_after_active@);
        let ghost m0 = views_of(tabs_to_render@);
        let ghost ms0 = middle_size as nat;
        proof {
            lemma_more_text_len(tabs_before_active@.len() as nat);
            lemma_more_text_len(tabs_after_active@.len() as nat);
        }
        let left_count = tabs_before_active.len();
        let right_count = tabs_after_active.len();
        let collapsed_left = left_more_message(left_count, palette, separator);
        let collapsed_right = right_more_message(right_count, palette, separator);
        proof {
            assert(collapsed_left@ == spec_left_more(b0.len(), palette, sep));
            assert(collapsed_right@ == spec_right_more(a0.len(), palette, sep));
            assert(collapsed_left.len <= 11);
            assert(collapsed_right.len <= 11);
        }
        let total_size = collapsed_left.len + middle_size + collapsed_right.len;

        if total_size > cols {
            // the middle and its indicators already exceed the budget: leave
            // the indicators off
            proof {
                assert(spec_populate(b0, a0, m0, ms0, total_left as nat, total_right as nat,
                    cols as nat, palette, sep) == (b0, a0, m0));
            }
            break;
        }

        let left = if tabs_before_active.len() > 0 {
            tabs_before_active[tabs_before_active.len() - 1].len
        } else {
            usize::MAX
        };
        let right = if tabs_after_active.len() > 0 {
            tabs_after_active[0].len
        } else {
            usize::MAX
        };
        let size_by_adding_left = left.saturating_add(total_size).saturating_sub(
            if left_count == 1 {
                collapsed_left.len
            } else {
                0
            },
        );
        let size_by_adding_right = right.saturating_add(total_size).saturating_sub(
            if right_count == 1 {
                collapsed_right.len
            } else {
                0
            },
        );
        proof {
            assert(a0.reverse().len() == a0.len());
            if a0.len() > 0 {
                assert(a0.reverse().last() == a0.first());
            }
            assert(size_by_adding_left as nat == spec_size_by_adding(b0, total_size as nat, collapsed_left@.len));
            assert(size_by_adding_right as nat == spec_size_by_adding(a0.reverse(), total_size as nat, collapsed_right@.len));
        }
        let left_fits = size_by_adding_left <= cols;
        let right_fits = size_by_adding_right <= cols;

        // the active tab is kept in the middle by feeding the side that has
        // pulled less width so far, or the only side whose candidate fits
        if (total_left <= total_right || !right_fits) && left_fits {
            proof {
                if b0.len() == 0 {
                    assert(left == usize::MAX);
                    assert(size_by_adding_left == usize::MAX);
                    assert(false);
                }
                assert(left + total_size <= cols + collapsed_left.len);
                assert(left + middle_size <= cols);
            }
            let tab = tabs_before_active.pop().unwrap();
            middle_size = middle_size + tab.len;
            total_left = total_left + tab.len;
            tabs_to_render.insert(0, tab);
            proof {
                assert(views_of(tabs_before_active@) =~= b0.drop_last());
                assert(views_of(tabs_to_render@) =~= m0.insert(0, b0.last()));
                assert(spec_populate(b0, a0, m0, ms0, (total_left - tab.len) as nat,
                    total_right as nat, cols as nat, palette, sep)
                    == spec_populate(b0.drop_last(), a0, m0.insert(0, b0.last()),
                        ms0 + b0.last().len, (total_left - tab.len) as nat + b0.last().len,
                        total_right as nat, cols as nat, palette, sep));
            }
        } else if right_fits {
            proof {
                if a0.len() == 0 {
                    assert(right == usize::MAX);
                    assert(size_by_adding_right == usize::MAX);
                    assert(false);
                }
                assert(right + total_size <= cols + collapsed_right.len);
                assert(right + middle_size <= cols);
            }
            let tab = tabs_after_active.remove(0);
            middle_size = middle_size + tab.len;
            total_right = total_right + tab.len;
            tabs_to_render.push(tab);
            proof {
                assert(views_of(tabs_after_active@) =~= a0.drop_first());
                assert(views_of(tabs_to_render@) =~= m0.push(a0.first()));
                assert(spec_populate(b0, a0, m0, ms0, total_left as nat,
                    (total_right - tab.len) as nat, cols as nat, palette, sep)
                    == spec_populate(b0, a0.drop_first(), m0.push(a0.first()),
                        ms0 + a0.first().len, total_left as nat,
                        (total_right - tab.len) as nat + a0.first().len, cols as nat, palette, sep));
            }
        } else {
            // no candidate fits (or none is left): attach the indicators for
            // whatever stays hidden and stop
            if left_count > 0 {
                tabs_to_render.insert(0, collapsed_left);
            }
            if right_count > 0 {
                tabs_to_render.push(collapsed_right);
            }
            proof {
                let with_left = if b0.len() > 0 {
                    m0.insert(0, spec_left_more(b0.len(), palette, sep))
                } else {
                    m0
                };
                let with_both = if a0.len() > 0 {
                    with_left.push(spec_right_more(a0.len(), palette, sep))
                } else {
                    with_left
                };
                assert(views_of(tabs_to_render@) =~= with_both);
                assert(spec_populate(b0, a0, m0, ms0, total_left as nat, total_right as nat,
                    cols as nat, palette, sep) == (b0, a0, with_both));
            }
            break;
        }
    }
}

/// The whole status line for one frame: the prefix, then — unless even the
/// active tab cannot fit beside the prefix — the active tab surrounded by as
/// many of its neighbours as the width allows, with overflow indicators for
/// the rest.
pub open spec fn spec_tab_line(
    session_name: Option<Seq<char>>,
    tabs: Seq<LinePartV>,
    active_index: int,
    cols: nat,
    palette: Palette,
    capabilities: PluginCapabilities,
) -> Seq<LinePartV>
    recommends
        0 <= active_index < tabs.len(),
{
    let before = tabs.take(active_index);
    let after = tabs.skip(active_index + 1);
    let active = tabs[active_index];
    let prefix = spec_tab_line_prefix(session_name, palette, cols);
    let prefix_len = total_len(prefix);
    if prefix_len + active.len > cols {
        prefix
    } else {
        let populated = spec_populate(
            before,
            after,
            seq![active],
            active.len,
            0,
            0,
            sat_sub(cols, prefix_len),
            palette,
            spec_tab_separator(capabilities),
        );
        prefix + populated.2
    }
}

/// Lays out one frame of the status line. The bounds in `requires` are the
/// machine limits under which the width arithmetic cannot overflow; an
/// out-of-range `active_tab_index` is a caller bug, not a runtime condition.
pub fn tab_line(
    session_name: Option<&str>,
    all_tabs: Vec<LinePart>,
    active_tab_index: usize,
    cols: usize,
    palette: Palette,
    capabilities: PluginCapabilities,
) -> (r: Vec<LinePart>)
    requires
        active_tab_index < all_tabs@.len(),
        cols + 22 <= usize::MAX,
        all_tabs@[active_tab_index as int]@.len + cols + 8 <= usize::MAX,
    ensures
        views_of(r@) == spec_tab_line(
            opt_view(session_name),
            views_of(all_tabs@),
            active_tab_index as int,
            cols as nat,
            palette,
            capabilities,
        ),
{
    let ghost tabs0 = views_of(all_tabs@);
    let ghost active_v = tabs0[active_tab_index as int];
    let mut all_tabs = all_tabs;
    let mut tabs_after_active = all_tabs.split_off(active_tab_index);
    let mut tabs_before_active = all_tabs;
    let active_tab = tabs_after_active.remove(0);
    proof {
        assert(views_of(tabs_before_active@) =~= tabs0.take(active_tab_index as int));
        assert(views_of(tabs_after_active@) =~= tabs0.skip(active_tab_index as int + 1));
        assert(active_tab@ == active_v);
    }
    let mut prefix = tab_line_prefix(session_name, palette, cols);
    let ghost prefix_v = spec_tab_line_prefix(opt_view(session_name), palette, cols as nat);
    proof {
        lemma_prefix_len(opt_view(session_name), palette, cols as nat);
    }
    let prefix_len = get_current_title_len(&prefix);

    // if the active tab alone won't fit beside the prefix, draw no tabs at all
    if prefix_len + active_tab.len > cols {
        return prefix;
    }

    let mut tabs_to_render: Vec<LinePart> = Vec::new();
    tabs_to_render.push(active_tab);
    proof {
        reveal_with_fuel(total_len, 2);
        assert(views_of(tabs_to_render@) =~= seq![active_v]);
        assert(seq![active_v].drop_last() =~= Seq::<LinePartV>::empty());
        assert(total_len(seq![active_v]) == active_v.len);
        assert(total_len(views_of(tabs_to_render@)) == active_v.len);
    }
    let budget = cols.saturating_sub(prefix_len);
    populate_tabs_in_tab_line(
        &mut tabs_before_active,
        &mut tabs_after_active,
        &mut tabs_to_render,
        budget,
        palette,
        capabilities,
    );
    prefix.append(&mut tabs_to_render);
    proof {
        let populated = spec_populate(
            tabs0.take(active_tab_index as int),
            tabs0.skip(active_tab_index as int + 1),
            seq![active_v],
            active_v.len,
            0,
            0,
            budget as nat,
            palette,
            spec_tab_separator(capabilities),
        );
        assert(views_of(prefix@) =~= prefix_v + populated.2);
    }
    prefix
}

} // verus!
