use vstd::prelude::*;
use crate::parts::{
    LinePartV, Palette, PluginCapabilities, total_len, lemma_total_len_add,
    lemma_total_len_insert0, lemma_total_len_push,
};
use crate::line::{
    spec_populate, spec_size_by_adding, spec_left_more, spec_right_more, spec_tab_line,
    spec_tab_line_prefix, spec_tab_separator, lemma_more_text_len, sat_add, sat_sub,
};

verus! {

/// The layout is a pure function of its inputs: two runs over identical
/// inputs produce identical output, to the character.
pub proof fn lemma_tab_line_deterministic(
    first: Seq<LinePartV>,
    second: Seq<LinePartV>,
    session_name: Option<Seq<char>>,
    tabs: Seq<LinePartV>,
    active_index: int,
    cols: nat,
    palette: Palette,
    capabilities: PluginCapabilities,
)
    requires
        first == spec_tab_line(session_name, tabs, active_index, cols, palette, capabilities),
        second == spec_tab_line(session_name, tabs, active_index, cols, palette, capabilities),
    ensures
        first == second,
{
}

/// The separator glyph is at most one character wide.
pub proof fn lemma_separator_len(capabilities: PluginCapabilities)
    ensures
        spec_tab_separator(capabilities).len() <= 1,
{
    reveal_strlit("\u{e0b0}");
    reveal_strlit("");
}

/// The balancing loop never grows the rendered middle beyond `cols`: every
/// tab it pulls in, and the indicators it attaches at the end, fit the budget
/// it was given.
pub proof fn lemma_populate_width(
    before: Seq<LinePartV>,
    after: Seq<LinePartV>,
    middle: Seq<LinePartV>,
    middle_size: nat,
    total_left: nat,
    total_right: nat,
    cols: nat,
    palette: Palette,
    sep: Seq<char>,
)
    requires
        middle_size == total_len(middle),
        middle_size <= cols,
        sep.len() <= 1,
        cols + 22 <= usize::MAX,
    ensures
        total_len(
            spec_populate(before, after, middle, middle_size, total_left, total_right, cols,
                palette, sep).2,
        ) <= cols,
    decreases before.len() + after.len(),
{
    lemma_more_text_len(before.len() as nat);
    lemma_more_text_len(after.len() as nat);
    let collapsed_left = spec_left_more(before.len() as nat, palette, sep);
    let collapsed_right = spec_right_more(after.len() as nat, palette, sep);
    assert(collapsed_left.len <= 11);
    assert(collapsed_right.len <= 11);
    let total_size = collapsed_left.len + middle_size + collapsed_right.len;
    if total_size > cols {
        // nothing is attached; the middle is returned as it stands
    } else {
        let size_by_adding_left = spec_size_by_adding(before, total_size, collapsed_left.len);
        let size_by_adding_right = spec_size_by_adding(
            after.reverse(),
            total_size,
            collapsed_right.len,
        );
        let left_fits = size_by_adding_left <= cols;
        let right_fits = size_by_adding_right <= cols;
        if before.len() > 0 && (total_left <= total_right || !right_fits) && left_fits {
            let picked = before.last();
            assert(picked.len + middle_size <= cols) by {
                if picked.len + total_size > usize::MAX as nat {
                    assert(sat_add(picked.len, total_size) == usize::MAX as nat);
                    assert(size_by_adding_left >= usize::MAX - 11);
                } else {
                    assert(sat_add(picked.len, total_size) == picked.len + total_size);
                }
            };
            lemma_total_len_insert0(middle, picked);
            lemma_populate_width(
                before.drop_last(),
                after,
                middle.insert(0, picked),
                middle_size + picked.len,
                total_left + picked.len,
                total_right,
                cols,
                palette,
                sep,
            );
        } else if after.len() > 0 && right_fits {
            let picked = after.first();
            assert(after.reverse().len() == after.len());
            assert(after.reverse().last() == picked);
            assert(picked.len + middle_size <= cols) by {
                if picked.len + total_size > usize::MAX as nat {
                    assert(sat_add(picked.len, total_size) == usize::MAX as nat);
                    assert(size_by_adding_right >= usize::MAX - 11);
                } else {
                    assert(sat_add(picked.len, total_size) == picked.len + total_size);
                }
            };
            lemma_total_len_push(middle, picked);
            lemma_populate_width(
                before,
                after.drop_first(),
                middle.push(picked),
                middle_size + picked.len,
                total_left,
                total_right + picked.len,
                cols,
                palette,
                sep,
            );
        } else {
            let with_left = if before.len() > 0 {
                middle.insert(0, collapsed_left)
            } else {
                middle
            };
            let with_both = if after.len() > 0 {
                with_left.push(collapsed_right)
            } else {
                with_left
            };
            if before.len() > 0 {
                lemma_total_len_insert0(middle, collapsed_left);
            }
            if after.len() > 0 {
                lemma_total_len_push(with_left, collapsed_right);
            }
            assert(total_len(with_both) <= total_size);
        }
    }
}

/// Budget bound: whenever the active tab fits beside the prefix, the whole
/// rendered line — prefix, tabs and indicators together — fits in the
/// available columns.
pub proof fn lemma_tab_line_budget(
    session_name: Option<Seq<char>>,
    tabs: Seq<LinePartV>,
    active_index: int,
    cols: nat,
    palette: Palette,
    capabilities: PluginCapabilities,
)
    requires
        0 <= active_index < tabs.len(),
        cols + 22 <= usize::MAX,
        total_len(spec_tab_line_prefix(session_name, palette, cols)) + tabs[active_index].len
            <= cols,
    ensures
        total_len(
            spec_tab_line(session_name, tabs, active_index, cols, palette, capabilities),
        ) <= cols,
{
    let prefix = spec_tab_line_prefix(session_name, palette, cols);
    let prefix_len = total_len(prefix);
    let active = tabs[active_index];
    let budget = sat_sub(cols, prefix_len);
    lemma_separator_len(capabilities);
    reveal_with_fuel(total_len, 2);
    assert(seq![active].drop_last() =~= Seq::<LinePartV>::empty());
    assert(total_len(seq![active]) == active.len);
    lemma_populate_width(
        tabs.take(active_index),
        tabs.skip(active_index + 1),
        seq![active],
        active.len,
        0,
        0,
        budget,
        palette,
        spec_tab_separator(capabilities),
    );
    let populated = spec_populate(
        tabs.take(active_index),
        tabs.skip(active_index + 1),
        seq![active],
        active.len,
        0,
        0,
        budget,
        palette,
        spec_tab_separator(capabilities),
    );
    lemma_total_len_add(prefix, populated.2);
}

/// Degenerate exception: when even the active tab cannot fit beside the
/// prefix, the output is exactly the prefix — no tabs, no indicators.
pub proof fn lemma_tab_line_degenerate(
    session_name: Option<Seq<char>>,
    tabs: Seq<LinePartV>,
    active_index: int,
    cols: nat,
    palette: Palette,
    capabilities: PluginCapabilities,
)
    requires
        0 <= active_index < tabs.len(),
        total_len(spec_tab_line_prefix(session_name, palette, cols)) + tabs[active_index].len
            > cols,
    ensures
        spec_tab_line(session_name, tabs, active_index, cols, palette, capabilities)
            == spec_tab_line_prefix(session_name, palette, cols),
{
}

/// Whatever the balancing loop does, every segment of the starting middle —
/// the active tab among them — is still in the rendered middle at the end.
pub proof fn lemma_populate_keeps(
    before: Seq<LinePartV>,
    after: Seq<LinePartV>,
    middle: Seq<LinePartV>,
    middle_size: nat,
    total_left: nat,
    total_right: nat,
    cols: nat,
    palette: Palette,
    sep: Seq<char>,
    kept: LinePartV,
)
    requires
        middle.contains(kept),
    ensures
        spec_populate(before, after, middle, middle_size, total_left, total_right, cols,
            palette, sep).2.contains(kept),
    decreases before.len() + after.len(),
{
    let j = choose|j: int| 0 <= j < middle.len() && middle[j] == kept;
    let collapsed_left = spec_left_more(before.len() as nat, palette, sep);
    let collapsed_right = spec_right_more(after.len() as nat, palette, sep);
    let total_size = collapsed_left.len + middle_size + collapsed_right.len;
    if total_size > cols {
    } else {
        let size_by_adding_left = spec_size_by_adding(before, total_size, collapsed_left.len);
        let size_by_adding_right = spec_size_by_adding(
            after.reverse(),
            total_size,
            collapsed_right.len,
        );
        let left_fits = size_by_adding_left <= cols;
        let right_fits = size_by_adding_right <= cols;
        if before.len() > 0 && (total_left <= total_right || !right_fits) && left_fits {
            let grown = middle.insert(0, before.last());
            assert(grown =~= seq![before.last()] + middle);
            assert(grown[j + 1] == kept);
            lemma_populate_keeps(
                before.drop_last(),
                after,
                grown,
                middle_size + before.last().len,
                total_left + before.last().len,
                total_right,
                cols,
                palette,
                sep,
                kept,
            );
        } else if after.len() > 0 && right_fits {
            let grown = middle.push(after.first());
            assert(grown[j] == kept);
            lemma_populate_keeps(
                before,
                after.drop_first(),
                grown,
                middle_size + after.first().len,
                total_left,
                total_right + after.first().len,
                cols,
                palette,
                sep,
                kept,
            );
        } else {
            let with_left = if before.len() > 0 {
                middle.insert(0, collapsed_left)
            } else {
                middle
            };
            if before.len() > 0 {
                assert(with_left =~= seq![collapsed_left] + middle);
                assert(with_left[j + 1] == kept);
            }
            let k = choose|k: int| 0 <= k < with_left.len() && with_left[k] == kept;
            if after.len() > 0 {
                assert(with_left.push(collapsed_right)[k] == kept);
            }
        }
    }
}

/// The balancing loop keeps the two sides even: when every hidden tab has
/// the same width `w` and each side still holds more tabs than the budget
/// could ever admit, the numbers of tabs pulled from the two sides — the
/// `count_left`/`count_right` pulled before this state plus whatever the loop
/// still pulls — differ by at most one.
pub proof fn lemma_populate_balance(
    before: Seq<LinePartV>,
    after: Seq<LinePartV>,
    middle: Seq<LinePartV>,
    middle_size: nat,
    total_left: nat,
    total_right: nat,
    cols: nat,
    palette: Palette,
    sep: Seq<char>,
    w: nat,
    count_left: nat,
    count_right: nat,
)
    requires
        forall|i: int| 0 <= i < before.len() ==> before[i].len == w,
        forall|i: int| 0 <= i < after.len() ==> after[i].len == w,
        w >= 1,
        before.len() + count_left > cols,
        after.len() + count_right > cols,
        total_left == count_left * w,
        total_right == count_right * w,
        count_left <= count_right + 1,
        count_right <= count_left + 1,
        middle_size == total_len(middle),
        middle_size <= cols,
        total_left <= middle_size,
        total_right <= middle_size,
        sep.len() <= 1,
        cols + 22 <= usize::MAX,
    ensures
        ({
            let r = spec_populate(before, after, middle, middle_size, total_left, total_right,
                cols, palette, sep);
            &&& r.0.len() <= before.len()
            &&& r.1.len() <= after.len()
            &&& count_left + (before.len() - r.0.len()) <= count_right + (after.len()
                - r.1.len()) + 1
            &&& count_right + (after.len() - r.1.len()) <= count_left + (before.len()
                - r.0.len()) + 1
        }),
    decreases before.len() + after.len(),
{
    lemma_more_text_len(before.len() as nat);
    lemma_more_text_len(after.len() as nat);
    let collapsed_left = spec_left_more(before.len() as nat, palette, sep);
    let collapsed_right = spec_right_more(after.len() as nat, palette, sep);
    let total_size = collapsed_left.len + middle_size + collapsed_right.len;
    assert(count_left <= total_left && count_right <= total_right) by (nonlinear_arith)
        requires
            total_left == count_left * w,
            total_right == count_right * w,
            w >= 1,
    ;
    if total_size > cols {
        // the loop stops here and pulls nothing further
    } else {
        // with a non-empty side, the indicator alone is at least six cells
        // wide, so a middle that already used the budget would have stopped
        // above; both sides must still hold at least two tabs
        assert(before.len() >= 2) by {
            if before.len() < 2 {
                assert(count_left >= cols - 1);
                if cols > 0 {
                    assert(before.len() >= 1);
                    assert(collapsed_left.len >= 6);
                    assert(middle_size >= total_left >= count_left >= cols);
                    assert(total_size > cols);
                }
                assert(false);
            }
        };
        assert(after.len() >= 2) by {
            if after.len() < 2 {
                assert(count_right >= cols - 1);
                if cols > 0 {
                    assert(after.len() >= 1);
                    assert(collapsed_right.len >= 6);
                    assert(middle_size >= total_right >= count_right >= cols);
                    assert(total_size > cols);
                }
                assert(false);
            }
        };
        let size_by_adding_left = spec_size_by_adding(before, total_size, collapsed_left.len);
        let size_by_adding_right = spec_size_by_adding(
            after.reverse(),
            total_size,
            collapsed_right.len,
        );
        // both candidates are `w` wide and neither side is about to drain, so
        // the two projections agree: either both fit or neither does
        assert(after.reverse().len() == after.len());
        assert(after.reverse().last() == after.first());
        assert(before.last().len == w);
        assert(after.first().len == w);
        assert(size_by_adding_left == size_by_adding_right);
        let left_fits = size_by_adding_left <= cols;
        let right_fits = size_by_adding_right <= cols;
        if !left_fits {
            // neither fits: indicators are attached, nothing further is pulled
        } else {
            assert(w + middle_size <= cols) by {
                if w + total_size > usize::MAX as nat {
                    assert(sat_add(w, total_size) == usize::MAX as nat);
                    assert(size_by_adding_left >= usize::MAX - 11);
                } else {
                    assert(sat_add(w, total_size) == w + total_size);
                }
            };
            if total_left <= total_right {
                // left turn
                assert(count_left <= count_right) by (nonlinear_arith)
                    requires
                        total_left == count_left * w,
                        total_right == count_right * w,
                        total_left <= total_right,
                        w >= 1,
                ;
                assert(total_left + w == (count_left + 1) * w) by (nonlinear_arith)
                    requires
                        total_left == count_left * w,
                ;
                lemma_total_len_insert0(middle, before.last());
                lemma_populate_balance(
                    before.drop_last(),
                    after,
                    middle.insert(0, before.last()),
                    middle_size + w,
                    total_left + w,
                    total_right,
                    cols,
                    palette,
                    sep,
                    w,
                    count_left + 1,
                    count_right,
                );
            } else {
                // right turn
                assert(count_right < count_left) by (nonlinear_arith)
                    requires
                        total_left == count_left * w,
                        total_right == count_right * w,
                        total_left > total_right,
                        w >= 1,
                ;
                assert(total_right + w == (count_right + 1) * w) by (nonlinear_arith)
                    requires
                        total_right == count_right * w,
                ;
                lemma_total_len_push(middle, after.first());
                lemma_populate_balance(
                    before,
                    after.drop_first(),
                    middle.push(after.first()),
                    middle_size + w,
                    total_left,
                    total_right + w,
                    cols,
                    palette,
                    sep,
                    w,
                    count_left,
                    count_right + 1,
                );
            }
        }
    }
}

/// Centering: with same-width tabs hidden on both sides, more of them than
/// the budget can admit, the loop gives the active tab equally many
/// neighbours on each side, give or take one.
pub proof fn lemma_populate_centered(
    before: Seq<LinePartV>,
    after: Seq<LinePartV>,
    middle: Seq<LinePartV>,
    middle_size: nat,
    cols: nat,
    palette: Palette,
    sep: Seq<char>,
    w: nat,
)
    requires
        forall|i: int| 0 <= i < before.len() ==> before[i].len == w,
        forall|i: int| 0 <= i < after.len() ==> after[i].len == w,
        w >= 1,
        before.len() > cols,
        after.len() > cols,
        middle_size == total_len(middle),
        middle_size <= cols,
        sep.len() <= 1,
        cols + 22 <= usize::MAX,
    ensures
        ({
            let r = spec_populate(before, after, middle, middle_size, 0, 0, cols, palette, sep);
            &&& r.0.len() <= before.len()
            &&& r.1.len() <= after.len()
            &&& (before.len() - r.0.len()) <= (after.len() - r.1.len()) + 1
            &&& (after.len() - r.1.len()) <= (before.len() - r.0.len()) + 1
        }),
{
    assert(0 == 0 * w) by (nonlinear_arith);
    lemma_populate_balance(
        before,
        after,
        middle,
        middle_size,
        0,
        0,
        cols,
        palette,
        sep,
        w,
        0,
        0,
    );
}

/// Active presence: whenever the degenerate exception does not apply, the
/// active tab's segment is in the output.
pub proof fn lemma_tab_line_active_present(
    session_name: Option<Seq<char>>,
    tabs: Seq<LinePartV>,
    active_index: int,
    cols: nat,
    palette: Palette,
    capabilities: PluginCapabilities,
)
    requires
        0 <= active_index < tabs.len(),
        total_len(spec_tab_line_prefix(session_name, palette, cols)) + tabs[active_index].len
            <= cols,
    ensures
        spec_tab_line(session_name, tabs, active_index, cols, palette, capabilities)
            .contains(tabs[active_index]),
{
    let prefix = spec_tab_line_prefix(session_name, palette, cols);
    let prefix_len = total_len(prefix);
    let active = tabs[active_index];
    let budget = sat_sub(cols, prefix_len);
    assert(seq![active][0] == active);
    lemma_populate_keeps(
        tabs.take(active_index),
        tabs.skip(active_index + 1),
        seq![active],
        active.len,
        0,
        0,
        budget,
        palette,
        spec_tab_separator(capabilities),
        active,
    );
    let populated = spec_populate(
        tabs.take(active_index),
        tabs.skip(active_index + 1),
        seq![active],
        active.len,
        0,
        0,
        budget,
        palette,
        spec_tab_separator(capabilities),
    );
    let k = choose|k: int| 0 <= k < populated.2.len() && populated.2[k] == active;
    assert((prefix + populated.2)[prefix.len() + k] == active);
}

} // verus!
