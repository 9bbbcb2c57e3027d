use vstd::prelude::*;

verus! {

/// One pre-styled piece of the status line: opaque styled text together with
/// the number of terminal cells it occupies when printed. The width is fixed
/// at construction and never re-derived by scanning the text.
#[derive(Clone, Debug, PartialEq, Eq)]
pub struct LinePart {
    pub part: String,
    pub len: usize,
}

/// The mathematical model of a `LinePart`: the characters of its styled text
/// and its display width.
pub struct LinePartV {
    pub part: Seq<char>,
    pub len: nat,
}

impl View for LinePart {
    type V = LinePartV;

    open spec fn view(&self) -> LinePartV {
        LinePartV { part: self.part@, len: self.len as nat }
    }
}

impl Default for LinePart {
    /// The empty segment: no text, zero width.
    fn default() -> (ret: Self)
        ensures
            ret@ == empty_part(),
    {
        LinePart { part: String::new(), len: 0 }
    }
}

/// The model of the empty segment.
pub open spec fn empty_part() -> LinePartV {
    LinePartV { part: Seq::<char>::empty(), len: 0 }
}

/// The models of a sequence of segments.
pub open spec fn views_of(s: Seq<LinePart>) -> Seq<LinePartV> {
    s.map_values(|p: LinePart| p@)
}

/// The total display width of a sequence of segments; 0 for the empty one.
pub open spec fn total_len(s: Seq<LinePartV>) -> nat
    decreases s.len(),
{
    if s.len() == 0 {
        0
    } else {
        total_len(s.drop_last()) + s.last().len
    }
}

/// Total width distributes over concatenation.
pub proof fn lemma_total_len_add(a: Seq<LinePartV>, b: Seq<LinePartV>)
    ensures
        total_len(a + b) == total_len(a) + total_len(b),
    decreases b.len(),
{
    if b.len() == 0 {
        assert(a + b =~= a);
    } else {
        lemma_total_len_add(a, b.drop_last());
        assert((a + b).drop_last() =~= a + b.drop_last());
    }
}

/// Prepending a segment adds its width to the total.
pub proof fn lemma_total_len_insert0(s: Seq<LinePartV>, x: LinePartV)
    ensures
        total_len(s.insert(0, x)) == x.len + total_len(s),
{
    reveal_with_fuel(total_len, 2);
    assert(s.insert(0, x) =~= seq![x] + s);
    lemma_total_len_add(seq![x], s);
    assert(seq![x].drop_last() =~= Seq::<LinePartV>::empty());
}

/// Appending a segment adds its width to the total.
pub proof fn lemma_total_len_push(s: Seq<LinePartV>, x: LinePartV)
    ensures
        total_len(s.push(x)) == total_len(s) + x.len,
{
    assert(s.push(x).drop_last() =~= s);
    assert(s.push(x).last() == x);
}

/// Extending a prefix by one segment adds that segment's width.
pub proof fn lemma_total_len_take_step(s: Seq<LinePartV>, i: int)
    requires
        0 <= i < s.len(),
    ensures
        total_len(s.take(i + 1)) == total_len(s.take(i)) + s[i].len,
{
    assert(s.take(i + 1).drop_last() =~= s.take(i));
    assert(s.take(i + 1).last() == s[i]);
}

/// A colour as the styling layer understands it: either a truecolor triple or
/// an 8-bit terminal colour index.
#[derive(Clone, Copy, Debug, PartialEq, Eq, Structural)]
pub enum PaletteColor {
    Rgb(u8, u8, u8),
    EightBit(u8),
}

/// The named colours the status line draws with; opaque to the layout logic.
#[derive(Clone, Copy, Debug, PartialEq, Eq, Structural)]
pub struct Palette {
    pub black: PaletteColor,
    pub white: PaletteColor,
    pub cyan: PaletteColor,
    pub orange: PaletteColor,
}

/// Terminal feature flags that affect which separator glyph is drawn.
#[derive(Clone, Copy, Debug, PartialEq, Eq, Structural)]
pub struct PluginCapabilities {
    pub arrow_fonts: bool,
}

/// The combined display width of a rendered title, as the layout engine
/// re-evaluates it on every pass.
pub fn get_current_title_len(current_title: &Vec<LinePart>) -> (r: usize)
    requires
        total_len(views_of(current_title@)) <= usize::MAX,
    ensures
        r == total_len(views_of(current_title@)),
{
    let ghost all: Seq<LinePartV> = views_of(current_title@);
    let mut sum: usize = 0;
    let mut i: usize = 0;
    while i < current_title.len()
        invariant
            i <= current_title@.len(),
            all == views_of(current_title@),
            total_len(all) <= usize::MAX,
            sum == total_len(all.take(i as int)),
        decreases current_title@.len() - i,
    {
        proof {
            lemma_total_len_take_step(all, i as int);
            lemma_total_len_add(all.take(i + 1), all.skip(i + 1));
            assert(all.take(i + 1) + all.skip(i + 1) =~= all);
        }
        sum = sum + current_title[i].len;
        i = i + 1;
    }
    proof {
        assert(all.take(i as int) =~= all);
    }
    sum
}

} // verus!
