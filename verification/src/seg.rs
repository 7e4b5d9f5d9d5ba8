//! Grapheme-cluster segments: the smallest unit a caret can stand on or
//! between. A line of the document is a sequence of segments, each carrying
//! its text and its rendered width in display columns.
//!
//! Splitting a string into clusters and measuring rendered widths is
//! delegated to outside crates behind the trusted items below; everything
//! built on top of the segment representation is verified.

use vstd::prelude::*;
use unicode_segmentation::UnicodeSegmentation;
use unicode_width::{UnicodeWidthChar, UnicodeWidthStr};

verus! {

/// One grapheme cluster together with its display width.
#[derive(Debug)]
pub struct Seg {
    pub text: String,
    pub width: usize,
}

/// The mathematical value of a [`Seg`]: its characters and its width.
pub struct SegView {
    pub text: Seq<char>,
    pub width: nat,
}

impl View for Seg {
    type V = SegView;

    open spec fn view(&self) -> SegView {
        SegView { text: self.text@, width: self.width as nat }
    }
}

impl Seg {
    pub fn clone_seg(&self) -> (r: Seg)
        ensures
            r@ == self@,
    {
        let r = Seg { text: self.text.clone(), width: self.width };
        proof {
            assert(r@.text =~= self@.text);
            assert(r@ =~= self@);
        }
        r
    }
}

/// The concatenation of a sequence of character chunks.
pub open spec fn concat_chunks(chunks: Seq<Seq<char>>) -> Seq<char>
    decreases chunks.len(),
{
    if chunks.len() == 0 {
        Seq::empty()
    } else {
        concat_chunks(chunks.drop_last()) + chunks.last()
    }
}

/// The grapheme clusters of a string, in order. The value is fixed by the
/// characters alone; it is pinned down only by the trusted item below.
pub uninterp spec fn grapheme_split(s: Seq<char>) -> Seq<Seq<char>>;

/// The rendered width, in display columns, of a string. Fixed by the
/// characters alone.
pub uninterp spec fn str_width_of(s: Seq<char>) -> nat;

/// The rendered width of a single character, or `None` for a control
/// character. Fixed by the character alone.
pub uninterp spec fn char_width_of(c: char) -> Option<usize>;

/// Relies on unicode_segmentation's `UnicodeSegmentation::graphemes`
/// (extended clusters): the returned substrings are the grapheme clusters of
/// the input, in order; concatenated they give back the input, and none is
/// empty.
#[verifier::external_body]
fn split_graphemes(s: &str) -> (r: Vec<String>)
    ensures
        r.deep_view() == grapheme_split(s@),
        concat_chunks(r.deep_view()) == s@,
        forall|i: int| 0 <= i < r.deep_view().len() ==> r.deep_view()[i].len() > 0,
{
    s.graphemes(true).map(|g| g.to_owned()).collect()
}

/// Relies on unicode_width's `UnicodeWidthStr::width`: the string's
/// displayed width in columns, a function of the characters alone.
#[verifier::external_body]
fn str_display_width(s: &str) -> (r: usize)
    ensures
        r == str_width_of(s@),
{
    UnicodeWidthStr::width(s)
}

/// Relies on unicode_width's `UnicodeWidthChar::width`: the character's
/// displayed width in columns, or `None` for a control character. A function
/// of the character alone.
#[verifier::external_body]
fn char_display_width(c: char) -> (r: Option<usize>)
    ensures
        r == char_width_of(c),
{
    UnicodeWidthChar::width(c)
}

/// Relies on std's `String::push`, which appends the given character to the
/// end of the string.
#[verifier::external_body]
fn string_push(s: &mut String, c: char)
    ensures
        final(s)@ == old(s)@.push(c),
{
    s.push(c)
}

/// The width a character contributes to a line: its rendered width, with
/// control characters counting as zero columns.
pub open spec fn char_render_width(c: char) -> nat {
    match char_width_of(c) {
        Some(w) => w as nat,
        None => 0,
    }
}

/// Builds the one-cluster segment for a single inserted character.
pub fn seg_from_char(c: char) -> (r: Seg)
    ensures
        r@.text == seq![c],
        r@.width == char_render_width(c),
{
    let mut text = String::new();
    string_push(&mut text, c);
    let width: usize = match char_display_width(c) {
        Some(w) => w,
        None => 0,
    };
    proof {
        assert(text@ =~= seq![c]);
    }
    Seg { text, width }
}

/// Splits a string into its grapheme-cluster segments, each measured.
pub fn segs_of_str(s: &str) -> (r: Vec<Seg>)
    ensures
        r@.len() == grapheme_split(s@).len(),
        forall|i: int| 0 <= i < r@.len() ==> #[trigger] r@[i]@.text == grapheme_split(s@)[i],
        forall|i: int|
            0 <= i < r@.len() ==> #[trigger] r@[i]@.width == str_width_of(grapheme_split(s@)[i]),
        r@.map_values(|g: Seg| g@) == seg_views_of_chunks(grapheme_split(s@)),
        concat_chunks(grapheme_split(s@)) == s@,
{
    let chunks = split_graphemes(s);
    let ghost split = grapheme_split(s@);
    let mut r: Vec<Seg> = Vec::new();
    let n = chunks.len();
    assert(chunks.deep_view().len() == split.len());
    for i in 0..n
        invariant
            n == chunks.len(),
            chunks.deep_view() == split,
            split.len() == n,
            r@.len() == i,
            forall|j: int| 0 <= j < i ==> #[trigger] r@[j]@.text == split[j],
            forall|j: int| 0 <= j < i ==> #[trigger] r@[j]@.width == str_width_of(split[j]),
    {
        let chunk = &chunks[i];
        assert(chunk@ == split[i as int]);
        let width = str_display_width(chunk.as_str());
        r.push(Seg { text: chunk.clone(), width });
    }
    proof {
        let m = r@.map_values(|g: Seg| g@);
        let c = seg_views_of_chunks(grapheme_split(s@));
        assert forall|i: int| 0 <= i < m.len() implies m[i] == c[i] by {
            assert(r@[i]@.text == grapheme_split(s@)[i]);
            assert(r@[i]@.width == str_width_of(grapheme_split(s@)[i]));
        }
        assert(m =~= c);
    }
    r
}

/// The segment values for a sequence of clusters, each measured on its own.
pub open spec fn seg_views_of_chunks(chunks: Seq<Seq<char>>) -> Seq<SegView> {
    Seq::new(chunks.len(), |i: int| SegView { text: chunks[i], width: str_width_of(chunks[i]) })
}

/// A cluster that ends the line it stands on.
pub open spec fn is_newline_cluster(t: Seq<char>) -> bool {
    t == seq!['\n'] || t == seq!['\r', '\n']
}

/// Splits a cluster sequence into the lines it spells: maximal runs of
/// non-newline clusters. A text without newlines is one piece; each newline
/// cluster ends a piece and begins the next.
pub open spec fn split_pieces(chunks: Seq<Seq<char>>) -> Seq<Seq<Seq<char>>>
    decreases chunks.len(),
{
    if chunks.len() == 0 {
        seq![Seq::<Seq<char>>::empty()]
    } else {
        let rest = split_pieces(chunks.drop_last());
        if is_newline_cluster(chunks.last()) {
            rest.push(Seq::empty())
        } else {
            rest.update(rest.len() - 1, rest.last().push(chunks.last()))
        }
    }
}

/// The lines a text inserts, as measured segment runs.
pub open spec fn pieces_of(chunks: Seq<Seq<char>>) -> Seq<Seq<SegView>> {
    split_pieces(chunks).map_values(|p: Seq<Seq<char>>| seg_views_of_chunks(p))
}

/// A split always yields at least one piece.
pub proof fn lemma_split_pieces_nonempty(chunks: Seq<Seq<char>>)
    ensures
        split_pieces(chunks).len() > 0,
    decreases chunks.len(),
{
    if chunks.len() > 0 {
        lemma_split_pieces_nonempty(chunks.drop_last());
    }
}

/// A deep copy of a run of segments, equal at the view level.
pub fn clone_segs(segs: &Vec<Seg>) -> (r: Vec<Seg>)
    ensures
        r@.map_values(|g: Seg| g@) == segs@.map_values(|g: Seg| g@),
{
    let mut r: Vec<Seg> = Vec::new();
    let n = segs.len();
    for i in 0..n
        invariant
            n == segs.len(),
            r@.len() == i,
            forall|j: int| 0 <= j < i ==> #[trigger] r@[j]@ == segs@[j]@,
    {
        r.push(segs[i].clone_seg());
    }
    proof {
        assert(r@.map_values(|g: Seg| g@) =~= segs@.map_values(|g: Seg| g@));
    }
    r
}

/// The text of a sequence of segments, concatenated.
pub open spec fn segs_text(l: Seq<SegView>) -> Seq<char>
    decreases l.len(),
{
    if l.len() == 0 {
        Seq::empty()
    } else {
        segs_text(l.drop_last()) + l.last().text
    }
}

/// Joins the text of a run of segments back into a string.
pub fn segs_to_string(segs: &Vec<Seg>) -> (r: String)
    ensures
        r@ == segs_text(segs@.map_values(|s: Seg| s@)),
{
    let mut r = String::new();
    let n = segs.len();
    for i in 0..n
        invariant
            n == segs.len(),
            r@ == segs_text(segs@.map_values(|s: Seg| s@).take(i as int)),
    {
        r.append(segs[i].text.as_str());
        proof {
            let m = segs@.map_values(|s: Seg| s@);
            assert(m.take(i + 1).drop_last() =~= m.take(i as int));
            assert(m.take(i + 1).last() == segs@[i as int]@);
        }
    }
    proof {
        let m = segs@.map_values(|s: Seg| s@);
        assert(m.take(segs@.len() as int) =~= m);
    }
    r
}

} // verus!
