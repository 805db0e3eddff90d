//! How a drawing is positioned: in line with text or anchored, relative to
//! what, and where.

use vstd::prelude::*;
use crate::xml::is_plain_char;

verus! {

/// In line with the text, or anchored to a place on the page.
#[derive(Clone, Copy, Debug, PartialEq, Eq, Structural)]
pub enum DrawingPositionType {
    Anchor,
    Inline,
}

/// What a horizontal position is measured from.
#[derive(Clone, Copy, Debug, PartialEq, Eq, Structural)]
pub enum RelativeFromHType {
    Character,
    Column,
    InsideMargin,
    LeftMargin,
    Margin,
    OutsizeMargin,
    Page,
    RightMargin,
}

/// What a vertical position is measured from.
#[derive(Clone, Copy, Debug, PartialEq, Eq, Structural)]
pub enum RelativeFromVType {
    BottomMargin,
    InsideMargin,
    Line,
    Margin,
    OutsizeMargin,
    Page,
    Paragraph,
    TopMargin,
}

/// An alignment of an anchored drawing.
#[derive(Clone, Copy, Debug, PartialEq, Eq, Structural)]
pub enum PicAlign {
    Left,
    Right,
    Center,
    Bottom,
    Top,
}

/// A position along one axis: an offset in EMU, or an alignment.
#[derive(Clone, Copy, Debug, PartialEq, Eq, Structural)]
pub enum DrawingPosition {
    Offset(i32),
    Align(PicAlign),
}

/// The attribute value that names a horizontal reference.
pub open spec fn relative_from_h_name(t: RelativeFromHType) -> Seq<char> {
    match t {
        RelativeFromHType::Character => "character"@,
        RelativeFromHType::Column => "column"@,
        RelativeFromHType::InsideMargin => "insideMargin"@,
        RelativeFromHType::LeftMargin => "leftMargin"@,
        RelativeFromHType::Margin => "margin"@,
        RelativeFromHType::OutsizeMargin => "outsideMargin"@,
        RelativeFromHType::Page => "page"@,
        RelativeFromHType::RightMargin => "rightMargin"@,
    }
}

/// The attribute value that names a vertical reference.
pub open spec fn relative_from_v_name(t: RelativeFromVType) -> Seq<char> {
    match t {
        RelativeFromVType::BottomMargin => "bottomMargin"@,
        RelativeFromVType::InsideMargin => "insideMargin"@,
        RelativeFromVType::Line => "line"@,
        RelativeFromVType::Margin => "margin"@,
        RelativeFromVType::OutsizeMargin => "outsideMargin"@,
        RelativeFromVType::Page => "page"@,
        RelativeFromVType::Paragraph => "paragraph"@,
        RelativeFromVType::TopMargin => "topMargin"@,
    }
}

/// The word that names an alignment.
pub open spec fn pic_align_name(a: PicAlign) -> Seq<char> {
    match a {
        PicAlign::Left => "left"@,
        PicAlign::Right => "right"@,
        PicAlign::Center => "center"@,
        PicAlign::Bottom => "bottom"@,
        PicAlign::Top => "top"@,
    }
}

impl RelativeFromHType {
    /// The attribute value that names this reference.
    pub fn name(&self) -> (s: &'static str)
        ensures
            s@ == relative_from_h_name(*self),
    {
        match self {
            RelativeFromHType::Character => "character",
            RelativeFromHType::Column => "column",
            RelativeFromHType::InsideMargin => "insideMargin",
            RelativeFromHType::LeftMargin => "leftMargin",
            RelativeFromHType::Margin => "margin",
            RelativeFromHType::OutsizeMargin => "outsideMargin",
            RelativeFromHType::Page => "page",
            RelativeFromHType::RightMargin => "rightMargin",
        }
    }
}

impl RelativeFromVType {
    /// The attribute value that names this reference.
    pub fn name(&self) -> (s: &'static str)
        ensures
            s@ == relative_from_v_name(*self),
    {
        match self {
            RelativeFromVType::BottomMargin => "bottomMargin",
            RelativeFromVType::InsideMargin => "insideMargin",
            RelativeFromVType::Line => "line",
            RelativeFromVType::Margin => "margin",
            RelativeFromVType::OutsizeMargin => "outsideMargin",
            RelativeFromVType::Page => "page",
            RelativeFromVType::Paragraph => "paragraph",
            RelativeFromVType::TopMargin => "topMargin",
        }
    }
}

impl PicAlign {
    /// The word that names this alignment.
    pub fn name(&self) -> (s: &'static str)
        ensures
            s@ == pic_align_name(*self),
    {
        match self {
            PicAlign::Left => "left",
            PicAlign::Right => "right",
            PicAlign::Center => "center",
            PicAlign::Bottom => "bottom",
            PicAlign::Top => "top",
        }
    }
}

/// Each alignment is written as its own word of the OOXML alignment types
/// (`ST_AlignH` and `ST_AlignV`): `left`, `right`, `center`, `bottom`,
/// `top`; no two alignments share a word.
#[verifier::spinoff_prover]
pub proof fn lemma_align_words()
    ensures
        pic_align_name(PicAlign::Left) == "left"@,
        pic_align_name(PicAlign::Right) == "right"@,
        pic_align_name(PicAlign::Center) == "center"@,
        pic_align_name(PicAlign::Bottom) == "bottom"@,
        pic_align_name(PicAlign::Top) == "top"@,
        forall|a: PicAlign, b: PicAlign| pic_align_name(a) == pic_align_name(b) ==> a == b,
{
    reveal_strlit("left");
    reveal_strlit("right");
    reveal_strlit("center");
    reveal_strlit("bottom");
    reveal_strlit("top");
    assert forall|a: PicAlign, b: PicAlign| pic_align_name(a) == pic_align_name(b) implies a == b by {
        if a != b {
            let x = pic_align_name(a);
            let y = pic_align_name(b);
            if x.len() == y.len() {
                assert(x[0] != y[0]);
            }
        }
    }
}

/// Each horizontal reference is written as its own word of `ST_RelFromH`;
/// no two references share a word.
#[verifier::spinoff_prover]
pub proof fn lemma_relative_from_h_words()
    ensures
        relative_from_h_name(RelativeFromHType::Character) == "character"@,
        relative_from_h_name(RelativeFromHType::Column) == "column"@,
        relative_from_h_name(RelativeFromHType::InsideMargin) == "insideMargin"@,
        relative_from_h_name(RelativeFromHType::LeftMargin) == "leftMargin"@,
        relative_from_h_name(RelativeFromHType::Margin) == "margin"@,
        relative_from_h_name(RelativeFromHType::OutsizeMargin) == "outsideMargin"@,
        relative_from_h_name(RelativeFromHType::Page) == "page"@,
        relative_from_h_name(RelativeFromHType::RightMargin) == "rightMargin"@,
        forall|a: RelativeFromHType, b: RelativeFromHType|
            relative_from_h_name(a) == relative_from_h_name(b) ==> a == b,
{
    reveal_strlit("character");
    reveal_strlit("column");
    reveal_strlit("insideMargin");
    reveal_strlit("leftMargin");
    reveal_strlit("margin");
    reveal_strlit("outsideMargin");
    reveal_strlit("page");
    reveal_strlit("rightMargin");
    assert forall|a: RelativeFromHType, b: RelativeFromHType|
        relative_from_h_name(a) == relative_from_h_name(b) implies a == b by {
        if a != b {
            let x = relative_from_h_name(a);
            let y = relative_from_h_name(b);
            if x.len() == y.len() {
                assert(x[0] != y[0] || x[1] != y[1]);
            }
        }
    }
}

/// Each vertical reference is written as its own word of `ST_RelFromV`;
/// no two references share a word.
#[verifier::spinoff_prover]
pub proof fn lemma_relative_from_v_words()
    ensures
        relative_from_v_name(RelativeFromVType::BottomMargin) == "bottomMargin"@,
        relative_from_v_name(RelativeFromVType::InsideMargin) == "insideMargin"@,
        relative_from_v_name(RelativeFromVType::Line) == "line"@,
        relative_from_v_name(RelativeFromVType::Margin) == "margin"@,
        relative_from_v_name(RelativeFromVType::OutsizeMargin) == "outsideMargin"@,
        relative_from_v_name(RelativeFromVType::Page) == "page"@,
        relative_from_v_name(RelativeFromVType::Paragraph) == "paragraph"@,
        relative_from_v_name(RelativeFromVType::TopMargin) == "topMargin"@,
        forall|a: RelativeFromVType, b: RelativeFromVType|
            relative_from_v_name(a) == relative_from_v_name(b) ==> a == b,
{
    reveal_strlit("bottomMargin");
    reveal_strlit("insideMargin");
    reveal_strlit("line");
    reveal_strlit("margin");
    reveal_strlit("outsideMargin");
    reveal_strlit("page");
    reveal_strlit("paragraph");
    reveal_strlit("topMargin");
    assert forall|a: RelativeFromVType, b: RelativeFromVType|
        relative_from_v_name(a) == relative_from_v_name(b) implies a == b by {
        if a != b {
            let x = relative_from_v_name(a);
            let y = relative_from_v_name(b);
            if x.len() == y.len() {
                assert(x[0] != y[0]);
            }
        }
    }
}

/// The words that name references and alignments are left as they are by
/// escaping: they hold letters only.
#[verifier::spinoff_prover]
pub proof fn lemma_words_plain(h: RelativeFromHType, v: RelativeFromVType, a: PicAlign)
    ensures
        forall|k: int|
            0 <= k < relative_from_h_name(h).len() ==> is_plain_char(
                #[trigger] relative_from_h_name(h)[k],
            ),
        forall|k: int|
            0 <= k < relative_from_v_name(v).len() ==> is_plain_char(
                #[trigger] relative_from_v_name(v)[k],
            ),
        forall|k: int| 0 <= k < pic_align_name(a).len() ==> is_plain_char(#[trigger] pic_align_name(a)[k]),
{
    lemma_align_words();
    lemma_relative_from_h_words();
    lemma_relative_from_v_words();
    reveal_strlit("character");
    reveal_strlit("column");
    reveal_strlit("insideMargin");
    reveal_strlit("leftMargin");
    reveal_strlit("margin");
    reveal_strlit("outsideMargin");
    reveal_strlit("page");
    reveal_strlit("rightMargin");
    reveal_strlit("bottomMargin");
    reveal_strlit("line");
    reveal_strlit("paragraph");
    reveal_strlit("topMargin");
    let x = relative_from_h_name(h);
    let y = relative_from_v_name(v);
    match h {
        RelativeFromHType::Character => {},
        RelativeFromHType::Column => {},
        RelativeFromHType::InsideMargin => {},
        RelativeFromHType::LeftMargin => {},
        RelativeFromHType::Margin => {},
        RelativeFromHType::OutsizeMargin => {},
        RelativeFromHType::Page => {},
        RelativeFromHType::RightMargin => {},
    }
    assert forall|k: int| 0 <= k < x.len() implies is_plain_char(#[trigger] x[k]) by {}
    match v {
        RelativeFromVType::BottomMargin => {},
        RelativeFromVType::InsideMargin => {},
        RelativeFromVType::Line => {},
        RelativeFromVType::Margin => {},
        RelativeFromVType::OutsizeMargin => {},
        RelativeFromVType::Page => {},
        RelativeFromVType::Paragraph => {},
        RelativeFromVType::TopMargin => {},
    }
    assert forall|k: int| 0 <= k < y.len() implies is_plain_char(#[trigger] y[k]) by {}
    reveal_strlit("left");
    reveal_strlit("right");
    reveal_strlit("center");
    reveal_strlit("bottom");
    reveal_strlit("top");
    let z = pic_align_name(a);
    match a {
        PicAlign::Left => {},
        PicAlign::Right => {},
        PicAlign::Center => {},
        PicAlign::Bottom => {},
        PicAlign::Top => {},
    }
    assert forall|k: int| 0 <= k < z.len() implies is_plain_char(#[trigger] z[k]) by {}
}

} // verus!
