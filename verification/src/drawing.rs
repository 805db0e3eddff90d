//! A drawing of a document (`w:drawing`): a picture or a text box, placed on
//! the page, and the markup that describes it.

use vstd::prelude::*;
use crate::decimal::dec_nat;
use crate::pic::{Pic, lemma_rotation_written, pic_node, pic_placement, picture_ns, same_pic};
use crate::placement::{
    dist_markup, drawing_main_ns, effect_extent_markup, extent_markup, frame_attrs, frame_head,
    frame_lead, frame_node, frame_positions, frame_properties, frame_tag, frame_tag_str,
    frame_tail, graphic_node, lemma_anchor_start_tag, lemma_frame_attrs_markup,
    lemma_frame_lead_markup, lemma_frame_opening_no_wp_e, lemma_frame_render,
    lemma_frame_tail_end, lemma_frame_tail_start, lemma_inline_lead, lemma_no_wp_e_concat,
    lemma_properties_start, no_wp_e_tag, wrap_markup, write_frame_properties, write_frame_start,
    write_graphic_end, write_graphic_start, Placement,
};
use crate::text_box::{
    TextBox, blocks_written, content_nodes, lemma_shape_written, same_child, same_text_box,
    text_box_placement, text_box_shape_node,
};
use crate::xml::{
    attrs_view, elem, end_tag, is_plain_char, lemma_escape_plain, lemma_render_attrs_push,
    lemma_render_nodes_two, lemma_occurs_between, lemma_occurs_trans,
    lemma_render_nodes_single, occurs, render_attrs, render_node, render_nodes, start_tag,
    write_end, write_start, Attr, XmlNode,
};

verus! {

/// The namespace of word-processing shapes.
pub open spec fn shape_ns() -> Seq<char> {
    "http://schemas.microsoft.com/office/word/2010/wordprocessingShape"@
}

/// What a drawing shows.
#[derive(Debug, PartialEq)]
pub enum DrawingData {
    Pic(Pic),
    TextBox(TextBox),
}

/// A drawing; it shows nothing until a picture or a text box is given.
#[derive(Debug, PartialEq)]
pub struct Drawing {
    pub data: Option<DrawingData>,
}

/// The frame of a drawing: a picture is named `Figure` and holds a
/// `pic:pic` element as picture data; a text box is named `Text Box` and
/// holds its shape as word-processing-shape data.
pub open spec fn drawing_frame_node(data: DrawingData) -> XmlNode {
    match data {
        DrawingData::Pic(p) => frame_node(
            pic_placement(p),
            "Figure"@,
            graphic_node(picture_ns(), seq![pic_node(p)]),
        ),
        DrawingData::TextBox(t) => frame_node(
            text_box_placement(t),
            "Text Box"@,
            graphic_node(shape_ns(), seq![text_box_shape_node(t)]),
        ),
    }
}

/// The `w:drawing` element that shows `data`.
pub open spec fn drawing_node(data: DrawingData) -> XmlNode {
    elem("w:drawing"@, seq![], seq![drawing_frame_node(data)])
}

/// The name under which the data is serialized as a structure.
pub open spec fn data_struct_name(data: DrawingData) -> Seq<char> {
    match data {
        DrawingData::Pic(_) => "Pic"@,
        DrawingData::TextBox(_) => "TextBox"@,
    }
}

/// The value of the `type` field when the data is serialized.
pub open spec fn data_type_tag(data: DrawingData) -> Seq<char> {
    match data {
        DrawingData::Pic(_) => "pic"@,
        DrawingData::TextBox(_) => "textBox"@,
    }
}

impl DrawingData {
    /// The name under which this data is serialized as a structure.
    pub fn struct_name(&self) -> (s: &'static str)
        ensures
            s@ == data_struct_name(*self),
    {
        match self {
            DrawingData::Pic(_) => "Pic",
            DrawingData::TextBox(_) => "TextBox",
        }
    }

    /// The value of the `type` field when this data is serialized.
    pub fn type_tag(&self) -> (s: &'static str)
        ensures
            s@ == data_type_tag(*self),
    {
        match self {
            DrawingData::Pic(_) => "pic",
            DrawingData::TextBox(_) => "textBox",
        }
    }
}

#[verifier::spinoff_prover]
fn write_pic_frame(out: &mut String, p: &Pic)
    ensures
        final(out)@ == old(out)@ + render_node(drawing_frame_node(DrawingData::Pic(*p))),
{
    let pl = p.placement();
    write_frame_start(out, &pl);
    write_frame_properties(out, "Figure");
    write_graphic_start(out, "http://schemas.openxmlformats.org/drawingml/2006/picture");
    let ghost before_content = out@;
    p.write_pic(out);
    proof {
        lemma_render_nodes_single(pic_node(*p));
    }
    assert(out@ == before_content + render_nodes(seq![pic_node(*p)]));
    write_graphic_end(out);
    write_end(out, frame_tag_str(&pl));
    proof {
        lemma_frame_render(pl, "Figure"@, picture_ns(), seq![pic_node(*p)]);
        reveal(frame_head);
        reveal(frame_tail);
    }
    assert(final(out)@ =~= old(out)@ + render_node(drawing_frame_node(DrawingData::Pic(*p))));
}

fn write_text_box_frame(out: &mut String, t: &TextBox)
    ensures
        final(out)@ == old(out)@ + render_node(drawing_frame_node(DrawingData::TextBox(*t))),
{
    let pl = t.placement();
    write_frame_start(out, &pl);
    write_frame_properties(out, "Text Box");
    write_graphic_start(out, "http://schemas.microsoft.com/office/word/2010/wordprocessingShape");
    let ghost before_content = out@;
    t.write_shape(out);
    proof {
        lemma_render_nodes_single(text_box_shape_node(*t));
    }
    assert(out@ == before_content + render_nodes(seq![text_box_shape_node(*t)]));
    write_graphic_end(out);
    write_end(out, frame_tag_str(&pl));
    proof {
        lemma_frame_render(pl, "Text Box"@, shape_ns(), seq![text_box_shape_node(*t)]);
        reveal(frame_head);
        reveal(frame_tail);
    }
    assert(final(out)@ =~= old(out)@ + render_node(drawing_frame_node(DrawingData::TextBox(*t))));
}

impl Drawing {
    /// A drawing that shows nothing yet.
    pub fn new() -> (d: Drawing)
        ensures
            d.data is None,
    {
        Drawing { data: None }
    }

    /// This drawing, now showing the picture `pic` (in place of whatever it
    /// showed before).
    pub fn pic(self, pic: Pic) -> (d: Drawing)
        ensures
            d.data == Some(DrawingData::Pic(pic)),
    {
        let mut d = self;
        d.data = Some(DrawingData::Pic(pic));
        d
    }

    /// This drawing, now showing the text box `t` (in place of whatever it
    /// showed before).
    pub fn text_box(self, t: TextBox) -> (d: Drawing)
        ensures
            d.data == Some(DrawingData::TextBox(t)),
    {
        let mut d = self;
        d.data = Some(DrawingData::TextBox(t));
        d
    }

    /// The markup of this drawing. A drawing that shows nothing has none.
    pub fn build(&self) -> (s: String)
        requires
            self.data is Some,
        ensures
            s@ == render_node(drawing_node(self.data->0)),
    {
        let mut out = String::new();
        let none: Vec<Attr> = Vec::new();
        assert(attrs_view(none@) =~= seq![]);
        write_start(&mut out, "w:drawing", &none);
        match &self.data {
            Some(DrawingData::Pic(p)) => {
                write_pic_frame(&mut out, p);
            },
            Some(DrawingData::TextBox(t)) => {
                write_text_box_frame(&mut out, t);
            },
            None => {},
        }
        write_end(&mut out, "w:drawing");
        proof {
            lemma_render_nodes_single(drawing_frame_node(self.data->0));
        }
        assert(out@ =~= render_node(drawing_node(self.data->0)));
        out
    }
}

/// The markup of every drawing is one `w:drawing` element:
/// `<w:drawing>`, the frame, `</w:drawing>`.
pub proof fn lemma_drawing_outline(data: DrawingData)
    ensures
        render_node(drawing_node(data)) == "<w:drawing>"@ + render_node(drawing_frame_node(data))
            + "</w:drawing>"@,
{
    reveal_strlit("<");
    reveal_strlit(">");
    reveal_strlit("</");
    reveal_strlit("w:drawing");
    reveal_strlit("<w:drawing>");
    reveal_strlit("</w:drawing>");
    lemma_render_nodes_single(drawing_frame_node(data));
    let no_attrs: Seq<(Seq<char>, Seq<char>)> = seq![];
    assert(render_attrs(no_attrs) =~= seq![]);
    assert(start_tag("w:drawing"@, no_attrs) =~= "<w:drawing>"@);
    assert(end_tag("w:drawing"@) =~= "</w:drawing>"@);
}

proof fn lemma_drawing_head(
    data: DrawingData,
    pl: Placement,
    doc_name: Seq<char>,
    data_uri: Seq<char>,
    content: Seq<XmlNode>,
)
    requires
        content.len() > 0,
        drawing_frame_node(data) == frame_node(pl, doc_name, graphic_node(data_uri, content)),
    ensures
        render_node(drawing_node(data)).take(("<w:drawing>"@ + frame_head(pl)).len() as int) == (
        "<w:drawing>"@ + frame_head(pl)),
{
    lemma_drawing_outline(data);
    lemma_frame_render(pl, doc_name, data_uri, content);
    let head = "<w:drawing>"@ + frame_head(pl);
    let tail = frame_tail(pl, doc_name, data_uri, content);
    assert(render_node(drawing_node(data)) =~= head + (tail + "</w:drawing>"@));
    assert((head + (tail + "</w:drawing>"@)).take(head.len() as int) =~= head);
}

/// Pictures and text boxes are placed alike: when a picture and a text box
/// have the same placement, the markup of both drawings begins with the
/// same `w:drawing` start tag, frame start tag, positions, size and
/// wrapping.
pub proof fn lemma_placed_alike(p: Pic, t: TextBox)
    requires
        pic_placement(p) == text_box_placement(t),
    ensures
        ({
            let head = "<w:drawing>"@ + frame_head(pic_placement(p));
            &&& render_node(drawing_node(DrawingData::Pic(p))).take(head.len() as int) == head
            &&& render_node(drawing_node(DrawingData::TextBox(t))).take(head.len() as int) == head
        }),
{
    let pl = pic_placement(p);
    lemma_drawing_head(DrawingData::Pic(p), pl, "Figure"@, picture_ns(), seq![pic_node(p)]);
    lemma_drawing_head(
        DrawingData::TextBox(t),
        pl,
        "Text Box"@,
        shape_ns(),
        seq![text_box_shape_node(t)],
    );
}

/// The placement of what a drawing shows.
pub open spec fn data_placement(data: DrawingData) -> Placement {
    match data {
        DrawingData::Pic(p) => pic_placement(p),
        DrawingData::TextBox(t) => text_box_placement(t),
    }
}

/// The name given to what a drawing shows: `Figure` or `Text Box`.
pub open spec fn data_doc_name(data: DrawingData) -> Seq<char> {
    match data {
        DrawingData::Pic(_) => "Figure"@,
        DrawingData::TextBox(_) => "Text Box"@,
    }
}

/// The kind of graphic data that a drawing holds.
pub open spec fn data_uri(data: DrawingData) -> Seq<char> {
    match data {
        DrawingData::Pic(_) => picture_ns(),
        DrawingData::TextBox(_) => shape_ns(),
    }
}

/// The content of the graphic data.
pub open spec fn data_content(data: DrawingData) -> Seq<XmlNode> {
    match data {
        DrawingData::Pic(p) => seq![pic_node(p)],
        DrawingData::TextBox(t) => seq![text_box_shape_node(t)],
    }
}

proof fn lemma_frame_of(data: DrawingData)
    ensures
        drawing_frame_node(data) == frame_node(
            data_placement(data),
            data_doc_name(data),
            graphic_node(data_uri(data), data_content(data)),
        ),
        data_content(data).len() == 1,
{
}

/// The markup of a drawing, around its frame's content: `<w:drawing>`, the
/// frame's start tag and what follows it, the frame's tail, `</w:drawing>`.
proof fn lemma_drawing_pieces(data: DrawingData)
    ensures
        ({
            let pl = data_placement(data);
            render_node(drawing_node(data)) == "<w:drawing>"@ + ("<"@ + frame_tag(pl) + render_attrs(
                frame_attrs(pl),
            ) + ">"@) + render_nodes(frame_lead(pl)) + frame_tail(
                pl,
                data_doc_name(data),
                data_uri(data),
                data_content(data),
            ) + "</w:drawing>"@
        }),
{
    let pl = data_placement(data);
    lemma_frame_of(data);
    lemma_drawing_outline(data);
    lemma_frame_render(pl, data_doc_name(data), data_uri(data), data_content(data));
    reveal(frame_head);
    assert(render_node(drawing_node(data)) =~= "<w:drawing>"@ + ("<"@ + frame_tag(pl)
        + render_attrs(frame_attrs(pl)) + ">"@) + render_nodes(frame_lead(pl)) + frame_tail(
        pl,
        data_doc_name(data),
        data_uri(data),
        data_content(data),
    ) + "</w:drawing>"@);
}

proof fn lemma_outline_prefix(
    out: Seq<char>,
    open: Seq<char>,
    tag: Seq<char>,
    dist: Seq<char>,
    extra: Seq<char>,
    rest: Seq<char>,
)
    requires
        out == "<w:drawing>"@ + open + rest,
        open == "<"@ + tag + (dist + extra) + ">"@,
    ensures
        ("<w:drawing><"@ + tag + dist).is_prefix_of(out),
        extra.len() == 0 ==> out == "<w:drawing><"@ + tag + dist + ">"@ + rest,
{
    reveal_strlit("<w:drawing>");
    reveal_strlit("<");
    reveal_strlit("<w:drawing><");
    let p0 = "<w:drawing><"@ + tag + dist;
    assert(out =~= p0 + (extra + ">"@ + rest));
    if extra.len() == 0 {
        assert(out =~= "<w:drawing><"@ + tag + dist + ">"@ + rest);
    }
}

proof fn lemma_outline_suffix(out: Seq<char>, front: Seq<char>, body: Seq<char>, tag: Seq<char>)
    requires
        out == front + (body + ("</"@ + tag + ">"@)) + "</w:drawing>"@,
    ensures
        ("</"@ + tag + "></w:drawing>"@).is_suffix_of(out),
{
    reveal_strlit(">");
    reveal_strlit("</w:drawing>");
    reveal_strlit("></w:drawing>");
    assert(out =~= (front + body) + ("</"@ + tag + "></w:drawing>"@));
}

proof fn lemma_outline_extent(
    out: Seq<char>,
    p0: Seq<char>,
    lead: Seq<char>,
    size_args: Seq<char>,
    rest: Seq<char>,
    after: Seq<char>,
)
    requires
        out == p0 + ">"@ + lead + after,
        lead == "<wp:extent cx=\""@ + size_args + rest,
    ensures
        (p0 + "><wp:extent "@).is_prefix_of(out),
{
    reveal_strlit(">");
    reveal_strlit("><wp:extent ");
    reveal_strlit("<wp:extent cx=\"");
    assert(out =~= (p0 + "><wp:extent "@) + ("cx=\""@ + size_args + rest + after)) by {
        reveal_strlit("cx=\"");
    }
}

/// The outline of every drawing's markup: it begins with `<w:drawing>`, the
/// frame's tag (`wp:inline` or `wp:anchor`) and the four distances from the
/// text; it ends with the frame's end tag and `</w:drawing>`; and an inline
/// frame's start tag is followed directly by the extent element.
pub proof fn lemma_frame_outline(data: DrawingData)
    ensures
        ({
            let pl = data_placement(data);
            let out = render_node(drawing_node(data));
            &&& ("<w:drawing><"@ + frame_tag(pl) + dist_markup(pl)).is_prefix_of(out)
            &&& ("</"@ + frame_tag(pl) + "></w:drawing>"@).is_suffix_of(out)
            &&& pl.position_type is Inline ==> ("<w:drawing><"@ + frame_tag(pl) + dist_markup(pl)
                + "><wp:extent "@).is_prefix_of(out)
        }),
{
    let pl = data_placement(data);
    let out = render_node(drawing_node(data));
    let tail = frame_tail(pl, data_doc_name(data), data_uri(data), data_content(data));
    let tag = frame_tag(pl);
    let open = "<"@ + tag + render_attrs(frame_attrs(pl)) + ">"@;
    let lead = render_nodes(frame_lead(pl));
    lemma_drawing_pieces(data);
    let extra = lemma_frame_attrs_markup(pl);
    assert(out == "<w:drawing>"@ + open + (lead + tail + "</w:drawing>"@));
    lemma_outline_prefix(out, open, tag, dist_markup(pl), extra, lead + tail + "</w:drawing>"@);
    let body = lemma_frame_tail_end(pl, data_doc_name(data), data_uri(data), data_content(data));
    assert(out == ("<w:drawing>"@ + open + lead) + (body + ("</"@ + tag + ">"@)) + "</w:drawing>"@);
    lemma_outline_suffix(out, "<w:drawing>"@ + open + lead, body, tag);
    if pl.position_type is Inline {
        let (size_args, rest) = lemma_inline_lead(pl);
        assert(out =~= "<w:drawing><"@ + tag + dist_markup(pl) + ">"@ + lead + (tail
            + "</w:drawing>"@));
        lemma_outline_extent(
            out,
            "<w:drawing><"@ + tag + dist_markup(pl),
            lead,
            size_args,
            rest,
            tail + "</w:drawing>"@,
        );
    }
}

/// The markup of every drawing is one well-formed element: it is the
/// writing of an element tree whose root is `w:drawing` and whose only child
/// is the frame (`wp:inline` or `wp:anchor`).
pub proof fn lemma_single_element(data: DrawingData)
    ensures
        exists|t: XmlNode|
            {
                &&& #[trigger] render_node(t) == render_node(drawing_node(data))
                &&& t is Element
                &&& t->name == "w:drawing"@
                &&& t->children.len() == 1
                &&& t->children[0] is Element
                &&& t->children[0]->name == frame_tag(data_placement(data))
            },
{
    let t = drawing_node(data);
    lemma_frame_of(data);
    assert(t->children[0] == drawing_frame_node(data));
    assert(render_node(t) == render_node(drawing_node(data)));
}

/// What follows the positions of every drawing's frame: the first extent
/// element (`<wp:extent cx=".." cy=".." />`, the size in EMU) stands right
/// after the frame's start tag and positions, and is followed directly by
/// the zero effect extent, the wrapping, and the start of
/// `<wp:docPr id="1" name="`. No extent element opens earlier.
pub proof fn lemma_frame_lead(data: DrawingData)
    ensures
        ({
            let pl = data_placement(data);
            let out = render_node(drawing_node(data));
            let pre = "<w:drawing>"@ + start_tag(frame_tag(pl), frame_attrs(pl)) + render_nodes(
                frame_positions(pl),
            );
            let lead = extent_markup(pl) + effect_extent_markup() + wrap_markup(pl)
                + "<wp:docPr id=\"1\" name=\""@;
            &&& (pre + lead).is_prefix_of(out)
            &&& forall|i: int|
                0 <= i < pre.len() && i + 11 <= out.len() ==> #[trigger] out.subrange(i, i + 11)
                    != "<wp:extent "@
        }),
{
    let pl = data_placement(data);
    let out = render_node(drawing_node(data));
    let open = start_tag(frame_tag(pl), frame_attrs(pl));
    let positions = render_nodes(frame_positions(pl));
    let pre = "<w:drawing>"@ + open + positions;
    let lead = extent_markup(pl) + effect_extent_markup() + wrap_markup(pl)
        + "<wp:docPr id=\"1\" name=\""@;
    lemma_drawing_pieces(data);
    lemma_frame_lead_markup(pl);
    let r1 = lemma_frame_tail_start(pl, data_doc_name(data), data_uri(data), data_content(data));
    let r2 = lemma_properties_start(data_doc_name(data));
    assert(open == "<"@ + frame_tag(pl) + render_attrs(frame_attrs(pl)) + ">"@);
    assert(out =~= pre + lead + (r2 + r1 + "</w:drawing>"@));
    assert((pre + lead).is_prefix_of(out));
    reveal_strlit("<w:drawing>");
    reveal_strlit("<wp:extent ");
    assert(no_wp_e_tag("<w:drawing>"@));
    lemma_frame_opening_no_wp_e(pl);
    lemma_no_wp_e_concat("<w:drawing>"@, open + positions);
    assert(pre =~= "<w:drawing>"@ + (open + positions));
    assert forall|i: int| 0 <= i < pre.len() && i + 11 <= out.len() implies #[trigger] out.subrange(
        i,
        i + 11,
    ) != "<wp:extent "@ by {
        if out.subrange(i, i + 11) == "<wp:extent "@ {
            assert(out.subrange(i, i + 11)[0] == '<');
            assert(out[i] == pre[i]);
            assert(pre[i] == '<');
            assert(i + 4 < pre.len());
            assert(out[i + 1] == pre[i + 1] && out[i + 2] == pre[i + 2] && out[i + 3] == pre[i + 3]
                && out[i + 4] == pre[i + 4]);
            assert(out.subrange(i, i + 11)[1] == out[i + 1]);
            assert(out.subrange(i, i + 11)[2] == out[i + 2]);
            assert(out.subrange(i, i + 11)[3] == out[i + 3]);
            assert(out.subrange(i, i + 11)[4] == out[i + 4]);
        }
    }
}

/// `c` is a copy of `d`: the same kind of data, the picture copied field by
/// field or the text box with copies of its blocks, placed alike.
pub open spec fn same_data(c: DrawingData, d: DrawingData) -> bool {
    match (c, d) {
        (DrawingData::Pic(p), DrawingData::Pic(q)) => same_pic(p, q),
        (DrawingData::TextBox(t), DrawingData::TextBox(u)) => same_text_box(t, u),
        _ => false,
    }
}

/// Copies of the same data are drawn alike.
pub proof fn lemma_copies_drawn_alike(c: DrawingData, d: DrawingData)
    requires
        same_data(c, d),
    ensures
        drawing_node(c) == drawing_node(d),
{
    match (c, d) {
        (DrawingData::TextBox(t), DrawingData::TextBox(u)) => {
            assert(content_nodes(t.children@) =~= content_nodes(u.children@)) by {
                assert forall|i: int| 0 <= i < t.children@.len() implies #[trigger] content_nodes(
                    t.children@,
                )[i] == content_nodes(u.children@)[i] by {
                    assert(same_child(t.children@[i], u.children@[i]));
                }
            }
        },
        _ => {},
    }
}

impl Clone for DrawingData {
    /// A copy of this data, drawn alike.
    fn clone(&self) -> (c: DrawingData)
        ensures
            same_data(c, *self),
            drawing_node(c) == drawing_node(*self),
    {
        let c = match self {
            DrawingData::Pic(p) => DrawingData::Pic(p.clone()),
            DrawingData::TextBox(t) => DrawingData::TextBox(t.clone()),
        };
        proof {
            lemma_copies_drawn_alike(c, *self);
        }
        c
    }
}

impl Clone for Drawing {
    /// A copy of this drawing: it shows a copy of the same data, drawn alike,
    /// or nothing when this one shows nothing.
    fn clone(&self) -> (d: Drawing)
        ensures
            d.data is Some <==> self.data is Some,
            self.data is Some ==> same_data(d.data->0, self.data->0),
            self.data is Some ==> drawing_node(d.data->0) == drawing_node(self.data->0),
    {
        match &self.data {
            Some(data) => Drawing { data: Some(data.clone()) },
            None => Drawing { data: None },
        }
    }
}

/// What the graphic data of a drawing holds is written whole inside the
/// drawing's markup.
#[verifier::spinoff_prover]
proof fn lemma_content_in_drawing(data: DrawingData)
    ensures
        occurs(render_node(data_content(data)[0]), render_node(drawing_node(data))),
{
    let pl = data_placement(data);
    let out = render_node(drawing_node(data));
    let name = data_doc_name(data);
    let uri = data_uri(data);
    let content = data_content(data);
    let n = content[0];
    let tail = frame_tail(pl, name, uri, content);
    let x = "<w:drawing>"@ + ("<"@ + frame_tag(pl) + render_attrs(frame_attrs(pl)) + ">"@)
        + render_nodes(frame_lead(pl));
    assert(occurs(tail, out)) by {
        lemma_drawing_pieces(data);
        lemma_occurs_between(x, tail, "</w:drawing>"@);
    }
    let before = render_nodes(frame_properties(name)) + start_tag(
        "a:graphic"@,
        seq![("xmlns:a"@, drawing_main_ns())],
    ) + start_tag("a:graphicData"@, seq![("uri"@, uri)]);
    let after = end_tag("a:graphicData"@) + end_tag("a:graphic"@) + end_tag(frame_tag(pl));
    assert(occurs(render_node(n), tail)) by {
        reveal(frame_tail);
        lemma_render_nodes_single(n);
        assert(content == seq![n]);
        assert(tail =~= before + render_node(n) + after);
        lemma_occurs_between(before, render_node(n), after);
    }
    lemma_occurs_trans(render_node(n), tail, out);
}

/// The rotation of every picture stands in its drawing's markup, in
/// 60000ths of a degree: `<a:xfrm rot="` and the rotation in degrees times
/// 60000, then `">`.
pub proof fn lemma_rotation_in_drawing(p: Pic)
    ensures
        occurs(
            "<a:xfrm rot=\""@ + dec_nat(p.rot as nat * 60000) + "\">"@,
            render_node(drawing_node(DrawingData::Pic(p))),
        ),
{
    lemma_rotation_written(p);
    lemma_content_in_drawing(DrawingData::Pic(p));
    lemma_occurs_trans(
        "<a:xfrm rot=\""@ + dec_nat(p.rot as nat * 60000) + "\">"@,
        render_node(pic_node(p)),
        render_node(drawing_node(DrawingData::Pic(p))),
    );
}

/// Every block of a text box is written whole, in order, inside the text
/// box content of its drawing's markup.
pub proof fn lemma_text_box_blocks_in_drawing(t: TextBox)
    ensures
        occurs(
            "<wps:wsp><wps:txbx>"@ + (if t.children@.len() == 0 {
                "<w:txbxContent />"@
            } else {
                "<w:txbxContent>"@ + blocks_written(t.children@) + "</w:txbxContent>"@
            }) + "</wps:txbx><wps:bodyPr /></wps:wsp>"@,
            render_node(drawing_node(DrawingData::TextBox(t))),
        ),
{
    lemma_shape_written(t);
    lemma_content_in_drawing(DrawingData::TextBox(t));
}

/// Whether `a` begins `c`, when `a` followed by `b` does.
proof fn lemma_prefix_of_prefix(a: Seq<char>, b: Seq<char>, c: Seq<char>)
    requires
        (a + b).is_prefix_of(c),
    ensures
        a.is_prefix_of(c),
{
    assert forall|k: int| 0 <= k < a.len() implies c.subrange(0, a.len() as int)[k] == a[k] by {
        assert((a + b)[k] == a[k]);
        assert(c.subrange(0, (a + b).len() as int)[k] == (a + b)[k]);
    }
    assert(a =~= c.subrange(0, a.len() as int));
}

/// Every anchored drawing begins `<w:drawing><wp:anchor`, the distances,
/// `simplePos="0"`, `allowOverlap` set exactly when the simple-position flag
/// is, `behindDoc="0" locked="0"`, `layoutInCell` set exactly when the
/// layout-in-cell flag is, and the relative height.
#[verifier::spinoff_prover]
pub proof fn lemma_anchor_opening(data: DrawingData)
    requires
        data_placement(data).position_type is Anchor,
    ensures
        ({
            let pl = data_placement(data);
            ("<w:drawing><wp:anchor"@ + dist_markup(pl) + " simplePos=\"0\" allowOverlap=\""@ + (
            if pl.simple_pos {
                "1"@
            } else {
                "0"@
            }) + "\" behindDoc=\"0\" locked=\"0\" layoutInCell=\""@ + (if pl.layout_in_cell {
                "1"@
            } else {
                "0"@
            }) + "\" relativeHeight=\""@ + dec_nat(pl.relative_height as nat)
                + "\">"@).is_prefix_of(render_node(drawing_node(data)))
        }),
{
    lemma_drawing_opening(data);
    lemma_anchor_prefix(render_node(drawing_node(data)), data_placement(data));
}

#[verifier::spinoff_prover]
proof fn lemma_anchor_prefix(out: Seq<char>, pl: Placement)
    requires
        pl.position_type is Anchor,
        ("<w:drawing>"@ + start_tag(frame_tag(pl), frame_attrs(pl))).is_prefix_of(out),
    ensures
        ({
            
            ("<w:drawing><wp:anchor"@ + dist_markup(pl) + " simplePos=\"0\" allowOverlap=\""@ + (
            if pl.simple_pos {
                "1"@
            } else {
                "0"@
            }) + "\" behindDoc=\"0\" locked=\"0\" layoutInCell=\""@ + (if pl.layout_in_cell {
                "1"@
            } else {
                "0"@
            }) + "\" relativeHeight=\""@ + dec_nat(pl.relative_height as nat)
                + "\">"@).is_prefix_of(out)
        }),
{
    let d = dist_markup(pl);
    let sp = if pl.simple_pos { "1"@ } else { "0"@ };
    let lc = if pl.layout_in_cell { "1"@ } else { "0"@ };
    let rh = dec_nat(pl.relative_height as nat);
    lemma_anchor_start_tag(pl);
    lemma_anchor_opening_text(start_tag(frame_tag(pl), frame_attrs(pl)), d, sp, lc, rh);
    lemma_prefix_eq(
        "<w:drawing>"@ + start_tag(frame_tag(pl), frame_attrs(pl)),
        "<w:drawing><wp:anchor"@ + d + " simplePos=\"0\" allowOverlap=\""@ + sp
            + "\" behindDoc=\"0\" locked=\"0\" layoutInCell=\""@ + lc + "\" relativeHeight=\""@ + rh
            + "\">"@,
        out,
    );
}

proof fn lemma_anchor_opening_text(
    open: Seq<char>,
    d: Seq<char>,
    sp: Seq<char>,
    lc: Seq<char>,
    rh: Seq<char>,
)
    requires
        open == "<wp:anchor"@ + d + " simplePos=\"0\" allowOverlap=\""@ + sp
            + "\" behindDoc=\"0\" locked=\"0\" layoutInCell=\""@ + lc + "\" relativeHeight=\""@ + rh
            + "\">"@,
    ensures
        "<w:drawing>"@ + open == "<w:drawing><wp:anchor"@ + d + " simplePos=\"0\" allowOverlap=\""@
            + sp + "\" behindDoc=\"0\" locked=\"0\" layoutInCell=\""@ + lc + "\" relativeHeight=\""@
            + rh + "\">"@,
{
    reveal_strlit("<w:drawing>");
    reveal_strlit("<wp:anchor");
    reveal_strlit("<w:drawing><wp:anchor");
    assert("<w:drawing>"@ + open =~= "<w:drawing><wp:anchor"@ + d + " simplePos=\"0\" allowOverlap=\""@
        + sp + "\" behindDoc=\"0\" locked=\"0\" layoutInCell=\""@ + lc + "\" relativeHeight=\""@ + rh
        + "\">"@);
}

proof fn lemma_prefix_eq(a: Seq<char>, b: Seq<char>, c: Seq<char>)
    requires
        a.is_prefix_of(c),
        a == b,
    ensures
        b.is_prefix_of(c),
{
}

/// Every drawing begins with `<w:drawing>` and its frame's start tag.
#[verifier::spinoff_prover]
proof fn lemma_drawing_opening(data: DrawingData)
    ensures
        ("<w:drawing>"@ + start_tag(frame_tag(data_placement(data)), frame_attrs(
            data_placement(data),
        ))).is_prefix_of(render_node(drawing_node(data))),
{
    let pl = data_placement(data);
    let out = render_node(drawing_node(data));
    let open = start_tag(frame_tag(pl), frame_attrs(pl));
    let positions = render_nodes(frame_positions(pl));
    let lead = extent_markup(pl) + effect_extent_markup() + wrap_markup(pl)
        + "<wp:docPr id=\"1\" name=\""@;
    assert(("<w:drawing>"@ + open + positions + lead).is_prefix_of(out)) by {
        lemma_frame_lead(data);
    }
    assert(("<w:drawing>"@ + open) + (positions + lead) =~= "<w:drawing>"@ + open + positions
        + lead);
    lemma_prefix_of_prefix("<w:drawing>"@ + open, positions + lead, out);
}

/// Every drawing names what it shows and says what kind of graphic data it
/// holds: a picture is named `Figure` and holds picture data, a text box is
/// named `Text Box` and holds word-processing-shape data.
pub proof fn lemma_drawing_kind(data: DrawingData)
    ensures
        occurs(
            "<wp:docPr id=\"1\" name=\""@ + (match data {
                DrawingData::Pic(_) => "Figure"@,
                DrawingData::TextBox(_) => "Text Box"@,
            }) + "\" />"@,
            render_node(drawing_node(data)),
        ),
        occurs(
            "<a:graphicData uri=\""@ + (match data {
                DrawingData::Pic(_) => "http://schemas.openxmlformats.org/drawingml/2006/picture"@,
                DrawingData::TextBox(_) => "http://schemas.microsoft.com/office/word/2010/wordprocessingShape"@,
            }) + "\">"@,
            render_node(drawing_node(data)),
        ),
{
    let name = data_doc_name(data);
    let uri = data_uri(data);
    lemma_names_plain(data);
    lemma_doc_pr_written(name);
    lemma_graphic_data_start_written(uri);
    lemma_kind_in_drawing(data);
}

#[verifier::spinoff_prover]
proof fn lemma_doc_pr_written(name: Seq<char>)
    requires
        forall|k: int| 0 <= k < name.len() ==> is_plain_char(#[trigger] name[k]),
    ensures
        render_node(frame_properties(name)[0]) == "<wp:docPr id=\"1\" name=\""@ + name + "\" />"@,
{
    let d = "<wp:docPr id=\"1\" name=\""@ + name + "\" />"@;
    let e: Seq<(Seq<char>, Seq<char>)> = seq![];
    assert(render_attrs(e) =~= seq![]);
    lemma_escape_plain(name, true);
    reveal_strlit("1");
    assert(forall|k: int| 0 <= k < "1"@.len() ==> is_plain_char(#[trigger] "1"@[k]));
    lemma_escape_plain("1"@, true);
    lemma_render_attrs_push(e, ("id"@, "1"@));
    lemma_render_attrs_push(e.push(("id"@, "1"@)), ("name"@, name));
    assert(e.push(("id"@, "1"@)).push(("name"@, name)) =~= seq![("id"@, "1"@), ("name"@, name)]);
    reveal_strlit("<");
    reveal_strlit(" />");
    reveal_strlit(" ");
    reveal_strlit("=\"");
    reveal_strlit("\"");
    reveal_strlit("id");
    reveal_strlit("name");
    reveal_strlit("wp:docPr");
    reveal_strlit("<wp:docPr id=\"1\" name=\"");
    reveal_strlit("\" />");
    assert(render_node(frame_properties(name)[0]) =~= d);
}

#[verifier::spinoff_prover]
proof fn lemma_graphic_data_start_written(uri: Seq<char>)
    requires
        forall|k: int| 0 <= k < uri.len() ==> is_plain_char(#[trigger] uri[k]),
    ensures
        start_tag("a:graphicData"@, seq![("uri"@, uri)]) == "<a:graphicData uri=\""@ + uri + "\">"@,
{
    let e: Seq<(Seq<char>, Seq<char>)> = seq![];
    assert(render_attrs(e) =~= seq![]);
    lemma_escape_plain(uri, true);
    lemma_render_attrs_push(e, ("uri"@, uri));
    assert(e.push(("uri"@, uri)) =~= seq![("uri"@, uri)]);
    reveal_strlit("<");
    reveal_strlit(">");
    reveal_strlit(" ");
    reveal_strlit("=\"");
    reveal_strlit("\"");
    reveal_strlit("uri");
    reveal_strlit("a:graphicData");
    reveal_strlit("<a:graphicData uri=\"");
    reveal_strlit("\">");
    assert(start_tag("a:graphicData"@, seq![("uri"@, uri)]) =~= "<a:graphicData uri=\""@ + uri
        + "\">"@);
}

#[verifier::spinoff_prover]
proof fn lemma_kind_in_drawing(data: DrawingData)
    ensures
        occurs(
            render_node(frame_properties(data_doc_name(data))[0]),
            render_node(drawing_node(data)),
        ),
        occurs(
            start_tag("a:graphicData"@, seq![("uri"@, data_uri(data))]),
            render_node(drawing_node(data)),
        ),
{
    let pl = data_placement(data);
    let out = render_node(drawing_node(data));
    let name = data_doc_name(data);
    let uri = data_uri(data);
    let content = data_content(data);
    let props = frame_properties(name);
    let d = render_node(props[0]);
    let g = start_tag("a:graphicData"@, seq![("uri"@, uri)]);
    let tail = frame_tail(pl, name, uri, content);
    let x = "<w:drawing>"@ + ("<"@ + frame_tag(pl) + render_attrs(frame_attrs(pl)) + ">"@)
        + render_nodes(frame_lead(pl));
    assert(occurs(tail, out)) by {
        lemma_drawing_pieces(data);
        lemma_occurs_between(x, tail, "</w:drawing>"@);
    }
    let rp = render_nodes(props);
    let gs = start_tag("a:graphic"@, seq![("xmlns:a"@, drawing_main_ns())]);
    let rest = render_nodes(content) + end_tag("a:graphicData"@) + end_tag("a:graphic"@) + end_tag(
        frame_tag(pl),
    );
    assert(tail == rp + gs + g + render_nodes(content) + end_tag("a:graphicData"@) + end_tag(
        "a:graphic"@,
    ) + end_tag(frame_tag(pl))) by {
        reveal(frame_tail);
    }
    let e: Seq<char> = seq![];
    assert(occurs(rp, tail)) by {
        assert(tail =~= e + rp + (gs + g + rest));
        lemma_occurs_between(e, rp, gs + g + rest);
    }
    assert(occurs(d, rp)) by {
        lemma_render_nodes_two(props[0], props[1]);
        assert(props =~= seq![props[0], props[1]]);
        assert(rp =~= e + d + render_node(props[1]));
        lemma_occurs_between(e, d, render_node(props[1]));
    }
    assert(occurs(g, tail)) by {
        assert(tail =~= (rp + gs) + g + rest);
        lemma_occurs_between(rp + gs, g, rest);
    }
    lemma_occurs_trans(d, rp, tail);
    lemma_occurs_trans(d, tail, out);
    lemma_occurs_trans(g, tail, out);
}

/// The name and the kind of graphic data of every drawing are left as they
/// are by escaping.
#[verifier::spinoff_prover]
proof fn lemma_names_plain(data: DrawingData)
    ensures
        forall|k: int| 0 <= k < data_doc_name(data).len() ==> is_plain_char(
            #[trigger] data_doc_name(data)[k],
        ),
        forall|k: int| 0 <= k < data_uri(data).len() ==> is_plain_char(#[trigger] data_uri(data)[k]),
        data_doc_name(data) == (match data {
            DrawingData::Pic(_) => "Figure"@,
            DrawingData::TextBox(_) => "Text Box"@,
        }),
        data_uri(data) == (match data {
            DrawingData::Pic(_) => "http://schemas.openxmlformats.org/drawingml/2006/picture"@,
            DrawingData::TextBox(_) => "http://schemas.microsoft.com/office/word/2010/wordprocessingShape"@,
        }),
{
    reveal_strlit("Figure");
    reveal_strlit("Text Box");
    reveal_strlit("http://schemas.openxmlformats.org/drawingml/2006/picture");
    reveal_strlit("http://schemas.microsoft.com/office/word/2010/wordprocessingShape");
    let n = data_doc_name(data);
    let u = data_uri(data);
    match data {
        DrawingData::Pic(_) => {},
        DrawingData::TextBox(_) => {},
    }
    assert forall|k: int| 0 <= k < n.len() implies is_plain_char(#[trigger] n[k]) by {}
    assert forall|k: int| 0 <= k < u.len() implies is_plain_char(#[trigger] u[k]) by {}
}

/// Every drawing in line with the text begins `<w:drawing><wp:inline`, the
/// four distances, and directly the extent element.
#[verifier::spinoff_prover]
pub proof fn lemma_inline_opening(data: DrawingData)
    requires
        data_placement(data).position_type is Inline,
    ensures
        ("<w:drawing><wp:inline"@ + dist_markup(data_placement(data)) + "><wp:extent "@).is_prefix_of(
            render_node(drawing_node(data)),
        ),
{
    let pl = data_placement(data);
    lemma_frame_outline(data);
    assert(frame_tag(pl) == "wp:inline"@);
    lemma_inline_opening_text(dist_markup(pl));
    lemma_prefix_eq(
        "<w:drawing><"@ + frame_tag(pl) + dist_markup(pl) + "><wp:extent "@,
        "<w:drawing><wp:inline"@ + dist_markup(pl) + "><wp:extent "@,
        render_node(drawing_node(data)),
    );
}

proof fn lemma_inline_opening_text(d: Seq<char>)
    ensures
        "<w:drawing><"@ + "wp:inline"@ + d + "><wp:extent "@ == "<w:drawing><wp:inline"@ + d
            + "><wp:extent "@,
{
    reveal_strlit("<w:drawing><");
    reveal_strlit("wp:inline");
    reveal_strlit("<w:drawing><wp:inline");
    assert("<w:drawing><"@ + "wp:inline"@ + d + "><wp:extent "@ =~= "<w:drawing><wp:inline"@ + d
        + "><wp:extent "@);
}

impl Default for Drawing {
    fn default() -> (d: Drawing)
        ensures
            d.data is None,
    {
        Drawing { data: None }
    }
}

} // verus!
