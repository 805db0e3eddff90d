//! The frame that places a drawing on the page: `wp:inline` or `wp:anchor`,
//! with its position, size, wrapping and frame properties.
//!
//! Pictures and text boxes are placed alike; only the name given in
//! `wp:docPr` and the graphic inside the frame tell them apart.

use vstd::prelude::*;
use crate::decimal::{
    dec_int, dec_nat, format_signed, format_unsigned, lemma_dec_int_chars, lemma_dec_nat_digits,
};
use crate::position::{
    DrawingPosition, DrawingPositionType, RelativeFromHType, RelativeFromVType,
    lemma_words_plain, pic_align_name, relative_from_h_name, relative_from_v_name, PicAlign,
};
use crate::xml::{
    attrs_view, elem, end_tag, escape, is_plain_char, leaf, lemma_escape_lt_free,
    lemma_escape_plain, lemma_render_attrs_concat,
    lemma_render_attrs_lt_free, lemma_render_attrs_push, lemma_render_nodes_push, lemma_render_nodes_single,
    lemma_render_nodes_three, lemma_render_nodes_two, lt_free, render_attrs, render_node,
    render_nodes, start_tag, text_elem, write_end, write_leaf, write_start, write_text_element,
    Attr, XmlNode,
};

verus! {

/// The namespace of DrawingML.
pub open spec fn drawing_main_ns() -> Seq<char> {
    "http://schemas.openxmlformats.org/drawingml/2006/main"@
}

/// Where and how a drawing stands on the page. Sizes, distances and offsets
/// are in EMU.
#[derive(Clone, Copy, Debug)]
pub struct Placement {
    pub size: (u32, u32),
    pub position_type: DrawingPositionType,
    pub simple_pos: bool,
    pub simple_pos_x: i32,
    pub simple_pos_y: i32,
    pub layout_in_cell: bool,
    pub relative_height: u32,
    pub allow_overlap: bool,
    pub position_h: DrawingPosition,
    pub position_v: DrawingPosition,
    pub relative_from_h: RelativeFromHType,
    pub relative_from_v: RelativeFromVType,
    pub dist_t: i32,
    pub dist_b: i32,
    pub dist_l: i32,
    pub dist_r: i32,
}

/// `1` for true, `0` for false.
pub open spec fn flag(b: bool) -> Seq<char> {
    if b {
        "1"@
    } else {
        "0"@
    }
}

/// The tag of the frame: `wp:inline` in line with text, `wp:anchor` otherwise.
pub open spec fn frame_tag(pl: Placement) -> Seq<char> {
    match pl.position_type {
        DrawingPositionType::Inline => "wp:inline"@,
        DrawingPositionType::Anchor => "wp:anchor"@,
    }
}

/// The distances from the surrounding text.
pub open spec fn dist_attrs(pl: Placement) -> Seq<(Seq<char>, Seq<char>)> {
    seq![
        ("distT"@, dec_int(pl.dist_t as int)),
        ("distB"@, dec_int(pl.dist_b as int)),
        ("distL"@, dec_int(pl.dist_l as int)),
        ("distR"@, dec_int(pl.dist_r as int)),
    ]
}

/// The attributes of an anchored frame. `simplePos`, `behindDoc` and
/// `locked` are always `0`; `allowOverlap` carries the simple-position flag
/// and `layoutInCell` the layout-in-cell flag.
pub open spec fn anchor_attrs(pl: Placement) -> Seq<(Seq<char>, Seq<char>)> {
    dist_attrs(pl) + seq![
        ("simplePos"@, "0"@),
        ("allowOverlap"@, flag(pl.simple_pos)),
        ("behindDoc"@, "0"@),
        ("locked"@, "0"@),
        ("layoutInCell"@, flag(pl.layout_in_cell)),
        ("relativeHeight"@, dec_nat(pl.relative_height as nat)),
    ]
}

/// The attributes of the frame.
pub open spec fn frame_attrs(pl: Placement) -> Seq<(Seq<char>, Seq<char>)> {
    match pl.position_type {
        DrawingPositionType::Inline => dist_attrs(pl),
        DrawingPositionType::Anchor => anchor_attrs(pl),
    }
}

/// The content of a position element: an offset (written as the unsigned
/// 32-bit number with the same bits) or an alignment.
pub open spec fn position_value_node(pos: DrawingPosition) -> XmlNode {
    match pos {
        DrawingPosition::Offset(x) => text_elem("wp:posOffset"@, dec_nat((x as u32) as nat)),
        DrawingPosition::Align(a) => text_elem("wp:align"@, pic_align_name(a)),
    }
}

/// A position element along one axis.
pub open spec fn position_node(
    tag: Seq<char>,
    relative_from: Seq<char>,
    pos: DrawingPosition,
) -> XmlNode {
    elem(tag, seq![("relativeFrom"@, relative_from)], seq![position_value_node(pos)])
}

/// The simple position and the two axis positions of an anchored frame.
pub open spec fn anchor_position_nodes(pl: Placement) -> Seq<XmlNode> {
    seq![
        leaf(
            "wp:simplePos"@,
            seq![("x"@, dec_int(pl.simple_pos_x as int)), ("y"@, dec_int(pl.simple_pos_y as int))],
        ),
        position_node(
            "wp:positionH"@,
            relative_from_h_name(pl.relative_from_h),
            pl.position_h,
        ),
        position_node(
            "wp:positionV"@,
            relative_from_v_name(pl.relative_from_v),
            pl.position_v,
        ),
    ]
}

/// The extent (the size of the drawing) and an effect extent of zero.
pub open spec fn size_nodes(pl: Placement) -> Seq<XmlNode> {
    seq![
        leaf("wp:extent"@, seq![("cx"@, dec_nat(pl.size.0 as nat)), ("cy"@, dec_nat(pl.size.1 as nat))]),
        leaf(
            "wp:effectExtent"@,
            seq![("b"@, "0"@), ("l"@, "0"@), ("r"@, "0"@), ("t"@, "0"@)],
        ),
    ]
}

/// The wrapping: none at all when the drawing may overlap text; around both
/// sides of an anchored drawing that may not; no element for an inline one
/// that may not.
pub open spec fn wrap_nodes(pl: Placement) -> Seq<XmlNode> {
    if pl.allow_overlap {
        seq![leaf("wp:wrapNone"@, seq![])]
    } else if pl.position_type is Anchor {
        seq![leaf("wp:wrapSquare"@, seq![("wrapText"@, "bothSides"@)])]
    } else {
        seq![]
    }
}

/// What stands in the frame before its properties: the positions of an
/// anchored frame, the size, the wrapping.
pub open spec fn frame_lead(pl: Placement) -> Seq<XmlNode> {
    frame_positions(pl) + size_nodes(pl) + wrap_nodes(pl)
}

/// The positions of an anchored frame; none for an inline one.
pub open spec fn frame_positions(pl: Placement) -> Seq<XmlNode> {
    if pl.position_type is Anchor {
        anchor_position_nodes(pl)
    } else {
        seq![]
    }
}

/// The frame properties: the drawing's id (always 1) and name, and locked
/// aspect ratio.
pub open spec fn frame_properties(doc_name: Seq<char>) -> Seq<XmlNode> {
    seq![
        leaf("wp:docPr"@, seq![("id"@, "1"@), ("name"@, doc_name)]),
        elem(
            "wp:cNvGraphicFramePr"@,
            seq![],
            seq![
                leaf(
                    "a:graphicFrameLocks"@,
                    seq![("xmlns:a"@, drawing_main_ns()), ("noChangeAspect"@, "1"@)],
                ),
            ],
        ),
    ]
}

/// The graphic of a frame: graphic data of the given kind holding `content`.
pub open spec fn graphic_node(data_uri: Seq<char>, content: Seq<XmlNode>) -> XmlNode {
    elem(
        "a:graphic"@,
        seq![("xmlns:a"@, drawing_main_ns())],
        seq![elem("a:graphicData"@, seq![("uri"@, data_uri)], content)],
    )
}

/// The frame that places a graphic named `doc_name`.
pub open spec fn frame_node(pl: Placement, doc_name: Seq<char>, graphic: XmlNode) -> XmlNode {
    elem(
        frame_tag(pl),
        frame_attrs(pl),
        frame_lead(pl) + frame_properties(doc_name) + seq![graphic],
    )
}

/// Writing two sequences of nodes one after the other writes their
/// concatenation.
pub proof fn lemma_render_nodes_concat(a: Seq<XmlNode>, b: Seq<XmlNode>)
    ensures
        render_nodes(a + b) == render_nodes(a) + render_nodes(b),
    decreases b.len(),
{
    if b.len() == 0 {
        assert(a + b =~= a);
        assert(render_nodes(a) + render_nodes(b) =~= render_nodes(a));
    } else {
        lemma_render_nodes_concat(a, b.drop_last());
        assert((a + b).drop_last() =~= a + b.drop_last());
        assert((a + b).last() == b.last());
        assert(render_nodes(a + b) =~= render_nodes(a) + render_nodes(b));
    }
}

fn flag_str(b: bool) -> (s: &'static str)
    ensures
        s@ == flag(b),
{
    if b {
        "1"
    } else {
        "0"
    }
}

fn write_position(
    out: &mut String,
    tag: &'static str,
    relative_from: &'static str,
    pos: DrawingPosition,
)
    ensures
        final(out)@ == old(out)@ + render_node(position_node(tag@, relative_from@, pos)),
{
    let attrs = vec![Attr::new("relativeFrom", String::from_str(relative_from))];
    assert(attrs_view(attrs@) =~= seq![("relativeFrom"@, relative_from@)]);
    write_start(out, tag, &attrs);
    let ghost mid = out@;
    match pos {
        DrawingPosition::Offset(x) => {
            let v = format_unsigned(x as u32 as u64);
            write_text_element(out, "wp:posOffset", v.as_str());
        },
        DrawingPosition::Align(a) => {
            write_text_element(out, "wp:align", a.name());
        },
    }
    assert(out@ == mid + render_node(position_value_node(pos)));
    write_end(out, tag);
    proof {
        lemma_render_nodes_single(position_value_node(pos));
    }
    assert(final(out)@ =~= old(out)@ + render_node(position_node(tag@, relative_from@, pos)));
}

fn write_anchor_positions(out: &mut String, pl: &Placement)
    ensures
        final(out)@ == old(out)@ + render_nodes(anchor_position_nodes(*pl)),
{
    let ghost base = out@;
    let ghost nodes = anchor_position_nodes(*pl);
    let attrs = vec![
        Attr::new("x", format_signed(pl.simple_pos_x as i64)),
        Attr::new("y", format_signed(pl.simple_pos_y as i64)),
    ];
    assert(attrs_view(attrs@) =~= seq![
        ("x"@, dec_int(pl.simple_pos_x as int)),
        ("y"@, dec_int(pl.simple_pos_y as int)),
    ]);
    write_leaf(out, "wp:simplePos", &attrs);
    write_position(out, "wp:positionH", pl.relative_from_h.name(), pl.position_h);
    write_position(out, "wp:positionV", pl.relative_from_v.name(), pl.position_v);
    proof {
        let empty: Seq<XmlNode> = seq![];
        lemma_render_nodes_push(empty, nodes[0]);
        lemma_render_nodes_push(empty.push(nodes[0]), nodes[1]);
        lemma_render_nodes_push(empty.push(nodes[0]).push(nodes[1]), nodes[2]);
        assert(empty.push(nodes[0]).push(nodes[1]).push(nodes[2]) =~= nodes);
        assert(render_nodes(empty) =~= seq![]);
    }
    assert(final(out)@ =~= base + render_nodes(nodes));
}

fn write_size(out: &mut String, pl: &Placement)
    ensures
        final(out)@ == old(out)@ + render_nodes(size_nodes(*pl)),
{
    let ghost base = out@;
    let ghost nodes = size_nodes(*pl);
    let extent = vec![
        Attr::new("cx", format_unsigned(pl.size.0 as u64)),
        Attr::new("cy", format_unsigned(pl.size.1 as u64)),
    ];
    assert(attrs_view(extent@) =~= seq![
        ("cx"@, dec_nat(pl.size.0 as nat)),
        ("cy"@, dec_nat(pl.size.1 as nat)),
    ]);
    write_leaf(out, "wp:extent", &extent);
    let effect = vec![
        Attr::new("b", String::from_str("0")),
        Attr::new("l", String::from_str("0")),
        Attr::new("r", String::from_str("0")),
        Attr::new("t", String::from_str("0")),
    ];
    assert(attrs_view(effect@) =~= seq![("b"@, "0"@), ("l"@, "0"@), ("r"@, "0"@), ("t"@, "0"@)]);
    write_leaf(out, "wp:effectExtent", &effect);
    proof {
        let empty: Seq<XmlNode> = seq![];
        lemma_render_nodes_push(empty, nodes[0]);
        lemma_render_nodes_push(empty.push(nodes[0]), nodes[1]);
        assert(empty.push(nodes[0]).push(nodes[1]) =~= nodes);
        assert(render_nodes(empty) =~= seq![]);
    }
    assert(final(out)@ =~= base + render_nodes(nodes));
}

fn write_wrap(out: &mut String, pl: &Placement)
    ensures
        final(out)@ == old(out)@ + render_nodes(wrap_nodes(*pl)),
{
    if pl.allow_overlap {
        let no_attrs: Vec<Attr> = Vec::new();
        assert(attrs_view(no_attrs@) =~= seq![]);
        write_leaf(out, "wp:wrapNone", &no_attrs);
        proof {
            lemma_render_nodes_single(leaf("wp:wrapNone"@, seq![]));
        }
    } else {
        match pl.position_type {
            DrawingPositionType::Anchor => {
                let attrs = vec![Attr::new("wrapText", String::from_str("bothSides"))];
                assert(attrs_view(attrs@) =~= seq![("wrapText"@, "bothSides"@)]);
                write_leaf(out, "wp:wrapSquare", &attrs);
                proof {
                    lemma_render_nodes_single(
                        leaf("wp:wrapSquare"@, seq![("wrapText"@, "bothSides"@)]),
                    );
                }
            },
            DrawingPositionType::Inline => {
                let ghost empty: Seq<XmlNode> = seq![];
                assert(render_nodes(empty) =~= seq![]);
                assert(final(out)@ =~= old(out)@ + render_nodes(wrap_nodes(*pl)));
            },
        }
    }
}

/// Appends the start tag of the frame and what stands in it before the frame
/// properties.
pub fn write_frame_start(out: &mut String, pl: &Placement)
    ensures
        final(out)@ == old(out)@ + start_tag(frame_tag(*pl), frame_attrs(*pl)) + render_nodes(
            frame_lead(*pl),
        ),
{
    let ghost base = out@;
    let mut attrs = vec![
        Attr::new("distT", format_signed(pl.dist_t as i64)),
        Attr::new("distB", format_signed(pl.dist_b as i64)),
        Attr::new("distL", format_signed(pl.dist_l as i64)),
        Attr::new("distR", format_signed(pl.dist_r as i64)),
    ];
    assert(attrs_view(attrs@) =~= dist_attrs(*pl));
    let tag = match pl.position_type {
        DrawingPositionType::Inline => "wp:inline",
        DrawingPositionType::Anchor => {
            attrs.push(Attr::new("simplePos", String::from_str("0")));
            attrs.push(Attr::new("allowOverlap", String::from_str(flag_str(pl.simple_pos))));
            attrs.push(Attr::new("behindDoc", String::from_str("0")));
            attrs.push(Attr::new("locked", String::from_str("0")));
            attrs.push(Attr::new("layoutInCell", String::from_str(flag_str(pl.layout_in_cell))));
            attrs.push(Attr::new("relativeHeight", format_unsigned(pl.relative_height as u64)));
            assert(attrs_view(attrs@) =~= anchor_attrs(*pl));
            "wp:anchor"
        },
    };
    assert(attrs_view(attrs@) == frame_attrs(*pl));
    assert(tag@ == frame_tag(*pl));
    write_start(out, tag, &attrs);
    let ghost after_start = out@;
    let ghost positions: Seq<XmlNode> = if pl.position_type is Anchor {
        anchor_position_nodes(*pl)
    } else {
        seq![]
    };
    match pl.position_type {
        DrawingPositionType::Anchor => {
            write_anchor_positions(out, pl);
        },
        DrawingPositionType::Inline => {
            assert(render_nodes(positions) =~= seq![]);
            assert(out@ =~= after_start + render_nodes(positions));
        },
    }
    write_size(out, pl);
    write_wrap(out, pl);
    proof {
        lemma_render_nodes_concat(positions, size_nodes(*pl));
        lemma_render_nodes_concat(positions + size_nodes(*pl), wrap_nodes(*pl));
    }
    assert(final(out)@ =~= base + start_tag(frame_tag(*pl), frame_attrs(*pl)) + render_nodes(
        frame_lead(*pl),
    ));
}

/// Appends the frame properties.
pub fn write_frame_properties(out: &mut String, doc_name: &'static str)
    ensures
        final(out)@ == old(out)@ + render_nodes(frame_properties(doc_name@)),
{
    let ghost base = out@;
    let ghost nodes = frame_properties(doc_name@);
    let doc_pr = vec![
        Attr::new("id", String::from_str("1")),
        Attr::new("name", String::from_str(doc_name)),
    ];
    assert(attrs_view(doc_pr@) =~= seq![("id"@, "1"@), ("name"@, doc_name@)]);
    write_leaf(out, "wp:docPr", &doc_pr);
    let ghost after_doc_pr = out@;
    let no_attrs: Vec<Attr> = Vec::new();
    assert(attrs_view(no_attrs@) =~= seq![]);
    write_start(out, "wp:cNvGraphicFramePr", &no_attrs);
    let locks = vec![
        Attr::new(
            "xmlns:a",
            String::from_str("http://schemas.openxmlformats.org/drawingml/2006/main"),
        ),
        Attr::new("noChangeAspect", String::from_str("1")),
    ];
    assert(attrs_view(locks@) =~= seq![("xmlns:a"@, drawing_main_ns()), ("noChangeAspect"@, "1"@)]);
    write_leaf(out, "a:graphicFrameLocks", &locks);
    write_end(out, "wp:cNvGraphicFramePr");
    proof {
        lemma_render_nodes_single(
            leaf(
                "a:graphicFrameLocks"@,
                seq![("xmlns:a"@, drawing_main_ns()), ("noChangeAspect"@, "1"@)],
            ),
        );
        let empty: Seq<XmlNode> = seq![];
        lemma_render_nodes_push(empty, nodes[0]);
        lemma_render_nodes_push(empty.push(nodes[0]), nodes[1]);
        assert(empty.push(nodes[0]).push(nodes[1]) =~= nodes);
        assert(render_nodes(empty) =~= seq![]);
        assert(out@ =~= after_doc_pr + render_node(nodes[1]));
    }
    assert(final(out)@ =~= base + render_nodes(nodes));
}

/// Appends the start of the graphic: `a:graphic` and `a:graphicData` of the
/// given kind.
pub fn write_graphic_start(out: &mut String, data_uri: &'static str)
    ensures
        final(out)@ == old(out)@ + start_tag("a:graphic"@, seq![("xmlns:a"@, drawing_main_ns())])
            + start_tag("a:graphicData"@, seq![("uri"@, data_uri@)]),
{
    let graphic = vec![
        Attr::new(
            "xmlns:a",
            String::from_str("http://schemas.openxmlformats.org/drawingml/2006/main"),
        ),
    ];
    assert(attrs_view(graphic@) =~= seq![("xmlns:a"@, drawing_main_ns())]);
    write_start(out, "a:graphic", &graphic);
    let data = vec![Attr::new("uri", String::from_str(data_uri))];
    assert(attrs_view(data@) =~= seq![("uri"@, data_uri@)]);
    write_start(out, "a:graphicData", &data);
    assert(final(out)@ =~= old(out)@ + start_tag("a:graphic"@, seq![("xmlns:a"@, drawing_main_ns())])
        + start_tag("a:graphicData"@, seq![("uri"@, data_uri@)]));
}

/// Appends the end of the graphic.
pub fn write_graphic_end(out: &mut String)
    ensures
        final(out)@ == old(out)@ + end_tag("a:graphicData"@) + end_tag("a:graphic"@),
{
    write_end(out, "a:graphicData");
    write_end(out, "a:graphic");
    assert(final(out)@ =~= old(out)@ + end_tag("a:graphicData"@) + end_tag("a:graphic"@));
}

/// The tag of the frame.
pub fn frame_tag_str(pl: &Placement) -> (s: &'static str)
    ensures
        s@ == frame_tag(*pl),
{
    match pl.position_type {
        DrawingPositionType::Inline => "wp:inline",
        DrawingPositionType::Anchor => "wp:anchor",
    }
}

/// The characters that begin a frame: its start tag and what stands before
/// the frame properties.
#[verifier::opaque]
pub open spec fn frame_head(pl: Placement) -> Seq<char> {
    start_tag(frame_tag(pl), frame_attrs(pl)) + render_nodes(frame_lead(pl))
}

/// The characters that end a frame: the properties, the graphic around its
/// content, and the end tag.
#[verifier::opaque]
pub open spec fn frame_tail(
    pl: Placement,
    doc_name: Seq<char>,
    data_uri: Seq<char>,
    content: Seq<XmlNode>,
) -> Seq<char> {
    render_nodes(frame_properties(doc_name)) + start_tag(
        "a:graphic"@,
        seq![("xmlns:a"@, drawing_main_ns())],
    ) + start_tag("a:graphicData"@, seq![("uri"@, data_uri)]) + render_nodes(content) + end_tag(
        "a:graphicData"@,
    ) + end_tag("a:graphic"@) + end_tag(frame_tag(pl))
}

/// The characters of a frame are its head followed by its tail.
pub proof fn lemma_frame_render(
    pl: Placement,
    doc_name: Seq<char>,
    data_uri: Seq<char>,
    content: Seq<XmlNode>,
)
    requires
        content.len() > 0,
    ensures
        render_node(frame_node(pl, doc_name, graphic_node(data_uri, content))) == frame_head(pl)
            + frame_tail(pl, doc_name, data_uri, content),
{
    let data = elem("a:graphicData"@, seq![("uri"@, data_uri)], content);
    let g = graphic_node(data_uri, content);
    lemma_render_nodes_single(data);
    lemma_render_nodes_concat(frame_lead(pl), frame_properties(doc_name));
    lemma_render_nodes_concat(frame_lead(pl) + frame_properties(doc_name), seq![g]);
    lemma_render_nodes_single(g);
    let kids = frame_lead(pl) + frame_properties(doc_name) + seq![g];
    assert(kids.len() > 0);
    assert(render_node(frame_node(pl, doc_name, g)) == start_tag(frame_tag(pl), frame_attrs(pl))
        + render_nodes(kids) + end_tag(frame_tag(pl)));
    reveal(frame_head);
    reveal(frame_tail);
    assert(render_node(frame_node(pl, doc_name, g)) =~= frame_head(pl) + frame_tail(
        pl,
        doc_name,
        data_uri,
        content,
    ));
}

/// What the wrapping looks like: `<wp:wrapNone />` when the drawing may
/// overlap text; `<wp:wrapSquare wrapText="bothSides" />` when it is anchored
/// and may not; nothing when it is inline and may not.
pub proof fn lemma_wrap_markup(pl: Placement)
    ensures
        pl.allow_overlap ==> render_nodes(wrap_nodes(pl)) == "<wp:wrapNone />"@,
        !pl.allow_overlap && pl.position_type is Anchor ==> render_nodes(wrap_nodes(pl))
            == "<wp:wrapSquare wrapText=\"bothSides\" />"@,
        !pl.allow_overlap && pl.position_type is Inline ==> render_nodes(wrap_nodes(pl))
            == Seq::<char>::empty(),
{
    reveal_strlit("<");
    reveal_strlit(" />");
    reveal_strlit(" ");
    reveal_strlit("=\"");
    reveal_strlit("\"");
    reveal_strlit("wp:wrapNone");
    reveal_strlit("wp:wrapSquare");
    reveal_strlit("wrapText");
    reveal_strlit("bothSides");
    reveal_strlit("<wp:wrapNone />");
    reveal_strlit("<wp:wrapSquare wrapText=\"bothSides\" />");
    let none = leaf("wp:wrapNone"@, seq![]);
    let attrs = seq![("wrapText"@, "bothSides"@)];
    let square = leaf("wp:wrapSquare"@, attrs);
    lemma_render_nodes_single(none);
    lemma_render_nodes_single(square);
    let empty_attrs: Seq<(Seq<char>, Seq<char>)> = seq![];
    assert(render_attrs(empty_attrs) =~= seq![]);
    assert(attrs.drop_last() =~= empty_attrs);
    assert forall|i: int| 0 <= i < "bothSides"@.len() implies is_plain_char(
        #[trigger] "bothSides"@[i],
    ) by {}
    lemma_escape_plain("bothSides"@, true);
    if pl.allow_overlap {
        assert(render_node(none) =~= "<wp:wrapNone />"@);
    } else if pl.position_type is Anchor {
        reveal_strlit(" wrapText=\"bothSides\"");
        assert(render_attrs(attrs) =~= " wrapText=\"bothSides\""@);
        assert(render_node(square) =~= "<wp:wrapSquare wrapText=\"bothSides\" />"@);
    } else {
        let no_nodes: Seq<XmlNode> = seq![];
        assert(render_nodes(no_nodes) =~= seq![]);
    }
}

/// The distances from the surrounding text as they stand in the frame's
/// start tag.
pub open spec fn dist_markup(pl: Placement) -> Seq<char> {
    " distT=\""@ + dec_int(pl.dist_t as int) + "\" distB=\""@ + dec_int(pl.dist_b as int)
        + "\" distL=\""@ + dec_int(pl.dist_l as int) + "\" distR=\""@ + dec_int(pl.dist_r as int)
        + "\""@
}

/// Escaping leaves the notation of an integer as it is.
pub proof fn lemma_escape_dec_int(i: int, quote: bool)
    ensures
        escape(dec_int(i), quote) == dec_int(i),
{
    lemma_dec_int_chars(i);
    assert forall|k: int| 0 <= k < dec_int(i).len() implies is_plain_char(
        #[trigger] dec_int(i)[k],
    ) by {
        assert('0' <= dec_int(i)[k] <= '9' || dec_int(i)[k] == '-');
    }
    lemma_escape_plain(dec_int(i), quote);
}

/// Escaping leaves the notation of a natural number as it is.
pub proof fn lemma_escape_dec_nat(n: nat, quote: bool)
    ensures
        escape(dec_nat(n), quote) == dec_nat(n),
{
    lemma_dec_nat_digits(n);
    assert forall|k: int| 0 <= k < dec_nat(n).len() implies is_plain_char(
        #[trigger] dec_nat(n)[k],
    ) by {
        assert('0' <= dec_nat(n)[k] <= '9');
    }
    lemma_escape_plain(dec_nat(n), quote);
}

/// The distances are written as `dist_markup` says.
#[verifier::spinoff_prover]
#[verifier::rlimit(40)]
pub proof fn lemma_dist_markup(pl: Placement)
    ensures
        render_attrs(dist_attrs(pl)) == dist_markup(pl),
{
    let a = dist_attrs(pl);
    let e: Seq<(Seq<char>, Seq<char>)> = seq![];
    assert(a.drop_last() =~= seq![a[0], a[1], a[2]]);
    assert(seq![a[0], a[1], a[2]].drop_last() =~= seq![a[0], a[1]]);
    assert(seq![a[0], a[1]].drop_last() =~= seq![a[0]]);
    assert(seq![a[0]].drop_last() =~= e);
    assert(render_attrs(e) =~= seq![]);
    lemma_escape_dec_int(pl.dist_t as int, true);
    lemma_escape_dec_int(pl.dist_b as int, true);
    lemma_escape_dec_int(pl.dist_l as int, true);
    lemma_escape_dec_int(pl.dist_r as int, true);
    reveal_strlit(" ");
    reveal_strlit("=\"");
    reveal_strlit("\"");
    reveal_strlit("distT");
    reveal_strlit("distB");
    reveal_strlit("distL");
    reveal_strlit("distR");
    reveal_strlit(" distT=\"");
    reveal_strlit("\" distB=\"");
    reveal_strlit("\" distL=\"");
    reveal_strlit("\" distR=\"");
    let dt = dec_int(pl.dist_t as int);
    let db = dec_int(pl.dist_b as int);
    let dl = dec_int(pl.dist_l as int);
    let dr = dec_int(pl.dist_r as int);
    let a1 = seq![a[0]];
    let a2 = seq![a[0], a[1]];
    let a3 = seq![a[0], a[1], a[2]];
    assert(render_attrs(a1) == render_attrs(e) + " "@ + "distT"@ + "=\""@ + escape(dt, true)
        + "\""@);
    assert(render_attrs(a1) =~= " distT=\""@ + dt + "\""@);
    assert(render_attrs(a2) == render_attrs(a1) + " "@ + "distB"@ + "=\""@ + escape(db, true)
        + "\""@);
    assert(render_attrs(a2) =~= " distT=\""@ + dt + "\" distB=\""@ + db + "\""@);
    assert(render_attrs(a3) == render_attrs(a2) + " "@ + "distL"@ + "=\""@ + escape(dl, true)
        + "\""@);
    assert(render_attrs(a3) =~= " distT=\""@ + dt + "\" distB=\""@ + db + "\" distL=\""@ + dl
        + "\""@);
    assert(render_attrs(a) == render_attrs(a3) + " "@ + "distR"@ + "=\""@ + escape(dr, true)
        + "\""@);
    assert(render_attrs(a) =~= dist_markup(pl));
}

/// The extent element: the size of the drawing.
pub open spec fn extent_markup(pl: Placement) -> Seq<char> {
    "<wp:extent cx=\""@ + dec_nat(pl.size.0 as nat) + "\" cy=\""@ + dec_nat(pl.size.1 as nat)
        + "\" />"@
}

/// The effect extent element, always zero.
pub open spec fn effect_extent_markup() -> Seq<char> {
    "<wp:effectExtent b=\"0\" l=\"0\" r=\"0\" t=\"0\" />"@
}

/// The wrapping element, if any.
pub open spec fn wrap_markup(pl: Placement) -> Seq<char> {
    if pl.allow_overlap {
        "<wp:wrapNone />"@
    } else if pl.position_type is Anchor {
        "<wp:wrapSquare wrapText=\"bothSides\" />"@
    } else {
        Seq::<char>::empty()
    }
}

/// The size is written as the extent, then the effect extent.
pub proof fn lemma_size_markup(pl: Placement)
    ensures
        render_nodes(size_nodes(pl)) == extent_markup(pl) + effect_extent_markup(),
{
    let c0 = dec_nat(pl.size.0 as nat);
    let c1 = dec_nat(pl.size.1 as nat);
    let ext_attrs = seq![("cx"@, c0), ("cy"@, c1)];
    let zero = "0"@;
    let eff_attrs = seq![("b"@, zero), ("l"@, zero), ("r"@, zero), ("t"@, zero)];
    let e: Seq<(Seq<char>, Seq<char>)> = seq![];
    lemma_render_nodes_two(leaf("wp:extent"@, ext_attrs), leaf("wp:effectExtent"@, eff_attrs));
    lemma_escape_dec_nat(pl.size.0 as nat, true);
    lemma_escape_dec_nat(pl.size.1 as nat, true);
    reveal_strlit("0");
    reveal_strlit(" ");
    reveal_strlit("=\"");
    reveal_strlit("\"");
    reveal_strlit("<");
    reveal_strlit(" />");
    reveal_strlit("cx");
    reveal_strlit("cy");
    reveal_strlit("b");
    reveal_strlit("l");
    reveal_strlit("r");
    reveal_strlit("t");
    reveal_strlit("wp:extent");
    reveal_strlit("wp:effectExtent");
    reveal_strlit("<wp:extent cx=\"");
    reveal_strlit("\" cy=\"");
    reveal_strlit("\" />");
    reveal_strlit("<wp:effectExtent b=\"0\" l=\"0\" r=\"0\" t=\"0\" />");
    assert(render_attrs(e) =~= seq![]);
    assert forall|k: int| 0 <= k < zero.len() implies is_plain_char(#[trigger] zero[k]) by {}
    lemma_escape_plain(zero, true);
    assert(ext_attrs.drop_last() =~= seq![("cx"@, c0)]);
    assert(seq![("cx"@, c0)].drop_last() =~= e);
    assert(render_attrs(seq![("cx"@, c0)]) =~= " "@ + "cx"@ + "=\""@ + c0 + "\""@);
    assert(render_attrs(ext_attrs) == render_attrs(seq![("cx"@, c0)]) + " "@ + "cy"@ + "=\""@
        + c1 + "\""@);
    assert(render_node(leaf("wp:extent"@, ext_attrs)) =~= extent_markup(pl));
    let b1 = seq![("b"@, zero)];
    let b2 = seq![("b"@, zero), ("l"@, zero)];
    let b3 = seq![("b"@, zero), ("l"@, zero), ("r"@, zero)];
    assert(eff_attrs.drop_last() =~= b3);
    assert(b3.drop_last() =~= b2);
    assert(b2.drop_last() =~= b1);
    assert(b1.drop_last() =~= e);
    assert(render_attrs(b1) =~= " "@ + "b"@ + "=\""@ + zero + "\""@);
    assert(render_attrs(b2) == render_attrs(b1) + " "@ + "l"@ + "=\""@ + zero + "\""@);
    assert(render_attrs(b3) == render_attrs(b2) + " "@ + "r"@ + "=\""@ + zero + "\""@);
    assert(render_attrs(eff_attrs) == render_attrs(b3) + " "@ + "t"@ + "=\""@ + zero + "\""@);
    assert(render_node(leaf("wp:effectExtent"@, eff_attrs)) =~= effect_extent_markup());
}

/// The wrapping is written as `wrap_markup` says.
pub proof fn lemma_wrap_nodes_markup(pl: Placement)
    ensures
        render_nodes(wrap_nodes(pl)) == wrap_markup(pl),
{
    lemma_wrap_markup(pl);
}

/// The attributes of a frame are written as the distances followed by what
/// the returned sequence holds (nothing for an inline frame).
pub proof fn lemma_frame_attrs_markup(pl: Placement) -> (extra: Seq<char>)
    ensures
        render_attrs(frame_attrs(pl)) == dist_markup(pl) + extra,
        pl.position_type is Inline ==> extra.len() == 0,
{
    lemma_dist_markup(pl);
    if pl.position_type is Anchor {
        let more = anchor_attrs(pl).skip(4);
        assert(anchor_attrs(pl) =~= dist_attrs(pl) + more);
        lemma_render_attrs_concat(dist_attrs(pl), more);
        render_attrs(more)
    } else {
        assert(dist_markup(pl) + Seq::<char>::empty() =~= dist_markup(pl));
        Seq::<char>::empty()
    }
}

/// A frame's tail ends with the frame's end tag.
pub proof fn lemma_frame_tail_end(
    pl: Placement,
    doc_name: Seq<char>,
    data_uri: Seq<char>,
    content: Seq<XmlNode>,
) -> (body: Seq<char>)
    ensures
        frame_tail(pl, doc_name, data_uri, content) == body + ("</"@ + frame_tag(pl) + ">"@),
{
    reveal(frame_tail);
    render_nodes(frame_properties(doc_name)) + start_tag(
        "a:graphic"@,
        seq![("xmlns:a"@, drawing_main_ns())],
    ) + start_tag("a:graphicData"@, seq![("uri"@, data_uri)]) + render_nodes(content) + end_tag(
        "a:graphicData"@,
    ) + end_tag("a:graphic"@)
}

/// What stands in an inline frame before its properties begins with the
/// extent element.
pub proof fn lemma_inline_lead(pl: Placement) -> (r: (Seq<char>, Seq<char>))
    requires
        pl.position_type is Inline,
    ensures
        render_nodes(frame_lead(pl)) == "<wp:extent cx=\""@ + r.0 + r.1,
{
    let empty: Seq<XmlNode> = seq![];
    assert(frame_lead(pl) == empty + size_nodes(pl) + wrap_nodes(pl));
    assert(empty + size_nodes(pl) =~= size_nodes(pl));
    lemma_render_nodes_concat(size_nodes(pl), wrap_nodes(pl));
    lemma_size_markup(pl);
    let args = dec_nat(pl.size.0 as nat) + "\" cy=\""@ + dec_nat(pl.size.1 as nat) + "\" />"@;
    let rest = effect_extent_markup() + render_nodes(wrap_nodes(pl));
    assert(render_nodes(frame_lead(pl)) =~= "<wp:extent cx=\""@ + args + rest);
    (args, rest)
}

/// Every `<` in `s` begins a tag whose first four characters stand within
/// `s` and are not `wp:e`: no tag `wp:e…` (such as `wp:extent`) opens in
/// `s`.
pub open spec fn no_wp_e_tag(s: Seq<char>) -> bool {
    forall|i: int|
        0 <= i < s.len() && #[trigger] s[i] == '<' ==> i + 4 < s.len() && !(s[i + 1] == 'w' && s[i
            + 2] == 'p' && s[i + 3] == ':' && s[i + 4] == 'e')
}

/// A tag name of at least four characters, without `<`, that does not begin
/// with `wp:e`.
pub open spec fn tag_name_ok(n: Seq<char>) -> bool {
    &&& n.len() >= 4
    &&& lt_free(n)
    &&& !(n[0] == 'w' && n[1] == 'p' && n[2] == ':' && n[3] == 'e')
}

/// Attribute names without `<`.
pub open spec fn attr_names_ok(attrs: Seq<(Seq<char>, Seq<char>)>) -> bool {
    forall|i: int| 0 <= i < attrs.len() ==> lt_free(#[trigger] attrs[i].0)
}

pub proof fn lemma_no_wp_e_concat(a: Seq<char>, b: Seq<char>)
    requires
        no_wp_e_tag(a),
        no_wp_e_tag(b),
    ensures
        no_wp_e_tag(a + b),
{
    let s = a + b;
    assert forall|i: int| 0 <= i < s.len() && #[trigger] s[i] == '<' implies i + 4 < s.len() && !(
    s[i + 1] == 'w' && s[i + 2] == 'p' && s[i + 3] == ':' && s[i + 4] == 'e') by {
        if i < a.len() {
            assert(a[i] == '<');
            assert(s[i + 1] == a[i + 1] && s[i + 2] == a[i + 2] && s[i + 3] == a[i + 3] && s[i + 4]
                == a[i + 4]);
        } else {
            let j = i - a.len();
            assert(b[j] == '<');
            assert(s[i + 1] == b[j + 1] && s[i + 2] == b[j + 2] && s[i + 3] == b[j + 3] && s[i + 4]
                == b[j + 4]);
        }
    }
}

proof fn lemma_lt_free_no_wp_e(s: Seq<char>)
    requires
        lt_free(s),
    ensures
        no_wp_e_tag(s),
{
    assert forall|i: int| 0 <= i < s.len() && #[trigger] s[i] == '<' implies false by {
        assert(s[i] != '<');
    }
}

proof fn lemma_lt_free_concat(a: Seq<char>, b: Seq<char>)
    requires
        lt_free(a),
        lt_free(b),
    ensures
        lt_free(a + b),
{
    assert forall|i: int| 0 <= i < (a + b).len() implies (a + b)[i] != '<' by {
        if i < a.len() {
            assert((a + b)[i] == a[i]);
        } else {
            assert((a + b)[i] == b[i - a.len()]);
        }
    }
}

/// A tag that opens with `<` and a good name, followed by no further `<`.
proof fn lemma_open_tag_no_wp_e(name: Seq<char>, rest: Seq<char>)
    requires
        tag_name_ok(name),
        lt_free(rest),
    ensures
        no_wp_e_tag("<"@ + name + rest),
{
    reveal_strlit("<");
    let s = "<"@ + name + rest;
    assert forall|i: int| 0 <= i < s.len() && #[trigger] s[i] == '<' implies i + 4 < s.len() && !(
    s[i + 1] == 'w' && s[i + 2] == 'p' && s[i + 3] == ':' && s[i + 4] == 'e') by {
        if i == 0 {
            assert(s[1] == name[0] && s[2] == name[1] && s[3] == name[2] && s[4] == name[3]);
        } else if i < 1 + name.len() {
            assert(s[i] == name[i - 1]);
        } else {
            assert(s[i] == rest[i - 1 - name.len()]);
        }
    }
}

proof fn lemma_start_tag_no_wp_e(name: Seq<char>, attrs: Seq<(Seq<char>, Seq<char>)>)
    requires
        tag_name_ok(name),
        attr_names_ok(attrs),
    ensures
        no_wp_e_tag(start_tag(name, attrs)),
        no_wp_e_tag(render_node(leaf(name, attrs))),
{
    lemma_render_attrs_lt_free(attrs);
    reveal_strlit(">");
    reveal_strlit(" />");
    lemma_lt_free_concat(render_attrs(attrs), ">"@);
    lemma_lt_free_concat(render_attrs(attrs), " />"@);
    lemma_open_tag_no_wp_e(name, render_attrs(attrs) + ">"@);
    lemma_open_tag_no_wp_e(name, render_attrs(attrs) + " />"@);
    assert(start_tag(name, attrs) =~= "<"@ + name + (render_attrs(attrs) + ">"@));
    assert(render_node(leaf(name, attrs)) =~= "<"@ + name + (render_attrs(attrs) + " />"@));
}

proof fn lemma_end_tag_no_wp_e(name: Seq<char>)
    requires
        name.len() >= 2,
        lt_free(name),
    ensures
        no_wp_e_tag(end_tag(name)),
{
    reveal_strlit("</");
    reveal_strlit(">");
    let s = end_tag(name);
    assert forall|i: int| 0 <= i < s.len() && #[trigger] s[i] == '<' implies i + 4 < s.len() && !(
    s[i + 1] == 'w' && s[i + 2] == 'p' && s[i + 3] == ':' && s[i + 4] == 'e') by {
        if i == 0 {
            assert(s[1] == '/');
        } else if i == 1 {
        } else if i < 2 + name.len() {
            assert(s[i] == name[i - 2]);
        } else {
        }
    }
}

proof fn lemma_position_no_wp_e(tag: Seq<char>, relative_from: Seq<char>, pos: DrawingPosition)
    requires
        tag_name_ok(tag),
    ensures
        no_wp_e_tag(render_node(position_node(tag, relative_from, pos))),
{
    reveal_strlit("relativeFrom");
    reveal_strlit("wp:posOffset");
    reveal_strlit("wp:align");
    let attrs = seq![("relativeFrom"@, relative_from)];
    lemma_start_tag_no_wp_e(tag, attrs);
    lemma_end_tag_no_wp_e(tag);
    let (inner, text) = match pos {
        DrawingPosition::Offset(x) => ("wp:posOffset"@, dec_nat((x as u32) as nat)),
        DrawingPosition::Align(a) => ("wp:align"@, pic_align_name(a)),
    };
    let empty: Seq<(Seq<char>, Seq<char>)> = seq![];
    lemma_start_tag_no_wp_e(inner, empty);
    lemma_end_tag_no_wp_e(inner);
    lemma_escape_lt_free(text, false);
    lemma_lt_free_no_wp_e(escape(text, false));
    let v = position_value_node(pos);
    assert(v == text_elem(inner, text));
    lemma_render_nodes_single(XmlNode::Text(text));
    assert(render_node(v) == start_tag(inner, empty) + escape(text, false) + end_tag(inner));
    lemma_no_wp_e_concat(start_tag(inner, empty), escape(text, false));
    lemma_no_wp_e_concat(start_tag(inner, empty) + escape(text, false), end_tag(inner));
    lemma_render_nodes_single(v);
    lemma_no_wp_e_concat(start_tag(tag, attrs), render_node(v));
    lemma_no_wp_e_concat(start_tag(tag, attrs) + render_node(v), end_tag(tag));
}

/// No tag `wp:e…` opens in the frame's start tag or in its positions.
pub proof fn lemma_frame_opening_no_wp_e(pl: Placement)
    ensures
        no_wp_e_tag(start_tag(frame_tag(pl), frame_attrs(pl)) + render_nodes(frame_positions(pl))),
{
    reveal_strlit("wp:inline");
    reveal_strlit("wp:anchor");
    reveal_strlit("distT");
    reveal_strlit("distB");
    reveal_strlit("distL");
    reveal_strlit("distR");
    reveal_strlit("simplePos");
    reveal_strlit("allowOverlap");
    reveal_strlit("behindDoc");
    reveal_strlit("locked");
    reveal_strlit("layoutInCell");
    reveal_strlit("relativeHeight");
    let attrs = frame_attrs(pl);
    assert(attr_names_ok(attrs)) by {
        assert forall|i: int| 0 <= i < attrs.len() implies lt_free(#[trigger] attrs[i].0) by {
            if pl.position_type is Anchor {
                assert(attrs == anchor_attrs(pl));
            }
        }
    }
    assert(tag_name_ok(frame_tag(pl)));
    lemma_start_tag_no_wp_e(frame_tag(pl), attrs);
    let positions = frame_positions(pl);
    if pl.position_type is Anchor {
        reveal_strlit("wp:simplePos");
        reveal_strlit("wp:positionH");
        reveal_strlit("wp:positionV");
        reveal_strlit("x");
        reveal_strlit("y");
        let sp_attrs = seq![("x"@, dec_int(pl.simple_pos_x as int)), ("y"@, dec_int(pl.simple_pos_y as int))];
        assert(attr_names_ok(sp_attrs));
        lemma_start_tag_no_wp_e("wp:simplePos"@, sp_attrs);
        lemma_position_no_wp_e("wp:positionH"@, relative_from_h_name(pl.relative_from_h), pl.position_h);
        lemma_position_no_wp_e("wp:positionV"@, relative_from_v_name(pl.relative_from_v), pl.position_v);
        lemma_render_nodes_three(positions[0], positions[1], positions[2]);
        assert(positions =~= seq![positions[0], positions[1], positions[2]]);
        lemma_no_wp_e_concat(render_node(positions[0]), render_node(positions[1]));
        lemma_no_wp_e_concat(render_node(positions[0]) + render_node(positions[1]), render_node(positions[2]));
    } else {
        let empty: Seq<XmlNode> = seq![];
        assert(positions =~= empty);
        assert(render_nodes(positions) =~= seq![]);
        lemma_lt_free_no_wp_e(render_nodes(positions));
    }
    lemma_no_wp_e_concat(start_tag(frame_tag(pl), attrs), render_nodes(positions));
}

/// The frame properties begin with the `wp:docPr` tag, its id and the start
/// of its name.
pub proof fn lemma_properties_start(doc_name: Seq<char>) -> (r: Seq<char>)
    ensures
        render_nodes(frame_properties(doc_name)) == "<wp:docPr id=\"1\" name=\""@ + r,
{
    let props = frame_properties(doc_name);
    lemma_render_nodes_two(props[0], props[1]);
    assert(props =~= seq![props[0], props[1]]);
    let attrs = seq![("id"@, "1"@), ("name"@, doc_name)];
    let e: Seq<(Seq<char>, Seq<char>)> = seq![];
    assert(attrs.drop_last() =~= seq![("id"@, "1"@)]);
    assert(seq![("id"@, "1"@)].drop_last() =~= e);
    assert(render_attrs(e) =~= seq![]);
    reveal_strlit("1");
    reveal_strlit("<");
    reveal_strlit(" ");
    reveal_strlit("=\"");
    reveal_strlit("\"");
    reveal_strlit("id");
    reveal_strlit("name");
    reveal_strlit("wp:docPr");
    reveal_strlit("<wp:docPr id=\"1\" name=\"");
    assert forall|k: int| 0 <= k < "1"@.len() implies is_plain_char(#[trigger] "1"@[k]) by {}
    lemma_escape_plain("1"@, true);
    let r = escape(doc_name, true) + "\""@ + " />"@ + render_node(props[1]);
    assert(render_attrs(attrs) == render_attrs(seq![("id"@, "1"@)]) + " "@ + "name"@ + "=\""@
        + escape(doc_name, true) + "\""@);
    assert(render_nodes(props) =~= "<wp:docPr id=\"1\" name=\""@ + r);
    r
}

/// A frame's tail begins with the frame properties.
pub proof fn lemma_frame_tail_start(
    pl: Placement,
    doc_name: Seq<char>,
    data_uri: Seq<char>,
    content: Seq<XmlNode>,
) -> (r: Seq<char>)
    ensures
        frame_tail(pl, doc_name, data_uri, content) == render_nodes(frame_properties(doc_name)) + r,
{
    reveal(frame_tail);
    let r = start_tag("a:graphic"@, seq![("xmlns:a"@, drawing_main_ns())]) + start_tag(
        "a:graphicData"@,
        seq![("uri"@, data_uri)],
    ) + render_nodes(content) + end_tag("a:graphicData"@) + end_tag("a:graphic"@) + end_tag(
        frame_tag(pl),
    );
    assert(frame_tail(pl, doc_name, data_uri, content) =~= render_nodes(frame_properties(doc_name))
        + r);
    r
}

/// What stands in a frame before its properties is written as its
/// positions, the extent, the effect extent and the wrapping.
pub proof fn lemma_frame_lead_markup(pl: Placement)
    ensures
        render_nodes(frame_lead(pl)) == render_nodes(frame_positions(pl)) + extent_markup(pl)
            + effect_extent_markup() + wrap_markup(pl),
{
    lemma_render_nodes_concat(frame_positions(pl), size_nodes(pl));
    lemma_render_nodes_concat(frame_positions(pl) + size_nodes(pl), wrap_nodes(pl));
    lemma_size_markup(pl);
    lemma_wrap_nodes_markup(pl);
    assert(render_nodes(frame_lead(pl)) =~= render_nodes(frame_positions(pl)) + extent_markup(pl)
        + effect_extent_markup() + wrap_markup(pl));
}

/// The start tag of every anchored frame: `<wp:anchor`, the four distances,
/// `simplePos="0"`, `allowOverlap` set exactly when the simple-position flag
/// is, `behindDoc="0"`, `locked="0"`, `layoutInCell` set exactly when the
/// layout-in-cell flag is, and the relative height.
#[verifier::spinoff_prover]
pub proof fn lemma_anchor_start_tag(pl: Placement)
    requires
        pl.position_type is Anchor,
    ensures
        start_tag(frame_tag(pl), frame_attrs(pl)) == "<wp:anchor"@ + dist_markup(pl)
            + " simplePos=\"0\" allowOverlap=\""@ + (if pl.simple_pos {
            "1"@
        } else {
            "0"@
        }) + "\" behindDoc=\"0\" locked=\"0\" layoutInCell=\""@ + (if pl.layout_in_cell {
            "1"@
        } else {
            "0"@
        }) + "\" relativeHeight=\""@ + dec_nat(pl.relative_height as nat) + "\">"@,
{
    let sp = flag(pl.simple_pos);
    let lc = flag(pl.layout_in_cell);
    let rh = dec_nat(pl.relative_height as nat);
    let e: Seq<(Seq<char>, Seq<char>)> = seq![];
    let a1 = e.push(("simplePos"@, "0"@));
    let a2 = a1.push(("allowOverlap"@, sp));
    let a3 = a2.push(("behindDoc"@, "0"@));
    let a4 = a3.push(("locked"@, "0"@));
    let a5 = a4.push(("layoutInCell"@, lc));
    let a6 = a5.push(("relativeHeight"@, rh));
    assert(anchor_attrs(pl) =~= dist_attrs(pl) + a6);
    lemma_render_attrs_concat(dist_attrs(pl), a6);
    lemma_dist_markup(pl);
    lemma_escape_flag(false);
    lemma_escape_flag(true);
    lemma_escape_dec_nat(pl.relative_height as nat, true);
    assert(render_attrs(e) =~= Seq::<char>::empty());
    let t0 = Seq::<char>::empty();
    lemma_attr_written(e, "simplePos"@, "0"@, t0);
    let t1 = t0 + " "@ + "simplePos"@ + "=\""@ + "0"@ + "\""@;
    lemma_attr_written(a1, "allowOverlap"@, sp, t1);
    let t2 = t1 + " "@ + "allowOverlap"@ + "=\""@ + sp + "\""@;
    lemma_attr_written(a2, "behindDoc"@, "0"@, t2);
    let t3 = t2 + " "@ + "behindDoc"@ + "=\""@ + "0"@ + "\""@;
    lemma_attr_written(a3, "locked"@, "0"@, t3);
    let t4 = t3 + " "@ + "locked"@ + "=\""@ + "0"@ + "\""@;
    lemma_attr_written(a4, "layoutInCell"@, lc, t4);
    let t5 = t4 + " "@ + "layoutInCell"@ + "=\""@ + lc + "\""@;
    lemma_attr_written(a5, "relativeHeight"@, rh, t5);
    lemma_anchor_flags_text(sp, lc, rh);
    lemma_anchor_open_text(dist_markup(pl), sp, lc, rh, render_attrs(a6));
}

/// Writing one more attribute whose value escaping leaves as it is.
proof fn lemma_attr_written(
    attrs: Seq<(Seq<char>, Seq<char>)>,
    name: Seq<char>,
    value: Seq<char>,
    before: Seq<char>,
)
    requires
        render_attrs(attrs) == before,
        escape(value, true) == value,
    ensures
        render_attrs(attrs.push((name, value))) == before + " "@ + name + "=\""@ + value + "\""@,
{
    lemma_render_attrs_push(attrs, (name, value));
}

#[verifier::spinoff_prover]
proof fn lemma_anchor_flags_text(sp: Seq<char>, lc: Seq<char>, rh: Seq<char>)
    ensures
        Seq::<char>::empty() + " "@ + "simplePos"@ + "=\""@ + "0"@ + "\""@ + " "@ + "allowOverlap"@ + "=\""@ + sp + "\""@
            + " "@ + "behindDoc"@ + "=\""@ + "0"@ + "\""@ + " "@ + "locked"@ + "=\""@ + "0"@
            + "\""@ + " "@ + "layoutInCell"@ + "=\""@ + lc + "\""@ + " "@ + "relativeHeight"@
            + "=\""@ + rh + "\""@ == " simplePos=\"0\" allowOverlap=\""@ + sp
            + "\" behindDoc=\"0\" locked=\"0\" layoutInCell=\""@ + lc + "\" relativeHeight=\""@ + rh
            + "\""@,
{
    reveal_strlit(" ");
    reveal_strlit("=\"");
    reveal_strlit("\"");
    reveal_strlit("0");
    reveal_strlit("simplePos");
    reveal_strlit("allowOverlap");
    reveal_strlit("behindDoc");
    reveal_strlit("locked");
    reveal_strlit("layoutInCell");
    reveal_strlit("relativeHeight");
    reveal_strlit(" simplePos=\"0\" allowOverlap=\"");
    reveal_strlit("\" behindDoc=\"0\" locked=\"0\" layoutInCell=\"");
    reveal_strlit("\" relativeHeight=\"");
    assert(Seq::<char>::empty() + " "@ + "simplePos"@ + "=\""@ + "0"@ + "\""@ + " "@ + "allowOverlap"@ + "=\""@ + sp + "\""@
        + " "@ + "behindDoc"@ + "=\""@ + "0"@ + "\""@ + " "@ + "locked"@ + "=\""@ + "0"@ + "\""@
        + " "@ + "layoutInCell"@ + "=\""@ + lc + "\""@ + " "@ + "relativeHeight"@ + "=\""@ + rh
        + "\""@ =~= " simplePos=\"0\" allowOverlap=\""@ + sp + "\" behindDoc=\"0\" locked=\"0\" layoutInCell=\""@
        + lc + "\" relativeHeight=\""@ + rh + "\""@);
}

#[verifier::spinoff_prover]
proof fn lemma_anchor_open_text(
    dist: Seq<char>,
    sp: Seq<char>,
    lc: Seq<char>,
    rh: Seq<char>,
    more: Seq<char>,
)
    requires
        more == " simplePos=\"0\" allowOverlap=\""@ + sp + "\" behindDoc=\"0\" locked=\"0\" layoutInCell=\""@
            + lc + "\" relativeHeight=\""@ + rh + "\""@,
    ensures
        "<"@ + "wp:anchor"@ + (dist + more) + ">"@ == "<wp:anchor"@ + dist
            + " simplePos=\"0\" allowOverlap=\""@ + sp + "\" behindDoc=\"0\" locked=\"0\" layoutInCell=\""@
            + lc + "\" relativeHeight=\""@ + rh + "\">"@,
{
    reveal_strlit("<");
    reveal_strlit(">");
    reveal_strlit("\"");
    reveal_strlit("wp:anchor");
    reveal_strlit("<wp:anchor");
    reveal_strlit("\">");
    assert("<"@ + "wp:anchor"@ + (dist + more) + ">"@ =~= "<wp:anchor"@ + dist
        + " simplePos=\"0\" allowOverlap=\""@ + sp + "\" behindDoc=\"0\" locked=\"0\" layoutInCell=\""@
        + lc + "\" relativeHeight=\""@ + rh + "\">"@);
}

/// Escaping leaves a flag as it is.
proof fn lemma_escape_flag(b: bool)
    ensures
        escape(flag(b), true) == flag(b),
{
    reveal_strlit("0");
    reveal_strlit("1");
    assert forall|k: int| 0 <= k < flag(b).len() implies is_plain_char(#[trigger] flag(b)[k]) by {}
    lemma_escape_plain(flag(b), true);
}
/// A position element is written as its start tag with the reference, the
/// offset (as the unsigned 32-bit number with the same bits) or the
/// alignment word, and its end tag.
#[verifier::spinoff_prover]
proof fn lemma_position_written(tag: Seq<char>, rf: Seq<char>, pos: DrawingPosition)
    requires
        escape(rf, true) == rf,
    ensures
        render_node(position_node(tag, rf, pos)) == "<"@ + tag + " relativeFrom=\""@ + rf + "\">"@
            + (match pos {
            DrawingPosition::Offset(x) => "<wp:posOffset>"@ + dec_nat((x as u32) as nat)
                + "</wp:posOffset>"@,
            DrawingPosition::Align(a) => "<wp:align>"@ + pic_align_name(a) + "</wp:align>"@,
        }) + "</"@ + tag + ">"@,
{
    let value = position_value_node(pos);
    let no_attrs: Seq<(Seq<char>, Seq<char>)> = seq![];
    assert(render_attrs(no_attrs) =~= seq![]);
    reveal_strlit("<");
    reveal_strlit(">");
    reveal_strlit("</");
    reveal_strlit(" ");
    reveal_strlit("=\"");
    reveal_strlit("\"");
    reveal_strlit("relativeFrom");
    reveal_strlit(" relativeFrom=\"");
    reveal_strlit("\">");
    let text = match pos {
        DrawingPosition::Offset(x) => dec_nat((x as u32) as nat),
        DrawingPosition::Align(a) => pic_align_name(a),
    };
    let name = match pos {
        DrawingPosition::Offset(_) => "wp:posOffset"@,
        DrawingPosition::Align(_) => "wp:align"@,
    };
    assert(value == text_elem(name, text));
    match pos {
        DrawingPosition::Offset(x) => {
            lemma_escape_dec_nat((x as u32) as nat, false);
        },
        DrawingPosition::Align(a) => {
            lemma_words_plain(RelativeFromHType::Page, RelativeFromVType::Page, a);
            lemma_escape_plain(pic_align_name(a), false);
        },
    }
    lemma_render_nodes_single(XmlNode::Text(text));
    reveal_strlit("wp:posOffset");
    reveal_strlit("wp:align");
    reveal_strlit("<wp:posOffset>");
    reveal_strlit("</wp:posOffset>");
    reveal_strlit("<wp:align>");
    reveal_strlit("</wp:align>");
    assert(render_node(value) =~= (match pos {
        DrawingPosition::Offset(x) => "<wp:posOffset>"@ + dec_nat((x as u32) as nat)
            + "</wp:posOffset>"@,
        DrawingPosition::Align(a) => "<wp:align>"@ + pic_align_name(a) + "</wp:align>"@,
    }));
    lemma_render_nodes_single(value);
    lemma_render_attrs_push(no_attrs, ("relativeFrom"@, rf));
    assert(no_attrs.push(("relativeFrom"@, rf)) =~= seq![("relativeFrom"@, rf)]);
    assert(render_node(position_node(tag, rf, pos)) =~= "<"@ + tag + " relativeFrom=\""@ + rf
        + "\">"@ + render_node(value) + "</"@ + tag + ">"@);
}

/// The positions of every anchored frame, as written: the simple position
/// `<wp:simplePos x=".." y=".." />`, then the horizontal position
/// (`wp:positionH`, relative to the horizontal reference, holding the
/// horizontal offset or alignment), then the vertical one (`wp:positionV`,
/// relative to the vertical reference, holding the vertical offset or
/// alignment).
#[verifier::spinoff_prover]
pub proof fn lemma_anchor_positions_written(pl: Placement)
    requires
        pl.position_type is Anchor,
    ensures
        render_nodes(frame_positions(pl)) == ("<wp:simplePos x=\""@ + dec_int(pl.simple_pos_x as int)
            + "\" y=\""@ + dec_int(pl.simple_pos_y as int) + "\" />"@) + ("<wp:positionH relativeFrom=\""@
            + relative_from_h_name(pl.relative_from_h) + "\">"@ + (match pl.position_h {
            DrawingPosition::Offset(x) => "<wp:posOffset>"@ + dec_nat((x as u32) as nat)
                + "</wp:posOffset>"@,
            DrawingPosition::Align(a) => "<wp:align>"@ + pic_align_name(a) + "</wp:align>"@,
        }) + "</wp:positionH>"@) + ("<wp:positionV relativeFrom=\""@ + relative_from_v_name(
            pl.relative_from_v,
        ) + "\">"@ + (match pl.position_v {
            DrawingPosition::Offset(x) => "<wp:posOffset>"@ + dec_nat((x as u32) as nat)
                + "</wp:posOffset>"@,
            DrawingPosition::Align(a) => "<wp:align>"@ + pic_align_name(a) + "</wp:align>"@,
        }) + "</wp:positionV>"@),
{
    let hn = relative_from_h_name(pl.relative_from_h);
    let vn = relative_from_v_name(pl.relative_from_v);
    let mh = position_text(pl.position_h);
    let mv = position_text(pl.position_v);
    let sx = dec_int(pl.simple_pos_x as int);
    let sy = dec_int(pl.simple_pos_y as int);
    let simple = leaf("wp:simplePos"@, seq![("x"@, sx), ("y"@, sy)]);
    let ph = position_node("wp:positionH"@, hn, pl.position_h);
    let pv = position_node("wp:positionV"@, vn, pl.position_v);
    lemma_position_h_written(pl);
    lemma_position_v_written(pl);
    lemma_simple_pos_written(sx, sy, pl.simple_pos_x as int, pl.simple_pos_y as int);
    assert(frame_positions(pl) == seq![simple, ph, pv]);
    lemma_render_nodes_three(simple, ph, pv);
    let a = "<wp:simplePos x=\""@ + sx + "\" y=\""@ + sy + "\" />"@;
    let b = "<wp:positionH relativeFrom=\""@ + hn + "\">"@ + mh + "</wp:positionH>"@;
    let c = "<wp:positionV relativeFrom=\""@ + vn + "\">"@ + mv + "</wp:positionV>"@;
    assert(render_nodes(frame_positions(pl)) == a + b + c);
}

#[verifier::spinoff_prover]
proof fn lemma_position_h_written(pl: Placement)
    ensures
        render_node(
            position_node("wp:positionH"@, relative_from_h_name(pl.relative_from_h), pl.position_h),
        ) == "<wp:positionH relativeFrom=\""@ + relative_from_h_name(pl.relative_from_h) + "\">"@
            + position_text(pl.position_h) + "</wp:positionH>"@,
{
    let hn = relative_from_h_name(pl.relative_from_h);
    lemma_words_plain(pl.relative_from_h, pl.relative_from_v, PicAlign::Left);
    lemma_escape_plain(hn, true);
    lemma_position_written("wp:positionH"@, hn, pl.position_h);
    reveal_strlit("<");
    reveal_strlit(">");
    reveal_strlit("</");
    reveal_strlit(" relativeFrom=\"");
    reveal_strlit("wp:positionH");
    reveal_strlit("<wp:positionH relativeFrom=\"");
    reveal_strlit("</wp:positionH>");
    assert("<wp:positionH relativeFrom=\""@ =~= "<"@ + "wp:positionH"@ + " relativeFrom=\""@);
    assert("</wp:positionH>"@ =~= "</"@ + "wp:positionH"@ + ">"@);
    lemma_tag_text(
        "wp:positionH"@,
        "<wp:positionH relativeFrom=\""@,
        "</wp:positionH>"@,
        hn,
        position_text(pl.position_h),
    );
}

#[verifier::spinoff_prover]
proof fn lemma_position_v_written(pl: Placement)
    ensures
        render_node(
            position_node("wp:positionV"@, relative_from_v_name(pl.relative_from_v), pl.position_v),
        ) == "<wp:positionV relativeFrom=\""@ + relative_from_v_name(pl.relative_from_v) + "\">"@
            + position_text(pl.position_v) + "</wp:positionV>"@,
{
    let vn = relative_from_v_name(pl.relative_from_v);
    lemma_words_plain(pl.relative_from_h, pl.relative_from_v, PicAlign::Left);
    lemma_escape_plain(vn, true);
    lemma_position_written("wp:positionV"@, vn, pl.position_v);
    reveal_strlit("<");
    reveal_strlit(">");
    reveal_strlit("</");
    reveal_strlit(" relativeFrom=\"");
    reveal_strlit("wp:positionV");
    reveal_strlit("<wp:positionV relativeFrom=\"");
    reveal_strlit("</wp:positionV>");
    assert("<wp:positionV relativeFrom=\""@ =~= "<"@ + "wp:positionV"@ + " relativeFrom=\""@);
    assert("</wp:positionV>"@ =~= "</"@ + "wp:positionV"@ + ">"@);
    lemma_tag_text(
        "wp:positionV"@,
        "<wp:positionV relativeFrom=\""@,
        "</wp:positionV>"@,
        vn,
        position_text(pl.position_v),
    );
}

/// What a position element holds, as written.
spec fn position_text(pos: DrawingPosition) -> Seq<char> {
    match pos {
        DrawingPosition::Offset(x) => "<wp:posOffset>"@ + dec_nat((x as u32) as nat)
            + "</wp:posOffset>"@,
        DrawingPosition::Align(a) => "<wp:align>"@ + pic_align_name(a) + "</wp:align>"@,
    }
}

proof fn lemma_tag_text(tag: Seq<char>, open: Seq<char>, close: Seq<char>, rf: Seq<char>, m: Seq<char>)
    requires
        open == "<"@ + tag + " relativeFrom=\""@,
        close == "</"@ + tag + ">"@,
    ensures
        "<"@ + tag + " relativeFrom=\""@ + rf + "\">"@ + m + "</"@ + tag + ">"@ == open + rf + "\">"@
            + m + close,
{
    assert("<"@ + tag + " relativeFrom=\""@ + rf + "\">"@ + m + "</"@ + tag + ">"@ =~= open + rf
        + "\">"@ + m + close);
}

#[verifier::spinoff_prover]
proof fn lemma_simple_pos_written(sx: Seq<char>, sy: Seq<char>, x: int, y: int)
    requires
        sx == dec_int(x),
        sy == dec_int(y),
    ensures
        render_node(leaf("wp:simplePos"@, seq![("x"@, sx), ("y"@, sy)])) == "<wp:simplePos x=\""@ + sx
            + "\" y=\""@ + sy + "\" />"@,
{
    let e: Seq<(Seq<char>, Seq<char>)> = seq![];
    let xy = seq![("x"@, sx), ("y"@, sy)];
    assert(render_attrs(e) =~= seq![]);
    lemma_escape_dec_int(x, true);
    lemma_escape_dec_int(y, true);
    lemma_render_attrs_push(e, ("x"@, sx));
    lemma_render_attrs_push(e.push(("x"@, sx)), ("y"@, sy));
    assert(e.push(("x"@, sx)).push(("y"@, sy)) =~= xy);
    reveal_strlit("<");
    reveal_strlit(" />");
    reveal_strlit(" ");
    reveal_strlit("=\"");
    reveal_strlit("\"");
    reveal_strlit("x");
    reveal_strlit("y");
    reveal_strlit("wp:simplePos");
    reveal_strlit("<wp:simplePos x=\"");
    reveal_strlit("\" y=\"");
    reveal_strlit("\" />");
    assert(render_node(leaf("wp:simplePos"@, xy)) =~= "<wp:simplePos x=\""@ + sx + "\" y=\""@ + sy
        + "\" />"@);
}
} // verus!
