//! Pictures: their placement and the `pic:pic` element that shows the image.

use vstd::prelude::*;
use crate::decimal::{dec_nat, format_unsigned, push_unsigned};
use crate::placement::Placement;
use crate::position::{DrawingPosition, DrawingPositionType, RelativeFromHType, RelativeFromVType};
use crate::placement::lemma_escape_dec_nat;
use crate::xml::{
    end_tag, escape, lemma_occurs_between, lemma_occurs_trans, lemma_render_attrs_push, occurs,
    render_attrs, render_nodes, start_tag, Attr, XmlNode, attrs_view, elem, leaf, lemma_render_nodes_single,
    lemma_render_nodes_two, lemma_render_nodes_three, render_node, write_end, write_leaf, write_start,
};

verus! {

/// The number of EMU in one pixel.
pub const EMU_PER_PX: u32 = 9525;

/// The namespace of pictures in DrawingML.
pub open spec fn picture_ns() -> Seq<char> {
    "http://schemas.openxmlformats.org/drawingml/2006/picture"@
}

/// A picture: the image, the relationship id by which the document refers
/// to it, its size and rotation, and its placement on the page. Sizes,
/// distances and offsets are in EMU; the rotation is in degrees.
#[derive(Debug, PartialEq)]
pub struct Pic {
    pub id: String,
    pub image: Vec<u8>,
    pub size: (u32, u32),
    pub position_type: DrawingPositionType,
    pub simple_pos: bool,
    pub simple_pos_x: i32,
    pub simple_pos_y: i32,
    pub layout_in_cell: bool,
    pub relative_height: u32,
    pub allow_overlap: bool,
    pub position_h: DrawingPosition,
    pub position_v: DrawingPosition,
    pub relative_from_h: RelativeFromHType,
    pub relative_from_v: RelativeFromVType,
    pub dist_t: i32,
    pub dist_b: i32,
    pub dist_l: i32,
    pub dist_r: i32,
    pub rot: u16,
}

/// `p` is a copy of the picture `q`: the same relationship id, image,
/// rotation and placement.
pub open spec fn same_pic(p: Pic, q: Pic) -> bool {
    &&& p.id@ == q.id@
    &&& p.image@ == q.image@
    &&& p.rot == q.rot
    &&& pic_placement(p) == pic_placement(q)
}

impl Clone for Pic {
    /// A copy of this picture.
    fn clone(&self) -> (p: Pic)
        ensures
            same_pic(p, *self),
    {
        let image = self.image.clone();
        assert(image@ =~= self.image@);
        Pic {
            id: self.id.clone(),
            image,
            size: self.size,
            position_type: self.position_type,
            simple_pos: self.simple_pos,
            simple_pos_x: self.simple_pos_x,
            simple_pos_y: self.simple_pos_y,
            layout_in_cell: self.layout_in_cell,
            relative_height: self.relative_height,
            allow_overlap: self.allow_overlap,
            position_h: self.position_h,
            position_v: self.position_v,
            relative_from_h: self.relative_from_h,
            relative_from_v: self.relative_from_v,
            dist_t: self.dist_t,
            dist_b: self.dist_b,
            dist_l: self.dist_l,
            dist_r: self.dist_r,
            rot: self.rot,
        }
    }
}

/// The relationship id of the picture numbered `n`: `rIdImage` and the number.
pub open spec fn pic_rid(n: nat) -> Seq<char> {
    "rIdImage"@ + dec_nat(n)
}

/// The placement of a picture.
pub open spec fn pic_placement(p: Pic) -> Placement {
    Placement {
        size: p.size,
        position_type: p.position_type,
        simple_pos: p.simple_pos,
        simple_pos_x: p.simple_pos_x,
        simple_pos_y: p.simple_pos_y,
        layout_in_cell: p.layout_in_cell,
        relative_height: p.relative_height,
        allow_overlap: p.allow_overlap,
        position_h: p.position_h,
        position_v: p.position_v,
        relative_from_h: p.relative_from_h,
        relative_from_v: p.relative_from_v,
        dist_t: p.dist_t,
        dist_b: p.dist_b,
        dist_l: p.dist_l,
        dist_r: p.dist_r,
    }
}

/// The non-visual properties of a picture.
pub open spec fn pic_nv_pic_pr_node() -> XmlNode {
    elem(
        "pic:nvPicPr"@,
        seq![],
        seq![
            leaf("pic:cNvPr"@, seq![("id"@, "0"@), ("name"@, ""@)]),
            elem(
                "pic:cNvPicPr"@,
                seq![],
                seq![
                    leaf(
                        "a:picLocks"@,
                        seq![("noChangeAspect"@, "1"@), ("noChangeArrowheads"@, "1"@)],
                    ),
                ],
            ),
        ],
    )
}

/// The fill of a picture: the image it refers to, stretched.
pub open spec fn pic_blip_fill_node(id: Seq<char>) -> XmlNode {
    elem(
        "pic:blipFill"@,
        seq![],
        seq![
            leaf("a:blip"@, seq![("r:embed"@, id)]),
            leaf("a:srcRect"@, seq![]),
            elem("a:stretch"@, seq![], seq![leaf("a:fillRect"@, seq![])]),
        ],
    )
}

/// The shape properties of a picture: its rotation (in 60000ths of a
/// degree) and size, and a rectangular outline.
pub open spec fn pic_sp_pr_node(p: Pic) -> XmlNode {
    elem("pic:spPr"@, seq![("bwMode"@, "auto"@)], seq![pic_xfrm_node(p), pic_prst_geom_node()])
}

/// The `pic:pic` element of a picture.
pub open spec fn pic_node(p: Pic) -> XmlNode {
    elem(
        "pic:pic"@,
        seq![("xmlns:pic"@, picture_ns())],
        seq![pic_nv_pic_pr_node(), pic_blip_fill_node(p.id@), pic_sp_pr_node(p)],
    )
}

fn no_attrs() -> (v: Vec<Attr>)
    ensures
        attrs_view(v@) == Seq::<(Seq<char>, Seq<char>)>::empty(),
{
    let v: Vec<Attr> = Vec::new();
    assert(attrs_view(v@) =~= Seq::<(Seq<char>, Seq<char>)>::empty());
    v
}

fn attr_lit(name: &'static str, value: &'static str) -> (a: Attr)
    ensures
        a@ == (name@, value@),
{
    Attr::new(name, String::from_str(value))
}

fn write_nv_pic_pr(out: &mut String)
    ensures
        final(out)@ == old(out)@ + render_node(pic_nv_pic_pr_node()),
{
    let none = no_attrs();
    write_start(out, "pic:nvPicPr", &none);
    let ghost a = out@;
    let c_nv_pr = vec![attr_lit("id", "0"), attr_lit("name", "")];
    assert(attrs_view(c_nv_pr@) =~= seq![("id"@, "0"@), ("name"@, ""@)]);
    write_leaf(out, "pic:cNvPr", &c_nv_pr);
    let ghost b = out@;
    write_start(out, "pic:cNvPicPr", &none);
    let locks = vec![attr_lit("noChangeAspect", "1"), attr_lit("noChangeArrowheads", "1")];
    assert(attrs_view(locks@) =~= seq![("noChangeAspect"@, "1"@), ("noChangeArrowheads"@, "1"@)]);
    write_leaf(out, "a:picLocks", &locks);
    write_end(out, "pic:cNvPicPr");
    let ghost c = out@;
    write_end(out, "pic:nvPicPr");
    proof {
        let locks_node = leaf(
            "a:picLocks"@,
            seq![("noChangeAspect"@, "1"@), ("noChangeArrowheads"@, "1"@)],
        );
        let c_nv_pr_node = leaf("pic:cNvPr"@, seq![("id"@, "0"@), ("name"@, ""@)]);
        let pic_pr_node = elem("pic:cNvPicPr"@, seq![], seq![locks_node]);
        lemma_render_nodes_single(locks_node);
        assert(c =~= b + render_node(pic_pr_node));
        lemma_render_nodes_two(c_nv_pr_node, pic_pr_node);
    }
    assert(final(out)@ =~= old(out)@ + render_node(pic_nv_pic_pr_node()));
}

fn write_blip_fill(out: &mut String, id: &String)
    ensures
        final(out)@ == old(out)@ + render_node(pic_blip_fill_node(id@)),
{
    let none = no_attrs();
    write_start(out, "pic:blipFill", &none);
    let ghost a = out@;
    let blip = vec![Attr::new("r:embed", id.clone())];
    assert(attrs_view(blip@) =~= seq![("r:embed"@, id@)]);
    write_leaf(out, "a:blip", &blip);
    write_leaf(out, "a:srcRect", &none);
    let ghost b = out@;
    write_start(out, "a:stretch", &none);
    write_leaf(out, "a:fillRect", &none);
    write_end(out, "a:stretch");
    let ghost c = out@;
    write_end(out, "pic:blipFill");
    proof {
        let fill = leaf("a:fillRect"@, seq![]);
        let stretch = elem("a:stretch"@, seq![], seq![fill]);
        lemma_render_nodes_single(fill);
        assert(c =~= b + render_node(stretch));
        lemma_render_nodes_three(
            leaf("a:blip"@, seq![("r:embed"@, id@)]),
            leaf("a:srcRect"@, seq![]),
            stretch,
        );
    }
    assert(final(out)@ =~= old(out)@ + render_node(pic_blip_fill_node(id@)));
}

/// The transform of a picture: rotation, offset and extent.
pub open spec fn pic_xfrm_node(p: Pic) -> XmlNode {
    elem(
        "a:xfrm"@,
        seq![("rot"@, dec_nat(p.rot as nat * 60000))],
        seq![
            leaf("a:off"@, seq![("x"@, "0"@), ("y"@, "0"@)]),
            leaf(
                "a:ext"@,
                seq![("cx"@, dec_nat(p.size.0 as nat)), ("cy"@, dec_nat(p.size.1 as nat))],
            ),
        ],
    )
}

/// The rectangular outline of a picture.
pub open spec fn pic_prst_geom_node() -> XmlNode {
    elem("a:prstGeom"@, seq![("prst"@, "rect"@)], seq![leaf("a:avLst"@, seq![])])
}

/// The rotation of every picture is written in its `a:xfrm` start tag, in
/// 60000ths of a degree: `<a:xfrm rot="` and the rotation in degrees times
/// 60000, then `">`.
#[verifier::spinoff_prover]
pub proof fn lemma_rotation_written(p: Pic)
    ensures
        occurs("<a:xfrm rot=\""@ + dec_nat(p.rot as nat * 60000) + "\">"@, render_node(pic_node(p))),
{
    let r = dec_nat(p.rot as nat * 60000);
    let target = "<a:xfrm rot=\""@ + r + "\">"@;
    let xfrm = pic_xfrm_node(p);
    let no_attrs: Seq<(Seq<char>, Seq<char>)> = seq![];
    let kids = xfrm->children;
    assert(render_node(xfrm) == target + (render_nodes(kids) + end_tag("a:xfrm"@))) by {
        lemma_render_attrs_push(no_attrs, ("rot"@, r));
        assert(no_attrs.push(("rot"@, r)) =~= seq![("rot"@, r)]);
        assert(render_attrs(no_attrs) =~= seq![]);
        lemma_escape_dec_nat(p.rot as nat * 60000, true);
        reveal_strlit("<");
        reveal_strlit(">");
        reveal_strlit(" ");
        reveal_strlit("=\"");
        reveal_strlit("\"");
        reveal_strlit("rot");
        reveal_strlit("a:xfrm");
        reveal_strlit("<a:xfrm rot=\"");
        reveal_strlit("\">");
        assert(render_node(xfrm) =~= target + (render_nodes(kids) + end_tag("a:xfrm"@)));
    }
    let e: Seq<char> = seq![];
    assert(e + target + (render_nodes(kids) + end_tag("a:xfrm"@)) =~= render_node(xfrm));
    lemma_occurs_between(e, target, render_nodes(kids) + end_tag("a:xfrm"@));
    lemma_xfrm_in_pic(p);
    lemma_occurs_trans(target, render_node(xfrm), render_node(pic_node(p)));
}

/// The image of every picture is written in its `pic:pic` element, by its
/// relationship id: `<a:blip r:embed=".." />`.
#[verifier::spinoff_prover]
pub proof fn lemma_image_written(p: Pic)
    ensures
        occurs("<a:blip r:embed=\""@ + escape(p.id@, true) + "\" />"@, render_node(pic_node(p))),
{
    let no_attrs: Seq<(Seq<char>, Seq<char>)> = seq![];
    assert(render_attrs(no_attrs) =~= seq![]);
    let pic = pic_node(p);
    let nv = pic_nv_pic_pr_node();
    let fill = pic_blip_fill_node(p.id@);
    let sp = pic_sp_pr_node(p);
    let blip = leaf("a:blip"@, seq![("r:embed"@, p.id@)]);
    let src = leaf("a:srcRect"@, seq![]);
    let stretch = elem("a:stretch"@, seq![], seq![leaf("a:fillRect"@, seq![])]);
    let b = "<a:blip r:embed=\""@ + escape(p.id@, true) + "\" />"@;
    assert(render_node(blip) == b) by {
        lemma_render_attrs_push(no_attrs, ("r:embed"@, p.id@));
        assert(no_attrs.push(("r:embed"@, p.id@)) =~= seq![("r:embed"@, p.id@)]);
        reveal_strlit("<");
        reveal_strlit(" />");
        reveal_strlit(" ");
        reveal_strlit("=\"");
        reveal_strlit("\"");
        reveal_strlit("a:blip");
        reveal_strlit("r:embed");
        reveal_strlit("<a:blip r:embed=\"");
        reveal_strlit("\" />");
        assert(render_node(blip) =~= b);
    }
    assert(occurs(b, render_node(fill))) by {
        lemma_render_nodes_three(blip, src, stretch);
        assert(render_node(fill) =~= start_tag(fill->name, fill->attrs) + b + (render_node(src)
            + render_node(stretch) + end_tag(fill->name)));
        lemma_occurs_between(
            start_tag(fill->name, fill->attrs),
            b,
            render_node(src) + render_node(stretch) + end_tag(fill->name),
        );
    }
    assert(occurs(render_node(fill), render_node(pic))) by {
        lemma_render_nodes_three(nv, fill, sp);
        assert(render_node(pic) =~= (start_tag(pic->name, pic->attrs) + render_node(nv))
            + render_node(fill) + (render_node(sp) + end_tag(pic->name)));
        lemma_occurs_between(
            start_tag(pic->name, pic->attrs) + render_node(nv),
            render_node(fill),
            render_node(sp) + end_tag(pic->name),
        );
    }
    lemma_occurs_trans(b, render_node(fill), render_node(pic));
}

/// The size of every picture is written in its `pic:pic` element, in EMU:
/// `<a:ext cx=".." cy=".." />`.
#[verifier::spinoff_prover]
pub proof fn lemma_size_written(p: Pic)
    ensures
        occurs(
            "<a:ext cx=\""@ + dec_nat(p.size.0 as nat) + "\" cy=\""@ + dec_nat(p.size.1 as nat)
                + "\" />"@,
            render_node(pic_node(p)),
        ),
{
    let no_attrs: Seq<(Seq<char>, Seq<char>)> = seq![];
    assert(render_attrs(no_attrs) =~= seq![]);
    let cx = dec_nat(p.size.0 as nat);
    let cy = dec_nat(p.size.1 as nat);
    let off = leaf("a:off"@, seq![("x"@, "0"@), ("y"@, "0"@)]);
    let ext = leaf("a:ext"@, seq![("cx"@, cx), ("cy"@, cy)]);
    let x = "<a:ext cx=\""@ + cx + "\" cy=\""@ + cy + "\" />"@;
    assert(render_node(ext) == x) by {
        lemma_escape_dec_nat(p.size.0 as nat, true);
        lemma_escape_dec_nat(p.size.1 as nat, true);
        lemma_render_attrs_push(no_attrs, ("cx"@, cx));
        lemma_render_attrs_push(no_attrs.push(("cx"@, cx)), ("cy"@, cy));
        assert(no_attrs.push(("cx"@, cx)).push(("cy"@, cy)) =~= seq![("cx"@, cx), ("cy"@, cy)]);
        reveal_strlit("<");
        reveal_strlit(" />");
        reveal_strlit(" ");
        reveal_strlit("=\"");
        reveal_strlit("\"");
        reveal_strlit("a:ext");
        reveal_strlit("cx");
        reveal_strlit("cy");
        reveal_strlit("<a:ext cx=\"");
        reveal_strlit("\" cy=\"");
        reveal_strlit("\" />");
        assert(render_node(ext) =~= x);
    }
    let xfrm = pic_xfrm_node(p);
    assert(occurs(x, render_node(xfrm))) by {
        lemma_render_nodes_two(off, ext);
        assert(render_node(xfrm) =~= (start_tag(xfrm->name, xfrm->attrs) + render_node(off)) + x
            + end_tag(xfrm->name));
        lemma_occurs_between(
            start_tag(xfrm->name, xfrm->attrs) + render_node(off),
            x,
            end_tag(xfrm->name),
        );
    }
    lemma_xfrm_in_pic(p);
    lemma_occurs_trans(x, render_node(xfrm), render_node(pic_node(p)));
}

#[verifier::spinoff_prover]
proof fn lemma_xfrm_in_pic(p: Pic)
    ensures
        occurs(render_node(pic_xfrm_node(p)), render_node(pic_node(p))),
{
    let xfrm = pic_xfrm_node(p);
    let sp = pic_sp_pr_node(p);
    let prst = pic_prst_geom_node();
    let pic = pic_node(p);
    let nv = pic_nv_pic_pr_node();
    let fill = pic_blip_fill_node(p.id@);
    assert(occurs(render_node(xfrm), render_node(sp))) by {
        lemma_render_nodes_two(xfrm, prst);
        assert(render_node(sp) =~= start_tag(sp->name, sp->attrs) + render_node(xfrm) + (
        render_node(prst) + end_tag(sp->name)));
        lemma_occurs_between(
            start_tag(sp->name, sp->attrs),
            render_node(xfrm),
            render_node(prst) + end_tag(sp->name),
        );
    }
    assert(occurs(render_node(sp), render_node(pic))) by {
        lemma_render_nodes_three(nv, fill, sp);
        assert(render_node(pic) =~= (start_tag(pic->name, pic->attrs) + render_node(nv)
            + render_node(fill)) + render_node(sp) + end_tag(pic->name));
        lemma_occurs_between(
            start_tag(pic->name, pic->attrs) + render_node(nv) + render_node(fill),
            render_node(sp),
            end_tag(pic->name),
        );
    }
    lemma_occurs_trans(render_node(xfrm), render_node(sp), render_node(pic));
}

fn write_xfrm(out: &mut String, p: &Pic)
    ensures
        final(out)@ == old(out)@ + render_node(pic_xfrm_node(*p)),
{
    let rot: u32 = p.rot as u32 * 60000;
    let xfrm = vec![Attr::new("rot", format_unsigned(rot as u64))];
    assert(attrs_view(xfrm@) =~= seq![("rot"@, dec_nat(p.rot as nat * 60000))]);
    write_start(out, "a:xfrm", &xfrm);
    let off = vec![attr_lit("x", "0"), attr_lit("y", "0")];
    assert(attrs_view(off@) =~= seq![("x"@, "0"@), ("y"@, "0"@)]);
    write_leaf(out, "a:off", &off);
    let ext = vec![
        Attr::new("cx", format_unsigned(p.size.0 as u64)),
        Attr::new("cy", format_unsigned(p.size.1 as u64)),
    ];
    assert(attrs_view(ext@) =~= seq![
        ("cx"@, dec_nat(p.size.0 as nat)),
        ("cy"@, dec_nat(p.size.1 as nat)),
    ]);
    write_leaf(out, "a:ext", &ext);
    write_end(out, "a:xfrm");
    proof {
        lemma_render_nodes_two(
            leaf("a:off"@, seq![("x"@, "0"@), ("y"@, "0"@)]),
            leaf(
                "a:ext"@,
                seq![("cx"@, dec_nat(p.size.0 as nat)), ("cy"@, dec_nat(p.size.1 as nat))],
            ),
        );
    }
    assert(final(out)@ =~= old(out)@ + render_node(pic_xfrm_node(*p)));
}

fn write_prst_geom(out: &mut String)
    ensures
        final(out)@ == old(out)@ + render_node(pic_prst_geom_node()),
{
    let none = no_attrs();
    let geom = vec![attr_lit("prst", "rect")];
    assert(attrs_view(geom@) =~= seq![("prst"@, "rect"@)]);
    write_start(out, "a:prstGeom", &geom);
    write_leaf(out, "a:avLst", &none);
    write_end(out, "a:prstGeom");
    proof {
        lemma_render_nodes_single(leaf("a:avLst"@, seq![]));
    }
    assert(final(out)@ =~= old(out)@ + render_node(pic_prst_geom_node()));
}

fn write_sp_pr(out: &mut String, p: &Pic)
    ensures
        final(out)@ == old(out)@ + render_node(pic_sp_pr_node(*p)),
{
    let sp_pr = vec![attr_lit("bwMode", "auto")];
    assert(attrs_view(sp_pr@) =~= seq![("bwMode"@, "auto"@)]);
    write_start(out, "pic:spPr", &sp_pr);
    write_xfrm(out, p);
    write_prst_geom(out);
    write_end(out, "pic:spPr");
    proof {
        lemma_render_nodes_two(pic_xfrm_node(*p), pic_prst_geom_node());
    }
    assert(final(out)@ =~= old(out)@ + render_node(pic_sp_pr_node(*p)));
}

impl Pic {
    /// A picture of `width_px` by `height_px` pixels, numbered `pic_num`
    /// among the document's pictures, in line with the text.
    pub fn new_with_dimensions(buffer: Vec<u8>, width_px: u32, height_px: u32, pic_num: u32) -> (p: Pic)
        requires
            width_px * 9525 <= u32::MAX,
            height_px * 9525 <= u32::MAX,
        ensures
            p.id@ == pic_rid(pic_num as nat),
            p.image@ == buffer@,
            p.size.0 == width_px * 9525,
            p.size.1 == height_px * 9525,
            p.position_type == DrawingPositionType::Inline,
            !p.simple_pos,
            p.simple_pos_x == 0,
            p.simple_pos_y == 0,
            !p.layout_in_cell,
            p.relative_height == 190500,
            !p.allow_overlap,
            p.position_h == DrawingPosition::Offset(0),
            p.position_v == DrawingPosition::Offset(0),
            p.relative_from_h == RelativeFromHType::Margin,
            p.relative_from_v == RelativeFromVType::Margin,
            p.dist_t == 0,
            p.dist_b == 0,
            p.dist_l == 0,
            p.dist_r == 0,
            p.rot == 0,
    {
        let mut id = String::from_str("rIdImage");
        push_unsigned(&mut id, pic_num as u64);
        Pic {
            id,
            image: buffer,
            size: (width_px * EMU_PER_PX, height_px * EMU_PER_PX),
            position_type: DrawingPositionType::Inline,
            simple_pos: false,
            simple_pos_x: 0,
            simple_pos_y: 0,
            layout_in_cell: false,
            relative_height: 190500,
            allow_overlap: false,
            position_h: DrawingPosition::Offset(0),
            position_v: DrawingPosition::Offset(0),
            relative_from_h: RelativeFromHType::Margin,
            relative_from_v: RelativeFromVType::Margin,
            dist_t: 0,
            dist_b: 0,
            dist_l: 0,
            dist_r: 0,
            rot: 0,
        }
    }

    /// This picture with the size `w_emu` by `h_emu`.
    pub fn size(self, w_emu: u32, h_emu: u32) -> (p: Pic)
        ensures
            p == (Pic { size: (w_emu, h_emu), ..self }),
    {
        Pic { size: (w_emu, h_emu), ..self }
    }

    /// This picture, anchored to the page instead of in line with text.
    pub fn floating(self) -> (p: Pic)
        ensures
            p == (Pic { position_type: DrawingPositionType::Anchor, ..self }),
    {
        Pic { position_type: DrawingPositionType::Anchor, ..self }
    }

    /// This picture, allowed to overlap text.
    pub fn overlapping(self) -> (p: Pic)
        ensures
            p == (Pic { allow_overlap: true, ..self }),
    {
        Pic { allow_overlap: true, ..self }
    }

    /// This picture at the horizontal offset `x` (EMU).
    pub fn offset_x(self, x: i32) -> (p: Pic)
        ensures
            p == (Pic { position_h: DrawingPosition::Offset(x), ..self }),
    {
        Pic { position_h: DrawingPosition::Offset(x), ..self }
    }

    /// This picture at the vertical offset `y` (EMU).
    pub fn offset_y(self, y: i32) -> (p: Pic)
        ensures
            p == (Pic { position_v: DrawingPosition::Offset(y), ..self }),
    {
        Pic { position_v: DrawingPosition::Offset(y), ..self }
    }

    /// This picture at the horizontal position `pos`.
    pub fn position_h(self, pos: DrawingPosition) -> (p: Pic)
        ensures
            p == (Pic { position_h: pos, ..self }),
    {
        Pic { position_h: pos, ..self }
    }

    /// This picture at the vertical position `pos`.
    pub fn position_v(self, pos: DrawingPosition) -> (p: Pic)
        ensures
            p == (Pic { position_v: pos, ..self }),
    {
        Pic { position_v: pos, ..self }
    }

    /// This picture with its horizontal position measured from `t`.
    pub fn relative_from_h(self, t: RelativeFromHType) -> (p: Pic)
        ensures
            p == (Pic { relative_from_h: t, ..self }),
    {
        Pic { relative_from_h: t, ..self }
    }

    /// This picture with its vertical position measured from `t`.
    pub fn relative_from_v(self, t: RelativeFromVType) -> (p: Pic)
        ensures
            p == (Pic { relative_from_v: t, ..self }),
    {
        Pic { relative_from_v: t, ..self }
    }

    /// This picture rotated by `deg` degrees.
    pub fn rotate(self, deg: u16) -> (p: Pic)
        ensures
            p == (Pic { rot: deg, ..self }),
    {
        Pic { rot: deg, ..self }
    }

    /// The placement of this picture.
    pub fn placement(&self) -> (pl: Placement)
        ensures
            pl == pic_placement(*self),
    {
        Placement {
            size: self.size,
            position_type: self.position_type,
            simple_pos: self.simple_pos,
            simple_pos_x: self.simple_pos_x,
            simple_pos_y: self.simple_pos_y,
            layout_in_cell: self.layout_in_cell,
            relative_height: self.relative_height,
            allow_overlap: self.allow_overlap,
            position_h: self.position_h,
            position_v: self.position_v,
            relative_from_h: self.relative_from_h,
            relative_from_v: self.relative_from_v,
            dist_t: self.dist_t,
            dist_b: self.dist_b,
            dist_l: self.dist_l,
            dist_r: self.dist_r,
        }
    }

    /// Appends the `pic:pic` element of this picture.
    pub fn write_pic(&self, out: &mut String)
        ensures
            final(out)@ == old(out)@ + render_node(pic_node(*self)),
    {
        let attrs = vec![
            attr_lit("xmlns:pic", "http://schemas.openxmlformats.org/drawingml/2006/picture"),
        ];
        assert(attrs_view(attrs@) =~= seq![("xmlns:pic"@, picture_ns())]);
        write_start(out, "pic:pic", &attrs);
        write_nv_pic_pr(out);
        write_blip_fill(out, &self.id);
        write_sp_pr(out, self);
        write_end(out, "pic:pic");
        proof {
            lemma_render_nodes_three(
                pic_nv_pic_pr_node(),
                pic_blip_fill_node(self.id@),
                pic_sp_pr_node(*self),
            );
        }
        assert(final(out)@ =~= old(out)@ + render_node(pic_node(*self)));
    }
}

} // verus!
