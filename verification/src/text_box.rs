//! Text boxes: their placement and the `wps:wsp` shape that holds their
//! content.

use vstd::prelude::*;
use crate::placement::Placement;
use crate::position::{DrawingPosition, DrawingPositionType, RelativeFromHType, RelativeFromVType};
use crate::xml::{
    attrs_view, copy_element, elem, element_tree, leaf, lemma_render_nodes_push, render_attrs,
    lemma_render_nodes_single, lemma_render_nodes_two, render_node, render_nodes, write_element,
    write_end, write_leaf, write_start, Attr, Element, XmlNode,
};

verus! {

/// A block of a text box's content: a paragraph (`w:p`) or a table
/// (`w:tbl`), held as the element tree that its own writer builds.
#[derive(Debug, PartialEq, Eq)]
pub enum TextBoxContentChild {
    Paragraph(Element),
    Table(Element),
}

/// The element of a content block.
pub open spec fn child_element(c: TextBoxContentChild) -> Element {
    match c {
        TextBoxContentChild::Paragraph(e) => e,
        TextBoxContentChild::Table(e) => e,
    }
}

/// The markup tree of a content block.
pub open spec fn child_node(c: TextBoxContentChild) -> XmlNode {
    element_tree(child_element(c))
}

/// `c` is a copy of `d`: a block of the same kind, standing for the same
/// tree.
pub open spec fn same_child(c: TextBoxContentChild, d: TextBoxContentChild) -> bool {
    &&& (c is Paragraph <==> d is Paragraph)
    &&& child_node(c) == child_node(d)
}

impl Clone for TextBoxContentChild {
    /// A copy of this block.
    fn clone(&self) -> (c: TextBoxContentChild)
        ensures
            same_child(c, *self),
    {
        match self {
            TextBoxContentChild::Paragraph(e) => TextBoxContentChild::Paragraph(copy_element(e)),
            TextBoxContentChild::Table(e) => TextBoxContentChild::Table(copy_element(e)),
        }
    }
}

impl TextBoxContentChild {
    /// The element of this block.
    pub fn element(&self) -> (e: &Element)
        ensures
            *e == child_element(*self),
    {
        match self {
            TextBoxContentChild::Paragraph(e) => e,
            TextBoxContentChild::Table(e) => e,
        }
    }
}

/// `c` holds copies of the blocks of `d`, in order.
pub open spec fn same_children(c: Seq<TextBoxContentChild>, d: Seq<TextBoxContentChild>) -> bool {
    &&& c.len() == d.len()
    &&& forall|i: int| 0 <= i < c.len() ==> same_child(#[trigger] c[i], d[i])
}

/// `t` is a copy of the text box `u`: copies of its blocks, placed alike.
pub open spec fn same_text_box(t: TextBox, u: TextBox) -> bool {
    &&& same_children(t.children@, u.children@)
    &&& text_box_placement(t) == text_box_placement(u)
}

impl Clone for TextBox {
    /// A copy of this text box.
    fn clone(&self) -> (t: TextBox)
        ensures
            same_text_box(t, *self),
    {
        let mut children: Vec<TextBoxContentChild> = Vec::new();
        let mut i: usize = 0;
        while i < self.children.len()
            invariant
                i <= self.children.len(),
                children@.len() == i,
                forall|k: int| 0 <= k < i ==> same_child(#[trigger] children@[k], self.children@[k]),
            decreases self.children.len() - i,
        {
            children.push(self.children[i].clone());
            i = i + 1;
        }
        TextBox {
            children,
            size: self.size,
            position_type: self.position_type,
            simple_pos: self.simple_pos,
            simple_pos_x: self.simple_pos_x,
            simple_pos_y: self.simple_pos_y,
            layout_in_cell: self.layout_in_cell,
            relative_height: self.relative_height,
            allow_overlap: self.allow_overlap,
            position_h: self.position_h,
            position_v: self.position_v,
            relative_from_h: self.relative_from_h,
            relative_from_v: self.relative_from_v,
            dist_t: self.dist_t,
            dist_b: self.dist_b,
            dist_l: self.dist_l,
            dist_r: self.dist_r,
        }
    }
}

/// A text box: its content and its placement on the page. Sizes, distances
/// and offsets are in EMU.
#[derive(Debug, PartialEq)]
pub struct TextBox {
    pub children: Vec<TextBoxContentChild>,
    pub size: (u32, u32),
    pub position_type: DrawingPositionType,
    pub simple_pos: bool,
    pub simple_pos_x: i32,
    pub simple_pos_y: i32,
    pub layout_in_cell: bool,
    pub relative_height: u32,
    pub allow_overlap: bool,
    pub position_h: DrawingPosition,
    pub position_v: DrawingPosition,
    pub relative_from_h: RelativeFromHType,
    pub relative_from_v: RelativeFromVType,
    pub dist_t: i32,
    pub dist_b: i32,
    pub dist_l: i32,
    pub dist_r: i32,
}

/// The placement of a text box.
pub open spec fn text_box_placement(t: TextBox) -> Placement {
    Placement {
        size: t.size,
        position_type: t.position_type,
        simple_pos: t.simple_pos,
        simple_pos_x: t.simple_pos_x,
        simple_pos_y: t.simple_pos_y,
        layout_in_cell: t.layout_in_cell,
        relative_height: t.relative_height,
        allow_overlap: t.allow_overlap,
        position_h: t.position_h,
        position_v: t.position_v,
        relative_from_h: t.relative_from_h,
        relative_from_v: t.relative_from_v,
        dist_t: t.dist_t,
        dist_b: t.dist_b,
        dist_l: t.dist_l,
        dist_r: t.dist_r,
    }
}

/// The content blocks as markup nodes, in order.
pub open spec fn content_nodes(children: Seq<TextBoxContentChild>) -> Seq<XmlNode> {
    children.map_values(|c: TextBoxContentChild| child_node(c))
}

/// The text box content holding the given block nodes: `w:txbxContent`
/// inside `wps:txbx`.
pub open spec fn txbx_node_of(blocks: Seq<XmlNode>) -> XmlNode {
    elem("wps:txbx"@, seq![], seq![elem("w:txbxContent"@, seq![], blocks)])
}

/// The shape holding the given block nodes: the text box content followed
/// by empty body properties.
pub open spec fn shape_node_of(blocks: Seq<XmlNode>) -> XmlNode {
    elem("wps:wsp"@, seq![], seq![txbx_node_of(blocks), leaf("wps:bodyPr"@, seq![])])
}

/// The text box content: `w:txbxContent` holding the blocks, inside
/// `wps:txbx`.
pub open spec fn txbx_node(children: Seq<TextBoxContentChild>) -> XmlNode {
    txbx_node_of(content_nodes(children))
}

/// The shape of a text box: its content followed by empty body properties.
pub open spec fn text_box_shape_node(t: TextBox) -> XmlNode {
    shape_node_of(content_nodes(t.children@))
}

/// The writing of a text box's blocks, in order, each paragraph or table
/// written as the whole element it holds.
pub open spec fn blocks_written(cs: Seq<TextBoxContentChild>) -> Seq<char>
    decreases cs.len(),
{
    if cs.len() == 0 {
        seq![]
    } else {
        blocks_written(cs.drop_last()) + match cs.last() {
            TextBoxContentChild::Paragraph(e) => render_node(element_tree(e)),
            TextBoxContentChild::Table(e) => render_node(element_tree(e)),
        }
    }
}

proof fn lemma_content_nodes_written(cs: Seq<TextBoxContentChild>)
    ensures
        render_nodes(content_nodes(cs)) == blocks_written(cs),
    decreases cs.len(),
{
    if cs.len() > 0 {
        lemma_content_nodes_written(cs.drop_last());
        assert(content_nodes(cs).drop_last() =~= content_nodes(cs.drop_last()));
    }
}

/// The shape of a text box is written as `<wps:wsp><wps:txbx>`, the text
/// box content holding every block of the text box whole and in order (an
/// empty `<w:txbxContent />` when there are none), then
/// `</wps:txbx><wps:bodyPr /></wps:wsp>`.
#[verifier::spinoff_prover]
pub proof fn lemma_shape_written(t: TextBox)
    ensures
        render_node(text_box_shape_node(t)) == "<wps:wsp><wps:txbx>"@ + (if t.children@.len() == 0 {
            "<w:txbxContent />"@
        } else {
            "<w:txbxContent>"@ + blocks_written(t.children@) + "</w:txbxContent>"@
        }) + "</wps:txbx><wps:bodyPr /></wps:wsp>"@,
{
    let cs = t.children@;
    let blocks = content_nodes(cs);
    let content = elem("w:txbxContent"@, seq![], blocks);
    let txbx = txbx_node_of(blocks);
    let body = leaf("wps:bodyPr"@, seq![]);
    let no_attrs: Seq<(Seq<char>, Seq<char>)> = seq![];
    let c_str = if cs.len() == 0 {
        "<w:txbxContent />"@
    } else {
        "<w:txbxContent>"@ + blocks_written(cs) + "</w:txbxContent>"@
    };
    assert(render_node(content) == c_str) by {
        lemma_content_nodes_written(cs);
        assert(render_attrs(no_attrs) =~= seq![]);
        reveal_strlit("<");
        reveal_strlit(">");
        reveal_strlit("</");
        reveal_strlit(" />");
        reveal_strlit("w:txbxContent");
        reveal_strlit("<w:txbxContent />");
        reveal_strlit("<w:txbxContent>");
        reveal_strlit("</w:txbxContent>");
        assert(blocks.len() == cs.len());
        if cs.len() == 0 {
            assert(render_node(content) =~= c_str);
        } else {
            assert(render_node(content) =~= c_str);
        }
    }
    assert(render_node(txbx) == "<wps:txbx>"@ + c_str + "</wps:txbx>"@) by {
        lemma_render_nodes_single(content);
        assert(render_attrs(no_attrs) =~= seq![]);
        reveal_strlit("<");
        reveal_strlit(">");
        reveal_strlit("</");
        reveal_strlit("wps:txbx");
        reveal_strlit("<wps:txbx>");
        reveal_strlit("</wps:txbx>");
        assert(render_node(txbx) =~= "<wps:txbx>"@ + c_str + "</wps:txbx>"@);
    }
    assert(render_node(body) == "<wps:bodyPr />"@) by {
        assert(render_attrs(no_attrs) =~= seq![]);
        reveal_strlit("<");
        reveal_strlit(" />");
        reveal_strlit("wps:bodyPr");
        reveal_strlit("<wps:bodyPr />");
        assert(render_node(body) =~= "<wps:bodyPr />"@);
    }
    assert(render_node(text_box_shape_node(t)) == "<wps:wsp>"@ + render_node(txbx) + render_node(
        body,
    ) + "</wps:wsp>"@) by {
        lemma_render_nodes_two(txbx, body);
        assert(render_attrs(no_attrs) =~= seq![]);
        reveal_strlit("<");
        reveal_strlit(">");
        reveal_strlit("</");
        reveal_strlit("wps:wsp");
        reveal_strlit("<wps:wsp>");
        reveal_strlit("</wps:wsp>");
        assert(render_node(text_box_shape_node(t)) =~= "<wps:wsp>"@ + render_node(txbx)
            + render_node(body) + "</wps:wsp>"@);
    }
    lemma_shape_text(c_str);
}

proof fn lemma_shape_text(c: Seq<char>)
    ensures
        "<wps:wsp>"@ + ("<wps:txbx>"@ + c + "</wps:txbx>"@) + "<wps:bodyPr />"@ + "</wps:wsp>"@
            == "<wps:wsp><wps:txbx>"@ + c + "</wps:txbx><wps:bodyPr /></wps:wsp>"@,
{
    reveal_strlit("<wps:wsp>");
    reveal_strlit("<wps:txbx>");
    reveal_strlit("</wps:txbx>");
    reveal_strlit("<wps:bodyPr />");
    reveal_strlit("</wps:wsp>");
    reveal_strlit("<wps:wsp><wps:txbx>");
    reveal_strlit("</wps:txbx><wps:bodyPr /></wps:wsp>");
    assert("<wps:wsp>"@ + ("<wps:txbx>"@ + c + "</wps:txbx>"@) + "<wps:bodyPr />"@ + "</wps:wsp>"@
        =~= "<wps:wsp><wps:txbx>"@ + c + "</wps:txbx><wps:bodyPr /></wps:wsp>"@);
}

fn write_txbx(out: &mut String, children: &Vec<TextBoxContentChild>)
    ensures
        final(out)@ == old(out)@ + render_node(txbx_node(children@)),
{
    let none: Vec<Attr> = Vec::new();
    assert(attrs_view(none@) =~= seq![]);
    write_start(out, "wps:txbx", &none);
    let ghost a = out@;
    let ghost nodes = content_nodes(children@);
    if children.len() == 0 {
        write_leaf(out, "w:txbxContent", &none);
        assert(nodes =~= seq![]);
    } else {
        write_start(out, "w:txbxContent", &none);
        let ghost b = out@;
        let mut i: usize = 0;
        assert(nodes.take(0) =~= seq![]);
        assert(out@ =~= b + render_nodes(nodes.take(0)));
        while i < children.len()
            invariant
                nodes == content_nodes(children@),
                nodes.len() == children@.len(),
                i <= children.len(),
                out@ == b + render_nodes(nodes.take(i as int)),
            decreases children.len() - i,
        {
            match &children[i] {
                TextBoxContentChild::Paragraph(e) => write_element(out, e),
                TextBoxContentChild::Table(e) => write_element(out, e),
            }
            proof {
                lemma_render_nodes_push(nodes.take(i as int), nodes[i as int]);
                assert(nodes.take(i as int).push(nodes[i as int]) =~= nodes.take(i + 1));
            }
            i = i + 1;
        }
        assert(nodes.take(children.len() as int) =~= nodes);
        write_end(out, "w:txbxContent");
    }
    write_end(out, "wps:txbx");
    proof {
        lemma_render_nodes_single(elem("w:txbxContent"@, seq![], nodes));
    }
    assert(final(out)@ =~= old(out)@ + render_node(txbx_node(children@)));
}

impl TextBox {
    /// An empty text box of 100 by 100 pixels, in line with the text.
    pub fn new() -> (t: TextBox)
        ensures
            t.children@.len() == 0,
            t.size.0 == 952500,
            t.size.1 == 952500,
            t.position_type == DrawingPositionType::Inline,
            !t.simple_pos,
            t.simple_pos_x == 0,
            t.simple_pos_y == 0,
            !t.layout_in_cell,
            t.relative_height == 190500,
            !t.allow_overlap,
            t.position_h == DrawingPosition::Offset(0),
            t.position_v == DrawingPosition::Offset(0),
            t.relative_from_h == RelativeFromHType::Margin,
            t.relative_from_v == RelativeFromVType::Margin,
            t.dist_t == 0,
            t.dist_b == 0,
            t.dist_l == 0,
            t.dist_r == 0,
    {
        TextBox {
            children: Vec::new(),
            size: (952500, 952500),
            position_type: DrawingPositionType::Inline,
            simple_pos: false,
            simple_pos_x: 0,
            simple_pos_y: 0,
            layout_in_cell: false,
            relative_height: 190500,
            allow_overlap: false,
            position_h: DrawingPosition::Offset(0),
            position_v: DrawingPosition::Offset(0),
            relative_from_h: RelativeFromHType::Margin,
            relative_from_v: RelativeFromVType::Margin,
            dist_t: 0,
            dist_b: 0,
            dist_l: 0,
            dist_r: 0,
        }
    }

    /// The placement of this text box.
    pub fn placement(&self) -> (pl: Placement)
        ensures
            pl == text_box_placement(*self),
    {
        Placement {
            size: self.size,
            position_type: self.position_type,
            simple_pos: self.simple_pos,
            simple_pos_x: self.simple_pos_x,
            simple_pos_y: self.simple_pos_y,
            layout_in_cell: self.layout_in_cell,
            relative_height: self.relative_height,
            allow_overlap: self.allow_overlap,
            position_h: self.position_h,
            position_v: self.position_v,
            relative_from_h: self.relative_from_h,
            relative_from_v: self.relative_from_v,
            dist_t: self.dist_t,
            dist_b: self.dist_b,
            dist_l: self.dist_l,
            dist_r: self.dist_r,
        }
    }

    /// Appends the `wps:wsp` shape of this text box.
    pub fn write_shape(&self, out: &mut String)
        ensures
            final(out)@ == old(out)@ + render_node(text_box_shape_node(*self)),
    {
        let none: Vec<Attr> = Vec::new();
        assert(attrs_view(none@) =~= seq![]);
        write_start(out, "wps:wsp", &none);
        write_txbx(out, &self.children);
        write_leaf(out, "wps:bodyPr", &none);
        write_end(out, "wps:wsp");
        proof {
            lemma_render_nodes_two(txbx_node(self.children@), leaf("wps:bodyPr"@, seq![]));
        }
        assert(final(out)@ =~= old(out)@ + render_node(text_box_shape_node(*self)));
    }
}

} // verus!
