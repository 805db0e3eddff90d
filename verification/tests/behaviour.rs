use docx_core::decimal::{format_signed, format_unsigned};
use docx_core::drawing::{Drawing, DrawingData};
use docx_core::pic::Pic;
use docx_core::position::{
    DrawingPosition, DrawingPositionType, PicAlign, RelativeFromHType, RelativeFromVType,
};
use docx_core::text_box::{TextBox, TextBoxContentChild};
use docx_core::xml::{Attr, Element, Node};

fn element(name: &str, attrs: Vec<Attr>, children: Vec<Node>) -> Element {
    Element { name: String::from(name), attrs, children }
}

fn run_of_text(text: &str) -> Node {
    Node::Element(element(
        "w:r",
        Vec::new(),
        vec![Node::Element(element("w:t", Vec::new(), vec![Node::Text(String::from(text))]))],
    ))
}

fn pic() -> Pic {
    Pic::new_with_dimensions(Vec::new(), 320, 240, 123)
}

#[test]
fn new_drawing_shows_nothing() {
    assert!(Drawing::new().data.is_none());
    let d: Drawing = Default::default();
    assert!(d.data.is_none());
}

#[test]
fn last_setter_wins() {
    let d = Drawing::new().pic(pic()).text_box(TextBox::new());
    assert!(matches!(d.data, Some(DrawingData::TextBox(_))));
    let d = Drawing::new().text_box(TextBox::new()).pic(pic());
    assert!(matches!(d.data, Some(DrawingData::Pic(_))));
}

#[test]
fn serialization_names() {
    let p = DrawingData::Pic(pic());
    let t = DrawingData::TextBox(TextBox::new());
    assert_eq!(p.struct_name(), "Pic");
    assert_eq!(p.type_tag(), "pic");
    assert_eq!(t.struct_name(), "TextBox");
    assert_eq!(t.type_tag(), "textBox");
}

#[test]
fn picture_ids_and_sizes() {
    let p = Pic::new_with_dimensions(vec![1, 2, 3], 1, 2, 7);
    assert_eq!(p.id, "rIdImage7");
    assert_eq!(p.image, vec![1, 2, 3]);
    assert_eq!(p.size, (9525, 19050));
    assert_eq!(p.position_type, DrawingPositionType::Inline);
    assert_eq!(p.relative_height, 190500);
}

#[test]
fn decimal_notation() {
    assert_eq!(format_unsigned(0), "0");
    assert_eq!(format_unsigned(3048000), "3048000");
    assert_eq!(format_unsigned(u64::MAX), "18446744073709551615");
    assert_eq!(format_signed(-5), "-5");
    assert_eq!(format_signed(i64::MIN), "-9223372036854775808");
    assert_eq!(format_signed(42), "42");
}

#[test]
fn negative_offset_written_as_unsigned_bits() {
    let p = pic().floating().offset_x(-1).offset_y(-9525);
    let xml = Drawing::new().pic(p).build();
    assert!(xml.contains(
        "<wp:positionH relativeFrom=\"margin\"><wp:posOffset>4294967295</wp:posOffset></wp:positionH>"
    ));
    assert!(xml.contains("<wp:posOffset>4294957771</wp:posOffset>"));
}

#[test]
fn negative_distances_keep_their_sign() {
    let mut p = pic();
    p.dist_t = -5;
    p.dist_r = 12;
    let xml = Drawing::new().pic(p).build();
    assert!(xml.contains("<wp:inline distT=\"-5\" distB=\"0\" distL=\"0\" distR=\"12\">"));
}

#[test]
fn attribute_values_are_escaped() {
    let mut p = pic();
    p.id = String::from("a\"<&'>b\n");
    let xml = Drawing::new().pic(p).build();
    assert!(xml.contains("<a:blip r:embed=\"a&quot;&lt;&amp;&apos;&gt;b&#xA;\" />"));
}

#[test]
fn anchor_flags_and_rotation() {
    let mut p = pic().floating().rotate(90);
    p.simple_pos = true;
    p.layout_in_cell = true;
    p.simple_pos_x = -3;
    p.relative_height = 7;
    let xml = Drawing::new().pic(p).build();
    assert!(xml.contains(
        "<wp:anchor distT=\"0\" distB=\"0\" distL=\"0\" distR=\"0\" simplePos=\"0\" allowOverlap=\"1\" behindDoc=\"0\" locked=\"0\" layoutInCell=\"1\" relativeHeight=\"7\"><wp:simplePos x=\"-3\" y=\"0\" />"
    ));
    assert!(xml.contains("<a:xfrm rot=\"5400000\">"));
}

#[test]
fn reference_and_alignment_names() {
    let p = pic()
        .floating()
        .relative_from_h(RelativeFromHType::OutsizeMargin)
        .relative_from_v(RelativeFromVType::TopMargin)
        .position_h(DrawingPosition::Align(PicAlign::Center))
        .position_v(DrawingPosition::Align(PicAlign::Bottom));
    let xml = Drawing::new().pic(p).build();
    assert!(xml.contains(
        "<wp:positionH relativeFrom=\"outsideMargin\"><wp:align>center</wp:align></wp:positionH><wp:positionV relativeFrom=\"topMargin\"><wp:align>bottom</wp:align></wp:positionV>"
    ));
    assert_eq!(RelativeFromHType::LeftMargin.name(), "leftMargin");
    assert_eq!(RelativeFromVType::Line.name(), "line");
    assert_eq!(PicAlign::Top.name(), "top");
}

#[test]
fn wrapping_rules() {
    let inline = Drawing::new().text_box(TextBox::new()).build();
    assert!(!inline.contains("wp:wrap"));
    let mut t = TextBox::new();
    t.position_type = DrawingPositionType::Anchor;
    let anchored = Drawing::new().text_box(t).build();
    assert!(anchored.contains("<wp:effectExtent b=\"0\" l=\"0\" r=\"0\" t=\"0\" /><wp:wrapSquare wrapText=\"bothSides\" /><wp:docPr id=\"1\" name=\"Text Box\" />"));
    let mut t = TextBox::new();
    t.position_type = DrawingPositionType::Anchor;
    t.allow_overlap = true;
    let overlapping = Drawing::new().text_box(t).build();
    assert!(overlapping.contains("<wp:wrapNone /><wp:docPr"));
    assert!(!overlapping.contains("wrapSquare"));
}

#[test]
fn empty_text_box_markup() {
    let xml = Drawing::new().text_box(TextBox::new()).build();
    assert_eq!(
        xml,
        "<w:drawing><wp:inline distT=\"0\" distB=\"0\" distL=\"0\" distR=\"0\"><wp:extent cx=\"952500\" cy=\"952500\" /><wp:effectExtent b=\"0\" l=\"0\" r=\"0\" t=\"0\" /><wp:docPr id=\"1\" name=\"Text Box\" /><wp:cNvGraphicFramePr><a:graphicFrameLocks xmlns:a=\"http://schemas.openxmlformats.org/drawingml/2006/main\" noChangeAspect=\"1\" /></wp:cNvGraphicFramePr><a:graphic xmlns:a=\"http://schemas.openxmlformats.org/drawingml/2006/main\"><a:graphicData uri=\"http://schemas.microsoft.com/office/word/2010/wordprocessingShape\"><wps:wsp><wps:txbx><w:txbxContent /></wps:txbx><wps:bodyPr /></wps:wsp></a:graphicData></a:graphic></wp:inline></w:drawing>"
    );
}

#[test]
fn text_box_blocks_in_order() {
    let mut t = TextBox::new();
    t.children.push(TextBoxContentChild::Paragraph(element("w:p", Vec::new(), vec![run_of_text("A")])));
    t.children.push(TextBoxContentChild::Table(element("w:tbl", Vec::new(), Vec::new())));
    assert_eq!(t.children[1].element().name, "w:tbl");
    let xml = Drawing::new().text_box(t).build();
    assert!(xml.contains(
        "<wps:txbx><w:txbxContent><w:p><w:r><w:t>A</w:t></w:r></w:p><w:tbl /></w:txbxContent></wps:txbx>"
    ));
}

#[test]
fn text_box_block_text_and_attributes_are_escaped() {
    let mut t = TextBox::new();
    let attrs = vec![Attr::new("w:val", String::from("a\"b"))];
    t.children.push(TextBoxContentChild::Paragraph(element("w:p", attrs, vec![run_of_text("x < y & z")])));
    let xml = Drawing::new().text_box(t).build();
    assert!(xml.contains(
        "<w:txbxContent><w:p w:val=\"a&quot;b\"><w:r><w:t>x &lt; y &amp; z</w:t></w:r></w:p></w:txbxContent>"
    ));
}

#[test]
fn pictures_and_text_boxes_placed_alike() {
    let p = pic().floating().offset_x(100);
    let mut t = TextBox::new();
    t.size = p.size;
    t.position_type = DrawingPositionType::Anchor;
    t.position_h = DrawingPosition::Offset(100);
    let a = Drawing::new().pic(p).build();
    let b = Drawing::new().text_box(t).build();
    let head = a.find("<wp:docPr").unwrap();
    assert_eq!(&a[..head], &b[..head]);
    assert!(a.starts_with("<w:drawing>") && a.ends_with("</w:drawing>"));
    assert!(b.starts_with("<w:drawing>") && b.ends_with("</w:drawing>"));
}

#[test]
fn placement_copies_the_layout_fields() {
    let p = pic().floating().offset_y(7);
    let pl = p.placement();
    assert_eq!(pl.size, (3048000, 2286000));
    assert_eq!(pl.position_type, DrawingPositionType::Anchor);
    assert_eq!(pl.position_v, DrawingPosition::Offset(7));
    assert_eq!(pl.relative_height, 190500);
    let t = TextBox::new();
    assert_eq!(t.placement().size, (952500, 952500));
}

#[test]
fn clones_are_equal() {
    let p = pic().floating().rotate(45);
    let q = p.clone();
    assert_eq!(p, q);
    let d = Drawing::new().pic(p.clone());
    let e = d.clone();
    assert_eq!(d, e);
    assert_eq!(d.build(), e.build());
    let mut t = TextBox::new();
    t.children.push(TextBoxContentChild::Paragraph(element(
        "w:p",
        vec![Attr::new("w14:paraId", String::from("1"))],
        vec![run_of_text("copy")],
    )));
    assert_eq!(t.clone(), t);
    let d = Drawing::new().text_box(t);
    let e = d.clone();
    assert_eq!(d, e);
    assert_eq!(d.build(), e.build());
    let data = DrawingData::Pic(pic());
    assert_eq!(data.clone(), data);
}

#[test]
fn frame_outline_of_anchored_picture() {
    let mut p = pic().floating();
    p.dist_l = -2;
    let xml = Drawing::new().pic(p).build();
    assert!(xml.starts_with("<w:drawing><wp:anchor distT=\"0\" distB=\"0\" distL=\"-2\" distR=\"0\""));
    assert!(xml.ends_with("</wp:anchor></w:drawing>"));
}

#[test]
fn first_extent_follows_the_positions() {
    let mut p = pic().floating().offset_x(5);
    p.allow_overlap = true;
    let xml = Drawing::new().pic(p).build();
    let at = xml.find("<wp:extent ").unwrap();
    assert!(xml[..at].ends_with("</wp:positionV>"));
    assert!(xml[at..].starts_with(
        "<wp:extent cx=\"3048000\" cy=\"2286000\" /><wp:effectExtent b=\"0\" l=\"0\" r=\"0\" t=\"0\" /><wp:wrapNone /><wp:docPr id=\"1\" name=\""
    ));
}
