use docx_core::drawing::{Drawing, DrawingData};
use docx_core::pic::Pic;
use docx_core::position::{DrawingPosition, PicAlign, RelativeFromHType, RelativeFromVType};
use docx_core::text_box::{TextBox, TextBoxContentChild};
use docx_core::xml::{Attr, Element, Node};

#[test]
fn test_drawing_build_with_pic() {
    let pic = Pic::new_with_dimensions(Vec::new(), 320, 240, 123);
    let d = Drawing::new().pic(pic).build();
    assert_eq!(
        d.as_str(),
        r#"<w:drawing><wp:inline distT="0" distB="0" distL="0" distR="0"><wp:extent cx="3048000" cy="2286000" /><wp:effectExtent b="0" l="0" r="0" t="0" /><wp:docPr id="1" name="Figure" /><wp:cNvGraphicFramePr><a:graphicFrameLocks xmlns:a="http://schemas.openxmlformats.org/drawingml/2006/main" noChangeAspect="1" /></wp:cNvGraphicFramePr><a:graphic xmlns:a="http://schemas.openxmlformats.org/drawingml/2006/main"><a:graphicData uri="http://schemas.openxmlformats.org/drawingml/2006/picture"><pic:pic xmlns:pic="http://schemas.openxmlformats.org/drawingml/2006/picture"><pic:nvPicPr><pic:cNvPr id="0" name="" /><pic:cNvPicPr><a:picLocks noChangeAspect="1" noChangeArrowheads="1" /></pic:cNvPicPr></pic:nvPicPr><pic:blipFill><a:blip r:embed="rIdImage123" /><a:srcRect /><a:stretch><a:fillRect /></a:stretch></pic:blipFill><pic:spPr bwMode="auto"><a:xfrm rot="0"><a:off x="0" y="0" /><a:ext cx="3048000" cy="2286000" /></a:xfrm><a:prstGeom prst="rect"><a:avLst /></a:prstGeom></pic:spPr></pic:pic></a:graphicData></a:graphic></wp:inline></w:drawing>"#
    );
}

#[test]
fn test_drawing_build_with_pic_overlap() {
    let pic = Pic::new_with_dimensions(Vec::new(), 320, 240, 123).overlapping();
    let d = Drawing::new().pic(pic).build();
    assert_eq!(
        d.as_str(),
        r#"<w:drawing><wp:inline distT="0" distB="0" distL="0" distR="0"><wp:extent cx="3048000" cy="2286000" /><wp:effectExtent b="0" l="0" r="0" t="0" /><wp:wrapNone /><wp:docPr id="1" name="Figure" /><wp:cNvGraphicFramePr><a:graphicFrameLocks xmlns:a="http://schemas.openxmlformats.org/drawingml/2006/main" noChangeAspect="1" /></wp:cNvGraphicFramePr><a:graphic xmlns:a="http://schemas.openxmlformats.org/drawingml/2006/main"><a:graphicData uri="http://schemas.openxmlformats.org/drawingml/2006/picture"><pic:pic xmlns:pic="http://schemas.openxmlformats.org/drawingml/2006/picture"><pic:nvPicPr><pic:cNvPr id="0" name="" /><pic:cNvPicPr><a:picLocks noChangeAspect="1" noChangeArrowheads="1" /></pic:cNvPicPr></pic:nvPicPr><pic:blipFill><a:blip r:embed="rIdImage123" /><a:srcRect /><a:stretch><a:fillRect /></a:stretch></pic:blipFill><pic:spPr bwMode="auto"><a:xfrm rot="0"><a:off x="0" y="0" /><a:ext cx="3048000" cy="2286000" /></a:xfrm><a:prstGeom prst="rect"><a:avLst /></a:prstGeom></pic:spPr></pic:pic></a:graphicData></a:graphic></wp:inline></w:drawing>"#
    );
}

#[test]
fn test_drawing_build_with_pic_align_right() {
    let mut pic = Pic::new_with_dimensions(Vec::new(), 320, 240, 123).floating();
    pic = pic.relative_from_h(RelativeFromHType::Column);
    pic = pic.relative_from_v(RelativeFromVType::Paragraph);
    pic = pic.position_h(DrawingPosition::Align(PicAlign::Right));
    let d = Drawing::new().pic(pic).build();
    assert_eq!(
        d.as_str(),
        r#"<w:drawing><wp:anchor distT="0" distB="0" distL="0" distR="0" simplePos="0" allowOverlap="0" behindDoc="0" locked="0" layoutInCell="0" relativeHeight="190500"><wp:simplePos x="0" y="0" /><wp:positionH relativeFrom="column"><wp:align>right</wp:align></wp:positionH><wp:positionV relativeFrom="paragraph"><wp:posOffset>0</wp:posOffset></wp:positionV><wp:extent cx="3048000" cy="2286000" /><wp:effectExtent b="0" l="0" r="0" t="0" /><wp:wrapSquare wrapText="bothSides" /><wp:docPr id="1" name="Figure" /><wp:cNvGraphicFramePr><a:graphicFrameLocks xmlns:a="http://schemas.openxmlformats.org/drawingml/2006/main" noChangeAspect="1" /></wp:cNvGraphicFramePr><a:graphic xmlns:a="http://schemas.openxmlformats.org/drawingml/2006/main"><a:graphicData uri="http://schemas.openxmlformats.org/drawingml/2006/picture"><pic:pic xmlns:pic="http://schemas.openxmlformats.org/drawingml/2006/picture"><pic:nvPicPr><pic:cNvPr id="0" name="" /><pic:cNvPicPr><a:picLocks noChangeAspect="1" noChangeArrowheads="1" /></pic:cNvPicPr></pic:nvPicPr><pic:blipFill><a:blip r:embed="rIdImage123" /><a:srcRect /><a:stretch><a:fillRect /></a:stretch></pic:blipFill><pic:spPr bwMode="auto"><a:xfrm rot="0"><a:off x="0" y="0" /><a:ext cx="3048000" cy="2286000" /></a:xfrm><a:prstGeom prst="rect"><a:avLst /></a:prstGeom></pic:spPr></pic:pic></a:graphicData></a:graphic></wp:anchor></w:drawing>"#
    );
}

#[test]
fn test_issue686() {
    let pic = Pic::new_with_dimensions(Vec::new(), 320, 240, 123)
        .size(320 * 9525, 240 * 9525)
        .floating()
        .offset_x(300 * 9525)
        .offset_y(400 * 9525);

    let d = Drawing::new().pic(pic).build();
    assert_eq!(
        d.as_str(),
        r#"<w:drawing><wp:anchor distT="0" distB="0" distL="0" distR="0" simplePos="0" allowOverlap="0" behindDoc="0" locked="0" layoutInCell="0" relativeHeight="190500"><wp:simplePos x="0" y="0" /><wp:positionH relativeFrom="margin"><wp:posOffset>2857500</wp:posOffset></wp:positionH><wp:positionV relativeFrom="margin"><wp:posOffset>3810000</wp:posOffset></wp:positionV><wp:extent cx="3048000" cy="2286000" /><wp:effectExtent b="0" l="0" r="0" t="0" /><wp:wrapSquare wrapText="bothSides" /><wp:docPr id="1" name="Figure" /><wp:cNvGraphicFramePr><a:graphicFrameLocks xmlns:a="http://schemas.openxmlformats.org/drawingml/2006/main" noChangeAspect="1" /></wp:cNvGraphicFramePr><a:graphic xmlns:a="http://schemas.openxmlformats.org/drawingml/2006/main"><a:graphicData uri="http://schemas.openxmlformats.org/drawingml/2006/picture"><pic:pic xmlns:pic="http://schemas.openxmlformats.org/drawingml/2006/picture"><pic:nvPicPr><pic:cNvPr id="0" name="" /><pic:cNvPicPr><a:picLocks noChangeAspect="1" noChangeArrowheads="1" /></pic:cNvPicPr></pic:nvPicPr><pic:blipFill><a:blip r:embed="rIdImage123" /><a:srcRect /><a:stretch><a:fillRect /></a:stretch></pic:blipFill><pic:spPr bwMode="auto"><a:xfrm rot="0"><a:off x="0" y="0" /><a:ext cx="3048000" cy="2286000" /></a:xfrm><a:prstGeom prst="rect"><a:avLst /></a:prstGeom></pic:spPr></pic:pic></a:graphicData></a:graphic></wp:anchor></w:drawing>"#
    );
}

#[test]
fn test_drawing_build_with_textbox() {
    let text_box = TextBox::new();
    let d = Drawing::new().text_box(text_box).build();
    let xml = d.as_str();
    assert!(xml.contains(r#"<w:drawing>"#));
    assert!(xml.contains(r#"wp:inline"#));
    assert!(xml.contains(r#"<wp:extent cx="952500" cy="952500"#));
    assert!(xml.contains(
        r#"uri="http://schemas.microsoft.com/office/word/2010/wordprocessingShape""#
    ));
    assert!(xml.contains(r#"<wps:wsp>"#));
    assert!(xml.contains(r#"<wps:txbx>"#));
    assert!(xml.contains(r#"txbxContent"#));
    assert!(xml.contains(r#"<wps:bodyPr />"#));
    assert!(xml.contains(r#"<wp:docPr id="1" name="Text Box"#));
}

#[test]
fn test_drawing_build_with_textbox_with_paragraph() {
    let text_box = TextBox::new();
    let mut t = text_box;
    let r_pr = Element { name: String::from("w:rPr"), attrs: Vec::new(), children: Vec::new() };
    let p_pr = Element {
        name: String::from("w:pPr"),
        attrs: Vec::new(),
        children: vec![Node::Element(r_pr)],
    };
    t.children.push(TextBoxContentChild::Paragraph(Element {
        name: String::from("w:p"),
        attrs: vec![Attr::new("w14:paraId", String::from("12345678"))],
        children: vec![Node::Element(p_pr)],
    }));
    let d = Drawing::new().text_box(t).build();
    let xml = d.as_str();
    assert!(xml.contains(r#"<w:txbxContent>"#));
    assert!(xml.contains(r#"<w:p "#));
    assert!(xml.contains(r#"<wps:wsp>"#));
    assert!(xml.contains(r#"<wps:txbx>"#));
    assert!(xml.contains(r#"<wps:bodyPr />"#));
}
