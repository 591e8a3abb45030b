//! `COLR` glyphs, which are painted into an SVG document.

use vstd::prelude::*;
use xmlwriter::XmlWriter;

use crate::face::{find_color_glyph, has_color_glyph};
use crate::tree::{Color, GlyphId};

verus! {

/// A writer of XML.
#[verifier::external_type_specification]
#[verifier::external_body]
pub struct ExXmlWriter(xmlwriter::XmlWriter);

/// What a writer can be told to write.
pub enum XmlEvent {
    Start(Seq<char>),
    Attribute(Seq<char>, Seq<char>),
    End,
}

/// Names what a writer was told to write, in order.
pub uninterp spec fn xml_events(writer: XmlWriter) -> Seq<XmlEvent>;

/// Names whether all that a writer was told to write is text. Bytes that are
/// not can only come in as a raw attribute value.
pub uninterp spec fn is_text(writer: XmlWriter) -> bool;

/// Names the document that a writer ends up with once all elements are closed.
pub uninterp spec fn xml_document(writer: XmlWriter) -> Seq<char>;

/// Whether an attribute can be written: only directly after the start of an
/// element or after another attribute.
pub open spec fn takes_attributes(events: Seq<XmlEvent>) -> bool {
    events.len() > 0 && (events.last() is Start || events.last() is Attribute)
}

/// `XmlWriter::new` of xmlwriter with its default options: a writer that was
/// told nothing yet.
#[verifier::external_body]
fn new_writer() -> (res: XmlWriter)
    ensures
        xml_events(res) == Seq::<XmlEvent>::empty(),
        is_text(res),
{
    XmlWriter::new(xmlwriter::Options::default())
}

/// `XmlWriter::start_element` of xmlwriter: starts an element in the one that is
/// open.
pub assume_specification[ xmlwriter::XmlWriter::start_element ](
    writer: &mut XmlWriter,
    name: &str,
)
    ensures
        xml_events(*final(writer)) == xml_events(*old(writer)).push(XmlEvent::Start(name@)),
        is_text(*final(writer)) == is_text(*old(writer)),
;

/// `XmlWriter::write_attribute` of xmlwriter: gives the element that was just
/// started an attribute. It panics when there is none.
#[verifier::external_body]
fn write_attribute(writer: &mut XmlWriter, name: &str, value: &str)
    requires
        takes_attributes(xml_events(*old(writer))),
    ensures
        xml_events(*final(writer)) == xml_events(*old(writer)).push(
            XmlEvent::Attribute(name@, value@),
        ),
        is_text(*final(writer)) == is_text(*old(writer)),
{
    writer.write_attribute(name, value)
}

/// `XmlWriter::end_element` of xmlwriter: ends the element that is open, if any.
pub assume_specification[ xmlwriter::XmlWriter::end_element ](writer: &mut XmlWriter)
    ensures
        xml_events(*final(writer)) == xml_events(*old(writer)).push(XmlEvent::End),
        is_text(*final(writer)) == is_text(*old(writer)),
;

/// `XmlWriter::end_document` of xmlwriter: ends all elements that are open and
/// hands out the document. It panics when that is not text.
pub assume_specification[ xmlwriter::XmlWriter::end_document ](writer: XmlWriter) -> (res: String)
    requires
        is_text(writer),
    ensures
        res@ == xml_document(writer),
;

/// A document that a `COLR` glyph is painted into, and what the painter starts
/// from.
pub struct ColrDocument {
    /// The document, in which a group is open.
    pub svg: XmlWriter,
    /// The number of the first gradient.
    pub gradient_index: usize,
    /// The number of the first clip path.
    pub clip_path_index: usize,
    /// The color that the foreground of the text is painted with.
    pub foreground_color: Color,
    /// The opacity that the foreground of the text is painted with.
    pub foreground_opacity: u8,
}

/// What is in a document before a glyph is painted into it: the root element
/// with its namespaces, and a group.
pub open spec fn document_start() -> Seq<XmlEvent> {
    seq![
        XmlEvent::Start("svg"@),
        XmlEvent::Attribute("xmlns"@, "http://www.w3.org/2000/svg"@),
        XmlEvent::Attribute("xmlns:xlink"@, "http://www.w3.org/1999/xlink"@),
        XmlEvent::Start("g"@),
    ]
}

impl ColrDocument {
    /// Whether nothing was painted yet.
    pub open spec fn is_fresh(self) -> bool {
        &&& xml_events(self.svg) == document_start()
        &&& is_text(self.svg)
        &&& self.gradient_index == 1
        &&& self.clip_path_index == 1
        &&& self.foreground_color == (Color { red: 0, green: 0, blue: 0 })
        &&& self.foreground_opacity == 255
    }

    /// Starts a document.
    pub fn new() -> (res: ColrDocument)
        ensures
            res.is_fresh(),
    {
        let mut svg: XmlWriter = new_writer();
        svg.start_element("svg");
        write_attribute(&mut svg, "xmlns", "http://www.w3.org/2000/svg");
        write_attribute(&mut svg, "xmlns:xlink", "http://www.w3.org/1999/xlink");
        svg.start_element("g");
        assert(xml_events(svg) =~= document_start());
        ColrDocument {
            svg,
            gradient_index: 1,
            clip_path_index: 1,
            foreground_color: Color::black(),
            foreground_opacity: 255,
        }
    }

    /// Ends the document once a glyph was painted into it.
    pub fn finish(self) -> (res: String)
        requires
            is_text(self.svg),
        ensures
            exists|closed: XmlWriter| #[trigger]
                xml_document(closed) == res@ && xml_events(closed) == xml_events(self.svg).push(
                    XmlEvent::End,
                ),
    {
        let mut svg: XmlWriter = self.svg;
        svg.end_element();
        svg.end_document()
    }
}

/// Starts the document of a glyph of the face at `index` of the font file
/// `data`, if the face has a `COLR` description of the glyph.
pub fn colr_in_face(data: &[u8], index: u32, glyph: GlyphId) -> (res: Option<ColrDocument>)
    ensures
        res is Some <==> has_color_glyph(data@, index, glyph.0),
        res matches Some(document) ==> document.is_fresh(),
{
    if find_color_glyph(data, index, glyph) {
        Some(ColrDocument::new())
    } else {
        None
    }
}

/// A fresh document holds an open group in an open root element with its two
/// namespaces, and nothing else. Gradients and clip paths are counted from one,
/// and the foreground is opaque black.
pub proof fn law_fresh_document_is_an_open_group(document: ColrDocument)
    requires
        document.is_fresh(),
    ensures
        ({
            let events = xml_events(document.svg);
            &&& events.len() == 4
            &&& events[0] == XmlEvent::Start(seq!['s', 'v', 'g'])
            &&& events[1] matches XmlEvent::Attribute(name, value) && name == seq![
                'x',
                'm',
                'l',
                'n',
                's',
            ] && value == "http://www.w3.org/2000/svg"@
            &&& events[2] matches XmlEvent::Attribute(name, value) && name == "xmlns:xlink"@
                && value == "http://www.w3.org/1999/xlink"@
            &&& events[3] == XmlEvent::Start(seq!['g'])
        }),
        document.gradient_index == 1,
        document.clip_path_index == 1,
        document.foreground_color.red == 0,
        document.foreground_color.green == 0,
        document.foreground_color.blue == 0,
        document.foreground_opacity == 255,
{
    reveal_strlit("svg");
    reveal_strlit("xmlns");
    reveal_strlit("g");
    assert("svg"@ =~= seq!['s', 'v', 'g']);
    assert("xmlns"@ =~= seq!['x', 'm', 'l', 'n', 's']);
    assert("g"@ =~= seq!['g']);
}

} // verus!
