//! SVG glyphs, i.e. the documents of the `SVG` table.

use skrifa::raw::TableProvider;
use vstd::prelude::*;

use crate::tree::GlyphId;

verus! {

/// A record of the `SVG` table: the glyphs that a document describes, from the
/// first to the last.
#[derive(Clone, Copy, PartialEq, Eq, Debug, Structural)]
pub struct SvgRecord {
    pub start: u32,
    pub end: u32,
}

impl SvgRecord {
    /// Whether the document describes the glyph.
    pub open spec fn covers(self, glyph: u32) -> bool {
        self.start <= glyph <= self.end
    }
}

/// Names the records of the `SVG` table of a face.
pub uninterp spec fn svg_records_of(data: Seq<u8>, index: u32) -> Option<Seq<SvgRecord>>;

/// `SVGDocumentList::document_records` of skrifa: the records of the `SVG`
/// table, in its order. `None` when the face or the table cannot be read.
#[verifier::external_body]
fn svg_records(data: &[u8], index: u32) -> (res: Option<Vec<SvgRecord>>)
    ensures
        match res {
            Some(records) => svg_records_of(data@, index) == Some(records@),
            None => svg_records_of(data@, index) is None,
        },
{
    let font = skrifa::FontRef::from_index(data, index).ok()?;
    let list = font.svg().ok()?.svg_document_list().ok()?;
    let records = list.document_records().iter().map(|record| SvgRecord {
        start: record.start_glyph_id().to_u32(),
        end: record.end_glyph_id().to_u32(),
    });
    Some(records.collect())
}

/// Names the document that skrifa finds for a glyph of a face.
pub uninterp spec fn svg_document_of(data: Seq<u8>, index: u32, glyph: u32) -> Option<Seq<u8>>;

/// `Svg::glyph_data` of skrifa: the document that describes a glyph, found
/// through a record that covers it. `None` when the face or the table cannot be
/// read, no record is found, or the document lies outside of the table.
#[verifier::external_body]
fn svg_document(data: &[u8], index: u32, glyph: GlyphId) -> (res: Option<Vec<u8>>)
    ensures
        match res {
            Some(document) => svg_document_of(data@, index, glyph.0) == Some(document@),
            None => svg_document_of(data@, index, glyph.0) is None,
        },
        res is Some ==> (svg_records_of(data@, index) matches Some(records) && exists|i: int|
            0 <= i < records.len() && (#[trigger] records[i]).covers(glyph.0)),
{
    let font = skrifa::FontRef::from_index(data, index).ok()?;
    let document = font.svg().ok()?.glyph_data(glyph.0.into())?;
    Some(document.to_vec())
}

/// The part of a document that a glyph is drawn from.
pub enum SvgNode {
    /// The whole document.
    Root,
    /// The node with this id.
    Id(String),
}

/// What an [`SvgNode`] holds.
pub enum SvgNodeView {
    Root,
    Id(Seq<char>),
}

impl View for SvgNode {
    type V = SvgNodeView;

    open spec fn view(&self) -> SvgNodeView {
        match self {
            SvgNode::Root => SvgNodeView::Root,
            SvgNode::Id(id) => SvgNodeView::Id(id@),
        }
    }
}

/// An SVG glyph: a document, which may be compressed, and the part of it that
/// the glyph is drawn from.
pub struct SvgGlyph {
    pub document: Vec<u8>,
    pub node: SvgNode,
}

/// What an [`SvgGlyph`] holds.
pub struct SvgGlyphView {
    pub document: Seq<u8>,
    pub node: SvgNodeView,
}

impl View for SvgGlyph {
    type V = SvgGlyphView;

    open spec fn view(&self) -> SvgGlyphView {
        SvgGlyphView { document: self.document@, node: self.node@ }
    }
}

/// A decimal digit.
pub open spec fn digit(n: nat) -> char {
    (48 + n) as char
}

/// The decimal digits of `n`, the most significant first.
pub open spec fn decimal(n: nat) -> Seq<char>
    decreases n,
{
    if n < 10 {
        seq![digit(n)]
    } else {
        decimal(n / 10).push(digit(n % 10))
    }
}

/// A decimal digit, as a string.
fn digit_string(n: u32) -> (res: &'static str)
    requires
        n < 10,
    ensures
        res@ == seq![digit(n as nat)],
{
    proof {
        reveal_strlit("0");
        reveal_strlit("1");
        reveal_strlit("2");
        reveal_strlit("3");
        reveal_strlit("4");
        reveal_strlit("5");
        reveal_strlit("6");
        reveal_strlit("7");
        reveal_strlit("8");
        reveal_strlit("9");
    }
    let res: &'static str = match n {
        0 => "0",
        1 => "1",
        2 => "2",
        3 => "3",
        4 => "4",
        5 => "5",
        6 => "6",
        7 => "7",
        8 => "8",
        _ => "9",
    };
    assert(res@ =~= seq![digit(n as nat)]);
    res
}

/// The decimal digits of `n`.
fn decimal_string(n: u32) -> (res: String)
    ensures
        res@ == decimal(n as nat),
    decreases n,
{
    let mut res: String = if n < 10 {
        String::new()
    } else {
        decimal_string(n / 10)
    };
    res.append(digit_string(n % 10));
    assert(res@ =~= decimal(n as nat));
    res
}

/// The id of the node that describes a glyph among others.
pub open spec fn glyph_node_id(glyph: u32) -> Seq<char> {
    "glyph"@ + decimal(glyph as nat)
}

/// The part of a document that a glyph is drawn from: all of it when the
/// document describes no other glyph, and the node of the glyph otherwise.
pub open spec fn node_of(record: SvgRecord, glyph: u32) -> SvgNodeView {
    if record.start == record.end {
        SvgNodeView::Root
    } else {
        SvgNodeView::Id(glyph_node_id(glyph))
    }
}

/// Picks the part of a document that a glyph is drawn from.
///
/// Some fonts always have one record per glyph, while others put several glyphs
/// into one document.
pub fn select_node(record: SvgRecord, glyph: GlyphId) -> (res: SvgNode)
    ensures
        res@ == node_of(record, glyph.0),
{
    if record.start == record.end {
        SvgNode::Root
    } else {
        let mut id: String = "glyph".to_owned();
        id.append(decimal_string(glyph.0).as_str());
        SvgNode::Id(id)
    }
}

/// Whether record `i` is the first one that covers the glyph.
pub open spec fn is_first_record(records: Seq<SvgRecord>, glyph: u32, i: int) -> bool {
    &&& 0 <= i < records.len()
    &&& records[i].covers(glyph)
    &&& forall|j: int| 0 <= j < i ==> !(#[trigger] records[j]).covers(glyph)
}

/// The first record that covers the glyph.
pub open spec fn record_of(records: Seq<SvgRecord>, glyph: u32) -> Option<SvgRecord> {
    if exists|i: int| is_first_record(records, glyph, i) {
        Some(records[choose|i: int| is_first_record(records, glyph, i)])
    } else {
        None
    }
}

/// Finds the first record that covers the glyph.
pub fn find_record(records: &Vec<SvgRecord>, glyph: GlyphId) -> (res: Option<SvgRecord>)
    ensures
        res == record_of(records@, glyph.0),
        res is None ==> forall|i: int|
            0 <= i < records@.len() ==> !(#[trigger] records@[i]).covers(glyph.0),
{
    let mut i: usize = 0;
    while i < records.len()
        invariant
            i <= records@.len(),
            forall|j: int| 0 <= j < i ==> !(#[trigger] records@[j]).covers(glyph.0),
        decreases records@.len() - i,
    {
        if records[i].start <= glyph.0 && glyph.0 <= records[i].end {
            proof {
                assert(is_first_record(records@, glyph.0, i as int));
                let chosen: int = choose|k: int| is_first_record(records@, glyph.0, k);
                assert(is_first_record(records@, glyph.0, chosen));
                assert(chosen == i);
            }
            return Some(records[i]);
        }
        i = i + 1;
    }
    None
}

/// The SVG glyph of a face.
pub open spec fn svg_of(data: Seq<u8>, index: u32, glyph: u32) -> Option<SvgGlyphView> {
    match (svg_document_of(data, index, glyph), svg_records_of(data, index)) {
        (Some(document), Some(records)) => match record_of(records, glyph) {
            Some(record) => Some(SvgGlyphView { document, node: node_of(record, glyph) }),
            None => None,
        },
        _ => None,
    }
}

/// What `glyph` holds, if there is one.
pub open spec fn svg_view(glyph: Option<SvgGlyph>) -> Option<SvgGlyphView> {
    match glyph {
        Some(glyph) => Some(glyph@),
        None => None,
    }
}

/// Looks up the SVG glyph of the face at `index` of the font file `data`.
pub fn svg_in_face(data: &[u8], index: u32, glyph: GlyphId) -> (res: Option<SvgGlyph>)
    ensures
        svg_view(res) == svg_of(data@, index, glyph.0),
        res is Some <==> svg_document_of(data@, index, glyph.0) is Some,
{
    let document: Vec<u8> = svg_document(data, index, glyph)?;
    let records: Vec<SvgRecord> = svg_records(data, index)?;
    let record: SvgRecord = find_record(&records, glyph)?;
    Some(SvgGlyph { document, node: select_node(record, glyph) })
}

proof fn lemma_decimal_injective(a: nat, b: nat)
    requires
        decimal(a) == decimal(b),
    ensures
        a == b,
    decreases a,
{
    let x: Seq<char> = decimal(a);
    let y: Seq<char> = decimal(b);
    lemma_decimal_last(a);
    lemma_decimal_last(b);
    assert(a % 10 == b % 10);
    if a < 10 && b < 10 {
    } else if a >= 10 && b >= 10 {
        assert(x.drop_last() =~= decimal(a / 10));
        assert(y.drop_last() =~= decimal(b / 10));
        lemma_decimal_injective(a / 10, b / 10);
    } else if a < 10 {
        lemma_decimal_last(b / 10);
    } else {
        lemma_decimal_last(a / 10);
    }
}

proof fn lemma_decimal_last(n: nat)
    ensures
        decimal(n).len() > 0,
        decimal(n).last() as nat == 48 + n % 10,
        n < 10 ==> decimal(n).len() == 1,
        n >= 10 ==> decimal(n).len() == decimal(n / 10).len() + 1,
    decreases n,
{
    if n >= 10 {
        lemma_decimal_last(n / 10);
    }
}

/// Glyphs that share a document are drawn from nodes of their own.
pub proof fn law_glyph_nodes_are_distinct(a: u32, b: u32)
    ensures
        glyph_node_id(a) == glyph_node_id(b) <==> a == b,
{
    if glyph_node_id(a) == glyph_node_id(b) {
        let prefix: Seq<char> = "glyph"@;
        assert((prefix + decimal(a as nat)).skip(prefix.len() as int) =~= decimal(a as nat));
        assert((prefix + decimal(b as nat)).skip(prefix.len() as int) =~= decimal(b as nat));
        lemma_decimal_injective(a as nat, b as nat);
    }
}

/// The number that decimal digits stand for.
pub open spec fn number_of(digits: Seq<char>) -> int
    decreases digits.len(),
{
    if digits.len() == 0 {
        0
    } else {
        10 * number_of(digits.drop_last()) + (digits.last() as int - '0' as int)
    }
}

/// The digits of a number read back as that number. They are digits throughout,
/// and the first is a zero only if it is the only one.
pub proof fn law_decimal_reads_back(n: nat)
    ensures
        number_of(decimal(n)) == n,
        decimal(n).len() > 0,
        forall|i: int| 0 <= i < decimal(n).len() ==> '0' <= (#[trigger] decimal(n)[i]) <= '9',
        decimal(n)[0] == '0' ==> decimal(n).len() == 1,
    decreases n,
{
    lemma_decimal_last(n);
    if n < 10 {
        assert(decimal(n).drop_last() =~= Seq::<char>::empty());
        assert(number_of(Seq::<char>::empty()) == 0);
    } else {
        law_decimal_reads_back(n / 10);
        lemma_decimal_last(n / 10);
        assert(decimal(n).drop_last() =~= decimal(n / 10));
        assert(decimal(n)[0] == decimal(n / 10)[0]);
        if decimal(n)[0] == '0' {
            assert(decimal(n / 10).drop_last() =~= Seq::<char>::empty());
            assert(number_of(Seq::<char>::empty()) == 0);
        }
        assert forall|i: int| 0 <= i < decimal(n).len() implies '0' <= (#[trigger] decimal(n)[i])
            <= '9' by {
            if i < decimal(n).len() - 1 {
                assert(decimal(n)[i] == decimal(n / 10)[i]);
            }
        }
    }
}

/// A glyph is drawn from the whole document if the record is for one glyph only,
/// and otherwise from the node whose id is `glyph` and the number of the glyph.
pub proof fn law_shared_documents_name_their_glyphs(record: SvgRecord, glyph: u32)
    ensures
        node_of(record, glyph) is Root <==> record.start == record.end,
        node_of(record, glyph) matches SvgNodeView::Id(id) ==> id == seq!['g', 'l', 'y', 'p', 'h']
            + decimal(glyph as nat),
{
    reveal_strlit("glyph");
    assert("glyph"@ =~= seq!['g', 'l', 'y', 'p', 'h']);
}

/// The record of a glyph is the first whose range holds the glyph, ends
/// included. There is none only if no range does.
pub proof fn law_record_is_the_first_that_holds_the_glyph(records: Seq<SvgRecord>, glyph: u32)
    ensures
        record_of(records, glyph) is None ==> forall|i: int|
            0 <= i < records.len() ==> glyph < (#[trigger] records[i]).start || records[i].end
                < glyph,
        record_of(records, glyph) matches Some(record) ==> exists|i: int|
            0 <= i < records.len() && #[trigger] records[i] == record && record.start <= glyph
                <= record.end && forall|j: int|
                0 <= j < i ==> glyph < (#[trigger] records[j]).start || records[j].end < glyph,
{
    if record_of(records, glyph) is Some {
        let i: int = choose|i: int| is_first_record(records, glyph, i);
        assert(is_first_record(records, glyph, i));
        assert(records[i] == record_of(records, glyph)->0);
    } else if exists|i: int| 0 <= i < records.len() && (#[trigger] records[i]).covers(glyph) {
        let i: int = choose|i: int| 0 <= i < records.len() && (#[trigger] records[i]).covers(glyph);
        lemma_first_record_exists(records, glyph, i);
    }
}

/// If any record covers the glyph, one is the first.
proof fn lemma_first_record_exists(records: Seq<SvgRecord>, glyph: u32, i: int)
    requires
        0 <= i < records.len(),
        records[i].covers(glyph),
    ensures
        exists|k: int| is_first_record(records, glyph, k),
    decreases i,
{
    if forall|j: int| 0 <= j < i ==> !(#[trigger] records[j]).covers(glyph) {
        assert(is_first_record(records, glyph, i));
    } else {
        let j: int = choose|j: int| 0 <= j < i && (#[trigger] records[j]).covers(glyph);
        lemma_first_record_exists(records, glyph, j);
    }
}

/// An SVG glyph is the document that the table has for it, together with the
/// part of it that the first record of the glyph selects.
pub proof fn law_svg_glyph_is_its_document(data: Seq<u8>, index: u32, glyph: u32)
    ensures
        svg_of(data, index, glyph) is Some <==> svg_document_of(data, index, glyph) is Some && (
        svg_records_of(data, index) matches Some(records) && record_of(records, glyph) is Some),
        svg_of(data, index, glyph) matches Some(found) ==> {
            &&& svg_document_of(data, index, glyph) == Some(found.document)
            &&& svg_records_of(data, index) matches Some(records) && record_of(
                records,
                glyph,
            ) matches Some(record) && found.node == node_of(record, glyph)
        },
{
}

/// What an SVG glyph is said to hold is what it holds.
pub proof fn law_svg_view_is_faithful(glyph: SvgGlyph)
    ensures
        svg_view(None) is None,
        svg_view(Some(glyph)) matches Some(view) && view.document == glyph.document@ && view.node
            == glyph.node@,
        glyph.node is Root <==> glyph.node@ is Root,
        glyph.node matches SvgNode::Id(id) ==> glyph.node@ == SvgNodeView::Id(id@),
{
}

} // verus!
