use std::collections::BTreeSet;
use std::sync::Arc;

use fontdb::{Database, FaceInfo, Language, Source, Stretch, Style, Weight, ID};
use skrifa::outline::{DrawSettings, Engine, HintingInstance, HintingOptions, OutlinePen, Target};
use skrifa::MetadataProvider;
use tiny_skia_path::{Path, PathBuilder, PathVerb, Transform};
use usvg_text::bitmap::{
    choose_strike, glyph, glyph_in_face, image_from_strike, mask_advance, matching_mask,
    BitmapGlyphKey,
};
use usvg_text::colr::colr_in_face;
use usvg_text::database::{
    finish_outline, has_opsz_axis_in_face, outline_in_face, DatabaseExt, OutlinePlan,
};
use usvg_text::face::{has_composed_outlines, BoundingBox};
use usvg_text::flatten::{flatten, Child, GlyphTransform, Node};
use usvg_text::hinting::{
    FontHintingEngine, FontHintingOptions, FontHintingTarget, GlyphHinting,
};
use usvg_text::resolve::GlyphSources;
use usvg_text::svg::{svg_in_face, SvgGlyph, SvgNode};
use usvg_text::tree::{
    Color, Fill, FillRule, FontOpticalSizing, FontVariation, GlyphId, ImageRendering, Paint,
    PaintOrder, PositionedGlyph, Span, Text, TextRendering,
};

// Fonts, written table by table.

const UNITS_PER_EM: u16 = 1000;

/// The glyph of the letter M, and the number of glyphs.
const M: GlyphId = GlyphId(1);
const NUM_GLYPHS: u16 = 4;

#[derive(Default)]
struct Bytes(Vec<u8>);

impl Bytes {
    fn u8(mut self, x: u8) -> Self {
        self.0.push(x);
        self
    }

    fn u16(mut self, x: u16) -> Self {
        self.0.extend(x.to_be_bytes());
        self
    }

    fn i16(mut self, x: i16) -> Self {
        self.0.extend(x.to_be_bytes());
        self
    }

    fn u32(mut self, x: u32) -> Self {
        self.0.extend(x.to_be_bytes());
        self
    }

    fn raw(mut self, x: &[u8]) -> Self {
        self.0.extend(x);
        self
    }
}

type Table = ([u8; 4], Vec<u8>);

fn sfnt(mut tables: Vec<Table>) -> Vec<u8> {
    tables.sort();
    let mut offset = 12 + 16 * tables.len();
    let mut header = Bytes::default()
        .u32(0x0001_0000)
        .u16(tables.len() as u16)
        .raw(&[0; 6]);
    let mut body = Bytes::default();
    for (tag, data) in &tables {
        header = header
            .raw(tag)
            .u32(0)
            .u32(offset as u32)
            .u32(data.len() as u32);
        let padding = data.len().next_multiple_of(4) - data.len();
        body = body.raw(data).raw(&[0; 3][..padding]);
        offset += data.len() + padding;
    }
    header.raw(&body.0).0
}

/// A glyph with one contour, a rectangle.
fn rectangle(x_min: i16, y_min: i16, x_max: i16, y_max: i16) -> Vec<u8> {
    Bytes::default()
        .i16(1)
        .i16(x_min)
        .i16(y_min)
        .i16(x_max)
        .i16(y_max)
        .u16(3)
        .u16(0)
        .raw(&[1; 4])
        .i16(x_min)
        .i16(0)
        .i16(x_max - x_min)
        .i16(0)
        .i16(y_min)
        .i16(y_max - y_min)
        .i16(0)
        .i16(y_min - y_max)
        .0
}

fn head() -> Vec<u8> {
    Bytes::default()
        .u32(0x0001_0000)
        .u32(0)
        .u32(0)
        .u32(0x5f0f_3cf5)
        .u16(0)
        .u16(UNITS_PER_EM)
        .raw(&[0; 30])
        .u16(0)
        .0
        .into_iter()
        .chain([0, 0])
        .collect()
}

/// The tables that every font here has. Every advance is half an em.
fn metrics_tables() -> Vec<Table> {
    let mut hmtx = Bytes::default();
    for _ in 0..NUM_GLYPHS {
        hmtx = hmtx.u16(UNITS_PER_EM / 2).i16(0);
    }
    let hhea = Bytes::default()
        .u32(0x0001_0000)
        .i16(800)
        .i16(-200)
        .i16(0)
        .u16(UNITS_PER_EM / 2)
        .raw(&[0; 22])
        .u16(NUM_GLYPHS);
    let cmap = Bytes::default()
        .u16(0)
        .u16(1)
        .u16(3)
        .u16(10)
        .u32(12)
        .u16(12)
        .u16(0)
        .u32(28)
        .u32(0)
        .u32(1)
        .u32('M' as u32)
        .u32('M' as u32)
        .u32(M.0);
    let maxp = Bytes::default().u32(0x0000_5000).u16(NUM_GLYPHS);
    vec![
        (*b"hmtx", hmtx.0),
        (*b"hhea", hhea.0),
        (*b"cmap", cmap.0),
        (*b"maxp", maxp.0),
        (*b"head", head()),
    ]
}

/// Outlines: nothing but the letter M.
fn outline_tables(m: Vec<u8>) -> Vec<Table> {
    let mut loca = Bytes::default().u16(0).u16(0);
    for _ in 0..NUM_GLYPHS - 1 {
        loca = loca.u16(m.len() as u16 / 2);
    }
    vec![(*b"glyf", m), (*b"loca", loca.0)]
}

/// A strike of one glyph.
#[derive(Clone)]
struct TestStrike {
    ppem: u8,
    bit_depth: u8,
    format: u16,
    width: u8,
    height: u8,
    x: i8,
    y: i8,
    advance: u8,
    data: Vec<u8>,
}

/// The location and the data table of strikes of one glyph.
fn strike_tables(strikes: &[TestStrike], glyph: GlyphId, color: bool) -> Vec<Table> {
    let version = if color { 3 } else { 2 };
    let count = strikes.len();
    let mut sizes = Bytes::default().u16(version).u16(0).u32(count as u32);
    let mut lists = Bytes::default();
    let mut data = Bytes::default().u16(version).u16(0);
    for (i, strike) in strikes.iter().enumerate() {
        sizes = sizes
            .u32((8 + 48 * count + 24 * i) as u32)
            .u32(24)
            .u32(1)
            .u32(0)
            .raw(&[0; 24])
            .u16(glyph.0 as u16)
            .u16(glyph.0 as u16)
            .u8(strike.ppem)
            .u8(strike.ppem)
            .u8(strike.bit_depth)
            .u8(1);
        lists = lists
            .u16(glyph.0 as u16)
            .u16(glyph.0 as u16)
            .u32(8)
            .u16(1)
            .u16(strike.format)
            .u32(data.0.len() as u32)
            .u32(0)
            .u32((5 + strike.data.len()) as u32);
        data = data
            .u8(strike.height)
            .u8(strike.width)
            .u8(strike.x as u8)
            .u8(strike.y as u8)
            .u8(strike.advance)
            .raw(&strike.data);
    }
    let sizes = sizes.raw(&lists.0).0;
    if color {
        vec![(*b"CBLC", sizes), (*b"CBDT", data.0)]
    } else {
        vec![(*b"EBLC", sizes), (*b"EBDT", data.0)]
    }
}

/// The letter M of a pixel font: two stems, and a bar between them.
fn pixel_m(ppem: u8, advance: u8) -> TestStrike {
    let height = ppem / 2;
    let rows = (0..height).map(|y| if y == 1 { 0b1111_1100 } else { 0b1000_0100 });
    TestStrike {
        ppem,
        bit_depth: 1,
        format: 1,
        width: 6,
        height,
        x: 1,
        y: height as i8,
        advance,
        data: rows.collect(),
    }
}

/// The cell is 8 pixels wide at 14 and at 16 pixels.
fn mono_strikes() -> Vec<TestStrike> {
    vec![pixel_m(14, 8), pixel_m(16, 8), pixel_m(24, 12)]
}

fn bitmap_mono() -> Vec<u8> {
    let mut tables = metrics_tables();
    tables.extend(outline_tables(rectangle(50, 0, 430, 700)));
    tables.extend(strike_tables(&mono_strikes(), M, false));
    sfnt(tables)
}

fn noto_sans() -> Vec<u8> {
    let mut tables = metrics_tables();
    tables.extend(outline_tables(rectangle(70, -30, 420, 710)));
    sfnt(tables)
}

struct Fonts {
    db: Database,
    bitmap: ID,
    outline: ID,
}

fn add_face(db: &mut Database, family: &str, data: Vec<u8>) -> ID {
    db.push_face_info(FaceInfo {
        id: ID::dummy(),
        source: Source::Binary(Arc::new(data)),
        index: 0,
        families: vec![(family.to_owned(), Language::English_UnitedStates)],
        post_script_name: String::new(),
        style: Style::Normal,
        weight: Weight::NORMAL,
        stretch: Stretch::Normal,
        monospaced: true,
    })
}

fn fonts() -> Fonts {
    let mut db = Database::new();
    let bitmap = add_face(&mut db, "Bitmap Mono", bitmap_mono());
    let outline = add_face(&mut db, "Noto Sans", noto_sans());
    Fonts {
        db,
        bitmap,
        outline,
    }
}

/// True when the face belongs to the named family.
fn is_family(db: &Database, id: ID, family: &str) -> bool {
    db.face(id)
        .map(|face| face.families.iter().any(|(name, _)| name == family))
        .unwrap_or(false)
}

// Documents.

fn bits(size: u32) -> u32 {
    (size as f32).to_bits()
}

/// The advance of a glyph: that of the strike, or half an em.
fn advance(fonts: &Fonts, font: ID, size: u32, allow_strikes: bool) -> f32 {
    let own = if allow_strikes {
        fonts
            .db
            .with_face_data(font, |data, index| mask_advance(data, index, M, bits(size)))
            .flatten()
    } else {
        None
    };
    match own {
        Some(pixels) => f32::from(pixels),
        None => size as f32 / 2.0,
    }
}

/// A run of the letter M.
fn run(fonts: &Fonts, font: ID, size: u32, n: usize, y: f32, allow_strikes: bool) -> Span {
    let scale = size as f32 / f32::from(UNITS_PER_EM);
    let step = advance(fonts, font, size, allow_strikes);
    let glyphs = (0..n).map(|i| PositionedGlyph {
        font,
        id: M,
        font_size: bits(size),
        outline_transform: Transform::from_row(scale, 0.0, 0.0, -scale, 20.0 + step * i as f32, y),
    });
    Span {
        visible: true,
        fill: Some(Fill {
            paint: Paint::Color(Color::new_rgb(10, 20, 30)),
            opacity: 1.0f32.to_bits(),
            opacity_byte: 255,
            rule: FillRule::NonZero,
        }),
        stroke: None,
        paint_order: PaintOrder::FillAndStroke,
        font_optical_sizing: FontOpticalSizing::Auto,
        variations: Vec::new(),
        overline: None,
        underline: None,
        line_through: None,
        positioned_glyphs: glyphs.collect(),
    }
}

fn text(layouted: Vec<Span>) -> Text {
    Text {
        id: "text1".to_owned(),
        rendering_mode: TextRendering::OptimizeLegibility,
        abs_transform: Transform::identity(),
        layouted,
    }
}

fn document(fonts: &Fonts, name: &str) -> Text {
    let line = |font, size: u32, i: usize| run(fonts, font, size, 3, 40.0 * i as f32, true);
    match name {
        "tests/text/hinting/sizes" => text(
            [9, 10, 12, 14, 17, 20, 33]
                .into_iter()
                .enumerate()
                .map(|(i, size)| line(fonts.outline, size, i))
                .collect(),
        ),
        "tests/text/hinting/mixed-fonts" => text(vec![
            line(fonts.bitmap, 16, 0),
            line(fonts.outline, 14, 1),
            line(fonts.bitmap, 16, 2),
        ]),
        "tests/text/bitmap-font/monochrome" => {
            text(vec![line(fonts.bitmap, 16, 0), line(fonts.bitmap, 24, 1)])
        }
        _ => panic!("there is no document {}", name),
    }
}

// Renderings.

#[derive(Clone, Debug, PartialEq)]
enum Item {
    /// The segments of a path and the bits of its points.
    Path(Vec<PathVerb>, Vec<(u32, u32)>),
    /// An image: its glyph, its transform, its size and its pixels.
    Image(usize, usize, GlyphTransform, u32, u32, Vec<u8>),
}

fn path_item(path: &Path) -> Item {
    let points = path.points().iter();
    Item::Path(
        path.verbs().to_vec(),
        points.map(|p| (p.x.to_bits(), p.y.to_bits())).collect(),
    )
}

/// The RGBA pixels of a PNG file.
fn decode(png_data: &[u8]) -> Vec<u8> {
    let mut reader = png::Decoder::new(std::io::Cursor::new(png_data))
        .read_info()
        .unwrap();
    let mut rgba = vec![0; reader.output_buffer_size().unwrap()];
    reader.next_frame(&mut rgba).unwrap();
    rgba
}

struct Pen(PathBuilder);

impl OutlinePen for Pen {
    fn move_to(&mut self, x: f32, y: f32) {
        self.0.move_to(x, y);
    }

    fn line_to(&mut self, x: f32, y: f32) {
        self.0.line_to(x, y);
    }

    fn quad_to(&mut self, cx0: f32, cy0: f32, x: f32, y: f32) {
        self.0.quad_to(cx0, cy0, x, y);
    }

    fn curve_to(&mut self, cx0: f32, cy0: f32, cx1: f32, cy1: f32, x: f32, y: f32) {
        self.0.cubic_to(cx0, cy0, cx1, cy1, x, y);
    }

    fn close(&mut self) {
        self.0.close();
    }
}

/// Draws a glyph, in font units or fitted to a pixel grid.
fn draw(data: &[u8], id: GlyphId, fitted: Option<(f32, HintingOptions)>) -> Option<PathBuilder> {
    let font = skrifa::FontRef::from_index(data, 0).ok()?;
    let outlines = font.outline_glyphs();
    let outline = outlines.get(id.0.into())?;
    let location = skrifa::prelude::LocationRef::default();
    let mut pen = Pen(PathBuilder::new());
    match fitted {
        None => {
            let size = skrifa::prelude::Size::unscaled();
            outline
                .draw(DrawSettings::unhinted(size, location), &mut pen)
                .ok()?;
        }
        Some((ppem, options)) => {
            let size = skrifa::prelude::Size::new(ppem);
            let instance = HintingInstance::new(&outlines, size, location, options).ok()?;
            outline
                .draw(DrawSettings::hinted(&instance, false), &mut pen)
                .ok()?;
        }
    }
    Some(pen.0)
}

/// The outline of a glyph in font units.
fn outline(
    db: &Database,
    font: ID,
    id: GlyphId,
    hinting: Option<GlyphHinting>,
) -> Option<Path> {
    let plan = db.outline(font, id, hinting)?;
    db.with_face_data(font, |data, _| match plan {
        OutlinePlan::Unscaled => finish_outline(draw(data, id, None)?, None),
        OutlinePlan::Fitted {
            hinting,
            units_per_em,
        } => {
            let ppem = f32::from_bits(hinting.ppem);
            let options = HintingOptions::from(hinting.options);
            let scale = f32::from(units_per_em) / ppem;
            finish_outline(
                draw(data, id, Some((ppem, options)))?,
                Some(Transform::from_scale(scale, scale)),
            )
        }
    })?
}

type BitmapSelector = Box<dyn Fn(ID, u32, &Database) -> bool>;

type HintingSelector =
    Box<dyn Fn(ID, u32, Option<FontHintingOptions>, &Database) -> Option<FontHintingOptions>>;

/// Flattens a text, and takes the result apart.
fn rendered(
    fonts: &Fonts,
    text: &Text,
    global: Option<FontHintingOptions>,
    select_hinting: HintingSelector,
    select_bitmap: BitmapSelector,
) -> Vec<Item> {
    let db = &fonts.db;
    let sources = GlyphSources {
        has_opsz_axis: |font: ID| db.has_opsz_axis(font),
        colr: |font: ID, id: GlyphId, _: &Vec<FontVariation>| -> Option<String> {
            db.colr(font, id).map(|document| document.finish())
        },
        svg: |font: ID, id: GlyphId| -> Option<String> {
            db.svg(font, id)
                .map(|svg| String::from_utf8(svg.document).unwrap())
        },
        raster: |key: BitmapGlyphKey| {
            if select_bitmap(key.font, key.font_size(), db) {
                glyph(db, key)
            } else {
                None
            }
        },
        select_hinting,
        outline: |font: ID, id: GlyphId, _: &Vec<FontVariation>, hinting: Option<GlyphHinting>| {
            outline(db, font, id, hinting)
        },
    };
    let flattened = flatten(text, global, db, &sources);
    assert_eq!(flattened.id, text.id);
    let items = flattened.children.iter().map(|node| match node {
        Node::Path(path) => path_item(&path.data),
        Node::Group(group) => match &group.child {
            Child::Image(image) => {
                assert!(image.visible);
                Item::Image(
                    group.span,
                    group.glyph,
                    group.transform,
                    image.size.width,
                    image.size.height,
                    decode(&image.png),
                )
            }
            _ => panic!("there is nothing but outlines and images"),
        },
    });
    items.collect()
}

/// What a document has to be rendered as. The last part of the name says how:
/// without hinting, with one of the hinting configurations, or without strikes.
fn reference(fonts: &Fonts, name: &str) -> Vec<Item> {
    let auto = |target| HintingOptions {
        engine: Engine::Auto(None),
        target,
    };
    let smooth = HintingOptions {
        engine: Engine::AutoFallback,
        target: Target::default(),
    };
    let (name, options, strikes) = if let Some(name) = name.strip_suffix("-smooth") {
        (name, Some(smooth), true)
    } else if let Some(name) = name.strip_suffix("-auto") {
        (name, Some(auto(Target::default())), true)
    } else if let Some(name) = name.strip_suffix("-mono") {
        (name, Some(auto(Target::Mono)), true)
    } else if let Some(name) = name.strip_suffix("-no-strikes") {
        (name, None, false)
    } else {
        (name, None, true)
    };

    let text = document(fonts, name);
    let mut items = Vec::new();
    for (s, span) in text.layouted.iter().enumerate() {
        let mut builder = PathBuilder::new();
        for (g, glyph) in span.positioned_glyphs.iter().enumerate() {
            let size = f32::from_bits(glyph.font_size);
            let strike = mono_strikes()
                .into_iter()
                .find(|strike| f32::from(strike.ppem) == size);
            match strike {
                Some(strike) if strikes && glyph.font == fonts.bitmap => {
                    let (width, height) = (u32::from(strike.width), u32::from(strike.height));
                    let mut rgba = Vec::new();
                    for row in &strike.data {
                        for x in 0..strike.width {
                            let inked = row >> (7 - x) & 1 == 1;
                            rgba.extend([10, 20, 30, if inked { 255 } else { 0 }]);
                        }
                    }
                    let transform = GlyphTransform::Cbdt {
                        x: strike.x.into(),
                        y: strike.y.into(),
                        pixels_per_em: strike.ppem.into(),
                    };
                    items.push(Item::Image(s, g, transform, width, height, rgba));
                }
                _ => {
                    let path = fonts
                        .db
                        .with_face_data(glyph.font, |data, _| match &options {
                            None => draw(data, glyph.id, None)?.finish(),
                            Some(options) => {
                                let scale = f32::from(UNITS_PER_EM) / size;
                                draw(data, glyph.id, Some((size, options.clone())))?
                                    .finish()?
                                    .transform(Transform::from_scale(scale, scale))
                            }
                        })
                        .flatten()
                        .unwrap();
                    builder.push_path(&path.transform(glyph.outline_transform).unwrap());
                }
            }
        }
        if let Some(path) = builder.finish() {
            items.push(path_item(&path));
        }
    }
    items
}

/// The number of items in which two renderings differ.
fn differences(a: &[Item], b: &[Item]) -> usize {
    let common = a.iter().zip(b).filter(|(a, b)| a != b).count();
    common + a.len().abs_diff(b.len())
}

fn render_hinted(name: &str, configuration: &str, hinting: FontHintingOptions) -> usize {
    let fonts = fonts();
    let items = rendered(
        &fonts,
        &document(&fonts, name),
        Some(hinting),
        Box::new(|_, _, global, _| global),
        Box::new(|_, _, _| true),
    );
    differences(
        &items,
        &reference(&fonts, &format!("{}-{}", name, configuration)),
    )
}

fn render_with_hinting_resolver(
    name: &str,
    expected: &str,
    global: Option<FontHintingOptions>,
    resolver: HintingSelector,
) -> usize {
    let fonts = fonts();
    let items = rendered(
        &fonts,
        &document(&fonts, name),
        global,
        resolver,
        Box::new(|_, _, _| true),
    );
    differences(&items, &reference(&fonts, expected))
}

fn render_with_bitmap_selector(name: &str, expected: &str, selector: BitmapSelector) -> usize {
    let fonts = fonts();
    let items = rendered(
        &fonts,
        &document(&fonts, name),
        None,
        Box::new(|_, _, global, _| global),
        selector,
    );
    differences(&items, &reference(&fonts, expected))
}

// Hinting.

/// The configuration `sizes-mono` is rendered with.
fn mono() -> FontHintingOptions {
    FontHintingOptions {
        engine: FontHintingEngine::Auto,
        target: FontHintingTarget::Mono,
    }
}

#[test]
fn smooth() {
    let hinting = FontHintingOptions::default();
    assert_eq!(
        render_hinted("tests/text/hinting/sizes", "smooth", hinting),
        0
    );
}

#[test]
fn autohinter() {
    let hinting = FontHintingOptions {
        engine: FontHintingEngine::Auto,
        ..FontHintingOptions::default()
    };
    assert_eq!(
        render_hinted("tests/text/hinting/sizes", "auto", hinting),
        0
    );
}

#[test]
fn autohinter_mono() {
    // The TrueType interpreter barely distinguishes a mono target from a smooth
    // one, so this pairs it with the engine that does.
    let hinting = FontHintingOptions {
        engine: FontHintingEngine::Auto,
        target: FontHintingTarget::Mono,
    };
    assert_eq!(
        render_hinted("tests/text/hinting/sizes", "mono", hinting),
        0
    );
}

// The resolver lets a host pick hinting per font. These check it against the
// references the global setting already produces: turning hinting off for every
// font has to match the unhinted rendering, and turning it on has to match the
// globally hinted one.

#[test]
fn resolver_declining_every_font_matches_unhinted() {
    assert_eq!(
        render_with_hinting_resolver(
            "tests/text/hinting/sizes",
            "tests/text/hinting/sizes",
            Some(mono()),
            Box::new(|_, _, _, _| None),
        ),
        0
    );
}

#[test]
fn resolver_passing_the_global_through_matches_global_hinting() {
    assert_eq!(
        render_with_hinting_resolver(
            "tests/text/hinting/sizes",
            "tests/text/hinting/sizes-mono",
            Some(mono()),
            Box::new(|_, _, global, _| global),
        ),
        0
    );
}

// The pair below is the point of the feature: the same resolver, keyed on a
// different family, has to produce opposite results. The global is off in both,
// so any hinting can only have come from the resolver.

#[test]
fn resolver_hints_the_family_it_names() {
    assert_eq!(
        render_with_hinting_resolver(
            "tests/text/hinting/sizes",
            "tests/text/hinting/sizes-mono",
            None,
            Box::new(|id, _, _, db| is_family(db, id, "Noto Sans").then(mono)),
        ),
        0
    );
}

// A bitmap strike and a hinted outline in one document. Hinting grid-fits
// outlines, so it has nothing to say about a glyph that arrives as an image —
// these pin that down rather than leaving it to be discovered.

#[test]
fn hinting_changes_the_outline_font_in_a_mixed_document() {
    assert_eq!(
        render_hinted("tests/text/hinting/mixed-fonts", "mono", mono()),
        0
    );
}

#[test]
fn hinting_only_the_bitmap_font_leaves_the_document_unhinted() {
    // `Bitmap Mono` is drawn from its 16px strike here, so asking for hinting
    // on it has to be indistinguishable from asking for none at all.
    assert_eq!(
        render_with_hinting_resolver(
            "tests/text/hinting/mixed-fonts",
            "tests/text/hinting/mixed-fonts",
            None,
            Box::new(|id, _, _, db| is_family(db, id, "Bitmap Mono").then(mono)),
        ),
        0
    );
}

#[test]
fn declining_the_bitmap_font_matches_hinting_everything() {
    // The mirror image: hinting every font and hinting all but the bitmap one
    // have to agree, because the bitmap font was never affected either way.
    assert_eq!(
        render_with_hinting_resolver(
            "tests/text/hinting/mixed-fonts",
            "tests/text/hinting/mixed-fonts-mono",
            Some(mono()),
            Box::new(|id, _, global, db| (!is_family(db, id, "Bitmap Mono"))
                .then_some(global)
                .flatten()),
        ),
        0
    );
}

#[test]
fn resolver_leaves_families_it_does_not_name_unhinted() {
    assert_eq!(
        render_with_hinting_resolver(
            "tests/text/hinting/sizes",
            "tests/text/hinting/sizes",
            None,
            Box::new(|id, _, _, db| is_family(db, id, "Some Other Family").then(mono)),
        ),
        0
    );
}

#[test]
fn the_references_differ() {
    let fonts = fonts();
    for name in ["tests/text/hinting/sizes", "tests/text/hinting/mixed-fonts"] {
        let unhinted = reference(&fonts, name);
        let hinted = reference(&fonts, &format!("{}-mono", name));
        assert!(differences(&unhinted, &hinted) > 0);
    }
    let name = "tests/text/bitmap-font/monochrome";
    let outlines = reference(&fonts, &format!("{}-no-strikes", name));
    assert!(differences(&reference(&fonts, name), &outlines) > 0);
}

#[test]
fn geometric_precision_is_never_hinted() {
    let fonts = fonts();
    let name = "tests/text/hinting/sizes";
    let mut text = document(&fonts, name);
    text.rendering_mode = TextRendering::GeometricPrecision;
    let items = rendered(
        &fonts,
        &text,
        Some(mono()),
        Box::new(|_, _, _, _| panic!("the selector is not consulted")),
        Box::new(|_, _, _| true),
    );
    assert_eq!(differences(&items, &reference(&fonts, name)), 0);
}

// Strikes.

#[test]
fn strikes_can_be_declined_for_a_font() {
    // `Bitmap Mono` carries a 16px and a 24px strike, which the file uses at
    // exactly those sizes. Declining them sends every size to the outline.
    assert_eq!(
        render_with_bitmap_selector(
            "tests/text/bitmap-font/monochrome",
            "tests/text/bitmap-font/monochrome-no-strikes",
            Box::new(|id, _, db| !is_family(db, id, "Bitmap Mono")),
        ),
        0
    );
}

#[test]
fn declining_strikes_for_another_family_changes_nothing() {
    // The control: the selector says no to a family the file never mentions,
    // so the rendering has to be the ordinary one.
    assert_eq!(
        render_with_bitmap_selector(
            "tests/text/bitmap-font/monochrome",
            "tests/text/bitmap-font/monochrome",
            Box::new(|id, _, db| !is_family(db, id, "Some Other Family")),
        ),
        0
    );
}

/// The rightmost inked column of a run of `n` letters set at `font_size`, with
/// the host allowing or declining strikes.
fn last_inked_column_with(n: usize, font_size: u32, allow_strikes: bool) -> Option<u32> {
    let fonts = fonts();
    let line = run(&fonts, fonts.bitmap, font_size, n, 40.0, allow_strikes);
    let origins: Vec<f32> = line
        .positioned_glyphs
        .iter()
        .map(|glyph| glyph.outline_transform.tx)
        .collect();
    let items = rendered(
        &fonts,
        &text(vec![line]),
        None,
        Box::new(|_, _, global, _| global),
        Box::new(move |_, _, _| allow_strikes),
    );
    let columns = items.iter().map(|item| match item {
        Item::Path(_, points) => {
            let right = points.iter().map(|point| f32::from_bits(point.0));
            right.fold(0.0, f32::max).ceil() as u32 - 1
        }
        Item::Image(_, g, transform, width, _, rgba) => {
            let bearing = match transform {
                GlyphTransform::Cbdt { x, .. } => f32::from(*x),
                _ => panic!("the strike is not a mask"),
            };
            let inked = (0..*width)
                .filter(|x| {
                    let column = rgba.chunks(4).skip(*x as usize).step_by(*width as usize);
                    column.map(|pixel| pixel[3]).any(|alpha| alpha != 0)
                })
                .max()
                .unwrap();
            (origins[*g] + bearing) as u32 + inked
        }
    });
    columns.max()
}

/// The advance that is actually used, in pixels: a run of `n` identical
/// glyphs reaches `(n - 1)` advances further right than a single one, whatever
/// the glyph's own ink and bearings are.
fn measured_advance(font_size: u32, n: usize) -> f32 {
    measured_advance_with(font_size, n, true)
}

/// As [`measured_advance`], with the host allowing or declining strikes.
fn measured_advance_with(font_size: u32, n: usize, allow_strikes: bool) -> f32 {
    let one = last_inked_column_with(1, font_size, allow_strikes).expect("nothing was drawn");
    let many = last_inked_column_with(n, font_size, allow_strikes).expect("nothing was drawn");
    (many - one) as f32 / (n - 1) as f32
}

/// A strike carries its own advance, drawn in whole pixels for its own pixel
/// size, and it is not the outline's advance scaled.
///
/// The cell of `Bitmap Mono` is 8 pixels wide at 14px and at 16px. A single
/// `hmtx` advance can only scale, so at 14px the outline says 7px where the
/// strike says 8 — the strike is the one that is right, and the two sizes
/// cannot both be expressed by any one `hmtx` value.
#[test]
fn a_strike_is_spaced_by_its_own_advance() {
    // 14px has a strike, and it is the size where the outline disagrees.
    assert_eq!(
        measured_advance(14, 8),
        8.0,
        "a 14px strike was spaced by the outline's 7px advance"
    );

    // 16px has a strike too, and there the outline happens to agree. This is
    // the control: it holds either way, so on its own it proves nothing.
    assert_eq!(measured_advance(16, 8), 8.0);

    // 20px has no strike, so the outline is drawn and its advance is correct.
    assert_eq!(measured_advance(20, 8), 10.0);
}

/// Declining a font's strikes has to take its spacing with it.
///
/// A host that says no gets the outline drawn, so it must get the outline's
/// advance too. Leaving the strike's advance in place would space glyphs for
/// a picture that is never painted — at 14px, an 8px pitch around a 7px glyph.
#[test]
fn declining_strikes_also_declines_their_advance() {
    // 14px is the size where the two disagree, so it is the only one that can
    // tell which of them was used.
    assert_eq!(
        measured_advance_with(14, 8, true),
        8.0,
        "allowed strikes should be spaced by the strike"
    );
    assert_eq!(
        measured_advance_with(14, 8, false),
        7.0,
        "declined strikes should be spaced by the outline"
    );
}

fn key(font: ID, id: GlyphId, size: f32) -> BitmapGlyphKey {
    BitmapGlyphKey::new(font, id, size.to_bits(), Color::new_rgb(10, 20, 30), 255)
}

#[test]
fn a_mask_is_kept_in_whole_pixels() {
    // A strike is a picture of one exact pixel grid: every pixel of a 1bpp mask
    // is either covered or not, and is not smoothed when it is drawn.
    let fonts = fonts();
    let image = glyph(&fonts.db, key(fonts.bitmap, M, 16.0)).unwrap().image;
    assert_eq!(image.rendering_mode, ImageRendering::Pixelated);
    let rgba = decode(&image.png);
    let alphas: BTreeSet<u8> = rgba.chunks(4).map(|pixel| pixel[3]).collect();
    assert_eq!(alphas, BTreeSet::from([0, 255]));
}

#[test]
fn a_mask_serves_the_size_it_was_drawn_for() {
    let data = bitmap_mono();
    for (size, advance) in [(14.0f32, 8), (16.0, 8), (24.0, 12)] {
        let strike = matching_mask(&data, 0, M, size.to_bits()).unwrap();
        assert_eq!(f32::from(strike.ppem_y), size);
        assert_eq!(strike.advance, Some(advance));
        assert_eq!(mask_advance(&data, 0, M, size.to_bits()), Some(advance));
        let image = glyph_in_face(&data, 0, key(ID::dummy(), M, size)).unwrap();
        assert_eq!(f32::from(image.pixels_per_em), size);
        assert_eq!((image.x, image.y), (1, (size / 2.0) as i16));
        assert!(!image.is_sbix);
    }
    for size in [0.0f32, 13.0, 14.5, 15.999999, 20.0, 270.0, 65536.0, -14.0, f32::NAN] {
        assert!(matching_mask(&data, 0, M, size.to_bits()).is_none());
        assert_eq!(mask_advance(&data, 0, M, size.to_bits()), None);
        assert!(glyph_in_face(&data, 0, key(ID::dummy(), M, size)).is_none());
    }
}

#[test]
fn a_mask_without_an_outline_serves_any_size() {
    let mut tables = metrics_tables();
    tables.extend(strike_tables(&mono_strikes(), M, false));
    let data = sfnt(tables);
    // The largest strike is scaled, so its advance is not used.
    let image = glyph_in_face(&data, 0, key(ID::dummy(), M, 20.0)).unwrap();
    assert_eq!(image.pixels_per_em, 24);
    assert_eq!(image.glyph_bbox, None);
    let image = glyph_in_face(&data, 0, key(ID::dummy(), M, 16.0)).unwrap();
    assert_eq!(image.pixels_per_em, 16);
    assert_eq!(mask_advance(&data, 0, M, 16.0f32.to_bits()), None);
}

#[test]
fn a_glyph_without_a_strike_is_left_to_its_outline() {
    let data = bitmap_mono();
    assert!(glyph_in_face(&data, 0, key(ID::dummy(), GlyphId(2), 16.0)).is_none());
    assert!(glyph_in_face(&data, 7, key(ID::dummy(), M, 16.0)).is_none());
    assert!(glyph_in_face(b"no font", 0, key(ID::dummy(), M, 16.0)).is_none());
    assert_eq!(mask_advance(&noto_sans(), 0, M, 16.0f32.to_bits()), None);
}

#[test]
fn an_unknown_face_has_no_glyphs() {
    let fonts = fonts();
    let unknown = ID::dummy();
    assert!(glyph(&fonts.db, key(unknown, M, 16.0)).is_none());
    assert!(!fonts.db.has_opsz_axis(unknown));
    assert!(fonts.db.svg(unknown, M).is_none());
    assert!(fonts.db.colr(unknown, M).is_none());
    assert_eq!(fonts.db.outline(unknown, M, None), None);
}

#[test]
fn the_fill_paints_a_mask() {
    let data = bitmap_mono();
    let key = BitmapGlyphKey::new(
        ID::dummy(),
        M,
        16.0f32.to_bits(),
        Color::new_rgb(200, 100, 50),
        128,
    );
    let image = glyph_in_face(&data, 0, key).unwrap();
    let pixels = decode(&image.image.png);
    assert_eq!(pixels[..8], [200, 100, 50, 128, 200, 100, 50, 0]);
}

#[test]
fn a_key_stands_for_one_image() {
    let mut db = Database::new();
    let faces = [0, 1].map(|_| add_face(&mut db, "Bitmap Mono", bitmap_mono()));
    let images = faces.map(|font| glyph(&db, key(font, M, 16.0)).unwrap());
    assert_eq!(images[0].image.png, images[1].image.png);
    let larger = glyph(&db, key(faces[0], M, 24.0)).unwrap();
    assert_ne!(images[0].image.png, larger.image.png);
}

fn bgra_strike() -> TestStrike {
    TestStrike {
        ppem: 20,
        bit_depth: 32,
        format: 1,
        width: 2,
        height: 1,
        x: -3,
        y: 17,
        advance: 21,
        data: vec![10, 20, 30, 255, 10, 20, 30, 128],
    }
}

#[test]
fn a_color_bitmap_serves_any_size_and_fill() {
    let mut tables = metrics_tables();
    tables.extend(outline_tables(rectangle(50, -10, 430, 700)));
    tables.extend(strike_tables(&[bgra_strike()], M, true));
    let data = sfnt(tables);
    for size in [5.0f32, 20.0, 33.3] {
        for opacity in [0, 255] {
            let key =
                BitmapGlyphKey::new(ID::dummy(), M, size.to_bits(), Color::black(), opacity);
            let image = glyph_in_face(&data, 0, key).unwrap();
            assert_eq!(
                decode(&image.image.png),
                [30, 20, 10, 255, 59, 39, 19, 128]
            );
            assert_eq!(image.image.rendering_mode, ImageRendering::OptimizeQuality);
            assert_eq!((image.x, image.y, image.pixels_per_em), (-3, 17, 20));
            assert_eq!(
                image.glyph_bbox,
                Some(BoundingBox {
                    x_min: 50,
                    y_min: -10,
                    x_max: 430,
                    y_max: 700,
                })
            );
            assert!(!image.is_sbix);
        }
        assert_eq!(mask_advance(&data, 0, M, size.to_bits()), None);
    }
}

/// A PNG file of one row of opaque pixels.
fn png_row(width: u32) -> Vec<u8> {
    let mut png_data = Vec::new();
    let mut encoder = png::Encoder::new(&mut png_data, width, 1);
    encoder.set_color(png::ColorType::Rgba);
    let mut writer = encoder.write_header().unwrap();
    writer
        .write_image_data(&vec![255; 4 * width as usize])
        .unwrap();
    writer.finish().unwrap();
    png_data
}

fn sbix_table(strikes: &[(u16, i16, i16, Vec<u8>)], glyph: GlyphId) -> Table {
    let mut header = Bytes::default().u16(1).u16(1).u32(strikes.len() as u32);
    let mut body = Bytes::default();
    let start = 8 + 4 * strikes.len();
    for (ppem, x, y, image) in strikes {
        header = header.u32((start + body.0.len()) as u32);
        let offsets = 4 + 4 * (u32::from(NUM_GLYPHS) + 1);
        body = body.u16(*ppem).u16(72);
        for g in 0..=u32::from(NUM_GLYPHS) {
            let end = offsets + 8 + image.len() as u32;
            body = body.u32(if g <= glyph.0 { offsets } else { end });
        }
        body = body.i16(*x).i16(*y).raw(b"png ").raw(image);
    }
    (*b"sbix", header.raw(&body.0).0)
}

#[test]
fn an_sbix_image_is_kept_as_it_is() {
    let mut tables = metrics_tables();
    tables.extend(outline_tables(rectangle(50, -10, 430, 700)));
    tables.push(sbix_table(
        &[(20, 1, 2, png_row(3)), (300, -4, 5, png_row(7))],
        M,
    ));
    let data = sfnt(tables);
    for size in [20.0, 64.0] {
        let image = glyph_in_face(&data, 0, key(ID::dummy(), M, size)).unwrap();
        assert_eq!(image.image.png, png_row(7));
        assert_eq!((image.image.size.width, image.image.size.height), (7, 1));
        assert_eq!(image.image.rendering_mode, ImageRendering::OptimizeQuality);
        assert_eq!((image.x, image.y, image.pixels_per_em), (-4, 5, 300));
        assert!(image.is_sbix);
        let transform = usvg_text::flatten::bitmap_transform(&image);
        assert_eq!(
            transform,
            GlyphTransform::Sbix {
                x: -4,
                y: 5,
                x_min: 50,
                y_min: -10,
                pixels_per_em: 300,
                height: 1,
            }
        );
    }
    assert_eq!(mask_advance(&data, 0, M, 20.0f32.to_bits()), None);
}

#[test]
fn a_strike_without_pixels_is_no_image() {
    let mut strike = pixel_m(14, 8);
    strike.height = 0;
    strike.data.clear();
    let mut tables = metrics_tables();
    tables.extend(outline_tables(rectangle(50, 0, 430, 700)));
    tables.extend(strike_tables(&[strike], M, false));
    let data = sfnt(tables);
    assert_eq!(mask_advance(&data, 0, M, 14.0f32.to_bits()), Some(8));
    assert!(glyph_in_face(&data, 0, key(ID::dummy(), M, 14.0)).is_none());
}

#[test]
fn the_choice_of_a_strike_depends_on_the_outline() {
    let data = bitmap_mono();
    let strike = |size: f32| matching_mask(&data, 0, M, size.to_bits());
    let ppem = |chosen: Option<usvg_text::face::Strike>| chosen.map(|strike| strike.ppem_y);
    assert_eq!(ppem(choose_strike(strike(24.0), strike(16.0), true)), Some(16));
    assert_eq!(ppem(choose_strike(strike(24.0), None, true)), None);
    assert_eq!(ppem(choose_strike(strike(24.0), None, false)), Some(24));
    assert_eq!(ppem(choose_strike(None, strike(16.0), false)), None);
    let image = image_from_strike(&strike(24.0).unwrap(), Color::black(), 9, None, true).unwrap();
    assert!(image.is_sbix);
    assert_eq!(decode(&image.image.png)[..4], [0, 0, 0, 9]);
}

// SVG documents, paints, axes and outlines.

fn svg_table(records: &[(u16, u16, u32, u32)], documents: &[u8]) -> Table {
    let mut table = Bytes::default()
        .u16(0)
        .u32(10)
        .u32(0)
        .u16(records.len() as u16);
    for (start, end, offset, length) in records {
        table = table
            .u16(*start)
            .u16(*end)
            .u32(2 + 12 * records.len() as u32 + offset)
            .u32(*length);
    }
    (*b"SVG ", table.raw(documents).0)
}

fn svg_font() -> Vec<u8> {
    let mut tables = metrics_tables();
    tables.push(svg_table(
        &[(1, 1, 0, 6), (2, 3, 6, 7)],
        b"<svg/><svg />",
    ));
    sfnt(tables)
}

fn is_whole(glyph: &SvgGlyph) -> bool {
    matches!(glyph.node, SvgNode::Root)
}

#[test]
fn an_svg_glyph_is_a_document_or_a_part_of_one() {
    let data = svg_font();
    let alone = svg_in_face(&data, 0, GlyphId(1)).unwrap();
    assert_eq!(alone.document, b"<svg/>");
    assert!(is_whole(&alone));
    for (id, name) in [(2, "glyph2"), (3, "glyph3")] {
        let shared = svg_in_face(&data, 0, GlyphId(id)).unwrap();
        assert_eq!(shared.document, b"<svg />");
        assert!(matches!(shared.node, SvgNode::Id(found) if found == name));
    }
    assert!(svg_in_face(&data, 0, GlyphId(0)).is_none());
    assert!(svg_in_face(&data, 0, GlyphId(4)).is_none());
    assert!(svg_in_face(&noto_sans(), 0, M).is_none());
    assert!(svg_in_face(b"", 0, M).is_none());
}

#[test]
fn an_svg_document_has_to_be_in_its_table() {
    let mut tables = metrics_tables();
    tables.push(svg_table(&[(1, 1, 0, 100), (2, 2, 0, u32::MAX)], b"<svg/>"));
    let data = sfnt(tables);
    assert!(svg_in_face(&data, 0, GlyphId(1)).is_none());
    assert!(svg_in_face(&data, 0, GlyphId(2)).is_none());
}

#[test]
fn a_database_finds_svg_glyphs() {
    let mut db = Database::new();
    let id = add_face(&mut db, "Svg", svg_font());
    assert_eq!(db.svg(id, GlyphId(3)).unwrap().document, b"<svg />");
    assert!(db.svg(id, GlyphId(0)).is_none());
}

fn colr_font() -> Vec<u8> {
    let mut tables = metrics_tables();
    let colr = Bytes::default()
        .u16(0)
        .u16(1)
        .u32(14)
        .u32(20)
        .u16(1)
        .u16(M.0 as u16)
        .u16(0)
        .u16(1)
        .u16(2)
        .u16(0);
    tables.push((*b"COLR", colr.0));
    sfnt(tables)
}

#[test]
fn a_colr_glyph_gets_a_document() {
    let data = colr_font();
    let document = colr_in_face(&data, 0, M).unwrap().finish();
    assert!(document.starts_with("<svg xmlns=\"http://www.w3.org/2000/svg\""));
    assert!(colr_in_face(&data, 0, GlyphId(2)).is_none());
    assert!(colr_in_face(&noto_sans(), 0, M).is_none());
    assert!(colr_in_face(&data, 1, M).is_none());
    let mut db = Database::new();
    let id = add_face(&mut db, "Colr", data);
    assert_eq!(db.colr(id, M).unwrap().finish(), document);
    assert!(db.colr(id, GlyphId(2)).is_none());
}

fn variable_font(tag: &[u8; 4]) -> Vec<u8> {
    let mut tables = metrics_tables();
    let fvar = Bytes::default()
        .u16(1)
        .u16(0)
        .u16(16)
        .u16(2)
        .u16(1)
        .u16(20)
        .u16(0)
        .u16(8)
        .raw(tag)
        .u32(8 << 16)
        .u32(14 << 16)
        .u32(144 << 16)
        .u16(0)
        .u16(256);
    tables.push((*b"fvar", fvar.0));
    sfnt(tables)
}

#[test]
fn an_optical_size_axis_is_found_by_its_tag() {
    assert!(has_opsz_axis_in_face(&variable_font(b"opsz"), 0));
    assert!(!has_opsz_axis_in_face(&variable_font(b"wght"), 0));
    assert!(!has_opsz_axis_in_face(&noto_sans(), 0));
    assert!(!has_opsz_axis_in_face(b"", 0));
    let mut db = Database::new();
    let optical = add_face(&mut db, "Optical", variable_font(b"opsz"));
    let weight = add_face(&mut db, "Weight", variable_font(b"wght"));
    assert!(db.has_opsz_axis(optical));
    assert!(!db.has_opsz_axis(weight));
}

#[test]
fn an_outline_is_drawn_in_font_units_or_fitted() {
    let data = noto_sans();
    let hinting = GlyphHinting {
        options: mono(),
        ppem: 12.0f32.to_bits(),
    };
    assert_eq!(
        outline_in_face(&data, 0, M, None),
        Some(OutlinePlan::Unscaled)
    );
    assert_eq!(
        outline_in_face(&data, 0, M, Some(hinting)),
        Some(OutlinePlan::Fitted {
            hinting,
            units_per_em: UNITS_PER_EM,
        })
    );
    assert_eq!(outline_in_face(&svg_font(), 0, M, None), None);
    assert_eq!(outline_in_face(&svg_font(), 0, M, Some(hinting)), None);
    assert_eq!(outline_in_face(b"", 0, M, None), None);
    let fonts = fonts();
    assert_eq!(
        fonts.db.outline(fonts.outline, M, Some(hinting)),
        outline_in_face(&data, 0, M, Some(hinting))
    );
}

#[test]
fn a_finished_outline_is_scaled_back() {
    let builder = || {
        let mut builder = PathBuilder::new();
        builder.move_to(1.0, 2.0);
        builder.line_to(3.0, 5.0);
        builder
    };
    let unscaled = finish_outline(builder(), None).unwrap();
    assert_eq!(Some(&unscaled), builder().finish().as_ref());
    let scaled = finish_outline(builder(), Some(Transform::from_scale(2.0, 2.0))).unwrap();
    assert_eq!(scaled.points()[1].x, 6.0);
    assert_eq!(scaled.points()[1].y, 10.0);
    assert_eq!(scaled.verbs(), unscaled.verbs());
    let beyond = Transform::from_scale(f32::MAX, f32::MAX);
    assert_eq!(finish_outline(builder(), Some(beyond)), None);
    assert_eq!(finish_outline(PathBuilder::new(), None), None);
    let mut lone = PathBuilder::new();
    lone.move_to(1.0, 1.0);
    assert_eq!(finish_outline(lone, None), None);
}

/// An index of a `CFF` table.
fn cff_index(items: &[Vec<u8>]) -> Vec<u8> {
    let mut end = 1;
    let mut index = Bytes::default().u16(items.len() as u16);
    if !items.is_empty() {
        index = index.u8(1).u8(end);
    }
    for item in items {
        end += item.len() as u8;
        index = index.u8(end);
    }
    index.raw(&items.concat()).0
}

/// Outlines: a charstring for the letter M, and the blue zones of the face.
fn charstring_table(m: Vec<u8>, blues: &[i16]) -> Table {
    let number = |x: i16| Bytes::default().u8(28).i16(x).0;
    let mut private: Vec<u8> = blues.iter().flat_map(|x| number(*x)).collect();
    private.push(6);
    let mut charstrings = vec![vec![14]; NUM_GLYPHS as usize];
    charstrings[M.0 as usize] = m;
    let charstrings = cff_index(&charstrings);
    let dict = Bytes::default()
        .raw(&number(30))
        .u8(17)
        .raw(&number(private.len() as i16))
        .raw(&number(30 + charstrings.len() as i16))
        .u8(18);
    let table = Bytes::default()
        .raw(&[1, 0, 4, 1])
        .raw(&cff_index(&[b"F".to_vec()]))
        .raw(&cff_index(&[dict.0]))
        .raw(&cff_index(&[]))
        .raw(&cff_index(&[]))
        .raw(&charstrings)
        .raw(&private);
    (*b"CFF ", table.0)
}

/// A curve to the left end of the coordinates, and back.
fn farthest_curve() -> Vec<u8> {
    let mut curve = Bytes::default().u8(139).u8(22);
    for i in 0..11 {
        curve = curve.u8(28).i16(if i == 0 { i16::MIN } else { 0 });
    }
    curve.raw(&[12, 37, 14]).0
}

#[test]
fn charstrings_reach_the_ends_of_their_range() {
    let bounds = |m: Vec<u8>, blues: &[i16], strikes: Vec<Table>| {
        let mut tables = metrics_tables();
        tables.push(charstring_table(m, blues));
        tables.extend(strikes);
        let data = sfnt(tables);
        assert!(glyph_in_face(&data, 0, key(ID::dummy(), GlyphId(2), 16.0)).is_none());
        glyph_in_face(&data, 0, key(ID::dummy(), M, 16.0))
            .unwrap()
            .glyph_bbox
    };
    let box_of = |x_min: i16, x_max: i16, y_max: i16| BoundingBox {
        x_min,
        y_min: 0,
        x_max,
        y_max,
    };
    // 10 0 rmoveto 40 hlineto 20 vlineto endchar
    let corner = vec![149, 139, 21, 179, 6, 159, 7, 14];
    let png = [[0; 16].as_slice(), &[0, 0, 0, 2], &[0, 0, 0, 1]].concat();
    for blues in [&[-10, 0][..], &[i16::MIN, 0], &[i16::MIN, i16::MIN]] {
        for strikes in [
            strike_tables(&mono_strikes(), M, false),
            vec![sbix_table(&[(16, 0, 0, png.clone())], M)],
        ] {
            assert_eq!(
                bounds(corner.clone(), blues, strikes.clone()),
                Some(box_of(10, 50, 20))
            );
            assert_eq!(
                bounds(farthest_curve(), blues, strikes),
                Some(box_of(i16::MIN, 0, 0))
            );
        }
    }
}

#[test]
fn an_unmatched_mask_is_left_to_its_charstring() {
    let mut tables = metrics_tables();
    tables.push(charstring_table(farthest_curve(), &[i16::MIN, 0]));
    tables.extend(strike_tables(&mono_strikes(), M, false));
    let data = sfnt(tables);
    assert!(glyph_in_face(&data, 0, key(ID::dummy(), M, 17.0)).is_none());
    assert!(glyph_in_face(&data, 0, key(ID::dummy(), M, 24.0)).is_some());
}

#[test]
fn composed_outlines_are_told_by_their_table() {
    assert!(!has_composed_outlines(&bitmap_mono(), 0));
    assert!(!has_composed_outlines(&[], 0));
    let mut tables = metrics_tables();
    tables.extend(outline_tables(rectangle(50, 0, 430, 700)));
    tables.push((*b"VARC", vec![0; 4]));
    let data = sfnt(tables);
    assert!(has_composed_outlines(&data, 0));
    assert!(!has_composed_outlines(&data, 1));
}
