use skrifa::outline::{Engine, HintingOptions, SmoothMode, Target};
use usvg_text::bitmap::BitmapGlyphKey;
use usvg_text::colr::ColrDocument;
use usvg_text::float_bits::whole_number;
use usvg_text::hinting::{
    FontHintingEngine, FontHintingOptions, FontHintingSmoothMode, FontHintingTarget, GlyphHinting,
};
use usvg_text::svg::{find_record, select_node, SvgNode, SvgRecord};
use usvg_text::tree::{Color, FontVariation, GlyphId, Size, OPSZ};

#[test]
fn the_default_target_is_that_of_skrifa() {
    let target = Target::from(FontHintingTarget::default());
    assert_eq!(target, Target::default());
    assert!(matches!(
        Engine::from(FontHintingEngine::default()),
        Engine::AutoFallback
    ));
    assert_eq!(
        FontHintingSmoothMode::default(),
        FontHintingSmoothMode::Normal
    );
    assert_eq!(
        FontHintingOptions::default(),
        FontHintingOptions {
            engine: FontHintingEngine::AutoFallback,
            target: FontHintingTarget::Smooth {
                mode: FontHintingSmoothMode::Normal,
                symmetric_rendering: true,
                preserve_linear_metrics: false,
            },
        }
    );
}

#[test]
fn engines_and_modes_become_their_counterparts() {
    assert!(matches!(
        Engine::from(FontHintingEngine::Interpreter),
        Engine::Interpreter
    ));
    assert!(matches!(
        Engine::from(FontHintingEngine::Auto),
        Engine::Auto(None)
    ));
    assert_eq!(Target::from(FontHintingTarget::Mono), Target::Mono);
    for (mode, expected) in [
        (FontHintingSmoothMode::Normal, SmoothMode::Normal),
        (FontHintingSmoothMode::Light, SmoothMode::Light),
        (FontHintingSmoothMode::Lcd, SmoothMode::Lcd),
        (FontHintingSmoothMode::VerticalLcd, SmoothMode::VerticalLcd),
    ] {
        assert_eq!(SmoothMode::from(mode), expected);
        let target = FontHintingTarget::Smooth {
            mode,
            symmetric_rendering: false,
            preserve_linear_metrics: true,
        };
        let options = HintingOptions::from(FontHintingOptions {
            engine: FontHintingEngine::Auto,
            target,
        });
        assert!(matches!(options.engine, Engine::Auto(None)));
        assert_eq!(
            options.target,
            Target::Smooth {
                mode: expected,
                symmetric_rendering: false,
                preserve_linear_metrics: true,
            }
        );
    }
}

#[test]
fn cache_keys_tell_sizes_and_options_apart() {
    let hinting = |engine, ppem: f32| GlyphHinting {
        options: FontHintingOptions {
            engine,
            target: FontHintingTarget::Mono,
        },
        ppem: ppem.to_bits(),
    };
    let key = hinting(FontHintingEngine::Auto, 12.5).cache_key();
    assert_eq!(key.1, 0x4148_0000);
    assert_eq!(key, hinting(FontHintingEngine::Auto, 12.5).cache_key());
    assert_ne!(key, hinting(FontHintingEngine::Auto, 12.0).cache_key());
    assert_ne!(
        key,
        hinting(FontHintingEngine::Interpreter, 12.5).cache_key()
    );
}

#[test]
fn whole_numbers_are_read_from_their_bits() {
    for n in 0..=u16::MAX {
        assert_eq!(whole_number(f32::from(n).to_bits()), Some(n));
    }
    assert_eq!(whole_number((-0.0f32).to_bits()), Some(0));
}

#[test]
fn other_numbers_are_not_whole() {
    for number in [
        0.5,
        13.999999,
        14.5,
        65535.5,
        65536.0,
        1e20,
        -1.0,
        -14.0,
        f32::MIN_POSITIVE,
        1e-45,
        f32::INFINITY,
        f32::NEG_INFINITY,
        f32::NAN,
    ] {
        assert_eq!(whole_number(number.to_bits()), None);
    }
}

#[test]
fn a_bitmap_key_holds_size_and_fill() {
    let color = Color::new_rgb(1, 2, 3);
    let font = fontdb::ID::dummy();
    let key = BitmapGlyphKey::new(font, GlyphId(7), 16.0f32.to_bits(), color, 4);
    assert_eq!(key.font_size(), 16.0f32.to_bits());
    assert_eq!(key.fill_color(), color);
    assert_eq!(key.fill_opacity(), 4);
    assert_eq!(key.fill, [1, 2, 3, 4]);
    assert_ne!(
        key,
        BitmapGlyphKey::new(font, GlyphId(7), 17.0f32.to_bits(), color, 4)
    );
    assert_ne!(
        key,
        BitmapGlyphKey::new(font, GlyphId(7), 16.0f32.to_bits(), Color::black(), 4)
    );
}

#[test]
fn a_size_is_not_empty() {
    assert_eq!(
        Size::from_wh(3, 4),
        Some(Size {
            width: 3,
            height: 4
        })
    );
    assert_eq!(Size::from_wh(0, 4), None);
    assert_eq!(Size::from_wh(3, 0), None);
}

#[test]
fn the_optical_size_axis_has_its_tag() {
    assert_eq!(&OPSZ, b"opsz");
    let variation = FontVariation::new(*b"wght", 400.0f32.to_bits());
    assert_eq!(variation.tag, *b"wght");
    assert_eq!(variation.value, 400.0f32.to_bits());
}

fn record(start: u32, end: u32) -> SvgRecord {
    SvgRecord {
        start,
        end,
    }
}

#[test]
fn a_shared_document_is_searched_by_glyph() {
    assert!(matches!(
        select_node(record(5, 5), GlyphId(5)),
        SvgNode::Root
    ));
    for (glyph, id) in [
        (0, "glyph0"),
        (7, "glyph7"),
        (10, "glyph10"),
        (105, "glyph105"),
        (65535, "glyph65535"),
        (u32::MAX, "glyph4294967295"),
    ] {
        match select_node(record(0, u32::MAX), GlyphId(glyph)) {
            SvgNode::Id(found) => assert_eq!(found, id),
            SvgNode::Root => panic!("glyph {} has no id", glyph),
        }
    }
}

#[test]
fn the_first_record_that_covers_a_glyph_is_found() {
    let records = vec![record(1, 3), record(3, 9), record(20, 20)];
    assert_eq!(find_record(&records, GlyphId(1)), Some(record(1, 3)));
    assert_eq!(find_record(&records, GlyphId(3)), Some(record(1, 3)));
    assert_eq!(find_record(&records, GlyphId(4)), Some(record(3, 9)));
    assert_eq!(find_record(&records, GlyphId(20)), Some(record(20, 20)));
    assert_eq!(find_record(&records, GlyphId(0)), None);
    assert_eq!(find_record(&records, GlyphId(10)), None);
    assert_eq!(find_record(&Vec::new(), GlyphId(0)), None);
}

#[test]
fn a_colr_document_has_its_namespaces_and_a_group() {
    let document = ColrDocument::new();
    assert_eq!(document.gradient_index, 1);
    assert_eq!(document.clip_path_index, 1);
    assert_eq!(document.foreground_color, Color::black());
    assert_eq!(document.foreground_opacity, 255);
    assert_eq!(
        document.finish(),
        "<svg xmlns=\"http://www.w3.org/2000/svg\" \
         xmlns:xlink=\"http://www.w3.org/1999/xlink\">\n    <g/>\n</svg>\n"
    );
}

#[test]
fn a_glyph_is_painted_into_the_group() {
    let mut document = ColrDocument::new();
    document.svg.start_element("path");
    document.svg.write_attribute("d", "M 0 0");
    document.svg.end_element();
    assert_eq!(
        document.finish(),
        "<svg xmlns=\"http://www.w3.org/2000/svg\" \
         xmlns:xlink=\"http://www.w3.org/1999/xlink\">\n    <g>\n        \
         <path d=\"M 0 0\"/>\n    </g>\n</svg>\n"
    );
}
