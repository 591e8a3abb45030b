//! Font hinting configuration.

use vstd::prelude::*;

verus! {

/// The hinting engine to use.
#[derive(Clone, Copy, PartialEq, Eq, Hash, Debug, Structural)]
pub enum FontHintingEngine {
    /// The TrueType or PostScript interpreter, i.e. the hints embedded in the
    /// font itself.
    Interpreter,
    /// The automatic hinter, which adjusts outlines without relying on hints
    /// embedded in the font.
    Auto,
    /// Picks the interpreter for fonts that carry hints and the automatic
    /// hinter for those that don't. This is what FreeType does by default.
    AutoFallback,
}

impl Default for FontHintingEngine {
    fn default() -> (res: Self)
        ensures
            res == FontHintingEngine::AutoFallback,
    {
        FontHintingEngine::AutoFallback
    }
}

/// The basic mode for [`FontHintingTarget::Smooth`].
#[derive(Clone, Copy, PartialEq, Eq, Hash, Debug, Structural)]
pub enum FontHintingSmoothMode {
    /// The standard smooth hinting mode.
    Normal,
    /// Hinting with a lighter touch, meaning less aggressive adjustment in the
    /// horizontal direction.
    Light,
    /// Hinting optimized for subpixel rendering with horizontal LCD layouts.
    Lcd,
    /// Hinting optimized for subpixel rendering with vertical LCD layouts.
    VerticalLcd,
}

impl Default for FontHintingSmoothMode {
    fn default() -> (res: Self)
        ensures
            res == FontHintingSmoothMode::Normal,
    {
        FontHintingSmoothMode::Normal
    }
}

/// The rasterization the hinted outline is being prepared for.
#[derive(Clone, Copy, PartialEq, Eq, Hash, Debug, Structural)]
pub enum FontHintingTarget {
    /// A strong hinting style intended for aliased, monochrome rasterization.
    ///
    /// Since text is usually anti-aliased, this mostly serves to align stems to
    /// the pixel grid as aggressively as possible. Note that the TrueType
    /// interpreter largely ignores the distinction between this and
    /// [`FontHintingTarget::Smooth`], so it mainly takes effect together with
    /// [`FontHintingEngine::Auto`].
    Mono,
    /// A hinting style suitable for anti-aliased rasterization.
    Smooth {
        /// The basic mode for smooth hinting.
        mode: FontHintingSmoothMode,
        /// If true, TrueType bytecode may assume that the outline will be
        /// rasterized with vertical supersampling.
        ///
        /// Disabling this makes ClearType fonts produce narrower horizontal
        /// stems, which suits an analytical area rasterizer.
        symmetric_rendering: bool,
        /// If true, the hinting engine may not adjust the glyph advance.
        preserve_linear_metrics: bool,
    },
}

impl Default for FontHintingTarget {
    /// The same defaults skrifa uses for a smooth target.
    fn default() -> (res: Self)
        ensures
            res == (FontHintingTarget::Smooth {
                mode: FontHintingSmoothMode::Normal,
                symmetric_rendering: true,
                preserve_linear_metrics: false,
            }),
    {
        FontHintingTarget::Smooth {
            mode: FontHintingSmoothMode::Normal,
            symmetric_rendering: true,
            preserve_linear_metrics: false,
        }
    }
}

/// Font hinting configuration.
///
/// Hinting grid-fits glyph outlines so that stems align to whole pixels, which
/// improves legibility of small text. It is disabled by default, because an SVG
/// is resolution independent while hinting is not: outlines have to be fitted
/// for a specific pixel grid, and that grid has to be picked while text is
/// flattened into paths, before the scale a tree is eventually rendered at is
/// known.
///
/// The grid is derived from the font size in user units, so hinted output only
/// lands on whole pixels when the tree is rendered without scaling, or at an
/// integer zoom factor.
///
/// Hinting never changes glyph positions, only the outlines themselves. Text
/// therefore occupies the same space whether it is hinted or not.
///
/// Elements with `text-rendering="geometricPrecision"` are never hinted, since
/// that property asks for exact outlines.
#[derive(Clone, Copy, PartialEq, Eq, Hash, Debug, Structural)]
pub struct FontHintingOptions {
    /// The hinting engine to use.
    pub engine: FontHintingEngine,
    /// The rasterization the outline is being prepared for.
    pub target: FontHintingTarget,
}

impl Default for FontHintingOptions {
    fn default() -> (res: Self)
        ensures
            res.engine == FontHintingEngine::AutoFallback,
            res.target == (FontHintingTarget::Smooth {
                mode: FontHintingSmoothMode::Normal,
                symmetric_rendering: true,
                preserve_linear_metrics: false,
            }),
    {
        FontHintingOptions {
            engine: FontHintingEngine::default(),
            target: FontHintingTarget::default(),
        }
    }
}

/// The hinting configuration for a single glyph.
#[derive(Clone, Copy, PartialEq, Eq, Debug, Structural)]
pub struct GlyphHinting {
    pub options: FontHintingOptions,
    /// The pixel grid to fit the outline to, as the bits of an IEEE 754 single
    /// precision number. Derived from the font size, so hinted glyphs only land
    /// on whole pixels at an unscaled render.
    pub ppem: u32,
}

impl GlyphHinting {
    /// A key that identifies this configuration, since floating point numbers
    /// are not hashable.
    pub fn cache_key(&self) -> (res: (FontHintingOptions, u32))
        ensures
            res == self.spec_cache_key(),
    {
        (self.options, self.ppem)
    }

    /// What [`GlyphHinting::cache_key`] returns.
    pub open spec fn spec_cache_key(self) -> (FontHintingOptions, u32) {
        (self.options, self.ppem)
    }
}

/// A cache key stands for exactly one configuration: two configurations share
/// a key only if they are the same.
pub proof fn law_cache_key_identifies_the_configuration(a: GlyphHinting, b: GlyphHinting)
    ensures
        a.spec_cache_key() == b.spec_cache_key() <==> a == b,
{
}

/// The smooth hinting modes of skrifa.
#[verifier::external_type_specification]
pub struct ExSmoothMode(skrifa::outline::SmoothMode);

/// The hinting targets of skrifa.
#[verifier::external_type_specification]
pub struct ExTarget(skrifa::outline::Target);

/// The precomputed glyph styles that skrifa's automatic hinter can be given.
#[verifier::external_type_specification]
#[verifier::external_body]
pub struct ExGlyphStyles(skrifa::outline::GlyphStyles);

/// The hinting engines of skrifa.
#[verifier::external_type_specification]
pub struct ExEngine(skrifa::outline::Engine);

/// The hinting options of skrifa: an engine and a target.
#[verifier::external_type_specification]
pub struct ExHintingOptions(skrifa::outline::HintingOptions);

impl From<FontHintingEngine> for skrifa::outline::Engine {
    fn from(engine: FontHintingEngine) -> (res: Self) {
        match engine {
            FontHintingEngine::Interpreter => skrifa::outline::Engine::Interpreter,
            FontHintingEngine::Auto => skrifa::outline::Engine::Auto(None),
            FontHintingEngine::AutoFallback => skrifa::outline::Engine::AutoFallback,
        }
    }
}

impl vstd::std_specs::convert::FromSpecImpl<FontHintingEngine> for skrifa::outline::Engine {
    open spec fn obeys_from_spec() -> bool {
        true
    }

    open spec fn from_spec(engine: FontHintingEngine) -> Self {
        match engine {
            FontHintingEngine::Interpreter => skrifa::outline::Engine::Interpreter,
            FontHintingEngine::Auto => skrifa::outline::Engine::Auto(None),
            FontHintingEngine::AutoFallback => skrifa::outline::Engine::AutoFallback,
        }
    }
}

impl From<FontHintingSmoothMode> for skrifa::outline::SmoothMode {
    fn from(mode: FontHintingSmoothMode) -> (res: Self) {
        match mode {
            FontHintingSmoothMode::Normal => skrifa::outline::SmoothMode::Normal,
            FontHintingSmoothMode::Light => skrifa::outline::SmoothMode::Light,
            FontHintingSmoothMode::Lcd => skrifa::outline::SmoothMode::Lcd,
            FontHintingSmoothMode::VerticalLcd => skrifa::outline::SmoothMode::VerticalLcd,
        }
    }
}

impl vstd::std_specs::convert::FromSpecImpl<FontHintingSmoothMode> for skrifa::outline::SmoothMode {
    open spec fn obeys_from_spec() -> bool {
        true
    }

    open spec fn from_spec(mode: FontHintingSmoothMode) -> Self {
        match mode {
            FontHintingSmoothMode::Normal => skrifa::outline::SmoothMode::Normal,
            FontHintingSmoothMode::Light => skrifa::outline::SmoothMode::Light,
            FontHintingSmoothMode::Lcd => skrifa::outline::SmoothMode::Lcd,
            FontHintingSmoothMode::VerticalLcd => skrifa::outline::SmoothMode::VerticalLcd,
        }
    }
}

impl From<FontHintingTarget> for skrifa::outline::Target {
    fn from(target: FontHintingTarget) -> (res: Self) {
        match target {
            FontHintingTarget::Mono => skrifa::outline::Target::Mono,
            FontHintingTarget::Smooth { mode, symmetric_rendering, preserve_linear_metrics } => {
                skrifa::outline::Target::Smooth {
                    mode: skrifa::outline::SmoothMode::from(mode),
                    symmetric_rendering,
                    preserve_linear_metrics,
                }
            },
        }
    }
}

impl vstd::std_specs::convert::FromSpecImpl<FontHintingTarget> for skrifa::outline::Target {
    open spec fn obeys_from_spec() -> bool {
        true
    }

    open spec fn from_spec(target: FontHintingTarget) -> Self {
        match target {
            FontHintingTarget::Mono => skrifa::outline::Target::Mono,
            FontHintingTarget::Smooth { mode, symmetric_rendering, preserve_linear_metrics } => {
                skrifa::outline::Target::Smooth {
                    mode: vstd::std_specs::convert::FromSpec::from_spec(mode),
                    symmetric_rendering,
                    preserve_linear_metrics,
                }
            },
        }
    }
}

impl From<FontHintingOptions> for skrifa::outline::HintingOptions {
    fn from(options: FontHintingOptions) -> (res: Self) {
        skrifa::outline::HintingOptions {
            engine: skrifa::outline::Engine::from(options.engine),
            target: skrifa::outline::Target::from(options.target),
        }
    }
}

impl vstd::std_specs::convert::FromSpecImpl<FontHintingOptions> for skrifa::outline::HintingOptions {
    open spec fn obeys_from_spec() -> bool {
        true
    }

    open spec fn from_spec(options: FontHintingOptions) -> Self {
        skrifa::outline::HintingOptions {
            engine: vstd::std_specs::convert::FromSpec::from_spec(options.engine),
            target: vstd::std_specs::convert::FromSpec::from_spec(options.target),
        }
    }
}

/// The configuration of skrifa that a configuration of this library becomes.
pub open spec fn hinting_options_of(options: FontHintingOptions) -> skrifa::outline::HintingOptions {
    vstd::std_specs::convert::FromSpec::from_spec(options)
}

/// No two configurations of this library become the same configuration of
/// skrifa.
pub proof fn law_hinting_options_stay_distinct(a: FontHintingOptions, b: FontHintingOptions)
    ensures
        (a == b) == (hinting_options_of(a) == hinting_options_of(b)),
{
}

/// A configuration of skrifa asks for the very engine and target that it was made
/// from.
pub proof fn law_hinting_options_keep_their_meaning(options: FontHintingOptions)
    ensures
        ({
            let engine = hinting_options_of(options).engine;
            &&& options.engine is Interpreter <==> engine is Interpreter
            &&& options.engine is AutoFallback <==> engine is AutoFallback
            &&& options.engine is Auto <==> engine is Auto
            &&& engine matches skrifa::outline::Engine::Auto(styles) ==> styles is None
        }),
        match (options.target, hinting_options_of(options).target) {
            (FontHintingTarget::Mono, skrifa::outline::Target::Mono) => true,
            (
                FontHintingTarget::Smooth { mode, symmetric_rendering, preserve_linear_metrics },
                skrifa::outline::Target::Smooth {
                    mode: to,
                    symmetric_rendering: to_symmetric,
                    preserve_linear_metrics: to_linear,
                },
            ) => {
                &&& mode is Normal <==> to is Normal
                &&& mode is Light <==> to is Light
                &&& mode is Lcd <==> to is Lcd
                &&& mode is VerticalLcd <==> to is VerticalLcd
                &&& symmetric_rendering == to_symmetric
                &&& preserve_linear_metrics == to_linear
            },
            _ => false,
        },
{
}

/// A cache key holds the configuration and the bits of the size.
pub proof fn law_cache_key_holds_its_parts(hinting: GlyphHinting)
    ensures
        hinting.spec_cache_key().0 == hinting.options,
        hinting.spec_cache_key().1 == hinting.ppem,
{
}

} // verus!
