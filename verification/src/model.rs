//! Plain layout, styling and window-level enumerations.
use vstd::prelude::*;
use vstd::string::StringExecFns;

verus! {

#[derive(Clone, Copy, Debug, PartialEq, Eq, Structural)]
pub enum Direction {
    LeftToRight,
    TopToBottom,
}

impl Default for Direction {
    fn default() -> (r: Self)
        ensures
            r == Direction::LeftToRight,
    {
        Direction::LeftToRight
    }
}

#[derive(Clone, Copy, Debug, PartialEq, Eq, Structural)]
pub enum HorizontalAlignment {
    Left,
    Center,
    Right,
}

impl Default for HorizontalAlignment {
    fn default() -> (r: Self)
        ensures
            r == HorizontalAlignment::Left,
    {
        HorizontalAlignment::Left
    }
}

#[derive(Clone, Copy, Debug, PartialEq, Eq, Structural)]
pub enum VerticalAlignment {
    Top,
    Center,
    Bottom,
}

impl Default for VerticalAlignment {
    fn default() -> (r: Self)
        ensures
            r == VerticalAlignment::Top,
    {
        VerticalAlignment::Top
    }
}

/// How to break text at word boundaries (default: after a word).
#[derive(Clone, Copy, Debug, PartialEq, Eq, Structural)]
pub enum WordBreak {
    /// Never break (spelled `None` in the toolkit's API).
    NoBreak,
    AfterWord,
}

impl Default for WordBreak {
    fn default() -> (r: Self)
        ensures
            r == WordBreak::AfterWord,
    {
        WordBreak::AfterWord
    }
}

/// A run of text with an optional color override (RGBA packed).
#[derive(Clone, Debug, PartialEq)]
pub struct TextSpan {
    /// The text content of this span
    pub text: String,
    /// Optional color override for this specific span (RGBA packed)
    pub color: Option<u32>,
}

impl Default for TextSpan {
    fn default() -> (r: Self)
        ensures
            r.text@ == Seq::<char>::empty(),
            r.color is None,
    {
        TextSpan { text: String::new(), color: None }
    }
}

#[derive(Clone, Copy, Debug, PartialEq, Eq, Structural)]
pub enum Axis {
    X,
    Y,
}

/// An optional alignment on each axis.
#[derive(Clone, Copy, Debug, Default, PartialEq, Eq)]
pub struct Alignment2D<A, B> {
    pub x: Option<A>,
    pub y: Option<B>,
}

#[derive(Clone, Copy, Debug, PartialEq, Eq, Structural)]
pub enum BorderPlacement {
    Inset,
    Center,
    Outset,
}

impl Default for BorderPlacement {
    fn default() -> (r: Self)
        ensures
            r == BorderPlacement::Inset,
    {
        BorderPlacement::Inset
    }
}

#[derive(Clone, Copy, Debug, PartialEq, Eq, Structural)]
pub enum StrokeLineCap {
    Flat,
    Round,
    Square,
    Triangle,
}

impl Default for StrokeLineCap {
    fn default() -> (r: Self)
        ensures
            r == StrokeLineCap::Square,
    {
        StrokeLineCap::Square
    }
}

#[derive(Clone, Copy, Debug, PartialEq, Eq, Structural)]
pub enum StrokeLineJoin {
    Miter,
    Bevel,
    Round,
    MiterOrBevel,
}

impl Default for StrokeLineJoin {
    fn default() -> (r: Self)
        ensures
            r == StrokeLineJoin::Miter,
    {
        StrokeLineJoin::Miter
    }
}

/// Phase easing for animations and grow/shrink interpolation.
#[derive(Copy, Clone, Debug, PartialEq, Eq, Structural)]
pub enum Easing {
    Linear,
    /// cosine-based smoothstep
    EaseInOut,
    EaseIn,
    EaseOut,
    EaseInOutQuad,
    EaseInQuad,
    EaseOutQuad,
    EaseInOutCubic,
    EaseInCubic,
    EaseOutCubic,
}

impl Default for Easing {
    fn default() -> (r: Self)
        ensures
            r == Easing::EaseInOut,
    {
        Easing::EaseInOut
    }
}

#[derive(Clone, Copy, Debug)]
pub enum ScrollDirection {
    Positive,
    Negative,
}

/// A scroll state manager that never scrolls.
#[derive(Clone, Copy, Debug, Default)]
pub struct NoScrollStateManager {}

#[derive(Debug, Clone, Copy, PartialEq, Eq, Structural)]
pub enum WindowMode {
    Windowed,
    Hidden,
}

/// The system backdrop of a window.
#[derive(Debug, Clone, Copy, PartialEq, Eq, Structural)]
pub enum Backdrop {
    /// No system backdrop.
    NoBackdrop,
    Mica,
    MicaAlt,
    Acrylic,
}

impl Default for Backdrop {
    fn default() -> (r: Self)
        ensures
            r == Backdrop::Mica,
    {
        Backdrop::Mica
    }
}

pub const DWMSBT_NONE: i32 = 1;
pub const DWMSBT_MAINWINDOW: i32 = 2;
pub const DWMSBT_TRANSIENTWINDOW: i32 = 3;
pub const DWMSBT_TABBEDWINDOW: i32 = 4;

/// The DWM system backdrop type for a backdrop: Mica is the main-window
/// material, Mica Alt the tabbed-window one, Acrylic the transient-window one.
pub fn system_backdrop_type(backdrop: Backdrop) -> (r: i32)
    ensures
        r == match backdrop {
            Backdrop::NoBackdrop => DWMSBT_NONE,
            Backdrop::Mica => DWMSBT_MAINWINDOW,
            Backdrop::MicaAlt => DWMSBT_TABBEDWINDOW,
            Backdrop::Acrylic => DWMSBT_TRANSIENTWINDOW,
        },
{
    match backdrop {
        Backdrop::NoBackdrop => DWMSBT_NONE,
        Backdrop::Mica => DWMSBT_MAINWINDOW,
        Backdrop::MicaAlt => DWMSBT_TABBEDWINDOW,
        Backdrop::Acrylic => DWMSBT_TRANSIENTWINDOW,
    }
}

/// Whether the window is blurred behind: only when the system supports
/// backdrops and one is asked for.
pub fn uses_blur_behind(backdrop_supported: bool, backdrop: Backdrop) -> (r: bool)
    ensures
        r == (backdrop_supported && backdrop != Backdrop::NoBackdrop),
{
    backdrop_supported && !matches!(backdrop, Backdrop::NoBackdrop)
}

/// Identifies a font that can be either a system font or a custom loaded font
#[derive(Debug, Clone, PartialEq, Eq, Hash)]
pub enum FontIdentifier {
    /// System font identified by family name (e.g., "Segoe UI", "Arial")
    System(String),
    /// Custom font identified by a unique name
    Custom(String),
}

impl FontIdentifier {
    /// Create a system font identifier
    pub fn system(family_name: &str) -> (r: Self)
        ensures
            r matches FontIdentifier::System(n) && n@ == family_name@,
    {
        FontIdentifier::System(String::from_str(family_name))
    }

    /// Create a custom font identifier
    pub fn custom(name: &str) -> (r: Self)
        ensures
            r matches FontIdentifier::Custom(n) && n@ == name@,
    {
        FontIdentifier::Custom(String::from_str(name))
    }

    /// Get the family name for font creation
    pub fn family_name(&self) -> (r: &str)
        ensures
            r@ == match self {
                FontIdentifier::System(n) => n@,
                FontIdentifier::Custom(n) => n@,
            },
    {
        match self {
            FontIdentifier::System(name) => name.as_str(),
            FontIdentifier::Custom(name) => name.as_str(),
        }
    }
}

impl From<String> for FontIdentifier {
    /// A family name on its own names a system font.
    fn from(family_name: String) -> (r: Self) {
        FontIdentifier::System(family_name)
    }
}

impl vstd::std_specs::convert::FromSpecImpl<String> for FontIdentifier {
    open spec fn obeys_from_spec() -> bool {
        true
    }

    open spec fn from_spec(family_name: String) -> FontIdentifier {
        FontIdentifier::System(family_name)
    }
}

/// A window handle passed between threads (its numeric value).
#[derive(Clone, Copy, Debug, PartialEq, Eq, Structural)]
pub struct UncheckedHWND(pub isize);

/// Something that can be asked to schedule another animation frame.
pub trait RequestAnimation {
    fn request_animation(&mut self);
}

} // verus!
