//! Unit and keyword types of the cosmetic style vocabulary.
//!
//! These enumerations carry no algorithm: each renders to its fixed wire
//! keyword, and styles store them as attribute text.

use vstd::prelude::*;

use crate::decimal::Decimal;
use crate::digits::str_eq;
use crate::error::OdsError;

verus! {

/// An angle with its unit.
#[derive(Debug)]
pub enum Angle {
    /// Degrees, a turn being 360.
    Deg(Decimal),
    /// Gradians, a turn being 400.
    Grad(Decimal),
    /// Radians.
    Rad(Decimal),
}

impl Angle {
    /// The attribute text: the magnitude, then the unit keyword.
    pub fn to_text(&self) -> (r: String)
        requires
            match self {
                Angle::Deg(d) => d.wf(),
                Angle::Grad(d) => d.wf(),
                Angle::Rad(d) => d.wf(),
            },
        ensures
            r@ == match self {
                Angle::Deg(d) => d.chars_spec() + "deg"@,
                Angle::Grad(d) => d.chars_spec() + "grad"@,
                Angle::Rad(d) => d.chars_spec() + "rad"@,
            },
    {
        match self {
            Angle::Deg(d) => {
                let mut s = d.to_text();
                s.append("deg");
                s
            },
            Angle::Grad(d) => {
                let mut s = d.to_text();
                s.append("grad");
                s
            },
            Angle::Rad(d) => {
                let mut s = d.to_text();
                s.append("rad");
                s
            },
        }
    }
}

/// A length with its unit.
#[derive(Debug)]
pub enum Length {
    /// Centimeters.
    Cm(Decimal),
    /// Millimeters.
    Mm(Decimal),
    /// Inches.
    In(Decimal),
    /// Points, at seventy-two to the inch.
    Pt(Decimal),
    /// Picas, at six to the inch.
    Pc(Decimal),
    /// The font's em width.
    Em(Decimal),
}

impl Length {
    /// The attribute text: the magnitude, then the unit keyword.
    pub fn to_text(&self) -> (r: String)
        requires
            match self {
                Length::Cm(d) => d.wf(),
                Length::Mm(d) => d.wf(),
                Length::In(d) => d.wf(),
                Length::Pt(d) => d.wf(),
                Length::Pc(d) => d.wf(),
                Length::Em(d) => d.wf(),
            },
        ensures
            r@ == match self {
                Length::Cm(d) => d.chars_spec() + "cm"@,
                Length::Mm(d) => d.chars_spec() + "mm"@,
                Length::In(d) => d.chars_spec() + "in"@,
                Length::Pt(d) => d.chars_spec() + "pt"@,
                Length::Pc(d) => d.chars_spec() + "pc"@,
                Length::Em(d) => d.chars_spec() + "em"@,
            },
    {
        match self {
            Length::Cm(d) => {
                let mut s = d.to_text();
                s.append("cm");
                s
            },
            Length::Mm(d) => {
                let mut s = d.to_text();
                s.append("mm");
                s
            },
            Length::In(d) => {
                let mut s = d.to_text();
                s.append("in");
                s
            },
            Length::Pt(d) => {
                let mut s = d.to_text();
                s.append("pt");
                s
            },
            Length::Pc(d) => {
                let mut s = d.to_text();
                s.append("pc");
                s
            },
            Length::Em(d) => {
                let mut s = d.to_text();
                s.append("em");
                s
            },
        }
    }
}

/// Font pitch.
#[derive(Debug, Clone, Copy, PartialEq, Eq, Structural)]
pub enum FontPitch {
    /// Proportional spacing.
    Variable,
    /// Fixed spacing.
    Fixed,
}

impl FontPitch {
    /// The wire keyword.
    pub fn as_str(&self) -> (r: &'static str)
        ensures
            r@ == match self {
                FontPitch::Variable => "variable"@,
                FontPitch::Fixed => "fixed"@,
            },
    {
        match self {
            FontPitch::Variable => "variable",
            FontPitch::Fixed => "fixed",
        }
    }
}

/// Border line styles.
#[derive(Debug, Clone, Copy, PartialEq, Eq, Structural)]
pub enum Border {
    /// No border.
    NoBorder,
    /// A hidden border.
    Hidden,
    /// Dotted.
    Dotted,
    /// Dashed.
    Dashed,
    /// Solid.
    Solid,
    /// Doubled.
    Double,
    /// Grooved.
    Groove,
    /// Ridged.
    Ridge,
    /// Inset.
    Inset,
    /// Outset.
    Outset,
}

impl Border {
    /// The wire keyword.
    pub fn as_str(&self) -> (r: &'static str)
        ensures
            r@ == match self {
                Border::NoBorder => "none"@,
                Border::Hidden => "hidden"@,
                Border::Dotted => "dotted"@,
                Border::Dashed => "dashed"@,
                Border::Solid => "solid"@,
                Border::Double => "double"@,
                Border::Groove => "groove"@,
                Border::Ridge => "ridge"@,
                Border::Inset => "inset"@,
                Border::Outset => "outset"@,
            },
    {
        match self {
            Border::NoBorder => "none",
            Border::Hidden => "hidden",
            Border::Dotted => "dotted",
            Border::Dashed => "dashed",
            Border::Solid => "solid",
            Border::Double => "double",
            Border::Groove => "groove",
            Border::Ridge => "ridge",
            Border::Inset => "inset",
            Border::Outset => "outset",
        }
    }
}

/// Page break behaviour.
#[derive(Debug, Clone, Copy, PartialEq, Eq, Structural)]
pub enum PageBreak {
    /// Let the layout decide.
    Auto,
    /// Break the column.
    Column,
    /// Break the page.
    Page,
}

impl PageBreak {
    /// The wire keyword.
    pub fn as_str(&self) -> (r: &'static str)
        ensures
            r@ == match self {
                PageBreak::Auto => "auto"@,
                PageBreak::Column => "column"@,
                PageBreak::Page => "page"@,
            },
    {
        match self {
            PageBreak::Auto => "auto",
            PageBreak::Column => "column",
            PageBreak::Page => "page",
        }
    }
}

/// Keep-together behaviour.
#[derive(Debug, Clone, Copy, PartialEq, Eq, Structural)]
pub enum TextKeep {
    /// Let the layout decide.
    Auto,
    /// Always keep together.
    Always,
}

impl TextKeep {
    /// The wire keyword.
    pub fn as_str(&self) -> (r: &'static str)
        ensures
            r@ == match self {
                TextKeep::Auto => "auto"@,
                TextKeep::Always => "always"@,
            },
    {
        match self {
            TextKeep::Auto => "auto",
            TextKeep::Always => "always",
        }
    }
}

/// Writing modes.
#[derive(Debug, Clone, Copy, PartialEq, Eq, Structural)]
pub enum WritingMode {
    /// Left to right, top to bottom.
    LrTb,
    /// Right to left, top to bottom.
    RlTb,
    /// Top to bottom, right to left.
    TbRl,
    /// Top to bottom, left to right.
    TbLr,
    /// Left to right.
    Lr,
    /// Right to left.
    Rl,
    /// Top to bottom.
    Tb,
    /// The page's mode.
    Page,
}

impl WritingMode {
    /// The wire keyword.
    pub fn as_str(&self) -> (r: &'static str)
        ensures
            r@ == match self {
                WritingMode::LrTb => "lr-tb"@,
                WritingMode::RlTb => "rl-tb"@,
                WritingMode::TbRl => "tb-rl"@,
                WritingMode::TbLr => "tb-lr"@,
                WritingMode::Lr => "lr"@,
                WritingMode::Rl => "rl"@,
                WritingMode::Tb => "tb"@,
                WritingMode::Page => "page"@,
            },
    {
        match self {
            WritingMode::LrTb => "lr-tb",
            WritingMode::RlTb => "rl-tb",
            WritingMode::TbRl => "tb-rl",
            WritingMode::TbLr => "tb-lr",
            WritingMode::Lr => "lr",
            WritingMode::Rl => "rl",
            WritingMode::Tb => "tb",
            WritingMode::Page => "page",
        }
    }
}

/// Text wrapping.
#[derive(Debug, Clone, Copy, PartialEq, Eq, Structural)]
pub enum WrapOption {
    /// Never wrap.
    NoWrap,
    /// Wrap freely.
    Wrap,
}

impl WrapOption {
    /// The wire keyword.
    pub fn as_str(&self) -> (r: &'static str)
        ensures
            r@ == match self {
                WrapOption::NoWrap => "no-wrap"@,
                WrapOption::Wrap => "wrap"@,
            },
    {
        match self {
            WrapOption::NoWrap => "no-wrap",
            WrapOption::Wrap => "wrap",
        }
    }
}

/// Rotation alignment.
#[derive(Debug, Clone, Copy, PartialEq, Eq, Structural)]
pub enum RotationAlign {
    /// No alignment.
    NoAlign,
    /// To the bottom.
    Bottom,
    /// To the top.
    Top,
    /// Centered.
    Center,
}

impl RotationAlign {
    /// The wire keyword.
    pub fn as_str(&self) -> (r: &'static str)
        ensures
            r@ == match self {
                RotationAlign::NoAlign => "none"@,
                RotationAlign::Bottom => "bottom"@,
                RotationAlign::Top => "top"@,
                RotationAlign::Center => "center"@,
            },
    {
        match self {
            RotationAlign::NoAlign => "none",
            RotationAlign::Bottom => "bottom",
            RotationAlign::Top => "top",
            RotationAlign::Center => "center",
        }
    }
}

/// Vertical cell alignment.
#[derive(Debug, Clone, Copy, PartialEq, Eq, Structural)]
pub enum CellAlignVertical {
    /// To the top.
    Top,
    /// Centered.
    Middle,
    /// To the bottom.
    Bottom,
    /// Let the content decide.
    Automatic,
}

impl CellAlignVertical {
    /// The wire keyword.
    pub fn as_str(&self) -> (r: &'static str)
        ensures
            r@ == match self {
                CellAlignVertical::Top => "top"@,
                CellAlignVertical::Middle => "middle"@,
                CellAlignVertical::Bottom => "bottom"@,
                CellAlignVertical::Automatic => "automatic"@,
            },
    {
        match self {
            CellAlignVertical::Top => "top",
            CellAlignVertical::Middle => "middle",
            CellAlignVertical::Bottom => "bottom",
            CellAlignVertical::Automatic => "automatic",
        }
    }
}

/// Where horizontal alignment comes from.
#[derive(Debug, Clone, Copy, PartialEq, Eq, Structural)]
pub enum TextAlignSource {
    /// The text-align attribute.
    Fix,
    /// The value's kind.
    ValueType,
}

impl TextAlignSource {
    /// The wire keyword.
    pub fn as_str(&self) -> (r: &'static str)
        ensures
            r@ == match self {
                TextAlignSource::Fix => "fix"@,
                TextAlignSource::ValueType => "value-type"@,
            },
    {
        match self {
            TextAlignSource::Fix => "fix",
            TextAlignSource::ValueType => "value-type",
        }
    }
}

/// Horizontal alignment.
#[derive(Debug, Clone, Copy, PartialEq, Eq, Structural)]
pub enum TextAlign {
    /// At the start edge.
    Start,
    /// Centered.
    Center,
    /// At the end edge.
    End,
    /// Justified.
    Justify,
    /// At the inside edge.
    Inside,
    /// At the outside edge.
    Outside,
    /// At the left edge.
    Left,
    /// At the right edge.
    Right,
}

impl TextAlign {
    /// The wire keyword.
    pub fn as_str(&self) -> (r: &'static str)
        ensures
            r@ == match self {
                TextAlign::Start => "start"@,
                TextAlign::Center => "center"@,
                TextAlign::End => "end"@,
                TextAlign::Justify => "justify"@,
                TextAlign::Inside => "inside"@,
                TextAlign::Outside => "outside"@,
                TextAlign::Left => "left"@,
                TextAlign::Right => "right"@,
            },
    {
        match self {
            TextAlign::Start => "start",
            TextAlign::Center => "center",
            TextAlign::End => "end",
            TextAlign::Justify => "justify",
            TextAlign::Inside => "inside",
            TextAlign::Outside => "outside",
            TextAlign::Left => "left",
            TextAlign::Right => "right",
        }
    }
}

/// Vertical paragraph alignment.
#[derive(Debug, Clone, Copy, PartialEq, Eq, Structural)]
pub enum ParaAlignVertical {
    /// To the top.
    Top,
    /// Centered.
    Middle,
    /// To the bottom.
    Bottom,
    /// Let the layout decide.
    Auto,
    /// On the baseline.
    Baseline,
}

impl ParaAlignVertical {
    /// The wire keyword.
    pub fn as_str(&self) -> (r: &'static str)
        ensures
            r@ == match self {
                ParaAlignVertical::Top => "top"@,
                ParaAlignVertical::Middle => "middle"@,
                ParaAlignVertical::Bottom => "bottom"@,
                ParaAlignVertical::Auto => "auto"@,
                ParaAlignVertical::Baseline => "baseline"@,
            },
    {
        match self {
            ParaAlignVertical::Top => "top",
            ParaAlignVertical::Middle => "middle",
            ParaAlignVertical::Bottom => "bottom",
            ParaAlignVertical::Auto => "auto",
            ParaAlignVertical::Baseline => "baseline",
        }
    }
}

/// Slant styles.
#[derive(Debug, Clone, Copy, PartialEq, Eq, Structural)]
pub enum TextStyle {
    /// Upright.
    Normal,
    /// Italic.
    Italic,
    /// Oblique.
    Oblique,
}

impl TextStyle {
    /// The wire keyword.
    pub fn as_str(&self) -> (r: &'static str)
        ensures
            r@ == match self {
                TextStyle::Normal => "normal"@,
                TextStyle::Italic => "italic"@,
                TextStyle::Oblique => "oblique"@,
            },
    {
        match self {
            TextStyle::Normal => "normal",
            TextStyle::Italic => "italic",
            TextStyle::Oblique => "oblique",
        }
    }
}

/// Weight steps.
#[derive(Debug, Clone, Copy, PartialEq, Eq, Structural)]
pub enum TextWeight {
    /// The normal weight.
    Normal,
    /// Bold.
    Bold,
    /// The hundred weight.
    W100,
    /// The two-hundred weight.
    W200,
    /// The three-hundred weight.
    W300,
    /// The four-hundred weight.
    W400,
    /// The five-hundred weight.
    W500,
    /// The six-hundred weight.
    W600,
    /// The seven-hundred weight.
    W700,
    /// The eight-hundred weight.
    W800,
    /// The nine-hundred weight.
    W900,
}

impl TextWeight {
    /// The wire keyword.
    pub fn as_str(&self) -> (r: &'static str)
        ensures
            r@ == match self {
                TextWeight::Normal => "normal"@,
                TextWeight::Bold => "bold"@,
                TextWeight::W100 => "100"@,
                TextWeight::W200 => "200"@,
                TextWeight::W300 => "300"@,
                TextWeight::W400 => "400"@,
                TextWeight::W500 => "500"@,
                TextWeight::W600 => "600"@,
                TextWeight::W700 => "700"@,
                TextWeight::W800 => "800"@,
                TextWeight::W900 => "900"@,
            },
    {
        match self {
            TextWeight::Normal => "normal",
            TextWeight::Bold => "bold",
            TextWeight::W100 => "100",
            TextWeight::W200 => "200",
            TextWeight::W300 => "300",
            TextWeight::W400 => "400",
            TextWeight::W500 => "500",
            TextWeight::W600 => "600",
            TextWeight::W700 => "700",
            TextWeight::W800 => "800",
            TextWeight::W900 => "900",
        }
    }
}

/// Case transformations.
#[derive(Debug, Clone, Copy, PartialEq, Eq, Structural)]
pub enum TextTransform {
    /// Unchanged.
    Untransformed,
    /// Lower case.
    Lowercase,
    /// Upper case.
    Uppercase,
    /// First letters up.
    Capitalize,
}

impl TextTransform {
    /// The wire keyword.
    pub fn as_str(&self) -> (r: &'static str)
        ensures
            r@ == match self {
                TextTransform::Untransformed => "none"@,
                TextTransform::Lowercase => "lowercase"@,
                TextTransform::Uppercase => "uppercase"@,
                TextTransform::Capitalize => "capitalize"@,
            },
    {
        match self {
            TextTransform::Untransformed => "none",
            TextTransform::Lowercase => "lowercase",
            TextTransform::Uppercase => "uppercase",
            TextTransform::Capitalize => "capitalize",
        }
    }
}

/// Relief styles.
#[derive(Debug, Clone, Copy, PartialEq, Eq, Structural)]
pub enum TextRelief {
    /// Flat.
    Flat,
    /// Raised.
    Embossed,
    /// Sunken.
    Engraved,
}

impl TextRelief {
    /// The wire keyword.
    pub fn as_str(&self) -> (r: &'static str)
        ensures
            r@ == match self {
                TextRelief::Flat => "none"@,
                TextRelief::Embossed => "embossed"@,
                TextRelief::Engraved => "engraved"@,
            },
    {
        match self {
            TextRelief::Flat => "none",
            TextRelief::Embossed => "embossed",
            TextRelief::Engraved => "engraved",
        }
    }
}

/// Script positions.
#[derive(Debug, Clone, Copy, PartialEq, Eq, Structural)]
pub enum TextPosition {
    /// Below the baseline.
    Sub,
    /// Above the baseline.
    Super,
}

impl TextPosition {
    /// The wire keyword.
    pub fn as_str(&self) -> (r: &'static str)
        ensures
            r@ == match self {
                TextPosition::Sub => "sub"@,
                TextPosition::Super => "super"@,
            },
    {
        match self {
            TextPosition::Sub => "sub",
            TextPosition::Super => "super",
        }
    }
}

/// Line styles for underline, overline and strike-through.
#[derive(Debug, Clone, Copy, PartialEq, Eq, Structural)]
pub enum LineStyle {
    /// Dashes.
    Dash,
    /// Dot and dash.
    DotDash,
    /// Dot, dot and dash.
    DotDotDash,
    /// Dots.
    Dotted,
    /// Long dashes.
    LongDash,
    /// No line.
    Unlined,
    /// A solid line.
    Solid,
    /// A wave.
    Wave,
}

impl LineStyle {
    /// The wire keyword.
    pub fn as_str(&self) -> (r: &'static str)
        ensures
            r@ == match self {
                LineStyle::Dash => "dash"@,
                LineStyle::DotDash => "dot-dash"@,
                LineStyle::DotDotDash => "dot-dot-dash"@,
                LineStyle::Dotted => "dotted"@,
                LineStyle::LongDash => "long-dash"@,
                LineStyle::Unlined => "none"@,
                LineStyle::Solid => "solid"@,
                LineStyle::Wave => "wave"@,
            },
    {
        match self {
            LineStyle::Dash => "dash",
            LineStyle::DotDash => "dot-dash",
            LineStyle::DotDotDash => "dot-dot-dash",
            LineStyle::Dotted => "dotted",
            LineStyle::LongDash => "long-dash",
            LineStyle::Unlined => "none",
            LineStyle::Solid => "solid",
            LineStyle::Wave => "wave",
        }
    }
}

/// Line counts for underline, overline and strike-through.
#[derive(Debug, Clone, Copy, PartialEq, Eq, Structural)]
pub enum LineType {
    /// No line.
    Unlined,
    /// A single line.
    Single,
    /// A double line.
    Double,
}

impl LineType {
    /// The wire keyword.
    pub fn as_str(&self) -> (r: &'static str)
        ensures
            r@ == match self {
                LineType::Unlined => "none"@,
                LineType::Single => "single"@,
                LineType::Double => "double"@,
            },
    {
        match self {
            LineType::Unlined => "none",
            LineType::Single => "single",
            LineType::Double => "double",
        }
    }
}

/// Line continuity over white space.
#[derive(Debug, Clone, Copy, PartialEq, Eq, Structural)]
pub enum LineMode {
    /// Drawn through spaces.
    Continuous,
    /// Broken at spaces.
    SkipWhiteSpace,
}

impl LineMode {
    /// The wire keyword.
    pub fn as_str(&self) -> (r: &'static str)
        ensures
            r@ == match self {
                LineMode::Continuous => "continuous"@,
                LineMode::SkipWhiteSpace => "skip-white-space"@,
            },
    {
        match self {
            LineMode::Continuous => "continuous",
            LineMode::SkipWhiteSpace => "skip-white-space",
        }
    }
}

/// Line widths for underline, overline and strike-through.
#[derive(Debug, Clone, Copy, PartialEq, Eq, Structural)]
pub enum LineWidth {
    /// Let the layout decide.
    Auto,
    /// The normal width.
    Normal,
    /// Bold.
    Bold,
    /// Thin.
    Thin,
    /// Medium.
    Medium,
    /// Thick.
    Thick,
}

impl LineWidth {
    /// The wire keyword.
    pub fn as_str(&self) -> (r: &'static str)
        ensures
            r@ == match self {
                LineWidth::Auto => "auto"@,
                LineWidth::Normal => "normal"@,
                LineWidth::Bold => "bold"@,
                LineWidth::Thin => "thin"@,
                LineWidth::Medium => "medium"@,
                LineWidth::Thick => "thick"@,
            },
    {
        match self {
            LineWidth::Auto => "auto",
            LineWidth::Normal => "normal",
            LineWidth::Bold => "bold",
            LineWidth::Thin => "thin",
            LineWidth::Medium => "medium",
            LineWidth::Thick => "thick",
        }
    }
}

/// Which pages a page master generates.
#[derive(Debug, Clone, Copy, PartialEq, Eq, Structural)]
pub enum MasterPageUsage {
    /// Every page.
    All,
    /// Left pages.
    Left,
    /// Mirrored pages.
    Mirrored,
    /// Right pages.
    Right,
}

impl MasterPageUsage {
    /// The wire keyword.
    pub fn as_str(&self) -> (r: &'static str)
        ensures
            r@ == match self {
                MasterPageUsage::All => "all"@,
                MasterPageUsage::Left => "left"@,
                MasterPageUsage::Mirrored => "mirrored"@,
                MasterPageUsage::Right => "right"@,
            },
    {
        match self {
            MasterPageUsage::All => "all",
            MasterPageUsage::Left => "left",
            MasterPageUsage::Mirrored => "mirrored",
            MasterPageUsage::Right => "right",
        }
    }

    /// Reads the keyword back; an unknown keyword is a format error.
    pub fn parse_attr(s: Option<&String>) -> (r: Result<Option<MasterPageUsage>, OdsError>)
        ensures
            match s {
                None => r == Result::<Option<MasterPageUsage>, OdsError>::Ok(None),
                Some(t) => {
                    ||| (t@ == "all"@ && r == Result::<Option<MasterPageUsage>, OdsError>::Ok(
                        Some(MasterPageUsage::All),
                    ))
                    ||| (t@ == "left"@ && r == Result::<Option<MasterPageUsage>, OdsError>::Ok(
                        Some(MasterPageUsage::Left),
                    ))
                    ||| (t@ == "mirrored"@ && r == Result::<Option<MasterPageUsage>, OdsError>::Ok(
                        Some(MasterPageUsage::Mirrored),
                    ))
                    ||| (t@ == "right"@ && r == Result::<Option<MasterPageUsage>, OdsError>::Ok(
                        Some(MasterPageUsage::Right),
                    ))
                    ||| (t@ != "all"@ && t@ != "left"@ && t@ != "mirrored"@ && t@ != "right"@
                        && r is Err)
                },
            },
    {
        match s {
            None => Ok(None),
            Some(t) => {
                if str_eq(t.as_str(), "all") {
                    Ok(Some(MasterPageUsage::All))
                } else if str_eq(t.as_str(), "left") {
                    Ok(Some(MasterPageUsage::Left))
                } else if str_eq(t.as_str(), "mirrored") {
                    Ok(Some(MasterPageUsage::Mirrored))
                } else if str_eq(t.as_str(), "right") {
                    Ok(Some(MasterPageUsage::Right))
                } else {
                    Err(OdsError::Ods("unknown page-usage keyword".to_owned()))
                }
            },
        }
    }
}

} // verus!
