//! Style properties: the closed set of them, the values that an element
//! declares, and the values that the cascade computes.
//!
//! A value is kept as its text. For a property with a fixed list of keywords
//! only a keyword of the list is accepted; the other properties are for the
//! drawing and shaping backends to read, and any text is accepted for them.

use vstd::prelude::*;
use crate::error::{ValueErrorKind, ValueErrorText};
use crate::strings::{clone_strings, is_listed, listed, str_eq, texts, trim, trimmed};

verus! {

/// The number of properties.
pub const PROPERTY_COUNT: usize = 23;

/// The keywords of `direction`.
pub const DIRECTION_KEYWORDS: [&'static str; 2] = [
    "ltr",
    "rtl",
];

/// The keywords of `display`.
pub const DISPLAY_KEYWORDS: [&'static str; 17] = [
    "inline",
    "block",
    "list-item",
    "run-in",
    "compact",
    "marker",
    "table",
    "inline-table",
    "table-row-group",
    "table-header-group",
    "table-footer-group",
    "table-row",
    "table-column-group",
    "table-column",
    "table-cell",
    "table-caption",
    "none",
];

/// The keywords of `font-stretch`.
pub const FONT_STRETCH_KEYWORDS: [&'static str; 11] = [
    "normal",
    "wider",
    "narrower",
    "ultra-condensed",
    "extra-condensed",
    "condensed",
    "semi-condensed",
    "semi-expanded",
    "expanded",
    "extra-expanded",
    "ultra-expanded",
];

/// The keywords of `font-style`.
pub const FONT_STYLE_KEYWORDS: [&'static str; 3] = [
    "normal",
    "italic",
    "oblique",
];

/// The keywords of `font-variant`.
pub const FONT_VARIANT_KEYWORDS: [&'static str; 2] = [
    "normal",
    "small-caps",
];

/// The keywords of `font-weight`.
pub const FONT_WEIGHT_KEYWORDS: [&'static str; 13] = [
    "normal",
    "bold",
    "bolder",
    "lighter",
    "100",
    "200",
    "300",
    "400",
    "500",
    "600",
    "700",
    "800",
    "900",
];

/// The keywords of `overflow`.
pub const OVERFLOW_KEYWORDS: [&'static str; 4] = [
    "visible",
    "hidden",
    "scroll",
    "auto",
];

/// The keywords of `text-anchor`.
pub const TEXT_ANCHOR_KEYWORDS: [&'static str; 3] = [
    "start",
    "middle",
    "end",
];

/// The keywords of `text-rendering`.
pub const TEXT_RENDERING_KEYWORDS: [&'static str; 4] = [
    "auto",
    "optimizeSpeed",
    "optimizeLegibility",
    "geometricPrecision",
];

/// The keywords of `unicode-bidi`.
pub const UNICODE_BIDI_KEYWORDS: [&'static str; 3] = [
    "normal",
    "embed",
    "bidi-override",
];

/// The keywords of `visibility`.
pub const VISIBILITY_KEYWORDS: [&'static str; 3] = [
    "visible",
    "hidden",
    "collapse",
];

/// The keywords of `writing-mode`.
pub const WRITING_MODE_KEYWORDS: [&'static str; 6] = [
    "lr-tb",
    "rl-tb",
    "tb-rl",
    "lr",
    "rl",
    "tb",
];

/// The keywords of `xml:space`.
pub const XML_SPACE_KEYWORDS: [&'static str; 2] = [
    "default",
    "preserve",
];

/// A style property.
#[derive(Clone, Copy, Debug, PartialEq, Eq, Structural)]
pub enum Property {
    BaselineShift,
    Color,
    Direction,
    Display,
    Fill,
    FontFamily,
    FontSize,
    FontStretch,
    FontStyle,
    FontVariant,
    FontWeight,
    LetterSpacing,
    Overflow,
    Stroke,
    StrokeWidth,
    TextAnchor,
    TextDecoration,
    TextRendering,
    UnicodeBidi,
    Visibility,
    WritingMode,
    XmlLang,
    XmlSpace,
}

impl Property {
    /// The place of the property in the tables of values.
    pub open spec fn spec_index(self) -> int {
        match self {
            Property::BaselineShift => 0,
            Property::Color => 1,
            Property::Direction => 2,
            Property::Display => 3,
            Property::Fill => 4,
            Property::FontFamily => 5,
            Property::FontSize => 6,
            Property::FontStretch => 7,
            Property::FontStyle => 8,
            Property::FontVariant => 9,
            Property::FontWeight => 10,
            Property::LetterSpacing => 11,
            Property::Overflow => 12,
            Property::Stroke => 13,
            Property::StrokeWidth => 14,
            Property::TextAnchor => 15,
            Property::TextDecoration => 16,
            Property::TextRendering => 17,
            Property::UnicodeBidi => 18,
            Property::Visibility => 19,
            Property::WritingMode => 20,
            Property::XmlLang => 21,
            Property::XmlSpace => 22,
        }
    }

    /// The property that stands at place `i`.
    pub open spec fn at(i: int) -> Property {
        if i == 0 {
            Property::BaselineShift
        } else if i == 1 {
            Property::Color
        } else if i == 2 {
            Property::Direction
        } else if i == 3 {
            Property::Display
        } else if i == 4 {
            Property::Fill
        } else if i == 5 {
            Property::FontFamily
        } else if i == 6 {
            Property::FontSize
        } else if i == 7 {
            Property::FontStretch
        } else if i == 8 {
            Property::FontStyle
        } else if i == 9 {
            Property::FontVariant
        } else if i == 10 {
            Property::FontWeight
        } else if i == 11 {
            Property::LetterSpacing
        } else if i == 12 {
            Property::Overflow
        } else if i == 13 {
            Property::Stroke
        } else if i == 14 {
            Property::StrokeWidth
        } else if i == 15 {
            Property::TextAnchor
        } else if i == 16 {
            Property::TextDecoration
        } else if i == 17 {
            Property::TextRendering
        } else if i == 18 {
            Property::UnicodeBidi
        } else if i == 19 {
            Property::Visibility
        } else if i == 20 {
            Property::WritingMode
        } else if i == 21 {
            Property::XmlLang
        } else {
            Property::XmlSpace
        }
    }

    /// Whether an element that declares nothing for the property takes the
    /// value of its parent.
    pub open spec fn spec_inherits(self) -> bool {
        match self {
            Property::BaselineShift => false,
            Property::Color => true,
            Property::Direction => true,
            Property::Display => false,
            Property::Fill => true,
            Property::FontFamily => true,
            Property::FontSize => true,
            Property::FontStretch => true,
            Property::FontStyle => true,
            Property::FontVariant => true,
            Property::FontWeight => true,
            Property::LetterSpacing => true,
            Property::Overflow => false,
            Property::Stroke => true,
            Property::StrokeWidth => true,
            Property::TextAnchor => true,
            Property::TextDecoration => false,
            Property::TextRendering => true,
            Property::UnicodeBidi => false,
            Property::Visibility => true,
            Property::WritingMode => true,
            Property::XmlLang => true,
            Property::XmlSpace => true,
        }
    }

    /// The name of the property, as attributes and declarations write it.
    pub open spec fn spec_name(self) -> Seq<char> {
        match self {
            Property::BaselineShift => "baseline-shift"@,
            Property::Color => "color"@,
            Property::Direction => "direction"@,
            Property::Display => "display"@,
            Property::Fill => "fill"@,
            Property::FontFamily => "font-family"@,
            Property::FontSize => "font-size"@,
            Property::FontStretch => "font-stretch"@,
            Property::FontStyle => "font-style"@,
            Property::FontVariant => "font-variant"@,
            Property::FontWeight => "font-weight"@,
            Property::LetterSpacing => "letter-spacing"@,
            Property::Overflow => "overflow"@,
            Property::Stroke => "stroke"@,
            Property::StrokeWidth => "stroke-width"@,
            Property::TextAnchor => "text-anchor"@,
            Property::TextDecoration => "text-decoration"@,
            Property::TextRendering => "text-rendering"@,
            Property::UnicodeBidi => "unicode-bidi"@,
            Property::Visibility => "visibility"@,
            Property::WritingMode => "writing-mode"@,
            Property::XmlLang => "xml:lang"@,
            Property::XmlSpace => "xml:space"@,
        }
    }

    /// The value that the property has where nothing declares one.
    pub open spec fn spec_initial(self) -> Seq<char> {
        match self {
            Property::BaselineShift => "baseline"@,
            Property::Color => "black"@,
            Property::Direction => "ltr"@,
            Property::Display => "inline"@,
            Property::Fill => "black"@,
            Property::FontFamily => "Times New Roman"@,
            Property::FontSize => "12"@,
            Property::FontStretch => "normal"@,
            Property::FontStyle => "normal"@,
            Property::FontVariant => "normal"@,
            Property::FontWeight => "normal"@,
            Property::LetterSpacing => "normal"@,
            Property::Overflow => "visible"@,
            Property::Stroke => "none"@,
            Property::StrokeWidth => "1"@,
            Property::TextAnchor => "start"@,
            Property::TextDecoration => "none"@,
            Property::TextRendering => "auto"@,
            Property::UnicodeBidi => "normal"@,
            Property::Visibility => "visible"@,
            Property::WritingMode => "lr-tb"@,
            Property::XmlLang => ""@,
            Property::XmlSpace => "default"@,
        }
    }

    /// Whether `v` is a value that the property can have.
    pub open spec fn accepts(self, v: Seq<char>) -> bool {
        match self {
            Property::Direction => listed(DIRECTION_KEYWORDS@, v),
            Property::Display => listed(DISPLAY_KEYWORDS@, v),
            Property::FontStretch => listed(FONT_STRETCH_KEYWORDS@, v),
            Property::FontStyle => listed(FONT_STYLE_KEYWORDS@, v),
            Property::FontVariant => listed(FONT_VARIANT_KEYWORDS@, v),
            Property::FontWeight => listed(FONT_WEIGHT_KEYWORDS@, v),
            Property::Overflow => listed(OVERFLOW_KEYWORDS@, v),
            Property::TextAnchor => listed(TEXT_ANCHOR_KEYWORDS@, v),
            Property::TextRendering => listed(TEXT_RENDERING_KEYWORDS@, v),
            Property::UnicodeBidi => listed(UNICODE_BIDI_KEYWORDS@, v),
            Property::Visibility => listed(VISIBILITY_KEYWORDS@, v),
            Property::WritingMode => listed(WRITING_MODE_KEYWORDS@, v),
            Property::XmlSpace => listed(XML_SPACE_KEYWORDS@, v),
            Property::BaselineShift
            | Property::Color
            | Property::Fill
            | Property::FontFamily
            | Property::FontSize
            | Property::LetterSpacing
            | Property::Stroke
            | Property::StrokeWidth
            | Property::TextDecoration
            | Property::XmlLang => true,
        }
    }

    /// The place of the property in the tables of values.
    pub fn index(self) -> (r: usize)
        ensures
            r == self.spec_index(),
            r < PROPERTY_COUNT,
            Property::at(r as int) == self,
    {
        match self {
            Property::BaselineShift => 0,
            Property::Color => 1,
            Property::Direction => 2,
            Property::Display => 3,
            Property::Fill => 4,
            Property::FontFamily => 5,
            Property::FontSize => 6,
            Property::FontStretch => 7,
            Property::FontStyle => 8,
            Property::FontVariant => 9,
            Property::FontWeight => 10,
            Property::LetterSpacing => 11,
            Property::Overflow => 12,
            Property::Stroke => 13,
            Property::StrokeWidth => 14,
            Property::TextAnchor => 15,
            Property::TextDecoration => 16,
            Property::TextRendering => 17,
            Property::UnicodeBidi => 18,
            Property::Visibility => 19,
            Property::WritingMode => 20,
            Property::XmlLang => 21,
            Property::XmlSpace => 22,
        }
    }

    /// The property that stands at place `i`.
    pub fn from_index(i: usize) -> (r: Property)
        requires
            i < PROPERTY_COUNT,
        ensures
            r == Property::at(i as int),
            r.spec_index() == i,
    {
        if i == 0 {
            Property::BaselineShift
        } else if i == 1 {
            Property::Color
        } else if i == 2 {
            Property::Direction
        } else if i == 3 {
            Property::Display
        } else if i == 4 {
            Property::Fill
        } else if i == 5 {
            Property::FontFamily
        } else if i == 6 {
            Property::FontSize
        } else if i == 7 {
            Property::FontStretch
        } else if i == 8 {
            Property::FontStyle
        } else if i == 9 {
            Property::FontVariant
        } else if i == 10 {
            Property::FontWeight
        } else if i == 11 {
            Property::LetterSpacing
        } else if i == 12 {
            Property::Overflow
        } else if i == 13 {
            Property::Stroke
        } else if i == 14 {
            Property::StrokeWidth
        } else if i == 15 {
            Property::TextAnchor
        } else if i == 16 {
            Property::TextDecoration
        } else if i == 17 {
            Property::TextRendering
        } else if i == 18 {
            Property::UnicodeBidi
        } else if i == 19 {
            Property::Visibility
        } else if i == 20 {
            Property::WritingMode
        } else if i == 21 {
            Property::XmlLang
        } else {
            Property::XmlSpace
        }
    }

    /// Whether an element that declares nothing for the property takes the
    /// value of its parent.
    pub fn inherits(self) -> (r: bool)
        ensures
            r == self.spec_inherits(),
    {
        match self {
            Property::BaselineShift => false,
            Property::Color => true,
            Property::Direction => true,
            Property::Display => false,
            Property::Fill => true,
            Property::FontFamily => true,
            Property::FontSize => true,
            Property::FontStretch => true,
            Property::FontStyle => true,
            Property::FontVariant => true,
            Property::FontWeight => true,
            Property::LetterSpacing => true,
            Property::Overflow => false,
            Property::Stroke => true,
            Property::StrokeWidth => true,
            Property::TextAnchor => true,
            Property::TextDecoration => false,
            Property::TextRendering => true,
            Property::UnicodeBidi => false,
            Property::Visibility => true,
            Property::WritingMode => true,
            Property::XmlLang => true,
            Property::XmlSpace => true,
        }
    }

    /// The name of the property, as attributes and declarations write it.
    pub fn name(self) -> (r: &'static str)
        ensures
            r@ == self.spec_name(),
    {
        match self {
            Property::BaselineShift => "baseline-shift",
            Property::Color => "color",
            Property::Direction => "direction",
            Property::Display => "display",
            Property::Fill => "fill",
            Property::FontFamily => "font-family",
            Property::FontSize => "font-size",
            Property::FontStretch => "font-stretch",
            Property::FontStyle => "font-style",
            Property::FontVariant => "font-variant",
            Property::FontWeight => "font-weight",
            Property::LetterSpacing => "letter-spacing",
            Property::Overflow => "overflow",
            Property::Stroke => "stroke",
            Property::StrokeWidth => "stroke-width",
            Property::TextAnchor => "text-anchor",
            Property::TextDecoration => "text-decoration",
            Property::TextRendering => "text-rendering",
            Property::UnicodeBidi => "unicode-bidi",
            Property::Visibility => "visibility",
            Property::WritingMode => "writing-mode",
            Property::XmlLang => "xml:lang",
            Property::XmlSpace => "xml:space",
        }
    }

    /// The value that the property has where nothing declares one.
    pub fn initial(self) -> (r: &'static str)
        ensures
            r@ == self.spec_initial(),
    {
        match self {
            Property::BaselineShift => "baseline",
            Property::Color => "black",
            Property::Direction => "ltr",
            Property::Display => "inline",
            Property::Fill => "black",
            Property::FontFamily => "Times New Roman",
            Property::FontSize => "12",
            Property::FontStretch => "normal",
            Property::FontStyle => "normal",
            Property::FontVariant => "normal",
            Property::FontWeight => "normal",
            Property::LetterSpacing => "normal",
            Property::Overflow => "visible",
            Property::Stroke => "none",
            Property::StrokeWidth => "1",
            Property::TextAnchor => "start",
            Property::TextDecoration => "none",
            Property::TextRendering => "auto",
            Property::UnicodeBidi => "normal",
            Property::Visibility => "visible",
            Property::WritingMode => "lr-tb",
            Property::XmlLang => "",
            Property::XmlSpace => "default",
        }
    }

    /// Whether `v` is a value that the property can have.
    pub fn is_valid(self, v: &str) -> (r: bool)
        ensures
            r == self.accepts(v@),
    {
        match self {
            Property::Direction => is_listed(DIRECTION_KEYWORDS.as_slice(), v),
            Property::Display => is_listed(DISPLAY_KEYWORDS.as_slice(), v),
            Property::FontStretch => is_listed(FONT_STRETCH_KEYWORDS.as_slice(), v),
            Property::FontStyle => is_listed(FONT_STYLE_KEYWORDS.as_slice(), v),
            Property::FontVariant => is_listed(FONT_VARIANT_KEYWORDS.as_slice(), v),
            Property::FontWeight => is_listed(FONT_WEIGHT_KEYWORDS.as_slice(), v),
            Property::Overflow => is_listed(OVERFLOW_KEYWORDS.as_slice(), v),
            Property::TextAnchor => is_listed(TEXT_ANCHOR_KEYWORDS.as_slice(), v),
            Property::TextRendering => is_listed(TEXT_RENDERING_KEYWORDS.as_slice(), v),
            Property::UnicodeBidi => is_listed(UNICODE_BIDI_KEYWORDS.as_slice(), v),
            Property::Visibility => is_listed(VISIBILITY_KEYWORDS.as_slice(), v),
            Property::WritingMode => is_listed(WRITING_MODE_KEYWORDS.as_slice(), v),
            Property::XmlSpace => is_listed(XML_SPACE_KEYWORDS.as_slice(), v),
            Property::BaselineShift
            | Property::Color
            | Property::Fill
            | Property::FontFamily
            | Property::FontSize
            | Property::LetterSpacing
            | Property::Stroke
            | Property::StrokeWidth
            | Property::TextDecoration
            | Property::XmlLang => true,
        }
    }

    /// The first property at or after place `i` whose name is `s`.
    pub open spec fn named_from(s: Seq<char>, i: int) -> Option<Property>
        decreases PROPERTY_COUNT - i,
    {
        if 0 <= i < PROPERTY_COUNT {
            if Property::at(i).spec_name() == s {
                Some(Property::at(i))
            } else {
                Property::named_from(s, i + 1)
            }
        } else {
            None
        }
    }

    /// The property whose name is `s`, if there is one.
    pub open spec fn named(s: Seq<char>) -> Option<Property> {
        Property::named_from(s, 0)
    }

    /// The property whose name is `s`, if there is one.
    pub fn from_name(s: &str) -> (r: Option<Property>)
        ensures
            r == Property::named(s@),
    {
        let mut i: usize = 0;
        while i < PROPERTY_COUNT
            invariant
                i <= PROPERTY_COUNT,
                Property::named_from(s@, i as int) == Property::named(s@),
            decreases PROPERTY_COUNT - i,
        {
            let p = Property::from_index(i);
            if str_eq(p.name(), s) {
                return Some(p);
            }
            i = i + 1;
        }
        None
    }
}
/// What an element declares for one property.
#[derive(Debug, Clone, PartialEq, Eq)]
pub enum SpecifiedValue {
    /// Nothing is declared.
    Unspecified,
    /// The value of the parent is asked for, with the keyword `inherit`.
    Inherit,
    /// A value is declared.
    Specified(String),
}

/// A `SpecifiedValue` with its value as a sequence of characters.
pub enum SpecifiedValueText {
    Unspecified,
    Inherit,
    Specified(Seq<char>),
}

impl View for SpecifiedValue {
    type V = SpecifiedValueText;

    open spec fn view(&self) -> SpecifiedValueText {
        match *self {
            SpecifiedValue::Unspecified => SpecifiedValueText::Unspecified,
            SpecifiedValue::Inherit => SpecifiedValueText::Inherit,
            SpecifiedValue::Specified(s) => SpecifiedValueText::Specified(s@),
        }
    }
}

impl SpecifiedValue {
    /// A copy of this value.
    pub fn duplicate(&self) -> (r: SpecifiedValue)
        ensures
            r@ == self@,
    {
        match self {
            SpecifiedValue::Unspecified => SpecifiedValue::Unspecified,
            SpecifiedValue::Inherit => SpecifiedValue::Inherit,
            SpecifiedValue::Specified(s) => SpecifiedValue::Specified(s.clone()),
        }
    }
}

/// The message of the error for a value that a property does not accept.
pub open spec fn unexpected_value_message() -> Seq<char> {
    "unexpected value"@
}

/// What a declaration of `value` for `p` specifies. White space around the
/// value does not count. The keyword `inherit` asks for the value of the
/// parent; any other value has to be one that the property accepts.
pub open spec fn parsed_value(p: Property, value: Seq<char>) -> Result<
    SpecifiedValueText,
    ValueErrorText,
> {
    let t = trim(value);
    if t == "inherit"@ {
        Ok(SpecifiedValueText::Inherit)
    } else if p.accepts(t) {
        Ok(SpecifiedValueText::Specified(t))
    } else {
        Err(ValueErrorText::Parse(unexpected_value_message()))
    }
}

/// Reads the value that is declared for `p`.
pub fn parse_value(p: Property, value: &str) -> (r: Result<SpecifiedValue, ValueErrorKind>)
    ensures
        match r {
            Ok(v) => parsed_value(p, value@) == Ok::<SpecifiedValueText, ValueErrorText>(v@),
            Err(e) => parsed_value(p, value@) == Err::<SpecifiedValueText, ValueErrorText>(e@),
        },
{
    let t = trimmed(value);
    if str_eq(t.as_str(), "inherit") {
        Ok(SpecifiedValue::Inherit)
    } else if p.is_valid(t.as_str()) {
        Ok(SpecifiedValue::Specified(t))
    } else {
        Err(ValueErrorKind::parse_error("unexpected value"))
    }
}

/// The properties whose value was last set by a declaration marked
/// `!important`.
pub struct ImportantStyles {
    flags: Vec<bool>,
}

impl View for ImportantStyles {
    type V = Seq<bool>;

    /// For each property, at its place, whether it is in the set.
    closed spec fn view(&self) -> Seq<bool> {
        self.flags@
    }
}

impl ImportantStyles {
    /// There is one flag for each property.
    pub open spec fn wf(&self) -> bool {
        self@.len() == PROPERTY_COUNT
    }

    /// The empty set.
    pub fn new() -> (r: ImportantStyles)
        ensures
            r.wf(),
            forall|i: int| 0 <= i < PROPERTY_COUNT ==> !r@[i],
    {
        let mut flags: Vec<bool> = Vec::new();
        let mut i: usize = 0;
        while i < PROPERTY_COUNT
            invariant
                i <= PROPERTY_COUNT,
                flags@.len() == i,
                forall|k: int| 0 <= k < i ==> !flags@[k],
            decreases PROPERTY_COUNT - i,
        {
            flags.push(false);
            i = i + 1;
        }
        ImportantStyles { flags }
    }

    /// Whether `p` is in the set.
    pub fn contains(&self, p: Property) -> (r: bool)
        requires
            self.wf(),
        ensures
            r == self@[p.spec_index()],
    {
        self.flags[p.index()]
    }

    /// Puts `p` into the set.
    pub fn insert(&mut self, p: Property)
        requires
            old(self).wf(),
        ensures
            final(self).wf(),
            final(self)@ == old(self)@.update(p.spec_index(), true),
    {
        self.flags.set(p.index(), true);
    }

    /// A copy of this set.
    pub fn duplicate(&self) -> (r: ImportantStyles)
        ensures
            r@ == self@,
    {
        ImportantStyles { flags: self.flags.clone() }
    }
}

/// The value that an element has for `p`, given what it declares and the
/// value of its parent: the declared value where there is one; the parent's
/// value where `inherit` asks for it, or where nothing is declared for a
/// property that is inherited; and the initial value of the property where
/// nothing is declared for one that is not.
pub open spec fn computed_value(
    p: Property,
    specified: SpecifiedValueText,
    inherited: Seq<char>,
) -> Seq<char> {
    match specified {
        SpecifiedValueText::Specified(v) => v,
        SpecifiedValueText::Inherit => inherited,
        SpecifiedValueText::Unspecified => if p.spec_inherits() {
            inherited
        } else {
            p.spec_initial()
        },
    }
}

/// The values that an element has, given what it declares and the values of
/// its parent.
pub open spec fn merged(inherited: Seq<Seq<char>>, specified: Seq<SpecifiedValueText>) -> Seq<
    Seq<char>,
> {
    Seq::new(
        PROPERTY_COUNT as nat,
        |i: int| computed_value(Property::at(i), specified[i], inherited[i]),
    )
}

/// Where a chunk of text is anchored.
#[derive(Clone, Copy, Debug, PartialEq, Eq, Structural)]
pub enum TextAnchor {
    Start,
    Middle,
    End,
}

/// The direction in which text is set.
#[derive(Clone, Copy, Debug, PartialEq, Eq, Structural)]
pub enum WritingMode {
    LrTb,
    RlTb,
    TbRl,
    Lr,
    Rl,
    Tb,
}

impl WritingMode {
    /// Whether text runs from top to bottom.
    pub open spec fn spec_is_vertical(self) -> bool {
        self == WritingMode::TbRl || self == WritingMode::Tb
    }

    /// Whether text runs from top to bottom.
    pub fn is_vertical(self) -> (r: bool)
        ensures
            r == self.spec_is_vertical(),
    {
        match self {
            WritingMode::TbRl | WritingMode::Tb => true,
            _ => false,
        }
    }
}

/// How the white space of character data is treated.
#[derive(Clone, Copy, Debug, PartialEq, Eq, Structural)]
pub enum XmlSpace {
    Default,
    Preserve,
}

/// The base direction of text.
#[derive(Clone, Copy, Debug, PartialEq, Eq, Structural)]
pub enum Direction {
    Ltr,
    Rtl,
}

/// How the bidirectional algorithm treats an element.
#[derive(Clone, Copy, Debug, PartialEq, Eq, Structural)]
pub enum UnicodeBidi {
    Normal,
    Embed,
    Override,
}

/// The anchor that a value of `text-anchor` stands for.
pub open spec fn text_anchor_of(v: Seq<char>) -> TextAnchor {
    if v == "middle"@ {
        TextAnchor::Middle
    } else if v == "end"@ {
        TextAnchor::End
    } else {
        TextAnchor::Start
    }
}

/// The mode that a value of `writing-mode` stands for.
pub open spec fn writing_mode_of(v: Seq<char>) -> WritingMode {
    if v == "rl-tb"@ {
        WritingMode::RlTb
    } else if v == "tb-rl"@ {
        WritingMode::TbRl
    } else if v == "lr"@ {
        WritingMode::Lr
    } else if v == "rl"@ {
        WritingMode::Rl
    } else if v == "tb"@ {
        WritingMode::Tb
    } else {
        WritingMode::LrTb
    }
}

/// The treatment that a value of `xml:space` stands for.
pub open spec fn xml_space_of(v: Seq<char>) -> XmlSpace {
    if v == "preserve"@ {
        XmlSpace::Preserve
    } else {
        XmlSpace::Default
    }
}

/// The direction that a value of `direction` stands for.
pub open spec fn direction_of(v: Seq<char>) -> Direction {
    if v == "rtl"@ {
        Direction::Rtl
    } else {
        Direction::Ltr
    }
}

/// The treatment that a value of `unicode-bidi` stands for.
pub open spec fn unicode_bidi_of(v: Seq<char>) -> UnicodeBidi {
    if v == "embed"@ {
        UnicodeBidi::Embed
    } else if v == "bidi-override"@ {
        UnicodeBidi::Override
    } else {
        UnicodeBidi::Normal
    }
}

/// The values of all properties for one element, after the cascade.
pub struct ComputedValues {
    values: Vec<String>,
}

impl View for ComputedValues {
    type V = Seq<Seq<char>>;

    /// The value of each property, at the property's place.
    closed spec fn view(&self) -> Seq<Seq<char>> {
        texts(self.values@)
    }
}

/// The initial value of every property.
pub open spec fn initial_values() -> Seq<Seq<char>> {
    Seq::new(PROPERTY_COUNT as nat, |i: int| Property::at(i).spec_initial())
}

impl Default for ComputedValues {
    fn default() -> (r: ComputedValues)
        ensures
            r.wf(),
            r@ == initial_values(),
    {
        let mut values: Vec<String> = Vec::new();
        let mut i: usize = 0;
        while i < PROPERTY_COUNT
            invariant
                i <= PROPERTY_COUNT,
                values@.len() == i,
                forall|k: int| 0 <= k < i ==> (#[trigger] values@[k])@ == Property::at(k).spec_initial(),
            decreases PROPERTY_COUNT - i,
        {
            values.push(Property::from_index(i).initial().to_owned());
            i = i + 1;
        }
        assert(texts(values@) =~= initial_values());
        ComputedValues { values }
    }
}

impl ComputedValues {
    /// There is one value for each property.
    pub open spec fn wf(&self) -> bool {
        self@.len() == PROPERTY_COUNT
    }

    /// The value of `p`.
    pub open spec fn spec_get(&self, p: Property) -> Seq<char> {
        self@[p.spec_index()]
    }

    /// The value of `p`.
    pub fn get(&self, p: Property) -> (r: &str)
        requires
            self.wf(),
        ensures
            r@ == self.spec_get(p),
    {
        let i = p.index();
        assert(texts(self.values@)[i as int] == self.values@[i as int]@);
        self.values[i].as_str()
    }

    /// A copy of these values.
    pub fn duplicate(&self) -> (r: ComputedValues)
        ensures
            r@ == self@,
    {
        ComputedValues { values: clone_strings(&self.values) }
    }

    /// Where chunks of text are anchored.
    pub fn text_anchor(&self) -> (r: TextAnchor)
        requires
            self.wf(),
        ensures
            r == text_anchor_of(self.spec_get(Property::TextAnchor)),
    {
        let v = self.get(Property::TextAnchor);
        if str_eq(v, "middle") {
            TextAnchor::Middle
        } else if str_eq(v, "end") {
            TextAnchor::End
        } else {
            TextAnchor::Start
        }
    }

    /// The direction in which text is set.
    pub fn writing_mode(&self) -> (r: WritingMode)
        requires
            self.wf(),
        ensures
            r == writing_mode_of(self.spec_get(Property::WritingMode)),
    {
        let v = self.get(Property::WritingMode);
        if str_eq(v, "rl-tb") {
            WritingMode::RlTb
        } else if str_eq(v, "tb-rl") {
            WritingMode::TbRl
        } else if str_eq(v, "lr") {
            WritingMode::Lr
        } else if str_eq(v, "rl") {
            WritingMode::Rl
        } else if str_eq(v, "tb") {
            WritingMode::Tb
        } else {
            WritingMode::LrTb
        }
    }

    /// How the white space of character data is treated.
    pub fn xml_space(&self) -> (r: XmlSpace)
        requires
            self.wf(),
        ensures
            r == xml_space_of(self.spec_get(Property::XmlSpace)),
    {
        if str_eq(self.get(Property::XmlSpace), "preserve") {
            XmlSpace::Preserve
        } else {
            XmlSpace::Default
        }
    }

    /// The base direction of text.
    pub fn direction(&self) -> (r: Direction)
        requires
            self.wf(),
        ensures
            r == direction_of(self.spec_get(Property::Direction)),
    {
        if str_eq(self.get(Property::Direction), "rtl") {
            Direction::Rtl
        } else {
            Direction::Ltr
        }
    }

    /// How the bidirectional algorithm treats the element.
    pub fn unicode_bidi(&self) -> (r: UnicodeBidi)
        requires
            self.wf(),
        ensures
            r == unicode_bidi_of(self.spec_get(Property::UnicodeBidi)),
    {
        let v = self.get(Property::UnicodeBidi);
        if str_eq(v, "embed") {
            UnicodeBidi::Embed
        } else if str_eq(v, "bidi-override") {
            UnicodeBidi::Override
        } else {
            UnicodeBidi::Normal
        }
    }

    /// Whether the element generates anything: `display` is not `none`.
    pub fn is_displayed(&self) -> (r: bool)
        requires
            self.wf(),
        ensures
            r == (self.spec_get(Property::Display) != "none"@),
    {
        !str_eq(self.get(Property::Display), "none")
    }

    /// Whether the element is to be seen: `visibility` is `visible`.
    pub fn is_visible(&self) -> (r: bool)
        requires
            self.wf(),
        ensures
            r == (self.spec_get(Property::Visibility) == "visible"@),
    {
        str_eq(self.get(Property::Visibility), "visible")
    }
}

/// What one element declares for each property.
pub struct SpecifiedValues {
    values: Vec<SpecifiedValue>,
}

impl View for SpecifiedValues {
    type V = Seq<SpecifiedValueText>;

    /// What is declared for each property, at the property's place.
    closed spec fn view(&self) -> Seq<SpecifiedValueText> {
        Seq::new(self.values@.len(), |i: int| self.values@[i]@)
    }
}

impl Default for SpecifiedValues {
    fn default() -> (r: SpecifiedValues)
        ensures
            r.wf(),
            forall|i: int| 0 <= i < PROPERTY_COUNT ==> r@[i] is Unspecified,
    {
        let mut values: Vec<SpecifiedValue> = Vec::new();
        let mut i: usize = 0;
        while i < PROPERTY_COUNT
            invariant
                i <= PROPERTY_COUNT,
                values@.len() == i,
                forall|k: int| 0 <= k < i ==> values@[k] is Unspecified,
            decreases PROPERTY_COUNT - i,
        {
            values.push(SpecifiedValue::Unspecified);
            i = i + 1;
        }
        SpecifiedValues { values }
    }
}

impl SpecifiedValues {
    /// There is one entry for each property.
    pub open spec fn wf(&self) -> bool {
        self@.len() == PROPERTY_COUNT
    }

    /// What is declared for `p`.
    pub fn get(&self, p: Property) -> (r: &SpecifiedValue)
        requires
            self.wf(),
        ensures
            r@ == self@[p.spec_index()],
    {
        &self.values[p.index()]
    }

    /// Declares `value` for `p`.
    pub fn set(&mut self, p: Property, value: SpecifiedValue)
        requires
            old(self).wf(),
        ensures
            final(self).wf(),
            final(self)@ == old(self)@.update(p.spec_index(), value@),
    {
        self.values.set(p.index(), value);
        assert(self@ =~= old(self)@.update(p.spec_index(), value@));
    }

    /// A copy of these declarations.
    pub fn duplicate(&self) -> (r: SpecifiedValues)
        ensures
            r@ == self@,
    {
        let mut values: Vec<SpecifiedValue> = Vec::new();
        let mut i: usize = 0;
        while i < self.values.len()
            invariant
                i <= self.values@.len(),
                values@.len() == i,
                forall|k: int| 0 <= k < i ==> (#[trigger] values@[k])@ == self.values@[k]@,
            decreases self.values@.len() - i,
        {
            values.push(self.values[i].duplicate());
            i = i + 1;
        }
        let r = SpecifiedValues { values };
        assert(r@ =~= self@);
        r
    }

    /// Reads the value that an attribute or declaration gives to `p` and
    /// keeps it. Nothing changes where the value is not accepted.
    pub fn parse_attribute_pair(&mut self, p: Property, value: &str) -> (r: Result<
        (),
        ValueErrorKind,
    >)
        requires
            old(self).wf(),
        ensures
            final(self).wf(),
            match r {
                Ok(_) => parsed_value(p, value@) matches Ok(v) && final(self)@ == old(self)@.update(
                    p.spec_index(),
                    v,
                ),
                Err(e) => parsed_value(p, value@) == Err::<SpecifiedValueText, ValueErrorText>(e@)
                    && final(self)@ == old(self)@,
            },
    {
        match parse_value(p, value) {
            Ok(v) => {
                self.set(p, v);
                Ok(())
            },
            Err(e) => Err(e),
        }
    }

    /// Computes the values of an element from what it declares: `computed`
    /// holds the values of the parent before the call, and those of the
    /// element after it.
    pub fn to_computed_values(&self, computed: &mut ComputedValues)
        requires
            self.wf(),
            old(computed).wf(),
        ensures
            final(computed).wf(),
            final(computed)@ == merged(old(computed)@, self@),
    {
        let mut values: Vec<String> = Vec::new();
        let mut i: usize = 0;
        while i < PROPERTY_COUNT
            invariant
                i <= PROPERTY_COUNT,
                self.wf(),
                computed.wf(),
                values@.len() == i,
                forall|k: int|
                    0 <= k < i ==> (#[trigger] values@[k])@ == computed_value(
                        Property::at(k),
                        self@[k],
                        computed@[k],
                    ),
            decreases PROPERTY_COUNT - i,
        {
            let p = Property::from_index(i);
            assert(p.spec_index() == i);
            let v = match self.get(p) {
                SpecifiedValue::Specified(s) => s.clone(),
                SpecifiedValue::Inherit => computed.get(p).to_owned(),
                SpecifiedValue::Unspecified => if p.inherits() {
                    computed.get(p).to_owned()
                } else {
                    p.initial().to_owned()
                },
            };
            values.push(v);
            i = i + 1;
        }
        assert(texts(values@) =~= merged(computed@, self@));
        computed.values = values;
    }

    /// Whether what overflows the element is to be seen: `overflow` is
    /// declared as `auto` or `visible`.
    pub fn is_overflow(&self) -> (r: bool)
        requires
            self.wf(),
        ensures
            r == (self@[Property::Overflow.spec_index()] matches SpecifiedValueText::Specified(v)
                && (v == "auto"@ || v == "visible"@)),
    {
        match self.get(Property::Overflow) {
            SpecifiedValue::Specified(v) => str_eq(v.as_str(), "auto") || str_eq(
                v.as_str(),
                "visible",
            ),
            _ => false,
        }
    }
}

} // verus!
