//! Font and text descriptions: families, styles, anchors, transforms and the
//! text style handed to a backend.
use crate::style::{BackendColor, RGBAColor};
use vstd::prelude::*;

verus! {

/// Describes font family.
/// This can be either a specific font family name, such as "arial",
/// or a general font family class, such as "serif" and "sans-serif"
#[derive(Clone, Copy, Debug)]
pub enum FontFamily<'a> {
    /// The system default serif font family
    Serif,
    /// The system default sans-serif font family
    SansSerif,
    /// The system default monospace font
    Monospace,
    /// A specific font family name
    Name(&'a str),
}

impl<'a> FontFamily<'a> {
    /// The CSS name of the family.
    pub open spec fn name_spec(&self) -> Seq<char> {
        match self {
            FontFamily::Serif => "serif"@,
            FontFamily::SansSerif => "sans-serif"@,
            FontFamily::Monospace => "monospace"@,
            FontFamily::Name(face) => face@,
        }
    }

    /// Make a CSS compatible string for the font family name.
    /// This can be used as the value of `font-family` attribute in SVG.
    pub fn as_str(&self) -> (r: &str)
        ensures
            r@ == self.name_spec(),
    {
        match self {
            FontFamily::Serif => "serif",
            FontFamily::SansSerif => "sans-serif",
            FontFamily::Monospace => "monospace",
            FontFamily::Name(face) => face,
        }
    }
}

/// What `str::to_lowercase` makes of a text.
pub uninterp spec fn lower_of(s: Seq<char>) -> Seq<char>;

/// A text of lowercase ASCII letters and hyphens only.
pub open spec fn is_css_lower(s: Seq<char>) -> bool {
    forall|i: int|
        0 <= i < s.len() ==> ('a' as u32 <= #[trigger] s[i] as u32 <= 'z' as u32) || s[i] == '-'
}

/// Relies on `str::to_lowercase`: the lowercase form of a text, which
/// depends on its characters alone, and leaves a text of lowercase ASCII
/// letters and hyphens as it is.
#[verifier::external_body]
fn lowercase(s: &str) -> (r: String)
    ensures
        r@ == lower_of(s@),
        is_css_lower(s@) ==> r@ == s@,
{
    s.to_lowercase()
}

/// The family that a lowercased name `l` selects: one of the generic
/// families by its CSS name, else the name `from` as given.
pub open spec fn family_of_lower<'a>(l: Seq<char>, from: &'a str) -> FontFamily<'a> {
    if l == "serif"@ {
        FontFamily::Serif
    } else if l == "sans-serif"@ {
        FontFamily::SansSerif
    } else if l == "monospace"@ {
        FontFamily::Monospace
    } else {
        FontFamily::Name(from)
    }
}

/// The style that a lowercased name `l` selects; normal for any other name.
pub open spec fn style_of_lower(l: Seq<char>) -> FontStyle {
    if l == "normal"@ {
        FontStyle::Normal
    } else if l == "italic"@ {
        FontStyle::Italic
    } else if l == "oblique"@ {
        FontStyle::Oblique
    } else if l == "bold"@ {
        FontStyle::Bold
    } else {
        FontStyle::Normal
    }
}

impl<'a> From<&'a str> for FontFamily<'a> {
    /// The family of a name, matched case-insensitively against the CSS
    /// names of the generic families.
    fn from(from: &'a str) -> FontFamily<'a> {
        let l = lowercase(from);
        if l == "serif".to_owned() {
            FontFamily::Serif
        } else if l == "sans-serif".to_owned() {
            FontFamily::SansSerif
        } else if l == "monospace".to_owned() {
            FontFamily::Monospace
        } else {
            FontFamily::Name(from)
        }
    }
}

impl<'a> vstd::std_specs::convert::FromSpecImpl<&'a str> for FontFamily<'a> {
    open spec fn obeys_from_spec() -> bool {
        true
    }

    open spec fn from_spec(v: &'a str) -> FontFamily<'a> {
        family_of_lower(lower_of(v@), v)
    }
}

impl<'a> From<&'a str> for FontStyle {
    /// The style of a name, matched case-insensitively; normal for an
    /// unknown name.
    fn from(from: &'a str) -> FontStyle {
        let l = lowercase(from);
        if l == "normal".to_owned() {
            FontStyle::Normal
        } else if l == "italic".to_owned() {
            FontStyle::Italic
        } else if l == "oblique".to_owned() {
            FontStyle::Oblique
        } else if l == "bold".to_owned() {
            FontStyle::Bold
        } else {
            FontStyle::Normal
        }
    }
}

impl<'a> vstd::std_specs::convert::FromSpecImpl<&'a str> for FontStyle {
    open spec fn obeys_from_spec() -> bool {
        true
    }

    open spec fn from_spec(v: &'a str) -> FontStyle {
        style_of_lower(lower_of(v@))
    }
}

/// Parsing a family's CSS name gives the family back: a generic family from
/// its name, and a named family whose name is not a generic one.
pub proof fn lemma_family_name_round_trip<'a>(f: FontFamily<'a>, from: &'a str)
    requires
        f matches FontFamily::Name(n) ==> n == from && n@ != "serif"@ && n@ != "sans-serif"@
            && n@ != "monospace"@,
        !(f is Name) ==> from@ == f.name_spec(),
    ensures
        family_of_lower(f.name_spec(), from) == f,
{
    reveal_strlit("serif");
    reveal_strlit("sans-serif");
    reveal_strlit("monospace");
    assert("serif"@.len() != "sans-serif"@.len() && "serif"@.len() != "monospace"@.len()
        && "sans-serif"@.len() != "monospace"@.len());
}

/// Parsing a style's CSS name gives the style back.
pub proof fn lemma_style_name_round_trip(st: FontStyle)
    ensures
        style_of_lower(st.name_spec()) == st,
{
    reveal_strlit("normal");
    reveal_strlit("italic");
    reveal_strlit("oblique");
    reveal_strlit("bold");
    assert("normal"@[0] != "italic"@[0]);
    assert("normal"@ != "italic"@);
    assert("normal"@.len() != "oblique"@.len() && "normal"@.len() != "bold"@.len());
    assert("italic"@.len() != "oblique"@.len() && "italic"@.len() != "bold"@.len());
    assert("oblique"@.len() != "bold"@.len());
}

/// The CSS names of the generic families and of the styles are lowercase
/// ASCII, so `str::to_lowercase` leaves them as they are.
pub proof fn lemma_css_names_are_lower(f: FontFamily, st: FontStyle)
    ensures
        !(f is Name) ==> is_css_lower(f.name_spec()),
        is_css_lower(st.name_spec()),
{
    reveal_strlit("serif");
    reveal_strlit("sans-serif");
    reveal_strlit("monospace");
    reveal_strlit("normal");
    reveal_strlit("italic");
    reveal_strlit("oblique");
    reveal_strlit("bold");
}

/// The horizontal position of the anchor point relative to the text.
#[derive(Clone, Copy, Debug, PartialEq, Eq, Structural)]
pub enum HPos {
    /// Anchor point is on the left side of the text
    Left,
    /// Anchor point is on the right side of the text
    Right,
    /// Anchor point is in the horizontal center of the text
    Center,
}

/// The vertical position of the anchor point relative to the text.
#[derive(Clone, Copy, Debug, PartialEq, Eq, Structural)]
pub enum VPos {
    /// Anchor point is on the top of the text
    Top,
    /// Anchor point is in the vertical center of the text
    Center,
    /// Anchor point is on the bottom of the text
    Bottom,
}

/// The text anchor position.
#[derive(Clone, Copy, Debug, PartialEq, Eq, Structural)]
pub struct Pos {
    /// The horizontal position of the anchor point
    pub h_pos: HPos,
    /// The vertical position of the anchor point
    pub v_pos: VPos,
}

impl Pos {
    /// Create a new text anchor position.
    pub fn new(h_pos: HPos, v_pos: VPos) -> (r: Pos)
        ensures
            r == (Pos { h_pos, v_pos }),
    {
        Pos { h_pos, v_pos }
    }

    /// Create a default text anchor position (top left).
    pub fn default() -> (r: Pos)
        ensures
            r == (Pos { h_pos: HPos::Left, v_pos: VPos::Top }),
    {
        Pos { h_pos: HPos::Left, v_pos: VPos::Top }
    }
}

/// Specifying text transformations: rotations by right angles, clockwise.
#[derive(Clone, Copy, Debug, PartialEq, Eq, Structural)]
pub enum FontTransform {
    /// Nothing to transform
    Identity,
    /// Rotating the text 90 degree clockwise
    Rotate90,
    /// Rotating the text 180 degree clockwise
    Rotate180,
    /// Rotating the text 270 degree clockwise
    Rotate270,
}

impl FontTransform {
    /// Where the transform moves the point `(x, y)`.
    pub open spec fn transform_spec(&self, x: int, y: int) -> (int, int) {
        match self {
            FontTransform::Identity => (x, y),
            FontTransform::Rotate90 => (-y, x),
            FontTransform::Rotate180 => (-x, -y),
            FontTransform::Rotate270 => (y, -x),
        }
    }

    /// Transform the coordinate to perform the rotation
    pub fn transform(&self, x: i32, y: i32) -> (r: (i32, i32))
        requires
            x > i32::MIN,
            y > i32::MIN,
        ensures
            (r.0 as int, r.1 as int) == self.transform_spec(x as int, y as int),
    {
        match self {
            FontTransform::Identity => (x, y),
            FontTransform::Rotate90 => (-y, x),
            FontTransform::Rotate180 => (-x, -y),
            FontTransform::Rotate270 => (y, -x),
        }
    }
}

/// Describes the font style. Such as Italic, Oblique, etc.
#[derive(Clone, Copy, Debug, PartialEq, Eq, Structural)]
pub enum FontStyle {
    /// The normal style
    Normal,
    /// The oblique style
    Oblique,
    /// The italic style
    Italic,
    /// The bold style
    Bold,
}

impl FontStyle {
    /// The CSS name of the style.
    pub open spec fn name_spec(&self) -> Seq<char> {
        match self {
            FontStyle::Normal => "normal"@,
            FontStyle::Italic => "italic"@,
            FontStyle::Oblique => "oblique"@,
            FontStyle::Bold => "bold"@,
        }
    }

    /// Convert the font style into a CSS compatible string which can be used in `font-style` attribute.
    pub fn as_str(&self) -> (r: &str)
        ensures
            r@ == self.name_spec(),
    {
        match self {
            FontStyle::Normal => "normal",
            FontStyle::Italic => "italic",
            FontStyle::Oblique => "oblique",
            FontStyle::Bold => "bold",
        }
    }
}

/// Describes a font; the size is in pixels.
#[derive(Clone, Copy, Debug)]
pub struct FontDesc<'a> {
    pub size: u32,
    pub family: FontFamily<'a>,
    pub transform: FontTransform,
    pub style: FontStyle,
}

impl<'a> FontDesc<'a> {
    /// Create a new font
    pub fn new(family: FontFamily<'a>, size: u32, style: FontStyle) -> (r: FontDesc<'a>)
        ensures
            r == (FontDesc { size, family, transform: FontTransform::Identity, style }),
    {
        FontDesc { size, family, transform: FontTransform::Identity, style }
    }

    /// Create a new font desc with the same font but different size
    pub fn resize(&self, size: u32) -> (r: FontDesc<'a>)
        ensures
            r == (FontDesc { size, ..*self }),
    {
        FontDesc { size, family: self.family, transform: self.transform, style: self.style }
    }

    /// Set the style of the font
    pub fn style(&self, style: FontStyle) -> (r: FontDesc<'a>)
        ensures
            r == (FontDesc { style, ..*self }),
    {
        FontDesc { size: self.size, family: self.family, transform: self.transform, style }
    }

    /// Set the font transformation
    pub fn transform(&self, trans: FontTransform) -> (r: FontDesc<'a>)
        ensures
            r == (FontDesc { transform: trans, ..*self }),
    {
        FontDesc { size: self.size, family: self.family, transform: trans, style: self.style }
    }

    /// Get the font transformation description
    pub fn get_transform(&self) -> (r: FontTransform)
        ensures
            r == self.transform,
    {
        self.transform
    }

    /// Returns the font family
    pub fn get_family(&self) -> (r: FontFamily<'a>)
        ensures
            r == self.family,
    {
        self.family
    }

    /// Get the name of the font
    pub fn get_name(&self) -> (r: &str)
        ensures
            r@ == self.family.name_spec(),
    {
        self.family.as_str()
    }

    /// Get the name of the style
    pub fn get_style(&self) -> (r: FontStyle)
        ensures
            r == self.style,
    {
        self.style
    }

    /// Get the size of font
    pub fn get_size(&self) -> (r: u32)
        ensures
            r == self.size,
    {
        self.size
    }
}

/// The text style handed to a backend.
#[derive(Clone, Copy, Debug)]
pub struct BackendTextStyle<'a> {
    pub color: BackendColor,
    pub size: u32,
    pub transform: FontTransform,
    pub style: FontStyle,
    pub anchor: Pos,
    pub family: FontFamily<'a>,
}

/// What a drawn text's style amounts to, with the family by its name.
pub struct TextOpStyle {
    pub color: BackendColor,
    pub size: u32,
    pub transform: FontTransform,
    pub style: FontStyle,
    pub anchor: Pos,
    pub family: Seq<char>,
}

impl<'a> BackendTextStyle<'a> {
    pub open spec fn model(&self) -> TextOpStyle {
        TextOpStyle {
            color: self.color,
            size: self.size,
            transform: self.transform,
            style: self.style,
            anchor: self.anchor,
            family: self.family.name_spec(),
        }
    }
}

/// Style of a text element: its font, color and anchor.
#[derive(Clone, Copy, Debug)]
pub struct TextStyle<'a> {
    pub font: FontDesc<'a>,
    pub color: RGBAColor,
    pub pos: Pos,
}

impl<'a> TextStyle<'a> {
    /// Black text in the given font, anchored at its top left.
    pub fn from_font(font: FontDesc<'a>) -> (r: TextStyle<'a>)
        ensures
            r == (TextStyle { font, color: RGBAColor(0, 0, 0, 255), pos: Pos { h_pos: HPos::Left, v_pos: VPos::Top } }),
    {
        TextStyle { font, color: RGBAColor(0, 0, 0, 255), pos: Pos::default() }
    }

    /// The same style with another color.
    pub fn color(&self, color: RGBAColor) -> (r: TextStyle<'a>)
        ensures
            r == (TextStyle { color, ..*self }),
    {
        TextStyle { font: self.font, color, pos: self.pos }
    }

    /// The same style with another anchor.
    pub fn pos(&self, pos: Pos) -> (r: TextStyle<'a>)
        ensures
            r == (TextStyle { pos, ..*self }),
    {
        TextStyle { font: self.font, color: self.color, pos }
    }

    /// The style as the backend sees it.
    pub open spec fn backend_spec(&self) -> BackendTextStyle<'a> {
        BackendTextStyle {
            color: self.color.backend_spec(),
            size: self.font.size,
            transform: self.font.transform,
            style: self.font.style,
            anchor: self.pos,
            family: self.font.family,
        }
    }

    /// Convert the style into the backend's text style.
    pub fn to_backend(&self) -> (r: BackendTextStyle<'a>)
        ensures
            r == self.backend_spec(),
    {
        BackendTextStyle {
            color: self.color.to_backend_color(),
            size: self.font.size,
            transform: self.font.transform,
            style: self.font.style,
            anchor: self.pos,
            family: self.font.family,
        }
    }
}

} // verus!
