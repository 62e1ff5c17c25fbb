//! The `style` prop reader.
//!
//! React-shaped: `<div style={{ padding: 17, color: "#a855f7" }} />`.
//! Numbers mean px (the React Native convention). Strings take `%`, `px`,
//! `#rrggbb`, `#rgb`, `#rrggbbaa`, `rgb()`, `rgba()` and a few named colours.
//! Keys are camelCase; unknown keys and unusable values are dropped.
//!
//! The result is a list of declarations that the renderer applies to a GPUI
//! `div` in order; numeric amounts stay text until the renderer turns them
//! into floats.
use vstd::prelude::*;
use vstd::string::*;

use crate::numbers::{
    ascii_ci_eq, chars_of, ci_eq_from, is_float_literal, is_float_text,
    parse_hex_u32, parse_u8, unsigned_parse,
};
use crate::props::{JsonValue, PropMap, PropValue, PropValueModel};
use crate::text::{
    split_char, split_on, str_eq, strip_prefix, strip_suffix, stripped_prefix, stripped_suffix,
    to_owned_string, trim, trimmed,
};

verus! {

/// A colour. `S` is the text type of the alpha literal.
#[derive(Debug, Clone, PartialEq, Eq)]
pub enum Color<S> {
    /// `0xRRGGBB`, opaque.
    Rgb(u32),
    /// `0xRRGGBBAA`.
    Rgba(u32),
    /// `0xRRGGBB` with an alpha given as a float literal; the renderer clamps
    /// it to `[0, 1]` and scales it to a byte.
    RgbAlpha(u32, S),
}

/// A length. `S` is the text type of the amount.
#[derive(Debug, Clone, PartialEq, Eq)]
pub enum Length<S> {
    /// A JSON number, in px.
    Number(S),
    /// A float literal, in px.
    Px(S),
    /// A float literal, in percent of the parent.
    Percent(S),
}

/// The value of one declaration.
#[derive(Debug, Clone, PartialEq, Eq)]
pub enum StyleValue<S> {
    Length(Length<S>),
    Color(Color<S>),
    /// A JSON number used as is (opacity).
    Scalar(S),
}

/// The style properties that the `style` prop understands.
#[derive(Debug, Clone, Copy, PartialEq, Eq)]
pub enum StyleProp {
    Padding,
    PaddingTop,
    PaddingRight,
    PaddingBottom,
    PaddingLeft,
    PaddingX,
    PaddingY,
    Margin,
    MarginTop,
    MarginRight,
    MarginBottom,
    MarginLeft,
    MarginX,
    MarginY,
    Width,
    Height,
    MinWidth,
    MinHeight,
    MaxWidth,
    MaxHeight,
    Gap,
    BorderRadius,
    BorderTopLeftRadius,
    BorderTopRightRadius,
    BorderBottomLeftRadius,
    BorderBottomRightRadius,
    Color,
    BackgroundColor,
    BorderColor,
    Opacity,
}

/// One declaration: a property and its value.
#[derive(Debug, Clone, PartialEq, Eq)]
pub struct StyleDecl<S> {
    pub prop: StyleProp,
    pub value: StyleValue<S>,
}

impl View for Color<String> {
    type V = Color<Seq<char>>;

    open spec fn view(&self) -> Color<Seq<char>> {
        match self {
            Color::Rgb(v) => Color::Rgb(*v),
            Color::Rgba(v) => Color::Rgba(*v),
            Color::RgbAlpha(v, a) => Color::RgbAlpha(*v, a@),
        }
    }
}

impl View for Length<String> {
    type V = Length<Seq<char>>;

    open spec fn view(&self) -> Length<Seq<char>> {
        match self {
            Length::Number(t) => Length::Number(t@),
            Length::Px(t) => Length::Px(t@),
            Length::Percent(t) => Length::Percent(t@),
        }
    }
}

impl View for StyleValue<String> {
    type V = StyleValue<Seq<char>>;

    open spec fn view(&self) -> StyleValue<Seq<char>> {
        match self {
            StyleValue::Length(l) => StyleValue::Length(l@),
            StyleValue::Color(c) => StyleValue::Color(c@),
            StyleValue::Scalar(t) => StyleValue::Scalar(t@),
        }
    }
}

impl View for StyleDecl<String> {
    type V = StyleDecl<Seq<char>>;

    open spec fn view(&self) -> StyleDecl<Seq<char>> {
        StyleDecl { prop: self.prop, value: self.value@ }
    }
}

/// How a property reads its value.
pub enum ValueKind {
    /// Numbers, `%`, `px` and bare float literals.
    Length,
    /// Numbers, `px` and bare float literals.
    AbsLength,
    /// Colour strings.
    Color,
    /// Numbers.
    Scalar,
}

/// How the value of a property is read.
pub open spec fn value_kind(p: StyleProp) -> ValueKind {
    match p {
        StyleProp::BorderRadius | StyleProp::BorderTopLeftRadius | StyleProp::BorderTopRightRadius
        | StyleProp::BorderBottomLeftRadius | StyleProp::BorderBottomRightRadius => {
            ValueKind::AbsLength
        },
        StyleProp::Color | StyleProp::BackgroundColor | StyleProp::BorderColor => ValueKind::Color,
        StyleProp::Opacity => ValueKind::Scalar,
        _ => ValueKind::Length,
    }
}

/// The property a camelCase key names.
pub open spec fn style_prop(key: Seq<char>) -> Option<StyleProp> {
    if key == "padding"@ {
        Some(StyleProp::Padding)
    } else if key == "paddingTop"@ {
        Some(StyleProp::PaddingTop)
    } else if key == "paddingRight"@ {
        Some(StyleProp::PaddingRight)
    } else if key == "paddingBottom"@ {
        Some(StyleProp::PaddingBottom)
    } else if key == "paddingLeft"@ {
        Some(StyleProp::PaddingLeft)
    } else if key == "paddingX"@ || key == "paddingHorizontal"@ {
        Some(StyleProp::PaddingX)
    } else if key == "paddingY"@ || key == "paddingVertical"@ {
        Some(StyleProp::PaddingY)
    } else if key == "margin"@ {
        Some(StyleProp::Margin)
    } else if key == "marginTop"@ {
        Some(StyleProp::MarginTop)
    } else if key == "marginRight"@ {
        Some(StyleProp::MarginRight)
    } else if key == "marginBottom"@ {
        Some(StyleProp::MarginBottom)
    } else if key == "marginLeft"@ {
        Some(StyleProp::MarginLeft)
    } else if key == "marginX"@ || key == "marginHorizontal"@ {
        Some(StyleProp::MarginX)
    } else if key == "marginY"@ || key == "marginVertical"@ {
        Some(StyleProp::MarginY)
    } else if key == "width"@ {
        Some(StyleProp::Width)
    } else if key == "height"@ {
        Some(StyleProp::Height)
    } else if key == "minWidth"@ {
        Some(StyleProp::MinWidth)
    } else if key == "minHeight"@ {
        Some(StyleProp::MinHeight)
    } else if key == "maxWidth"@ {
        Some(StyleProp::MaxWidth)
    } else if key == "maxHeight"@ {
        Some(StyleProp::MaxHeight)
    } else if key == "gap"@ {
        Some(StyleProp::Gap)
    } else if key == "borderRadius"@ {
        Some(StyleProp::BorderRadius)
    } else if key == "borderTopLeftRadius"@ {
        Some(StyleProp::BorderTopLeftRadius)
    } else if key == "borderTopRightRadius"@ {
        Some(StyleProp::BorderTopRightRadius)
    } else if key == "borderBottomLeftRadius"@ {
        Some(StyleProp::BorderBottomLeftRadius)
    } else if key == "borderBottomRightRadius"@ {
        Some(StyleProp::BorderBottomRightRadius)
    } else if key == "color"@ {
        Some(StyleProp::Color)
    } else if key == "backgroundColor"@ {
        Some(StyleProp::BackgroundColor)
    } else if key == "borderColor"@ {
        Some(StyleProp::BorderColor)
    } else if key == "opacity"@ {
        Some(StyleProp::Opacity)
    } else {
        None
    }
}

/// `s` without the suffix `p`, if that leaves a float literal.
pub open spec fn amount_before(s: Seq<char>, p: Seq<char>) -> Option<Seq<char>> {
    match stripped_suffix(s, p) {
        Some(t) => if is_float_literal(t) {
            Some(t)
        } else {
            None
        },
        None => None,
    }
}

/// A length from a string: `N%`, `Npx` or `N`.
pub open spec fn length_text(s: Seq<char>, percent_allowed: bool) -> Option<Length<Seq<char>>> {
    if percent_allowed && amount_before(s, "%"@) is Some {
        Some(Length::Percent(amount_before(s, "%"@)->0))
    } else if amount_before(s, "px"@) is Some {
        Some(Length::Px(amount_before(s, "px"@)->0))
    } else if is_float_literal(s) {
        Some(Length::Px(s))
    } else {
        None
    }
}

/// A length from a prop value.
pub open spec fn length_value(v: PropValueModel, percent_allowed: bool) -> Option<
    Length<Seq<char>>,
> {
    match v {
        JsonValue::Number(t) => Some(Length::Number(t)),
        JsonValue::Str(s) => length_text(s, percent_allowed),
        _ => None,
    }
}

/// `c` written twice: `#rgb` to `#rrggbb`.
pub open spec fn doubled(h: Seq<char>) -> Seq<char> {
    Seq::new(2 * h.len(), |i: int| h[i / 2])
}

/// The colour of hex digits after `#`.
pub open spec fn hex_color(h: Seq<char>) -> Option<Color<Seq<char>>> {
    if h.len() == 6 {
        match unsigned_parse(h, 16, 0xffff_ffff) {
            Some(v) => Some(Color::Rgb(v as u32)),
            None => None,
        }
    } else if h.len() == 8 {
        match unsigned_parse(h, 16, 0xffff_ffff) {
            Some(v) => Some(Color::Rgba(v as u32)),
            None => None,
        }
    } else if h.len() == 3 {
        match unsigned_parse(doubled(h), 16, 0xffff_ffff) {
            Some(v) => Some(Color::Rgb(v as u32)),
            None => None,
        }
    } else {
        None
    }
}

/// A colour channel: an integer literal from 0 to 255.
pub open spec fn channel(t: Seq<char>) -> Option<int> {
    unsigned_parse(trimmed(t), 10, 255)
}

/// The colour of the arguments of `rgb(...)` (three channels) or
/// `rgba(...)` (three channels and a float alpha), split at commas.
pub open spec fn rgb_color(args: Seq<char>, with_alpha: bool) -> Option<Color<Seq<char>>> {
    let parts = split_on(args, ',');
    if parts.len() != (if with_alpha {
        4int
    } else {
        3int
    }) {
        None
    } else if channel(parts[0]) is None || channel(parts[1]) is None || channel(parts[2]) is None {
        None
    } else {
        let v = channel(parts[0])->0 * 65536 + channel(parts[1])->0 * 256 + channel(parts[2])->0;
        if !with_alpha {
            Some(Color::Rgb(v as u32))
        } else if is_float_literal(trimmed(parts[3])) {
            Some(Color::RgbAlpha(v as u32, trimmed(parts[3])))
        } else {
            None
        }
    }
}

/// The named colours, in any case.
pub open spec fn named_color(s: Seq<char>) -> Option<u32> {
    if ascii_ci_eq(s, seq!['w', 'h', 'i', 't', 'e'], seq!['W', 'H', 'I', 'T', 'E']) {
        Some(0xFFFFFF)
    } else if ascii_ci_eq(s, seq!['b', 'l', 'a', 'c', 'k'], seq!['B', 'L', 'A', 'C', 'K']) {
        Some(0x000000)
    } else if ascii_ci_eq(s, seq!['r', 'e', 'd'], seq!['R', 'E', 'D']) {
        Some(0xFF0000)
    } else if ascii_ci_eq(s, seq!['g', 'r', 'e', 'e', 'n'], seq!['G', 'R', 'E', 'E', 'N']) {
        Some(0x008000)
    } else if ascii_ci_eq(s, seq!['b', 'l', 'u', 'e'], seq!['B', 'L', 'U', 'E']) {
        Some(0x0000FF)
    } else {
        None
    }
}

/// The colour a CSS-ish colour string denotes.
pub open spec fn color_spec(s: Seq<char>) -> Option<Color<Seq<char>>> {
    let t = trimmed(s);
    if named_color(t) is Some {
        Some(Color::Rgb(named_color(t)->0))
    } else if stripped_prefix(t, "#"@) is Some {
        hex_color(stripped_prefix(t, "#"@)->0)
    } else if stripped_prefix(t, "rgb("@) is Some && stripped_suffix(
        stripped_prefix(t, "rgb("@)->0,
        ")"@,
    ) is Some {
        rgb_color(stripped_suffix(stripped_prefix(t, "rgb("@)->0, ")"@)->0, false)
    } else if stripped_prefix(t, "rgba("@) is Some && stripped_suffix(
        stripped_prefix(t, "rgba("@)->0,
        ")"@,
    ) is Some {
        rgb_color(stripped_suffix(stripped_prefix(t, "rgba("@)->0, ")"@)->0, true)
    } else {
        None
    }
}

/// The value of a declaration of the given kind, if the prop value fits.
pub open spec fn decl_value(kind: ValueKind, v: PropValueModel) -> Option<StyleValue<Seq<char>>> {
    match kind {
        ValueKind::Length => match length_value(v, true) {
            Some(l) => Some(StyleValue::Length(l)),
            None => None,
        },
        ValueKind::AbsLength => match length_value(v, false) {
            Some(l) => Some(StyleValue::Length(l)),
            None => None,
        },
        ValueKind::Color => match v {
            JsonValue::Str(s) => match color_spec(s) {
                Some(c) => Some(StyleValue::Color(c)),
                None => None,
            },
            _ => None,
        },
        ValueKind::Scalar => match v {
            JsonValue::Number(t) => Some(StyleValue::Scalar(t)),
            _ => None,
        },
    }
}

/// The declaration one style entry makes, if any.
pub open spec fn style_decl(key: Seq<char>, v: PropValueModel) -> Option<StyleDecl<Seq<char>>> {
    match style_prop(key) {
        Some(p) => match decl_value(value_kind(p), v) {
            Some(value) => Some(StyleDecl { prop: p, value }),
            None => None,
        },
        None => None,
    }
}

/// The declarations of a style map, in the map's order.
pub open spec fn style_decls(pairs: Seq<(Seq<char>, PropValueModel)>) -> Seq<
    StyleDecl<Seq<char>>,
> {
    pairs.filter_map(|e: (Seq<char>, PropValueModel)| style_decl(e.0, e.1))
}

/// An optional colour by its model.
pub open spec fn color_model(o: Option<Color<String>>) -> Option<Color<Seq<char>>> {
    match o {
        Some(c) => Some(c@),
        None => None,
    }
}

/// An optional length by its model.
pub open spec fn length_model(o: Option<Length<String>>) -> Option<Length<Seq<char>>> {
    match o {
        Some(l) => Some(l@),
        None => None,
    }
}

/// An optional declaration value by its model.
pub open spec fn value_model(o: Option<StyleValue<String>>) -> Option<StyleValue<Seq<char>>> {
    match o {
        Some(v) => Some(v@),
        None => None,
    }
}

/// An optional declaration by its model.
pub open spec fn decl_model(o: Option<StyleDecl<String>>) -> Option<StyleDecl<Seq<char>>> {
    match o {
        Some(d) => Some(d@),
        None => None,
    }
}

/// The property a camelCase key names.
pub fn prop_of(key: &str) -> (r: Option<StyleProp>)
    ensures
        r == style_prop(key@),
{
    if str_eq(key, "padding") {
        return Some(StyleProp::Padding);
    }
    if str_eq(key, "paddingTop") {
        return Some(StyleProp::PaddingTop);
    }
    if str_eq(key, "paddingRight") {
        return Some(StyleProp::PaddingRight);
    }
    if str_eq(key, "paddingBottom") {
        return Some(StyleProp::PaddingBottom);
    }
    if str_eq(key, "paddingLeft") {
        return Some(StyleProp::PaddingLeft);
    }
    if str_eq(key, "paddingX") || str_eq(key, "paddingHorizontal") {
        return Some(StyleProp::PaddingX);
    }
    if str_eq(key, "paddingY") || str_eq(key, "paddingVertical") {
        return Some(StyleProp::PaddingY);
    }
    if str_eq(key, "margin") {
        return Some(StyleProp::Margin);
    }
    if str_eq(key, "marginTop") {
        return Some(StyleProp::MarginTop);
    }
    if str_eq(key, "marginRight") {
        return Some(StyleProp::MarginRight);
    }
    if str_eq(key, "marginBottom") {
        return Some(StyleProp::MarginBottom);
    }
    if str_eq(key, "marginLeft") {
        return Some(StyleProp::MarginLeft);
    }
    if str_eq(key, "marginX") || str_eq(key, "marginHorizontal") {
        return Some(StyleProp::MarginX);
    }
    if str_eq(key, "marginY") || str_eq(key, "marginVertical") {
        return Some(StyleProp::MarginY);
    }
    if str_eq(key, "width") {
        return Some(StyleProp::Width);
    }
    if str_eq(key, "height") {
        return Some(StyleProp::Height);
    }
    if str_eq(key, "minWidth") {
        return Some(StyleProp::MinWidth);
    }
    if str_eq(key, "minHeight") {
        return Some(StyleProp::MinHeight);
    }
    if str_eq(key, "maxWidth") {
        return Some(StyleProp::MaxWidth);
    }
    if str_eq(key, "maxHeight") {
        return Some(StyleProp::MaxHeight);
    }
    if str_eq(key, "gap") {
        return Some(StyleProp::Gap);
    }
    if str_eq(key, "borderRadius") {
        return Some(StyleProp::BorderRadius);
    }
    if str_eq(key, "borderTopLeftRadius") {
        return Some(StyleProp::BorderTopLeftRadius);
    }
    if str_eq(key, "borderTopRightRadius") {
        return Some(StyleProp::BorderTopRightRadius);
    }
    if str_eq(key, "borderBottomLeftRadius") {
        return Some(StyleProp::BorderBottomLeftRadius);
    }
    if str_eq(key, "borderBottomRightRadius") {
        return Some(StyleProp::BorderBottomRightRadius);
    }
    if str_eq(key, "color") {
        return Some(StyleProp::Color);
    }
    if str_eq(key, "backgroundColor") {
        return Some(StyleProp::BackgroundColor);
    }
    if str_eq(key, "borderColor") {
        return Some(StyleProp::BorderColor);
    }
    if str_eq(key, "opacity") {
        return Some(StyleProp::Opacity);
    }
    None
}

fn kind_of(p: StyleProp) -> (k: ValueKind)
    ensures
        k == value_kind(p),
{
    match p {
        StyleProp::BorderRadius | StyleProp::BorderTopLeftRadius | StyleProp::BorderTopRightRadius
        | StyleProp::BorderBottomLeftRadius | StyleProp::BorderBottomRightRadius => {
            ValueKind::AbsLength
        },
        StyleProp::Color | StyleProp::BackgroundColor | StyleProp::BorderColor => ValueKind::Color,
        StyleProp::Opacity => ValueKind::Scalar,
        _ => ValueKind::Length,
    }
}

fn amount_before_suffix<'a>(s: &'a str, p: &str) -> (r: Option<&'a str>)
    ensures
        match r {
            Some(t) => amount_before(s@, p@) == Some(t@),
            None => amount_before(s@, p@) is None,
        },
{
    match strip_suffix(s, p) {
        Some(t) => if is_float_text(t) {
            Some(t)
        } else {
            None
        },
        None => None,
    }
}

fn length_of_text(s: &str, percent_allowed: bool) -> (r: Option<Length<String>>)
    ensures
        length_model(r) == length_text(s@, percent_allowed),
{
    if percent_allowed {
        if let Some(t) = amount_before_suffix(s, "%") {
            return Some(Length::Percent(to_owned_string(t)));
        }
    }
    if let Some(t) = amount_before_suffix(s, "px") {
        return Some(Length::Px(to_owned_string(t)));
    }
    if is_float_text(s) {
        return Some(Length::Px(to_owned_string(s)));
    }
    None
}

/// A length from a prop value (`with_length`, `with_length_abs`).
pub fn length_of(v: &PropValue, percent_allowed: bool) -> (r: Option<Length<String>>)
    ensures
        length_model(r) == length_value(v@, percent_allowed),
{
    match v {
        JsonValue::Number(t) => Some(Length::Number(t.clone())),
        JsonValue::Str(s) => length_of_text(s.as_str(), percent_allowed),
        _ => None,
    }
}

/// The digits `h` with each one written twice.
fn double_digits(h: &str) -> (r: String)
    ensures
        r@ == doubled(h@),
{
    let n = h.unicode_len();
    let mut full = String::new();
    let mut i: usize = 0;
    while i < n
        invariant
            n == h@.len(),
            i <= n,
            full@ == doubled(h@.take(i as int)),
        decreases n - i,
    {
        let one = h.substring_char(i, i + 1);
        full.append(one);
        full.append(one);
        i += 1;
        assert(full@ =~= doubled(h@.take(i as int)));
    }
    assert(h@.take(n as int) =~= h@);
    full
}

/// The colour of hex digits after `#`: 6 digits, 8 digits with alpha, or
/// 3 digits each standing for two.
fn parse_hex(h: &str) -> (r: Option<Color<String>>)
    ensures
        color_model(r) == hex_color(h@),
{
    let n = h.unicode_len();
    if n == 6 {
        match parse_hex_u32(h) {
            Some(v) => Some(Color::Rgb(v)),
            None => None,
        }
    } else if n == 8 {
        match parse_hex_u32(h) {
            Some(v) => Some(Color::Rgba(v)),
            None => None,
        }
    } else if n == 3 {
        let full = double_digits(h);
        match parse_hex_u32(full.as_str()) {
            Some(v) => Some(Color::Rgb(v)),
            None => None,
        }
    } else {
        None
    }
}

fn parse_channel(t: &str) -> (r: Option<u8>)
    ensures
        match r {
            Some(v) => channel(t@) == Some(v as int),
            None => channel(t@) is None,
        },
{
    parse_u8(trim(t))
}

/// The colour of the arguments of `rgb(...)` or `rgba(...)`.
fn parse_rgb_args(args: &str, with_alpha: bool) -> (r: Option<Color<String>>)
    ensures
        color_model(r) == rgb_color(args@, with_alpha),
{
    let parts = split_char(args, ',');
    let ghost ps = split_on(args@, ',');
    assert(parts@.map_values(|p: &str| p@) == ps);
    let expected: usize = if with_alpha {
        4
    } else {
        3
    };
    if parts.len() != expected {
        return None;
    }
    assert(ps[0] == parts[0]@ && ps[1] == parts[1]@ && ps[2] == parts[2]@);
    let r = match parse_channel(parts[0]) {
        Some(v) => v,
        None => return None,
    };
    let g = match parse_channel(parts[1]) {
        Some(v) => v,
        None => return None,
    };
    let b = match parse_channel(parts[2]) {
        Some(v) => v,
        None => return None,
    };
    let v: u32 = (r as u32) * 65536 + (g as u32) * 256 + (b as u32);
    if !with_alpha {
        return Some(Color::Rgb(v));
    }
    assert(ps[3] == parts[3]@);
    let a = trim(parts[3]);
    if is_float_text(a) {
        Some(Color::RgbAlpha(v, to_owned_string(a)))
    } else {
        None
    }
}

/// The named colours, in any case (`white`, `black`, `red`, `green`,
/// `blue`).
fn named(s: &str) -> (r: Option<u32>)
    ensures
        r == named_color(s@),
{
    let v = chars_of(s);
    if ci_eq_from(&v, 0, &vec!['w', 'h', 'i', 't', 'e'], &vec!['W', 'H', 'I', 'T', 'E']) {
        assert(v@.skip(0) =~= s@);
        return Some(0xFFFFFF);
    }
    if ci_eq_from(&v, 0, &vec!['b', 'l', 'a', 'c', 'k'], &vec!['B', 'L', 'A', 'C', 'K']) {
        assert(v@.skip(0) =~= s@);
        return Some(0x000000);
    }
    if ci_eq_from(&v, 0, &vec!['r', 'e', 'd'], &vec!['R', 'E', 'D']) {
        assert(v@.skip(0) =~= s@);
        return Some(0xFF0000);
    }
    if ci_eq_from(&v, 0, &vec!['g', 'r', 'e', 'e', 'n'], &vec!['G', 'R', 'E', 'E', 'N']) {
        assert(v@.skip(0) =~= s@);
        return Some(0x008000);
    }
    if ci_eq_from(&v, 0, &vec!['b', 'l', 'u', 'e'], &vec!['B', 'L', 'U', 'E']) {
        assert(v@.skip(0) =~= s@);
        return Some(0x0000FF);
    }
    assert(v@.skip(0) =~= s@);
    None
}

/// Parses a CSS-ish colour: a named colour, `#rrggbb`, `#rrggbbaa`, `#rgb`,
/// `rgb(r, g, b)` or `rgba(r, g, b, a)`, with white space around it allowed.
pub fn parse_color(s: &str) -> (r: Option<Color<String>>)
    ensures
        color_model(r) == color_spec(s@),
{
    let t = trim(s);
    if let Some(v) = named(t) {
        return Some(Color::Rgb(v));
    }
    if let Some(h) = strip_prefix(t, "#") {
        return parse_hex(h);
    }
    if let Some(rest) = strip_prefix(t, "rgb(") {
        if let Some(args) = strip_suffix(rest, ")") {
            return parse_rgb_args(args, false);
        }
    }
    if let Some(rest) = strip_prefix(t, "rgba(") {
        if let Some(args) = strip_suffix(rest, ")") {
            return parse_rgb_args(args, true);
        }
    }
    None
}

fn value_of(kind: ValueKind, v: &PropValue) -> (r: Option<StyleValue<String>>)
    ensures
        value_model(r) == decl_value(kind, v@),
{
    match kind {
        ValueKind::Length => match length_of(v, true) {
            Some(l) => Some(StyleValue::Length(l)),
            None => None,
        },
        ValueKind::AbsLength => match length_of(v, false) {
            Some(l) => Some(StyleValue::Length(l)),
            None => None,
        },
        ValueKind::Color => match v {
            JsonValue::Str(s) => match parse_color(s.as_str()) {
                Some(c) => Some(StyleValue::Color(c)),
                None => None,
            },
            _ => None,
        },
        ValueKind::Scalar => match v {
            JsonValue::Number(t) => Some(StyleValue::Scalar(t.clone())),
            _ => None,
        },
    }
}

/// The declaration that one style entry makes; `None` for an unknown key or
/// a value the key cannot use.
pub fn apply_one(key: &str, value: &PropValue) -> (r: Option<StyleDecl<String>>)
    ensures
        decl_model(r) == style_decl(key@, value@),
{
    match prop_of(key) {
        Some(p) => match value_of(kind_of(p), value) {
            Some(v) => Some(StyleDecl { prop: p, value: v }),
            None => None,
        },
        None => None,
    }
}

/// The declarations a style map makes, in the map's order; unknown keys
/// are dropped.
pub fn apply(style: &PropMap<PropValue>) -> (decls: Vec<StyleDecl<String>>)
    ensures
        decls@.map_values(|d: StyleDecl<String>| d@) == style_decls(style.pairs()),
{
    let ghost ps = style.pairs();
    let mut decls: Vec<StyleDecl<String>> = Vec::new();
    let mut i: usize = 0;
    let n = style.len();
    while i < n
        invariant
            n == ps.len(),
            ps == style.pairs(),
            i <= n,
            decls@.map_values(|d: StyleDecl<String>| d@) == style_decls(ps.take(i as int)),
        decreases n - i,
    {
        let (k, v) = style.entry(i);
        let r = apply_one(k.as_str(), v);
        proof {
            ps.lemma_filter_map_take_succ(
                |e: (Seq<char>, PropValueModel)| style_decl(e.0, e.1),
                i as int,
            );
        }
        match r {
            Some(d) => {
                let ghost before = decls@.map_values(|d: StyleDecl<String>| d@);
                decls.push(d);
                assert(decls@.map_values(|d: StyleDecl<String>| d@) =~= before + seq![d@]);
            },
            None => {},
        }
        i += 1;
    }
    assert(ps.take(n as int) =~= ps);
    decls
}

/// Unknown keys (and values a key cannot use) are dropped, and the other
/// entries keep their order.
pub proof fn law_unknown_style_keys_are_dropped(
    pairs: Seq<(Seq<char>, PropValueModel)>,
    key: Seq<char>,
    v: PropValueModel,
)
    ensures
        style_decl(key, v) is None ==> style_decls(pairs.push((key, v))) == style_decls(pairs),
        style_prop(key) is None ==> style_decls(pairs.push((key, v))) == style_decls(pairs),
        style_decl(key, v) is Some ==> style_decls(pairs.push((key, v))) == style_decls(
            pairs,
        ).push(style_decl(key, v)->0),
{
    assert(pairs.push((key, v)).drop_last() =~= pairs);
    if style_decl(key, v) is Some {
        assert(style_decls(pairs) + seq![style_decl(key, v)->0] =~= style_decls(pairs).push(
            style_decl(key, v)->0,
        ));
    }
}

/// Numbers mean px: a JSON number for any length key is that many px.
pub proof fn law_numbers_are_px(key: Seq<char>, t: Seq<char>)
    requires
        style_prop(key) is Some,
        value_kind(style_prop(key)->0) is Length || value_kind(style_prop(key)->0) is AbsLength,
    ensures
        style_decl(key, JsonValue::Number(t)) == Some(
            StyleDecl {
                prop: style_prop(key)->0,
                value: StyleValue::Length(Length::Number(t)),
            },
        ),
{
}

/// The camelCase key of a property: its name with the first letter in lower
/// case (`PaddingTop` is `paddingTop`).
pub open spec fn prop_key(p: StyleProp) -> Seq<char> {
    match p {
        StyleProp::Padding => "padding"@,
        StyleProp::PaddingTop => "paddingTop"@,
        StyleProp::PaddingRight => "paddingRight"@,
        StyleProp::PaddingBottom => "paddingBottom"@,
        StyleProp::PaddingLeft => "paddingLeft"@,
        StyleProp::PaddingX => "paddingX"@,
        StyleProp::PaddingY => "paddingY"@,
        StyleProp::Margin => "margin"@,
        StyleProp::MarginTop => "marginTop"@,
        StyleProp::MarginRight => "marginRight"@,
        StyleProp::MarginBottom => "marginBottom"@,
        StyleProp::MarginLeft => "marginLeft"@,
        StyleProp::MarginX => "marginX"@,
        StyleProp::MarginY => "marginY"@,
        StyleProp::Width => "width"@,
        StyleProp::Height => "height"@,
        StyleProp::MinWidth => "minWidth"@,
        StyleProp::MinHeight => "minHeight"@,
        StyleProp::MaxWidth => "maxWidth"@,
        StyleProp::MaxHeight => "maxHeight"@,
        StyleProp::Gap => "gap"@,
        StyleProp::BorderRadius => "borderRadius"@,
        StyleProp::BorderTopLeftRadius => "borderTopLeftRadius"@,
        StyleProp::BorderTopRightRadius => "borderTopRightRadius"@,
        StyleProp::BorderBottomLeftRadius => "borderBottomLeftRadius"@,
        StyleProp::BorderBottomRightRadius => "borderBottomRightRadius"@,
        StyleProp::Color => "color"@,
        StyleProp::BackgroundColor => "backgroundColor"@,
        StyleProp::BorderColor => "borderColor"@,
        StyleProp::Opacity => "opacity"@,
    }
}

/// The React Native spelling that a property also accepts
/// (`paddingHorizontal` for `PaddingX`, ...).
pub open spec fn prop_alias(p: StyleProp) -> Option<Seq<char>> {
    match p {
        StyleProp::PaddingX => Some("paddingHorizontal"@),
        StyleProp::PaddingY => Some("paddingVertical"@),
        StyleProp::MarginX => Some("marginHorizontal"@),
        StyleProp::MarginY => Some("marginVertical"@),
        _ => None,
    }
}

/// Each style key names the property of the same name: the key of every
/// property, and its React Native alias, read as that property, and a key
/// that reads as a property is its key or its alias. So `paddingTop` is the
/// top padding and no two keys of different edges share a property.
pub proof fn law_style_keys_name_their_property(key: Seq<char>, p: StyleProp)
    ensures
        style_prop(prop_key(p)) == Some(p),
        prop_alias(p) matches Some(a) ==> style_prop(a) == Some(p),
        style_prop(key) == Some(p) ==> key == prop_key(p) || prop_alias(p) == Some(key),
{
    reveal_strlit("padding");
    reveal_strlit("paddingTop");
    reveal_strlit("paddingRight");
    reveal_strlit("paddingBottom");
    reveal_strlit("paddingLeft");
    reveal_strlit("paddingX");
    reveal_strlit("paddingHorizontal");
    reveal_strlit("paddingY");
    reveal_strlit("paddingVertical");
    reveal_strlit("margin");
    reveal_strlit("marginTop");
    reveal_strlit("marginRight");
    reveal_strlit("marginBottom");
    reveal_strlit("marginLeft");
    reveal_strlit("marginX");
    reveal_strlit("marginHorizontal");
    reveal_strlit("marginY");
    reveal_strlit("marginVertical");
    reveal_strlit("width");
    reveal_strlit("height");
    reveal_strlit("minWidth");
    reveal_strlit("minHeight");
    reveal_strlit("maxWidth");
    reveal_strlit("maxHeight");
    reveal_strlit("gap");
    reveal_strlit("borderRadius");
    reveal_strlit("borderTopLeftRadius");
    reveal_strlit("borderTopRightRadius");
    reveal_strlit("borderBottomLeftRadius");
    reveal_strlit("borderBottomRightRadius");
    reveal_strlit("color");
    reveal_strlit("backgroundColor");
    reveal_strlit("borderColor");
    reveal_strlit("opacity");
    assert("padding"@.len() == 7 && "padding"@[0] == 'p');
    assert("paddingTop"@.len() == 10 && "paddingTop"@[0] == 'p');
    assert("paddingRight"@.len() == 12 && "paddingRight"@[0] == 'p');
    assert("paddingBottom"@.len() == 13);
    assert("paddingLeft"@.len() == 11 && "paddingLeft"@[0] == 'p');
    assert("paddingX"@.len() == 8 && "paddingX"@[0] == 'p' && "paddingX"@[7] == 'X');
    assert("paddingHorizontal"@.len() == 17);
    assert("paddingY"@.len() == 8 && "paddingY"@[0] == 'p' && "paddingY"@[7] == 'Y');
    assert("paddingVertical"@.len() == 15 && "paddingVertical"@[0] == 'p');
    assert("margin"@.len() == 6 && "margin"@[0] == 'm');
    assert("marginTop"@.len() == 9 && "marginTop"@[1] == 'a' && "marginTop"@[2] == 'r');
    assert("marginRight"@.len() == 11 && "marginRight"@[0] == 'm');
    assert("marginBottom"@.len() == 12 && "marginBottom"@[0] == 'm');
    assert("marginLeft"@.len() == 10 && "marginLeft"@[0] == 'm');
    assert("marginX"@.len() == 7 && "marginX"@[0] == 'm' && "marginX"@[6] == 'X');
    assert("marginHorizontal"@.len() == 16);
    assert("marginY"@.len() == 7 && "marginY"@[0] == 'm' && "marginY"@[6] == 'Y');
    assert("marginVertical"@.len() == 14);
    assert("width"@.len() == 5 && "width"@[0] == 'w');
    assert("height"@.len() == 6 && "height"@[0] == 'h');
    assert("minWidth"@.len() == 8 && "minWidth"@[0] == 'm' && "minWidth"@[1] == 'i');
    assert("minHeight"@.len() == 9 && "minHeight"@[1] == 'i');
    assert("maxWidth"@.len() == 8 && "maxWidth"@[0] == 'm' && "maxWidth"@[1] == 'a');
    assert("maxHeight"@.len() == 9 && "maxHeight"@[1] == 'a' && "maxHeight"@[2] == 'x');
    assert("gap"@.len() == 3);
    assert("borderRadius"@.len() == 12 && "borderRadius"@[0] == 'b');
    assert("borderTopLeftRadius"@.len() == 19);
    assert("borderTopRightRadius"@.len() == 20);
    assert("borderBottomLeftRadius"@.len() == 22);
    assert("borderBottomRightRadius"@.len() == 23);
    assert("color"@.len() == 5 && "color"@[0] == 'c');
    assert("backgroundColor"@.len() == 15 && "backgroundColor"@[0] == 'b');
    assert("borderColor"@.len() == 11 && "borderColor"@[0] == 'b');
    assert("opacity"@.len() == 7 && "opacity"@[0] == 'o');
    assert(style_prop("padding"@) == Some(StyleProp::Padding));
    assert(style_prop("paddingTop"@) == Some(StyleProp::PaddingTop));
    assert(style_prop("paddingRight"@) == Some(StyleProp::PaddingRight));
    assert(style_prop("paddingBottom"@) == Some(StyleProp::PaddingBottom));
    assert(style_prop("paddingLeft"@) == Some(StyleProp::PaddingLeft));
    assert(style_prop("paddingX"@) == Some(StyleProp::PaddingX));
    assert(style_prop("paddingHorizontal"@) == Some(StyleProp::PaddingX));
    assert(style_prop("paddingY"@) == Some(StyleProp::PaddingY));
    assert(style_prop("paddingVertical"@) == Some(StyleProp::PaddingY));
    assert(style_prop("margin"@) == Some(StyleProp::Margin));
    assert(style_prop("marginTop"@) == Some(StyleProp::MarginTop));
    assert(style_prop("marginRight"@) == Some(StyleProp::MarginRight));
    assert(style_prop("marginBottom"@) == Some(StyleProp::MarginBottom));
    assert(style_prop("marginLeft"@) == Some(StyleProp::MarginLeft));
    assert(style_prop("marginX"@) == Some(StyleProp::MarginX));
    assert(style_prop("marginHorizontal"@) == Some(StyleProp::MarginX));
    assert(style_prop("marginY"@) == Some(StyleProp::MarginY));
    assert(style_prop("marginVertical"@) == Some(StyleProp::MarginY));
    assert(style_prop("width"@) == Some(StyleProp::Width));
    assert(style_prop("height"@) == Some(StyleProp::Height));
    assert(style_prop("minWidth"@) == Some(StyleProp::MinWidth));
    assert(style_prop("minHeight"@) == Some(StyleProp::MinHeight));
    assert(style_prop("maxWidth"@) == Some(StyleProp::MaxWidth));
    assert(style_prop("maxHeight"@) == Some(StyleProp::MaxHeight));
    assert(style_prop("gap"@) == Some(StyleProp::Gap));
    assert(style_prop("borderRadius"@) == Some(StyleProp::BorderRadius));
    assert(style_prop("borderTopLeftRadius"@) == Some(StyleProp::BorderTopLeftRadius));
    assert(style_prop("borderTopRightRadius"@) == Some(StyleProp::BorderTopRightRadius));
    assert(style_prop("borderBottomLeftRadius"@) == Some(StyleProp::BorderBottomLeftRadius));
    assert(style_prop("borderBottomRightRadius"@) == Some(StyleProp::BorderBottomRightRadius));
    assert(style_prop("color"@) == Some(StyleProp::Color));
    assert(style_prop("backgroundColor"@) == Some(StyleProp::BackgroundColor));
    assert(style_prop("borderColor"@) == Some(StyleProp::BorderColor));
    assert(style_prop("opacity"@) == Some(StyleProp::Opacity));
}

/// `s` with the ASCII capitals in small letters (`str::to_ascii_lowercase`).
pub open spec fn ascii_lowercase(s: Seq<char>) -> Seq<char> {
    Seq::new(
        s.len(),
        |i: int|
            if 'A' <= s[i] && s[i] <= 'Z' {
                ((s[i] as int) + 32) as char
            } else {
                s[i]
            },
    )
}

/// Matching a word of small letters in any case is matching it after
/// making the capitals small.
proof fn lemma_ci_eq_lowercase(t: Seq<char>, lower: Seq<char>, upper: Seq<char>)
    requires
        lower.len() == upper.len(),
        forall|i: int|
            0 <= i < lower.len() ==> 'a' <= #[trigger] lower[i] && lower[i] <= 'z' && (upper[i] as int)
                == (lower[i] as int) - 32,
    ensures
        ascii_ci_eq(t, lower, upper) <==> ascii_lowercase(t) == lower,
{
    let l = ascii_lowercase(t);
    if ascii_ci_eq(t, lower, upper) {
        assert forall|i: int| 0 <= i < l.len() implies l[i] == lower[i] by {
            assert(t[i] == lower[i] || t[i] == upper[i]);
        }
        assert(l =~= lower);
    }
    if l == lower {
        assert forall|i: int| 0 <= i < t.len() implies t[i] == lower[i] || t[i] == upper[i] by {
            assert(l[i] == lower[i]);
        }
    }
}

/// The named colours are read in any case, around white space too, and
/// give their fixed values: white, black, red, green (CSS `#008000`) and
/// blue. A named colour is never refused.
pub proof fn law_named_colours(s: Seq<char>)
    ensures
        ascii_lowercase(trimmed(s)) == "white"@ ==> color_spec(s) == Some(
            Color::<Seq<char>>::Rgb(0xFFFFFF),
        ),
        ascii_lowercase(trimmed(s)) == "black"@ ==> color_spec(s) == Some(
            Color::<Seq<char>>::Rgb(0x000000),
        ),
        ascii_lowercase(trimmed(s)) == "red"@ ==> color_spec(s) == Some(
            Color::<Seq<char>>::Rgb(0xFF0000),
        ),
        ascii_lowercase(trimmed(s)) == "green"@ ==> color_spec(s) == Some(
            Color::<Seq<char>>::Rgb(0x008000),
        ),
        ascii_lowercase(trimmed(s)) == "blue"@ ==> color_spec(s) == Some(
            Color::<Seq<char>>::Rgb(0x0000FF),
        ),
{
    let t = trimmed(s);
    reveal_strlit("white");
    assert("white"@ =~= seq!['w', 'h', 'i', 't', 'e']);
    lemma_ci_eq_lowercase(t, seq!['w', 'h', 'i', 't', 'e'], seq!['W', 'H', 'I', 'T', 'E']);
    reveal_strlit("black");
    assert("black"@ =~= seq!['b', 'l', 'a', 'c', 'k']);
    lemma_ci_eq_lowercase(t, seq!['b', 'l', 'a', 'c', 'k'], seq!['B', 'L', 'A', 'C', 'K']);
    reveal_strlit("red");
    assert("red"@ =~= seq!['r', 'e', 'd']);
    lemma_ci_eq_lowercase(t, seq!['r', 'e', 'd'], seq!['R', 'E', 'D']);
    reveal_strlit("green");
    assert("green"@ =~= seq!['g', 'r', 'e', 'e', 'n']);
    lemma_ci_eq_lowercase(t, seq!['g', 'r', 'e', 'e', 'n'], seq!['G', 'R', 'E', 'E', 'N']);
    reveal_strlit("blue");
    assert("blue"@ =~= seq!['b', 'l', 'u', 'e']);
    lemma_ci_eq_lowercase(t, seq!['b', 'l', 'u', 'e'], seq!['B', 'L', 'U', 'E']);
}

} // verus!
