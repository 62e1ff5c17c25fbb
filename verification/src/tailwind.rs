//! The Tailwind class subset.
//!
//! `parse` turns a class list into the style operations it names, in order;
//! unknown classes are dropped silently. Each operation is a plain value:
//! the renderer applies it to a GPUI `div` as one fluent method call, with
//! spacing amounts (`p-4`, `gap-2`, `w-12`) in units of 4 px.
use vstd::prelude::*;

use crate::numbers::{is_float_literal, is_float_text, parse_u16, unsigned_parse};
use crate::text::{lemma_last_index_is, rsplit_once, rsplit_once_char, str_eq, strip_prefix, stripped_prefix, to_owned_string};

verus! {

/// Which padding or margin edge a spacing class sets.
#[derive(Debug, Clone, Copy, PartialEq, Eq)]
pub enum Spacing {
    P,
    Px,
    Py,
    Pt,
    Pr,
    Pb,
    Pl,
    M,
    Mx,
    My,
    Mt,
    Mr,
    Mb,
    Ml,
}

/// One style operation named by a class. `S` is the text type of the
/// numeric amounts: `String` for values, `Seq<char>` for their models.
#[derive(Debug, Clone, PartialEq, Eq)]
pub enum ClassStyle<S> {
    Flex,
    FlexCol,
    FlexRow,
    Flex1,
    ItemsCenter,
    ItemsStart,
    ItemsEnd,
    JustifyCenter,
    JustifyBetween,
    JustifyStart,
    JustifyEnd,
    /// Corner radius in px.
    Rounded(u32),
    Border,
    WFull,
    HFull,
    SizeFull,
    TextXs,
    TextSm,
    TextBase,
    TextLg,
    TextXl,
    Text2xl,
    Text3xl,
    /// Font size in px, for sizes GPUI has no helper for.
    TextSize(u32),
    FontSemibold,
    FontBold,
    LineThrough,
    /// Gap of `amount * 4` px.
    Gap(S),
    /// Padding or margin of `amount * 4` px on the given edges.
    Spaced(Spacing, S),
    /// Width of `amount * 4` px.
    Width(S),
    /// Height of `amount * 4` px.
    Height(S),
    /// Background colour `0xRRGGBB`.
    Bg(u32),
    /// Text colour `0xRRGGBB`.
    TextColor(u32),
    /// Border colour `0xRRGGBB`.
    BorderColor(u32),
}

/// A class style as the renderer receives it.
pub type StyleOp = ClassStyle<String>;

/// A class style as the specifications see it.
pub type StyleOpModel = ClassStyle<Seq<char>>;

impl View for ClassStyle<String> {
    type V = ClassStyle<Seq<char>>;

    open spec fn view(&self) -> ClassStyle<Seq<char>> {
        match self {
            ClassStyle::Flex => ClassStyle::Flex,
            ClassStyle::FlexCol => ClassStyle::FlexCol,
            ClassStyle::FlexRow => ClassStyle::FlexRow,
            ClassStyle::Flex1 => ClassStyle::Flex1,
            ClassStyle::ItemsCenter => ClassStyle::ItemsCenter,
            ClassStyle::ItemsStart => ClassStyle::ItemsStart,
            ClassStyle::ItemsEnd => ClassStyle::ItemsEnd,
            ClassStyle::JustifyCenter => ClassStyle::JustifyCenter,
            ClassStyle::JustifyBetween => ClassStyle::JustifyBetween,
            ClassStyle::JustifyStart => ClassStyle::JustifyStart,
            ClassStyle::JustifyEnd => ClassStyle::JustifyEnd,
            ClassStyle::Rounded(r) => ClassStyle::Rounded(*r),
            ClassStyle::Border => ClassStyle::Border,
            ClassStyle::WFull => ClassStyle::WFull,
            ClassStyle::HFull => ClassStyle::HFull,
            ClassStyle::SizeFull => ClassStyle::SizeFull,
            ClassStyle::TextXs => ClassStyle::TextXs,
            ClassStyle::TextSm => ClassStyle::TextSm,
            ClassStyle::TextBase => ClassStyle::TextBase,
            ClassStyle::TextLg => ClassStyle::TextLg,
            ClassStyle::TextXl => ClassStyle::TextXl,
            ClassStyle::Text2xl => ClassStyle::Text2xl,
            ClassStyle::Text3xl => ClassStyle::Text3xl,
            ClassStyle::TextSize(n) => ClassStyle::TextSize(*n),
            ClassStyle::FontSemibold => ClassStyle::FontSemibold,
            ClassStyle::FontBold => ClassStyle::FontBold,
            ClassStyle::LineThrough => ClassStyle::LineThrough,
            ClassStyle::Gap(t) => ClassStyle::Gap(t@),
            ClassStyle::Spaced(side, t) => ClassStyle::Spaced(*side, t@),
            ClassStyle::Width(t) => ClassStyle::Width(t@),
            ClassStyle::Height(t) => ClassStyle::Height(t@),
            ClassStyle::Bg(c) => ClassStyle::Bg(*c),
            ClassStyle::TextColor(c) => ClassStyle::TextColor(*c),
            ClassStyle::BorderColor(c) => ClassStyle::BorderColor(*c),
        }
    }
}

/// An optional class style by its model.
pub open spec fn style_model(o: Option<StyleOp>) -> Option<StyleOpModel> {
    match o {
        Some(op) => Some(op@),
        None => None,
    }
}

/// The classes that name a style by their whole text.
pub open spec fn keyword_style(c: Seq<char>) -> Option<StyleOpModel> {
    if c == "flex"@ {
        Some(ClassStyle::Flex)
    } else if c == "flex-col"@ {
        Some(ClassStyle::FlexCol)
    } else if c == "flex-row"@ {
        Some(ClassStyle::FlexRow)
    } else if c == "flex-1"@ {
        Some(ClassStyle::Flex1)
    } else if c == "items-center"@ {
        Some(ClassStyle::ItemsCenter)
    } else if c == "items-start"@ {
        Some(ClassStyle::ItemsStart)
    } else if c == "items-end"@ {
        Some(ClassStyle::ItemsEnd)
    } else if c == "justify-center"@ {
        Some(ClassStyle::JustifyCenter)
    } else if c == "justify-between"@ {
        Some(ClassStyle::JustifyBetween)
    } else if c == "justify-start"@ {
        Some(ClassStyle::JustifyStart)
    } else if c == "justify-end"@ {
        Some(ClassStyle::JustifyEnd)
    } else if c == "rounded"@ {
        Some(ClassStyle::Rounded(4))
    } else if c == "rounded-md"@ {
        Some(ClassStyle::Rounded(6))
    } else if c == "rounded-lg"@ {
        Some(ClassStyle::Rounded(8))
    } else if c == "rounded-full"@ {
        Some(ClassStyle::Rounded(9999))
    } else if c == "border"@ {
        Some(ClassStyle::Border)
    } else if c == "w-full"@ {
        Some(ClassStyle::WFull)
    } else if c == "h-full"@ {
        Some(ClassStyle::HFull)
    } else if c == "size-full"@ {
        Some(ClassStyle::SizeFull)
    } else if c == "text-xs"@ {
        Some(ClassStyle::TextXs)
    } else if c == "text-sm"@ {
        Some(ClassStyle::TextSm)
    } else if c == "text-base"@ {
        Some(ClassStyle::TextBase)
    } else if c == "text-lg"@ {
        Some(ClassStyle::TextLg)
    } else if c == "text-xl"@ {
        Some(ClassStyle::TextXl)
    } else if c == "text-2xl"@ {
        Some(ClassStyle::Text2xl)
    } else if c == "text-3xl"@ {
        Some(ClassStyle::Text3xl)
    } else if c == "text-4xl"@ {
        Some(ClassStyle::TextSize(36))
    } else if c == "text-5xl"@ {
        Some(ClassStyle::TextSize(48))
    } else if c == "font-semibold"@ {
        Some(ClassStyle::FontSemibold)
    } else if c == "font-bold"@ {
        Some(ClassStyle::FontBold)
    } else if c == "line-through"@ {
        Some(ClassStyle::LineThrough)
    } else {
        None
    }
}

/// The float literal after `prefix`, if `c` is `prefix` followed by one.
pub open spec fn amount_after(c: Seq<char>, prefix: Seq<char>) -> Option<Seq<char>> {
    match stripped_prefix(c, prefix) {
        Some(rest) => if is_float_literal(rest) {
            Some(rest)
        } else {
            None
        },
        None => None,
    }
}

/// Padding and margin classes, tried in the order `p px py pt pr pb pl m mx
/// my mt mr mb ml`.
pub open spec fn spacing_style(c: Seq<char>) -> Option<StyleOpModel> {
    if amount_after(c, "p-"@) is Some {
        Some(ClassStyle::Spaced(Spacing::P, amount_after(c, "p-"@)->0))
    } else if amount_after(c, "px-"@) is Some {
        Some(ClassStyle::Spaced(Spacing::Px, amount_after(c, "px-"@)->0))
    } else if amount_after(c, "py-"@) is Some {
        Some(ClassStyle::Spaced(Spacing::Py, amount_after(c, "py-"@)->0))
    } else if amount_after(c, "pt-"@) is Some {
        Some(ClassStyle::Spaced(Spacing::Pt, amount_after(c, "pt-"@)->0))
    } else if amount_after(c, "pr-"@) is Some {
        Some(ClassStyle::Spaced(Spacing::Pr, amount_after(c, "pr-"@)->0))
    } else if amount_after(c, "pb-"@) is Some {
        Some(ClassStyle::Spaced(Spacing::Pb, amount_after(c, "pb-"@)->0))
    } else if amount_after(c, "pl-"@) is Some {
        Some(ClassStyle::Spaced(Spacing::Pl, amount_after(c, "pl-"@)->0))
    } else if amount_after(c, "m-"@) is Some {
        Some(ClassStyle::Spaced(Spacing::M, amount_after(c, "m-"@)->0))
    } else if amount_after(c, "mx-"@) is Some {
        Some(ClassStyle::Spaced(Spacing::Mx, amount_after(c, "mx-"@)->0))
    } else if amount_after(c, "my-"@) is Some {
        Some(ClassStyle::Spaced(Spacing::My, amount_after(c, "my-"@)->0))
    } else if amount_after(c, "mt-"@) is Some {
        Some(ClassStyle::Spaced(Spacing::Mt, amount_after(c, "mt-"@)->0))
    } else if amount_after(c, "mr-"@) is Some {
        Some(ClassStyle::Spaced(Spacing::Mr, amount_after(c, "mr-"@)->0))
    } else if amount_after(c, "mb-"@) is Some {
        Some(ClassStyle::Spaced(Spacing::Mb, amount_after(c, "mb-"@)->0))
    } else if amount_after(c, "ml-"@) is Some {
        Some(ClassStyle::Spaced(Spacing::Ml, amount_after(c, "ml-"@)->0))
    } else {
        None
    }
}

/// Position of a Tailwind shade (50, 100, ..., 900) in a palette row, or -1.
pub open spec fn shade_index(shade: int) -> int {
    if shade == 50 {
        0
    } else if 100 <= shade <= 900 && shade % 100 == 0 {
        shade / 100
    } else {
        -1
    }
}

/// The palette row of a colour name: its shades 50, 100, ..., 900.
pub open spec fn palette_row(color: Seq<char>) -> Option<Seq<u32>> {
    if color == "slate"@ {
        Some(
            seq![
                0xF8FAFCu32,
                0xF1F5F9,
                0xE2E8F0,
                0xCBD5E1,
                0x94A3B8,
                0x64748B,
                0x475569,
                0x334155,
                0x1E293B,
                0x0F172A,
            ],
        )
    } else if color == "gray"@ {
        Some(
            seq![
                0xF9FAFBu32,
                0xF3F4F6,
                0xE5E7EB,
                0xD1D5DB,
                0x9CA3AF,
                0x6B7280,
                0x4B5563,
                0x374151,
                0x1F2937,
                0x111827,
            ],
        )
    } else if color == "blue"@ {
        Some(
            seq![
                0xEFF6FFu32,
                0xDBEAFE,
                0xBFDBFE,
                0x93C5FD,
                0x60A5FA,
                0x3B82F6,
                0x2563EB,
                0x1D4ED8,
                0x1E40AF,
                0x1E3A8A,
            ],
        )
    } else if color == "red"@ {
        Some(
            seq![
                0xFEF2F2u32,
                0xFEE2E2,
                0xFECACA,
                0xFCA5A5,
                0xF87171,
                0xEF4444,
                0xDC2626,
                0xB91C1C,
                0x991B1B,
                0x7F1D1D,
            ],
        )
    } else if color == "green"@ {
        Some(
            seq![
                0xF0FDF4u32,
                0xDCFCE7,
                0xBBF7D0,
                0x86EFAC,
                0x4ADE80,
                0x22C55E,
                0x16A34A,
                0x15803D,
                0x166534,
                0x14532D,
            ],
        )
    } else if color == "purple"@ {
        Some(
            seq![
                0xFAF5FFu32,
                0xF3E8FF,
                0xE9D5FF,
                0xD8B4FE,
                0xC084FC,
                0xA855F7,
                0x9333EA,
                0x7E22CE,
                0x6B21A8,
                0x581C87,
            ],
        )
    } else if color == "orange"@ {
        Some(
            seq![
                0xFFF7EDu32,
                0xFFEDD5,
                0xFED7AA,
                0xFDBA74,
                0xFB923C,
                0xF97316,
                0xEA580C,
                0xC2410C,
                0x9A3412,
                0x7C2D12,
            ],
        )
    } else if color == "yellow"@ {
        Some(
            seq![
                0xFEFCE8u32,
                0xFEF9C3,
                0xFEF08A,
                0xFDE047,
                0xFACC15,
                0xEAB308,
                0xCA8A04,
                0xA16207,
                0x854D0E,
                0x713F12,
            ],
        )
    } else {
        None
    }
}

/// The colour of a palette name: `white`, `black`, or `<colour>-<shade>`
/// where the shade is what `u16` parsing reads from the text after the last
/// `-`.
pub open spec fn palette_spec(name: Seq<char>) -> Option<u32> {
    if name == "white"@ {
        Some(0xFFFFFF)
    } else if name == "black"@ {
        Some(0x000000)
    } else {
        match rsplit_once(name, '-') {
            None => None,
            Some((color, shade_text)) => match unsigned_parse(shade_text, 10, 65535) {
                None => None,
                Some(shade) => match palette_row(color) {
                    None => None,
                    Some(row) => if shade_index(shade) >= 0 {
                        Some(row[shade_index(shade)])
                    } else {
                        None
                    },
                },
            },
        }
    }
}

/// The palette colour after `prefix`, if any.
pub open spec fn color_after(c: Seq<char>, prefix: Seq<char>) -> Option<u32> {
    match stripped_prefix(c, prefix) {
        Some(rest) => palette_spec(rest),
        None => None,
    }
}

/// The style a single class names, if it is one of the subset.
pub open spec fn class_style(c: Seq<char>) -> Option<StyleOpModel> {
    if keyword_style(c) is Some {
        keyword_style(c)
    } else if stripped_prefix(c, "gap-"@) is Some {
        match amount_after(c, "gap-"@) {
            Some(n) => Some(ClassStyle::Gap(n)),
            None => None,
        }
    } else if spacing_style(c) is Some {
        spacing_style(c)
    } else if amount_after(c, "w-"@) is Some {
        Some(ClassStyle::Width(amount_after(c, "w-"@)->0))
    } else if amount_after(c, "h-"@) is Some {
        Some(ClassStyle::Height(amount_after(c, "h-"@)->0))
    } else if color_after(c, "bg-"@) is Some {
        Some(ClassStyle::Bg(color_after(c, "bg-"@)->0))
    } else if color_after(c, "text-"@) is Some {
        Some(ClassStyle::TextColor(color_after(c, "text-"@)->0))
    } else if color_after(c, "border-"@) is Some {
        Some(ClassStyle::BorderColor(color_after(c, "border-"@)->0))
    } else {
        None
    }
}

/// The styles a class list names, in order, unknown classes dropped.
pub open spec fn class_styles(classes: Seq<Seq<char>>) -> Seq<StyleOpModel> {
    classes.filter_map(|c: Seq<char>| class_style(c))
}

/// The class named by its whole text, if it is one.
fn keyword(c: &str) -> (r: Option<StyleOp>)
    ensures
        style_model(r) == keyword_style(c@),
{
    if str_eq(c, "flex") {
        return Some(ClassStyle::Flex);
    }
    if str_eq(c, "flex-col") {
        return Some(ClassStyle::FlexCol);
    }
    if str_eq(c, "flex-row") {
        return Some(ClassStyle::FlexRow);
    }
    if str_eq(c, "flex-1") {
        return Some(ClassStyle::Flex1);
    }
    if str_eq(c, "items-center") {
        return Some(ClassStyle::ItemsCenter);
    }
    if str_eq(c, "items-start") {
        return Some(ClassStyle::ItemsStart);
    }
    if str_eq(c, "items-end") {
        return Some(ClassStyle::ItemsEnd);
    }
    if str_eq(c, "justify-center") {
        return Some(ClassStyle::JustifyCenter);
    }
    if str_eq(c, "justify-between") {
        return Some(ClassStyle::JustifyBetween);
    }
    if str_eq(c, "justify-start") {
        return Some(ClassStyle::JustifyStart);
    }
    if str_eq(c, "justify-end") {
        return Some(ClassStyle::JustifyEnd);
    }
    if str_eq(c, "rounded") {
        return Some(ClassStyle::Rounded(4));
    }
    if str_eq(c, "rounded-md") {
        return Some(ClassStyle::Rounded(6));
    }
    if str_eq(c, "rounded-lg") {
        return Some(ClassStyle::Rounded(8));
    }
    if str_eq(c, "rounded-full") {
        return Some(ClassStyle::Rounded(9999));
    }
    if str_eq(c, "border") {
        return Some(ClassStyle::Border);
    }
    if str_eq(c, "w-full") {
        return Some(ClassStyle::WFull);
    }
    if str_eq(c, "h-full") {
        return Some(ClassStyle::HFull);
    }
    if str_eq(c, "size-full") {
        return Some(ClassStyle::SizeFull);
    }
    if str_eq(c, "text-xs") {
        return Some(ClassStyle::TextXs);
    }
    if str_eq(c, "text-sm") {
        return Some(ClassStyle::TextSm);
    }
    if str_eq(c, "text-base") {
        return Some(ClassStyle::TextBase);
    }
    if str_eq(c, "text-lg") {
        return Some(ClassStyle::TextLg);
    }
    if str_eq(c, "text-xl") {
        return Some(ClassStyle::TextXl);
    }
    if str_eq(c, "text-2xl") {
        return Some(ClassStyle::Text2xl);
    }
    if str_eq(c, "text-3xl") {
        return Some(ClassStyle::Text3xl);
    }
    if str_eq(c, "text-4xl") {
        return Some(ClassStyle::TextSize(36));
    }
    if str_eq(c, "text-5xl") {
        return Some(ClassStyle::TextSize(48));
    }
    if str_eq(c, "font-semibold") {
        return Some(ClassStyle::FontSemibold);
    }
    if str_eq(c, "font-bold") {
        return Some(ClassStyle::FontBold);
    }
    if str_eq(c, "line-through") {
        return Some(ClassStyle::LineThrough);
    }
    None
}

/// The float literal after `prefix`, if `c` is `prefix` followed by one.
fn amount<'a>(c: &'a str, prefix: &str) -> (r: Option<&'a str>)
    ensures
        match r {
            Some(t) => amount_after(c@, prefix@) == Some(t@),
            None => amount_after(c@, prefix@) is None,
        },
{
    match strip_prefix(c, prefix) {
        Some(rest) => if is_float_text(rest) {
            Some(rest)
        } else {
            None
        },
        None => None,
    }
}

/// The padding or margin class, if `c` is one.
fn spacing(c: &str) -> (r: Option<StyleOp>)
    ensures
        style_model(r) == spacing_style(c@),
{
    if let Some(t) = amount(c, "p-") {
        return Some(ClassStyle::Spaced(Spacing::P, to_owned_string(t)));
    }
    if let Some(t) = amount(c, "px-") {
        return Some(ClassStyle::Spaced(Spacing::Px, to_owned_string(t)));
    }
    if let Some(t) = amount(c, "py-") {
        return Some(ClassStyle::Spaced(Spacing::Py, to_owned_string(t)));
    }
    if let Some(t) = amount(c, "pt-") {
        return Some(ClassStyle::Spaced(Spacing::Pt, to_owned_string(t)));
    }
    if let Some(t) = amount(c, "pr-") {
        return Some(ClassStyle::Spaced(Spacing::Pr, to_owned_string(t)));
    }
    if let Some(t) = amount(c, "pb-") {
        return Some(ClassStyle::Spaced(Spacing::Pb, to_owned_string(t)));
    }
    if let Some(t) = amount(c, "pl-") {
        return Some(ClassStyle::Spaced(Spacing::Pl, to_owned_string(t)));
    }
    if let Some(t) = amount(c, "m-") {
        return Some(ClassStyle::Spaced(Spacing::M, to_owned_string(t)));
    }
    if let Some(t) = amount(c, "mx-") {
        return Some(ClassStyle::Spaced(Spacing::Mx, to_owned_string(t)));
    }
    if let Some(t) = amount(c, "my-") {
        return Some(ClassStyle::Spaced(Spacing::My, to_owned_string(t)));
    }
    if let Some(t) = amount(c, "mt-") {
        return Some(ClassStyle::Spaced(Spacing::Mt, to_owned_string(t)));
    }
    if let Some(t) = amount(c, "mr-") {
        return Some(ClassStyle::Spaced(Spacing::Mr, to_owned_string(t)));
    }
    if let Some(t) = amount(c, "mb-") {
        return Some(ClassStyle::Spaced(Spacing::Mb, to_owned_string(t)));
    }
    if let Some(t) = amount(c, "ml-") {
        return Some(ClassStyle::Spaced(Spacing::Ml, to_owned_string(t)));
    }
    None
}

/// The palette row of a colour name.
fn row(color: &str) -> (r: Option<[u32; 10]>)
    ensures
        match r {
            Some(a) => palette_row(color@) == Some(a@),
            None => palette_row(color@) is None,
        },
{
    if str_eq(color, "slate") {
        return Some([0xF8FAFCu32, 0xF1F5F9, 0xE2E8F0, 0xCBD5E1, 0x94A3B8, 0x64748B, 0x475569, 0x334155, 0x1E293B, 0x0F172A]);
    }
    if str_eq(color, "gray") {
        return Some([0xF9FAFBu32, 0xF3F4F6, 0xE5E7EB, 0xD1D5DB, 0x9CA3AF, 0x6B7280, 0x4B5563, 0x374151, 0x1F2937, 0x111827]);
    }
    if str_eq(color, "blue") {
        return Some([0xEFF6FFu32, 0xDBEAFE, 0xBFDBFE, 0x93C5FD, 0x60A5FA, 0x3B82F6, 0x2563EB, 0x1D4ED8, 0x1E40AF, 0x1E3A8A]);
    }
    if str_eq(color, "red") {
        return Some([0xFEF2F2u32, 0xFEE2E2, 0xFECACA, 0xFCA5A5, 0xF87171, 0xEF4444, 0xDC2626, 0xB91C1C, 0x991B1B, 0x7F1D1D]);
    }
    if str_eq(color, "green") {
        return Some([0xF0FDF4u32, 0xDCFCE7, 0xBBF7D0, 0x86EFAC, 0x4ADE80, 0x22C55E, 0x16A34A, 0x15803D, 0x166534, 0x14532D]);
    }
    if str_eq(color, "purple") {
        return Some([0xFAF5FFu32, 0xF3E8FF, 0xE9D5FF, 0xD8B4FE, 0xC084FC, 0xA855F7, 0x9333EA, 0x7E22CE, 0x6B21A8, 0x581C87]);
    }
    if str_eq(color, "orange") {
        return Some([0xFFF7EDu32, 0xFFEDD5, 0xFED7AA, 0xFDBA74, 0xFB923C, 0xF97316, 0xEA580C, 0xC2410C, 0x9A3412, 0x7C2D12]);
    }
    if str_eq(color, "yellow") {
        return Some([0xFEFCE8u32, 0xFEF9C3, 0xFEF08A, 0xFDE047, 0xFACC15, 0xEAB308, 0xCA8A04, 0xA16207, 0x854D0E, 0x713F12]);
    }
    None
}

/// The position of a shade in a palette row.
fn shade_position(shade: u16) -> (r: Option<usize>)
    ensures
        match r {
            Some(i) => shade_index(shade as int) == i && i < 10,
            None => shade_index(shade as int) < 0,
        },
{
    if shade == 50 {
        Some(0)
    } else if 100 <= shade && shade <= 900 && shade % 100 == 0 {
        Some((shade / 100) as usize)
    } else {
        None
    }
}

/// Tailwind palette subset: `0xRRGGBB` for `white`, `black` and the shades
/// 50, 100, ..., 900 of slate, gray, blue, red, green, purple, orange and
/// yellow.
pub fn palette(name: &str) -> (r: Option<u32>)
    ensures
        r == palette_spec(name@),
{
    if str_eq(name, "white") {
        return Some(0xFFFFFF);
    }
    if str_eq(name, "black") {
        return Some(0x000000);
    }
    let (color, shade_text) = match rsplit_once_char(name, '-') {
        Some(parts) => parts,
        None => return None,
    };
    let shade = match parse_u16(shade_text) {
        Some(v) => v,
        None => return None,
    };
    let colors = match row(color) {
        Some(a) => a,
        None => return None,
    };
    match shade_position(shade) {
        Some(i) => Some(colors[i]),
        None => None,
    }
}

/// The palette colour after `prefix`, if any.
fn color(c: &str, prefix: &str) -> (r: Option<u32>)
    ensures
        r == color_after(c@, prefix@),
{
    match strip_prefix(c, prefix) {
        Some(rest) => palette(rest),
        None => None,
    }
}

/// The style a single class names; `None` for a class outside the subset.
pub fn parse_one(c: &str) -> (r: Option<StyleOp>)
    ensures
        style_model(r) == class_style(c@),
{
    let k = keyword(c);
    if k.is_some() {
        return k;
    }
    if strip_prefix(c, "gap-").is_some() {
        return match amount(c, "gap-") {
            Some(n) => Some(ClassStyle::Gap(to_owned_string(n))),
            None => None,
        };
    }
    let sp = spacing(c);
    if sp.is_some() {
        return sp;
    }
    if let Some(n) = amount(c, "w-") {
        return Some(ClassStyle::Width(to_owned_string(n)));
    }
    if let Some(n) = amount(c, "h-") {
        return Some(ClassStyle::Height(to_owned_string(n)));
    }
    if let Some(v) = color(c, "bg-") {
        return Some(ClassStyle::Bg(v));
    }
    if let Some(v) = color(c, "text-") {
        return Some(ClassStyle::TextColor(v));
    }
    if let Some(v) = color(c, "border-") {
        return Some(ClassStyle::BorderColor(v));
    }
    None
}

/// Parses a class list into the style ops it names, in order. Unknown
/// classes are dropped silently.
pub fn parse(classes: &[String]) -> (ops: Vec<StyleOp>)
    ensures
        ops@.map_values(|o: StyleOp| o@) == class_styles(classes@.map_values(|s: String| s@)),
{
    let ghost cs = classes@.map_values(|s: String| s@);
    let mut ops: Vec<StyleOp> = Vec::new();
    let mut i: usize = 0;
    while i < classes.len()
        invariant
            i <= classes.len(),
            cs == classes@.map_values(|s: String| s@),
            ops@.map_values(|o: StyleOp| o@) == class_styles(cs.take(i as int)),
        decreases classes.len() - i,
    {
        let r = parse_one(classes[i].as_str());
        proof {
            cs.lemma_filter_map_take_succ(|c: Seq<char>| class_style(c), i as int);
        }
        match r {
            Some(op) => {
                let ghost before = ops@.map_values(|o: StyleOp| o@);
                ops.push(op);
                assert(ops@.map_values(|o: StyleOp| o@) =~= before + seq![op@]);
            },
            None => {},
        }
        i += 1;
    }
    assert(cs.take(classes.len() as int) =~= cs);
    ops
}

/// Unknown classes are dropped silently and known ones keep their order:
/// one more class adds its style at the end, or nothing.
pub proof fn law_unknown_classes_are_dropped(classes: Seq<Seq<char>>, c: Seq<char>)
    ensures
        class_style(c) is None ==> class_styles(classes.push(c)) == class_styles(classes),
        class_style(c) is Some ==> class_styles(classes.push(c)) == class_styles(classes).push(
            class_style(c)->0,
        ),
{
    assert(classes.push(c).drop_last() =~= classes);
    if class_style(c) is Some {
        assert(class_styles(classes) + seq![class_style(c)->0] =~= class_styles(classes).push(
            class_style(c)->0,
        ));
    }
}

/// Parsing a class list is parsing its parts: the styles of `a` then `b`
/// are the styles of `a` followed by those of `b`.
pub proof fn law_class_lists_concatenate(a: Seq<Seq<char>>, b: Seq<Seq<char>>)
    ensures
        class_styles(a + b) == class_styles(a) + class_styles(b),
    decreases b.len(),
{
    if b.len() == 0 {
        assert(a + b =~= a);
        assert(class_styles(a) + class_styles(b) =~= class_styles(a));
    } else {
        let b1 = b.drop_last();
        law_class_lists_concatenate(a, b1);
        assert((a + b).drop_last() =~= a + b1);
        assert((a + b).last() == b.last());
        let f = |c: Seq<char>| class_style(c);
        match f(b.last()) {
            Some(x) => {
                assert(class_styles(a + b) =~= class_styles(a) + class_styles(b));
            },
            None => {
                assert(class_styles(a + b) =~= class_styles(a) + class_styles(b));
            },
        }
    }
}

/// A palette name `<colour>-<shade>` splits at its last dash: a shade text
/// without a dash is read as a `u16` and looked up in the colour's row.
pub proof fn law_palette_splits_at_last_dash(color: Seq<char>, shade: Seq<char>)
    requires
        !shade.contains('-'),
        color + seq!['-'] + shade != "white"@,
        color + seq!['-'] + shade != "black"@,
    ensures
        palette_spec(color + seq!['-'] + shade) == match unsigned_parse(shade, 10, 65535) {
            None => None,
            Some(v) => match palette_row(color) {
                None => None,
                Some(row) => if shade_index(v) >= 0 {
                    Some(row[shade_index(v)])
                } else {
                    None
                },
            },
        },
{
    let name = color + seq!['-'] + shade;
    let k = color.len() as int;
    assert(name[k] == '-');
    assert forall|j: int| k < j < name.len() implies name[j] != '-' by {
        assert(name[j] == shade[j - k - 1]);
    }
    crate::text::lemma_last_index_is(name, '-', k);
    assert(name.take(k) =~= color);
    assert(name.skip(k + 1) =~= shade);
}

/// Every colour of the palette has all ten shades 50, 100, ..., 900.
pub proof fn law_palette_covers_all_shades(color: Seq<char>, shade: int)
    requires
        color == "slate"@ || color == "gray"@ || color == "blue"@ || color == "red"@ || color
            == "green"@ || color == "purple"@ || color == "orange"@ || color == "yellow"@,
        shade == 50 || (100 <= shade <= 900 && shade % 100 == 0),
    ensures
        palette_row(color) matches Some(row) && row.len() == 10 && 0 <= shade_index(shade) < 10,
{
}

/// The class that names a keyword style, if the style has one: the class is
/// the style's name in Tailwind (`FlexRow` is `flex-row`, `Rounded(6)` is
/// `rounded-md`).
pub open spec fn keyword_class(op: StyleOpModel) -> Option<Seq<char>> {
    match op {
        ClassStyle::Flex => Some("flex"@),
        ClassStyle::FlexCol => Some("flex-col"@),
        ClassStyle::FlexRow => Some("flex-row"@),
        ClassStyle::Flex1 => Some("flex-1"@),
        ClassStyle::ItemsCenter => Some("items-center"@),
        ClassStyle::ItemsStart => Some("items-start"@),
        ClassStyle::ItemsEnd => Some("items-end"@),
        ClassStyle::JustifyCenter => Some("justify-center"@),
        ClassStyle::JustifyBetween => Some("justify-between"@),
        ClassStyle::JustifyStart => Some("justify-start"@),
        ClassStyle::JustifyEnd => Some("justify-end"@),
        ClassStyle::Border => Some("border"@),
        ClassStyle::WFull => Some("w-full"@),
        ClassStyle::HFull => Some("h-full"@),
        ClassStyle::SizeFull => Some("size-full"@),
        ClassStyle::TextXs => Some("text-xs"@),
        ClassStyle::TextSm => Some("text-sm"@),
        ClassStyle::TextBase => Some("text-base"@),
        ClassStyle::TextLg => Some("text-lg"@),
        ClassStyle::TextXl => Some("text-xl"@),
        ClassStyle::Text2xl => Some("text-2xl"@),
        ClassStyle::Text3xl => Some("text-3xl"@),
        ClassStyle::FontSemibold => Some("font-semibold"@),
        ClassStyle::FontBold => Some("font-bold"@),
        ClassStyle::LineThrough => Some("line-through"@),
        ClassStyle::Rounded(r) => {
            if r == 4 {
                Some("rounded"@)
            } else if r == 6 {
                Some("rounded-md"@)
            } else if r == 8 {
                Some("rounded-lg"@)
            } else if r == 9999 {
                Some("rounded-full"@)
            } else {
                None
            }
        },
        ClassStyle::TextSize(n) => {
            if n == 36 {
                Some("text-4xl"@)
            } else if n == 48 {
                Some("text-5xl"@)
            } else {
                None
            }
        },
        _ => None,
    }
}

/// Keyword classes parse to the style they name and nothing else does:
/// `keyword_class(op) == Some(c)` gives `class_style(c) == Some(op)` (so
/// `flex-row` parses to `FlexRow`, `flex-col` to `FlexCol`), and a class
/// that parses to a style with a name is that name.
pub proof fn law_keyword_classes_name_their_style(c: Seq<char>, op: StyleOpModel)
    ensures
        keyword_class(op) == Some(c) ==> class_style(c) == Some(op),
        class_style(c) == Some(op) && keyword_class(op) is Some ==> keyword_class(op) == Some(c),
{
    reveal_strlit("flex");
    reveal_strlit("flex-col");
    reveal_strlit("flex-row");
    reveal_strlit("flex-1");
    reveal_strlit("items-center");
    reveal_strlit("items-start");
    reveal_strlit("items-end");
    reveal_strlit("justify-center");
    reveal_strlit("justify-between");
    reveal_strlit("justify-start");
    reveal_strlit("justify-end");
    reveal_strlit("rounded");
    reveal_strlit("rounded-md");
    reveal_strlit("rounded-lg");
    reveal_strlit("rounded-full");
    reveal_strlit("border");
    reveal_strlit("w-full");
    reveal_strlit("h-full");
    reveal_strlit("size-full");
    reveal_strlit("text-xs");
    reveal_strlit("text-sm");
    reveal_strlit("text-base");
    reveal_strlit("text-lg");
    reveal_strlit("text-xl");
    reveal_strlit("text-2xl");
    reveal_strlit("text-3xl");
    reveal_strlit("text-4xl");
    reveal_strlit("text-5xl");
    reveal_strlit("font-semibold");
    reveal_strlit("font-bold");
    reveal_strlit("line-through");
    assert("flex"@.len() == 4);
    assert("flex-col"@.len() == 8 && "flex-col"@[0] == 'f' && "flex-col"@[5] == 'c');
    assert("flex-row"@.len() == 8 && "flex-row"@[0] == 'f' && "flex-row"@[5] == 'r');
    assert("flex-1"@.len() == 6 && "flex-1"@[0] == 'f');
    assert("items-center"@.len() == 12 && "items-center"@[0] == 'i');
    assert("items-start"@.len() == 11 && "items-start"@[0] == 'i');
    assert("items-end"@.len() == 9 && "items-end"@[0] == 'i');
    assert("justify-center"@.len() == 14);
    assert("justify-between"@.len() == 15);
    assert("justify-start"@.len() == 13 && "justify-start"@[0] == 'j');
    assert("justify-end"@.len() == 11 && "justify-end"@[0] == 'j');
    assert("rounded"@.len() == 7 && "rounded"@[0] == 'r');
    assert("rounded-md"@.len() == 10 && "rounded-md"@[8] == 'm');
    assert("rounded-lg"@.len() == 10 && "rounded-lg"@[8] == 'l');
    assert("rounded-full"@.len() == 12 && "rounded-full"@[0] == 'r');
    assert("border"@.len() == 6 && "border"@[0] == 'b');
    assert("w-full"@.len() == 6 && "w-full"@[0] == 'w');
    assert("h-full"@.len() == 6 && "h-full"@[0] == 'h');
    assert("size-full"@.len() == 9 && "size-full"@[0] == 's');
    assert("text-xs"@.len() == 7 && "text-xs"@[0] == 't' && "text-xs"@[5] == 'x' && "text-xs"@[6] == 's');
    assert("text-sm"@.len() == 7 && "text-sm"@[0] == 't' && "text-sm"@[5] == 's');
    assert("text-base"@.len() == 9 && "text-base"@[0] == 't');
    assert("text-lg"@.len() == 7 && "text-lg"@[0] == 't' && "text-lg"@[5] == 'l');
    assert("text-xl"@.len() == 7 && "text-xl"@[0] == 't' && "text-xl"@[5] == 'x' && "text-xl"@[6] == 'l');
    assert("text-2xl"@.len() == 8 && "text-2xl"@[0] == 't' && "text-2xl"@[5] == '2');
    assert("text-3xl"@.len() == 8 && "text-3xl"@[0] == 't' && "text-3xl"@[5] == '3');
    assert("text-4xl"@.len() == 8 && "text-4xl"@[0] == 't' && "text-4xl"@[5] == '4');
    assert("text-5xl"@.len() == 8 && "text-5xl"@[0] == 't' && "text-5xl"@[5] == '5');
    assert("font-semibold"@.len() == 13 && "font-semibold"@[0] == 'f');
    assert("font-bold"@.len() == 9 && "font-bold"@[0] == 'f');
    assert("line-through"@.len() == 12 && "line-through"@[0] == 'l');
    assert(class_style("flex"@) == Some(ClassStyle::<Seq<char>>::Flex));
    assert(class_style("flex-col"@) == Some(ClassStyle::<Seq<char>>::FlexCol));
    assert(class_style("flex-row"@) == Some(ClassStyle::<Seq<char>>::FlexRow));
    assert(class_style("flex-1"@) == Some(ClassStyle::<Seq<char>>::Flex1));
    assert(class_style("items-center"@) == Some(ClassStyle::<Seq<char>>::ItemsCenter));
    assert(class_style("items-start"@) == Some(ClassStyle::<Seq<char>>::ItemsStart));
    assert(class_style("items-end"@) == Some(ClassStyle::<Seq<char>>::ItemsEnd));
    assert(class_style("justify-center"@) == Some(ClassStyle::<Seq<char>>::JustifyCenter));
    assert(class_style("justify-between"@) == Some(ClassStyle::<Seq<char>>::JustifyBetween));
    assert(class_style("justify-start"@) == Some(ClassStyle::<Seq<char>>::JustifyStart));
    assert(class_style("justify-end"@) == Some(ClassStyle::<Seq<char>>::JustifyEnd));
    assert(class_style("rounded"@) == Some(ClassStyle::<Seq<char>>::Rounded(4)));
    assert(class_style("rounded-md"@) == Some(ClassStyle::<Seq<char>>::Rounded(6)));
    assert(class_style("rounded-lg"@) == Some(ClassStyle::<Seq<char>>::Rounded(8)));
    assert(class_style("rounded-full"@) == Some(ClassStyle::<Seq<char>>::Rounded(9999)));
    assert(class_style("border"@) == Some(ClassStyle::<Seq<char>>::Border));
    assert(class_style("w-full"@) == Some(ClassStyle::<Seq<char>>::WFull));
    assert(class_style("h-full"@) == Some(ClassStyle::<Seq<char>>::HFull));
    assert(class_style("size-full"@) == Some(ClassStyle::<Seq<char>>::SizeFull));
    assert(class_style("text-xs"@) == Some(ClassStyle::<Seq<char>>::TextXs));
    assert(class_style("text-sm"@) == Some(ClassStyle::<Seq<char>>::TextSm));
    assert(class_style("text-base"@) == Some(ClassStyle::<Seq<char>>::TextBase));
    assert(class_style("text-lg"@) == Some(ClassStyle::<Seq<char>>::TextLg));
    assert(class_style("text-xl"@) == Some(ClassStyle::<Seq<char>>::TextXl));
    assert(class_style("text-2xl"@) == Some(ClassStyle::<Seq<char>>::Text2xl));
    assert(class_style("text-3xl"@) == Some(ClassStyle::<Seq<char>>::Text3xl));
    assert(class_style("text-4xl"@) == Some(ClassStyle::<Seq<char>>::TextSize(36)));
    assert(class_style("text-5xl"@) == Some(ClassStyle::<Seq<char>>::TextSize(48)));
    assert(class_style("font-semibold"@) == Some(ClassStyle::<Seq<char>>::FontSemibold));
    assert(class_style("font-bold"@) == Some(ClassStyle::<Seq<char>>::FontBold));
    assert(class_style("line-through"@) == Some(ClassStyle::<Seq<char>>::LineThrough));
}

/// A class whose first letter starts no keyword class is no keyword class.
proof fn lemma_not_keyword(c: Seq<char>)
    requires
        c.len() > 0,
        c[0] != 'f' && c[0] != 'i' && c[0] != 'j' && c[0] != 'r' && c[0] != 'b' && c[0] != 'w'
            && c[0] != 'h' && c[0] != 's' && c[0] != 't' && c[0] != 'l',
    ensures
        keyword_style(c) is None,
{
    reveal_strlit("flex");
    reveal_strlit("flex-col");
    reveal_strlit("flex-row");
    reveal_strlit("flex-1");
    reveal_strlit("items-center");
    reveal_strlit("items-start");
    reveal_strlit("items-end");
    reveal_strlit("justify-center");
    reveal_strlit("justify-between");
    reveal_strlit("justify-start");
    reveal_strlit("justify-end");
    reveal_strlit("rounded");
    reveal_strlit("rounded-md");
    reveal_strlit("rounded-lg");
    reveal_strlit("rounded-full");
    reveal_strlit("border");
    reveal_strlit("w-full");
    reveal_strlit("h-full");
    reveal_strlit("size-full");
    reveal_strlit("text-xs");
    reveal_strlit("text-sm");
    reveal_strlit("text-base");
    reveal_strlit("text-lg");
    reveal_strlit("text-xl");
    reveal_strlit("text-2xl");
    reveal_strlit("text-3xl");
    reveal_strlit("text-4xl");
    reveal_strlit("text-5xl");
    reveal_strlit("font-semibold");
    reveal_strlit("font-bold");
    reveal_strlit("line-through");
    assert("flex"@[0] == 'f');
    assert("flex-col"@[0] == 'f');
    assert("flex-row"@[0] == 'f');
    assert("flex-1"@[0] == 'f');
    assert("items-center"@[0] == 'i');
    assert("items-start"@[0] == 'i');
    assert("items-end"@[0] == 'i');
    assert("justify-center"@[0] == 'j');
    assert("justify-between"@[0] == 'j');
    assert("justify-start"@[0] == 'j');
    assert("justify-end"@[0] == 'j');
    assert("rounded"@[0] == 'r');
    assert("rounded-md"@[0] == 'r');
    assert("rounded-lg"@[0] == 'r');
    assert("rounded-full"@[0] == 'r');
    assert("border"@[0] == 'b');
    assert("w-full"@[0] == 'w');
    assert("h-full"@[0] == 'h');
    assert("size-full"@[0] == 's');
    assert("text-xs"@[0] == 't');
    assert("text-sm"@[0] == 't');
    assert("text-base"@[0] == 't');
    assert("text-lg"@[0] == 't');
    assert("text-xl"@[0] == 't');
    assert("text-2xl"@[0] == 't');
    assert("text-3xl"@[0] == 't');
    assert("text-4xl"@[0] == 't');
    assert("text-5xl"@[0] == 't');
    assert("font-semibold"@[0] == 'f');
    assert("font-bold"@[0] == 'f');
    assert("line-through"@[0] == 'l');
}

/// `p` followed by `n` starts with `p`, and what follows it is `n`.
proof fn lemma_stripped_concat(p: Seq<char>, n: Seq<char>)
    ensures
        stripped_prefix(p + n, p) == Some(n),
{
    assert((p + n).take(p.len() as int) =~= p);
    assert((p + n).skip(p.len() as int) =~= n);
}

/// A text that differs from `p` within the length of `p` does not start
/// with `p`.
proof fn lemma_not_prefix(c: Seq<char>, p: Seq<char>, i: int)
    requires
        0 <= i < p.len(),
        i < c.len(),
        c[i] != p[i],
    ensures
        stripped_prefix(c, p) is None,
{
    if p.len() <= c.len() {
        assert(c.take(p.len() as int)[i] != p[i]);
    }
}

/// The class prefix of a padding or margin edge.
pub open spec fn spacing_prefix(side: Spacing) -> Seq<char> {
    match side {
        Spacing::P => "p-"@,
        Spacing::Px => "px-"@,
        Spacing::Py => "py-"@,
        Spacing::Pt => "pt-"@,
        Spacing::Pr => "pr-"@,
        Spacing::Pb => "pb-"@,
        Spacing::Pl => "pl-"@,
        Spacing::M => "m-"@,
        Spacing::Mx => "mx-"@,
        Spacing::My => "my-"@,
        Spacing::Mt => "mt-"@,
        Spacing::Mr => "mr-"@,
        Spacing::Mb => "mb-"@,
        Spacing::Ml => "ml-"@,
    }
}

/// Spacing classes set the edge their prefix names, by the amount after it:
/// for every float literal `n`, `p-n` is the padding all round, `pt-n` the
/// top padding, `mx-n` the horizontal margin, and so on; `gap-n` is the gap.
pub proof fn law_spacing_classes_set_their_edge(side: Spacing, n: Seq<char>)
    requires
        is_float_literal(n),
    ensures
        class_style(spacing_prefix(side) + n) == Some(ClassStyle::Spaced(side, n)),
        class_style("gap-"@ + n) == Some(ClassStyle::<Seq<char>>::Gap(n)),
{
    reveal_strlit("gap-");
    reveal_strlit("p-");
    reveal_strlit("px-");
    reveal_strlit("py-");
    reveal_strlit("pt-");
    reveal_strlit("pr-");
    reveal_strlit("pb-");
    reveal_strlit("pl-");
    reveal_strlit("m-");
    reveal_strlit("mx-");
    reveal_strlit("my-");
    reveal_strlit("mt-");
    reveal_strlit("mr-");
    reveal_strlit("mb-");
    reveal_strlit("ml-");
    assert("p-"@.len() == 2 && "p-"@[0] == 'p' && "p-"@[1] == '-');
    assert("px-"@.len() == 3 && "px-"@[0] == 'p' && "px-"@[1] == 'x' && "px-"@[2] == '-');
    assert("py-"@.len() == 3 && "py-"@[0] == 'p' && "py-"@[1] == 'y' && "py-"@[2] == '-');
    assert("pt-"@.len() == 3 && "pt-"@[0] == 'p' && "pt-"@[1] == 't' && "pt-"@[2] == '-');
    assert("pr-"@.len() == 3 && "pr-"@[0] == 'p' && "pr-"@[1] == 'r' && "pr-"@[2] == '-');
    assert("pb-"@.len() == 3 && "pb-"@[0] == 'p' && "pb-"@[1] == 'b' && "pb-"@[2] == '-');
    assert("pl-"@.len() == 3 && "pl-"@[0] == 'p' && "pl-"@[1] == 'l' && "pl-"@[2] == '-');
    assert("m-"@.len() == 2 && "m-"@[0] == 'm' && "m-"@[1] == '-');
    assert("mx-"@.len() == 3 && "mx-"@[0] == 'm' && "mx-"@[1] == 'x' && "mx-"@[2] == '-');
    assert("my-"@.len() == 3 && "my-"@[0] == 'm' && "my-"@[1] == 'y' && "my-"@[2] == '-');
    assert("mt-"@.len() == 3 && "mt-"@[0] == 'm' && "mt-"@[1] == 't' && "mt-"@[2] == '-');
    assert("mr-"@.len() == 3 && "mr-"@[0] == 'm' && "mr-"@[1] == 'r' && "mr-"@[2] == '-');
    assert("mb-"@.len() == 3 && "mb-"@[0] == 'm' && "mb-"@[1] == 'b' && "mb-"@[2] == '-');
    assert("ml-"@.len() == 3 && "ml-"@[0] == 'm' && "ml-"@[1] == 'l' && "ml-"@[2] == '-');
    assert("gap-"@.len() == 4 && "gap-"@[0] == 'g');
    let g = "gap-"@ + n;
    assert(g[0] == 'g');
    lemma_not_keyword(g);
    lemma_stripped_concat("gap-"@, n);
    let pre = spacing_prefix(side);
    let c = pre + n;
    assert(c[0] == pre[0] && c[1] == pre[1]);
    if pre.len() == 3 {
        assert(c[2] == pre[2]);
    }
    lemma_not_keyword(c);
    lemma_not_prefix(c, "gap-"@, 0);
    lemma_stripped_concat(pre, n);
    if c[0] != 'p' {
        lemma_not_prefix(c, "p-"@, 0);
    } else if c[1] != '-' {
        lemma_not_prefix(c, "p-"@, 1);
    }
    if c[0] != 'p' {
        lemma_not_prefix(c, "px-"@, 0);
    } else if c[1] != 'x' {
        lemma_not_prefix(c, "px-"@, 1);
    }
    if c[0] != 'p' {
        lemma_not_prefix(c, "py-"@, 0);
    } else if c[1] != 'y' {
        lemma_not_prefix(c, "py-"@, 1);
    }
    if c[0] != 'p' {
        lemma_not_prefix(c, "pt-"@, 0);
    } else if c[1] != 't' {
        lemma_not_prefix(c, "pt-"@, 1);
    }
    if c[0] != 'p' {
        lemma_not_prefix(c, "pr-"@, 0);
    } else if c[1] != 'r' {
        lemma_not_prefix(c, "pr-"@, 1);
    }
    if c[0] != 'p' {
        lemma_not_prefix(c, "pb-"@, 0);
    } else if c[1] != 'b' {
        lemma_not_prefix(c, "pb-"@, 1);
    }
    if c[0] != 'p' {
        lemma_not_prefix(c, "pl-"@, 0);
    } else if c[1] != 'l' {
        lemma_not_prefix(c, "pl-"@, 1);
    }
    if c[0] != 'm' {
        lemma_not_prefix(c, "m-"@, 0);
    } else if c[1] != '-' {
        lemma_not_prefix(c, "m-"@, 1);
    }
    if c[0] != 'm' {
        lemma_not_prefix(c, "mx-"@, 0);
    } else if c[1] != 'x' {
        lemma_not_prefix(c, "mx-"@, 1);
    }
    if c[0] != 'm' {
        lemma_not_prefix(c, "my-"@, 0);
    } else if c[1] != 'y' {
        lemma_not_prefix(c, "my-"@, 1);
    }
    if c[0] != 'm' {
        lemma_not_prefix(c, "mt-"@, 0);
    } else if c[1] != 't' {
        lemma_not_prefix(c, "mt-"@, 1);
    }
    if c[0] != 'm' {
        lemma_not_prefix(c, "mr-"@, 0);
    } else if c[1] != 'r' {
        lemma_not_prefix(c, "mr-"@, 1);
    }
    if c[0] != 'm' {
        lemma_not_prefix(c, "mb-"@, 0);
    } else if c[1] != 'b' {
        lemma_not_prefix(c, "mb-"@, 1);
    }
    if c[0] != 'm' {
        lemma_not_prefix(c, "ml-"@, 0);
    } else if c[1] != 'l' {
        lemma_not_prefix(c, "ml-"@, 1);
    }
}

/// The length and first two letters of every keyword class.
proof fn lemma_keyword_letters()
    ensures
        "flex"@.len() == 4 && "flex"@[0] == 'f' && "flex"@[1] == 'l',
        "flex-col"@.len() == 8 && "flex-col"@[0] == 'f' && "flex-col"@[1] == 'l',
        "flex-row"@.len() == 8 && "flex-row"@[0] == 'f' && "flex-row"@[1] == 'l',
        "flex-1"@.len() == 6 && "flex-1"@[0] == 'f' && "flex-1"@[1] == 'l',
        "items-center"@.len() == 12 && "items-center"@[0] == 'i' && "items-center"@[1] == 't',
        "items-start"@.len() == 11 && "items-start"@[0] == 'i' && "items-start"@[1] == 't',
        "items-end"@.len() == 9 && "items-end"@[0] == 'i' && "items-end"@[1] == 't',
        "justify-center"@.len() == 14 && "justify-center"@[0] == 'j' && "justify-center"@[1] == 'u',
        "justify-between"@.len() == 15 && "justify-between"@[0] == 'j' && "justify-between"@[1] == 'u',
        "justify-start"@.len() == 13 && "justify-start"@[0] == 'j' && "justify-start"@[1] == 'u',
        "justify-end"@.len() == 11 && "justify-end"@[0] == 'j' && "justify-end"@[1] == 'u',
        "rounded"@.len() == 7 && "rounded"@[0] == 'r' && "rounded"@[1] == 'o',
        "rounded-md"@.len() == 10 && "rounded-md"@[0] == 'r' && "rounded-md"@[1] == 'o',
        "rounded-lg"@.len() == 10 && "rounded-lg"@[0] == 'r' && "rounded-lg"@[1] == 'o',
        "rounded-full"@.len() == 12 && "rounded-full"@[0] == 'r' && "rounded-full"@[1] == 'o',
        "border"@.len() == 6 && "border"@[0] == 'b' && "border"@[1] == 'o',
        "w-full"@.len() == 6 && "w-full"@[0] == 'w' && "w-full"@[1] == '-',
        "h-full"@.len() == 6 && "h-full"@[0] == 'h' && "h-full"@[1] == '-',
        "size-full"@.len() == 9 && "size-full"@[0] == 's' && "size-full"@[1] == 'i',
        "text-xs"@.len() == 7 && "text-xs"@[0] == 't' && "text-xs"@[1] == 'e',
        "text-sm"@.len() == 7 && "text-sm"@[0] == 't' && "text-sm"@[1] == 'e',
        "text-base"@.len() == 9 && "text-base"@[0] == 't' && "text-base"@[1] == 'e',
        "text-lg"@.len() == 7 && "text-lg"@[0] == 't' && "text-lg"@[1] == 'e',
        "text-xl"@.len() == 7 && "text-xl"@[0] == 't' && "text-xl"@[1] == 'e',
        "text-2xl"@.len() == 8 && "text-2xl"@[0] == 't' && "text-2xl"@[1] == 'e',
        "text-3xl"@.len() == 8 && "text-3xl"@[0] == 't' && "text-3xl"@[1] == 'e',
        "text-4xl"@.len() == 8 && "text-4xl"@[0] == 't' && "text-4xl"@[1] == 'e',
        "text-5xl"@.len() == 8 && "text-5xl"@[0] == 't' && "text-5xl"@[1] == 'e',
        "font-semibold"@.len() == 13 && "font-semibold"@[0] == 'f' && "font-semibold"@[1] == 'o',
        "font-bold"@.len() == 9 && "font-bold"@[0] == 'f' && "font-bold"@[1] == 'o',
        "line-through"@.len() == 12 && "line-through"@[0] == 'l' && "line-through"@[1] == 'i',
{
    reveal_strlit("flex");
    reveal_strlit("flex-col");
    reveal_strlit("flex-row");
    reveal_strlit("flex-1");
    reveal_strlit("items-center");
    reveal_strlit("items-start");
    reveal_strlit("items-end");
    reveal_strlit("justify-center");
    reveal_strlit("justify-between");
    reveal_strlit("justify-start");
    reveal_strlit("justify-end");
    reveal_strlit("rounded");
    reveal_strlit("rounded-md");
    reveal_strlit("rounded-lg");
    reveal_strlit("rounded-full");
    reveal_strlit("border");
    reveal_strlit("w-full");
    reveal_strlit("h-full");
    reveal_strlit("size-full");
    reveal_strlit("text-xs");
    reveal_strlit("text-sm");
    reveal_strlit("text-base");
    reveal_strlit("text-lg");
    reveal_strlit("text-xl");
    reveal_strlit("text-2xl");
    reveal_strlit("text-3xl");
    reveal_strlit("text-4xl");
    reveal_strlit("text-5xl");
    reveal_strlit("font-semibold");
    reveal_strlit("font-bold");
    reveal_strlit("line-through");
    assert("flex"@.len() == 4 && "flex"@[0] == 'f' && "flex"@[1] == 'l');
    assert("flex-col"@.len() == 8 && "flex-col"@[0] == 'f' && "flex-col"@[1] == 'l');
    assert("flex-row"@.len() == 8 && "flex-row"@[0] == 'f' && "flex-row"@[1] == 'l');
    assert("flex-1"@.len() == 6 && "flex-1"@[0] == 'f' && "flex-1"@[1] == 'l');
    assert("items-center"@.len() == 12 && "items-center"@[0] == 'i' && "items-center"@[1] == 't');
    assert("items-start"@.len() == 11 && "items-start"@[0] == 'i' && "items-start"@[1] == 't');
    assert("items-end"@.len() == 9 && "items-end"@[0] == 'i' && "items-end"@[1] == 't');
    assert("justify-center"@.len() == 14 && "justify-center"@[0] == 'j' && "justify-center"@[1] == 'u');
    assert("justify-between"@.len() == 15 && "justify-between"@[0] == 'j' && "justify-between"@[1] == 'u');
    assert("justify-start"@.len() == 13 && "justify-start"@[0] == 'j' && "justify-start"@[1] == 'u');
    assert("justify-end"@.len() == 11 && "justify-end"@[0] == 'j' && "justify-end"@[1] == 'u');
    assert("rounded"@.len() == 7 && "rounded"@[0] == 'r' && "rounded"@[1] == 'o');
    assert("rounded-md"@.len() == 10 && "rounded-md"@[0] == 'r' && "rounded-md"@[1] == 'o');
    assert("rounded-lg"@.len() == 10 && "rounded-lg"@[0] == 'r' && "rounded-lg"@[1] == 'o');
    assert("rounded-full"@.len() == 12 && "rounded-full"@[0] == 'r' && "rounded-full"@[1] == 'o');
    assert("border"@.len() == 6 && "border"@[0] == 'b' && "border"@[1] == 'o');
    assert("w-full"@.len() == 6 && "w-full"@[0] == 'w' && "w-full"@[1] == '-');
    assert("h-full"@.len() == 6 && "h-full"@[0] == 'h' && "h-full"@[1] == '-');
    assert("size-full"@.len() == 9 && "size-full"@[0] == 's' && "size-full"@[1] == 'i');
    assert("text-xs"@.len() == 7 && "text-xs"@[0] == 't' && "text-xs"@[1] == 'e');
    assert("text-sm"@.len() == 7 && "text-sm"@[0] == 't' && "text-sm"@[1] == 'e');
    assert("text-base"@.len() == 9 && "text-base"@[0] == 't' && "text-base"@[1] == 'e');
    assert("text-lg"@.len() == 7 && "text-lg"@[0] == 't' && "text-lg"@[1] == 'e');
    assert("text-xl"@.len() == 7 && "text-xl"@[0] == 't' && "text-xl"@[1] == 'e');
    assert("text-2xl"@.len() == 8 && "text-2xl"@[0] == 't' && "text-2xl"@[1] == 'e');
    assert("text-3xl"@.len() == 8 && "text-3xl"@[0] == 't' && "text-3xl"@[1] == 'e');
    assert("text-4xl"@.len() == 8 && "text-4xl"@[0] == 't' && "text-4xl"@[1] == 'e');
    assert("text-5xl"@.len() == 8 && "text-5xl"@[0] == 't' && "text-5xl"@[1] == 'e');
    assert("font-semibold"@.len() == 13 && "font-semibold"@[0] == 'f' && "font-semibold"@[1] == 'o');
    assert("font-bold"@.len() == 9 && "font-bold"@[0] == 'f' && "font-bold"@[1] == 'o');
    assert("line-through"@.len() == 12 && "line-through"@[0] == 'l' && "line-through"@[1] == 'i');
}

/// A class starting with neither `p` nor `m` is no padding or margin class.
proof fn lemma_no_spacing(c: Seq<char>)
    requires
        c.len() > 0,
        c[0] != 'p' && c[0] != 'm',
    ensures
        spacing_style(c) is None,
{
    reveal_strlit("p-");
    assert("p-"@[0] == 'p');
    lemma_not_prefix(c, "p-"@, 0);
    reveal_strlit("px-");
    assert("px-"@[0] == 'p');
    lemma_not_prefix(c, "px-"@, 0);
    reveal_strlit("py-");
    assert("py-"@[0] == 'p');
    lemma_not_prefix(c, "py-"@, 0);
    reveal_strlit("pt-");
    assert("pt-"@[0] == 'p');
    lemma_not_prefix(c, "pt-"@, 0);
    reveal_strlit("pr-");
    assert("pr-"@[0] == 'p');
    lemma_not_prefix(c, "pr-"@, 0);
    reveal_strlit("pb-");
    assert("pb-"@[0] == 'p');
    lemma_not_prefix(c, "pb-"@, 0);
    reveal_strlit("pl-");
    assert("pl-"@[0] == 'p');
    lemma_not_prefix(c, "pl-"@, 0);
    reveal_strlit("m-");
    assert("m-"@[0] == 'm');
    lemma_not_prefix(c, "m-"@, 0);
    reveal_strlit("mx-");
    assert("mx-"@[0] == 'm');
    lemma_not_prefix(c, "mx-"@, 0);
    reveal_strlit("my-");
    assert("my-"@[0] == 'm');
    lemma_not_prefix(c, "my-"@, 0);
    reveal_strlit("mt-");
    assert("mt-"@[0] == 'm');
    lemma_not_prefix(c, "mt-"@, 0);
    reveal_strlit("mr-");
    assert("mr-"@[0] == 'm');
    lemma_not_prefix(c, "mr-"@, 0);
    reveal_strlit("mb-");
    assert("mb-"@[0] == 'm');
    lemma_not_prefix(c, "mb-"@, 0);
    reveal_strlit("ml-");
    assert("ml-"@[0] == 'm');
    lemma_not_prefix(c, "ml-"@, 0);
}

/// A palette name after `text-` makes no text-size class.
proof fn lemma_text_colour_not_size(name: Seq<char>)
    requires
        palette_spec(name) is Some,
    ensures
        keyword_style("text-"@ + name) is None,
{
    lemma_keyword_letters();
    reveal_strlit("text-");
    reveal_strlit("white");
    reveal_strlit("black");
    assert("text-"@ =~= seq!['t', 'e', 'x', 't', '-']);
    assert("white"@.len() == 5 && "black"@.len() == 5);
    let c = "text-"@ + name;
    assert(c[0] == 't');
    assert forall|i: int| 0 <= i < name.len() implies c[5 + i] == name[i] by {}
    reveal_strlit("text-xs");
    assert("text-xs"@ =~= seq!['t', 'e', 'x', 't', '-', 'x', 's']);
    if c == "text-xs"@ {
        assert(name =~= seq!['x', 's']);
        lemma_last_index_is(name, '-', -1);
        assert(false);
    }
    reveal_strlit("text-sm");
    assert("text-sm"@ =~= seq!['t', 'e', 'x', 't', '-', 's', 'm']);
    if c == "text-sm"@ {
        assert(name =~= seq!['s', 'm']);
        lemma_last_index_is(name, '-', -1);
        assert(false);
    }
    reveal_strlit("text-base");
    assert("text-base"@ =~= seq!['t', 'e', 'x', 't', '-', 'b', 'a', 's', 'e']);
    if c == "text-base"@ {
        assert(name =~= seq!['b', 'a', 's', 'e']);
        lemma_last_index_is(name, '-', -1);
        assert(false);
    }
    reveal_strlit("text-lg");
    assert("text-lg"@ =~= seq!['t', 'e', 'x', 't', '-', 'l', 'g']);
    if c == "text-lg"@ {
        assert(name =~= seq!['l', 'g']);
        lemma_last_index_is(name, '-', -1);
        assert(false);
    }
    reveal_strlit("text-xl");
    assert("text-xl"@ =~= seq!['t', 'e', 'x', 't', '-', 'x', 'l']);
    if c == "text-xl"@ {
        assert(name =~= seq!['x', 'l']);
        lemma_last_index_is(name, '-', -1);
        assert(false);
    }
    reveal_strlit("text-2xl");
    assert("text-2xl"@ =~= seq!['t', 'e', 'x', 't', '-', '2', 'x', 'l']);
    if c == "text-2xl"@ {
        assert(name =~= seq!['2', 'x', 'l']);
        lemma_last_index_is(name, '-', -1);
        assert(false);
    }
    reveal_strlit("text-3xl");
    assert("text-3xl"@ =~= seq!['t', 'e', 'x', 't', '-', '3', 'x', 'l']);
    if c == "text-3xl"@ {
        assert(name =~= seq!['3', 'x', 'l']);
        lemma_last_index_is(name, '-', -1);
        assert(false);
    }
    reveal_strlit("text-4xl");
    assert("text-4xl"@ =~= seq!['t', 'e', 'x', 't', '-', '4', 'x', 'l']);
    if c == "text-4xl"@ {
        assert(name =~= seq!['4', 'x', 'l']);
        lemma_last_index_is(name, '-', -1);
        assert(false);
    }
    reveal_strlit("text-5xl");
    assert("text-5xl"@ =~= seq!['t', 'e', 'x', 't', '-', '5', 'x', 'l']);
    if c == "text-5xl"@ {
        assert(name =~= seq!['5', 'x', 'l']);
        lemma_last_index_is(name, '-', -1);
        assert(false);
    }
}

/// The classes a colour class differs from in its first letters.
proof fn lemma_colour_prefix(c: Seq<char>, prefix: Seq<char>, name: Seq<char>)
    requires
        c == prefix + name,
        keyword_style(c) is None,
        c.len() > 1,
        c[0] != 'p' && c[0] != 'm' && c[0] != 'g' && c[0] != 'w' && c[0] != 'h',
    ensures
        stripped_prefix(c, "gap-"@) is None,
        spacing_style(c) is None,
        amount_after(c, "w-"@) is None,
        amount_after(c, "h-"@) is None,
        stripped_prefix(c, prefix) == Some(name),
{
    reveal_strlit("gap-");
    reveal_strlit("w-");
    reveal_strlit("h-");
    assert("gap-"@[0] == 'g' && "w-"@[0] == 'w' && "h-"@[0] == 'h');
    lemma_no_spacing(c);
    lemma_not_prefix(c, "gap-"@, 0);
    lemma_not_prefix(c, "w-"@, 0);
    lemma_not_prefix(c, "h-"@, 0);
    lemma_stripped_concat(prefix, name);
}

/// Colour classes set the colour their prefix names: for every palette name
/// `name`, `bg-name` is the background, `text-name` the text colour and
/// `border-name` the border colour, each the palette colour of `name`.
pub proof fn law_colour_classes_set_their_colour(name: Seq<char>)
    requires
        palette_spec(name) is Some,
    ensures
        class_style("bg-"@ + name) == Some(ClassStyle::<Seq<char>>::Bg(palette_spec(name)->0)),
        class_style("text-"@ + name) == Some(
            ClassStyle::<Seq<char>>::TextColor(palette_spec(name)->0),
        ),
        class_style("border-"@ + name) == Some(
            ClassStyle::<Seq<char>>::BorderColor(palette_spec(name)->0),
        ),
{
    reveal_strlit("bg-");
    reveal_strlit("text-");
    reveal_strlit("border-");
    assert("bg-"@ =~= seq!['b', 'g', '-']);
    assert("text-"@ =~= seq!['t', 'e', 'x', 't', '-']);
    assert("border-"@ =~= seq!['b', 'o', 'r', 'd', 'e', 'r', '-']);
    let c = "bg-"@ + name;
    assert(c[0] == 'b' && c[1] == 'g');
    assert(keyword_style(c) is None) by {
        lemma_keyword_letters();
    }
    lemma_colour_prefix(c, "bg-"@, name);
    let c = "border-"@ + name;
    assert(c[0] == 'b' && c[1] == 'o' && c.len() > 6);
    assert(keyword_style(c) is None) by {
        lemma_keyword_letters();
    }
    lemma_colour_prefix(c, "border-"@, name);
    lemma_not_prefix(c, "bg-"@, 1);
    lemma_not_prefix(c, "text-"@, 0);
    let c = "text-"@ + name;
    assert(c[0] == 't');
    lemma_text_colour_not_size(name);
    lemma_colour_prefix(c, "text-"@, name);
    lemma_not_prefix(c, "bg-"@, 0);
}

} // verus!
