//! The decisions of the widget renderers.
//!
//! The framework ships a small set of primitives: View, Text, Pressable,
//! ScrollView, Svg, Image and TextInput; everything else is built in userland
//! from these. Which primitive a tag renders as, which handler a click fires,
//! what an input shows and how an icon or image is sized are decided here;
//! the renderer builds the GPUI elements.
use vstd::prelude::*;

use crate::numbers::{is_float_literal, is_float_text};
use crate::props::{JsonValue, lookup};
use crate::scene::{ElementProps, PropsModel};
use crate::style::{apply, style_decls, StyleDecl};
use crate::tailwind::{class_styles, parse, ClassStyle, StyleOp};
use crate::text::{str_eq, to_owned_string};

verus! {

/// The primitive a host element renders as.
#[derive(Debug, Clone, Copy, PartialEq, Eq)]
pub enum WidgetKind {
    View,
    Pressable,
    Text,
    ScrollView,
    Svg,
    Image,
    TextInput,
}

/// The primitive of a tag. Unknown tags render as a view, so userland tags
/// or typos do not blank the window.
pub open spec fn widget_kind_spec(tag: Seq<char>) -> WidgetKind {
    if tag == "view"@ || tag == "div"@ {
        WidgetKind::View
    } else if tag == "pressable"@ {
        WidgetKind::Pressable
    } else if tag == "text"@ || tag == "span"@ {
        WidgetKind::Text
    } else if tag == "scrollview"@ {
        WidgetKind::ScrollView
    } else if tag == "svg"@ {
        WidgetKind::Svg
    } else if tag == "image"@ || tag == "img"@ {
        WidgetKind::Image
    } else if tag == "textinput"@ || tag == "input"@ {
        WidgetKind::TextInput
    } else {
        WidgetKind::View
    }
}

/// The primitive a tag renders as (the dispatch of `render_element`).
pub fn widget_kind(tag: &str) -> (k: WidgetKind)
    ensures
        k == widget_kind_spec(tag@),
{
    if str_eq(tag, "view") || str_eq(tag, "div") {
        WidgetKind::View
    } else if str_eq(tag, "pressable") {
        WidgetKind::Pressable
    } else if str_eq(tag, "text") || str_eq(tag, "span") {
        WidgetKind::Text
    } else if str_eq(tag, "scrollview") {
        WidgetKind::ScrollView
    } else if str_eq(tag, "svg") {
        WidgetKind::Svg
    } else if str_eq(tag, "image") || str_eq(tag, "img") {
        WidgetKind::Image
    } else if str_eq(tag, "textinput") || str_eq(tag, "input") {
        WidgetKind::TextInput
    } else {
        WidgetKind::View
    }
}

/// An attribute that is the boolean `true`.
pub open spec fn attr_true(p: PropsModel, key: Seq<char>) -> bool {
    lookup(p.attrs, key) == Some(JsonValue::<Seq<char>>::Bool(true))
}

/// Whether the attribute `key` is the boolean `true`; a missing or
/// non-boolean attribute counts as `false`.
pub fn attr_bool(props: &ElementProps, key: &str) -> (r: bool)
    ensures
        r == attr_true(props@, key@),
{
    match props.attrs.get(key) {
        Some(v) => match v.as_bool() {
            Some(b) => b,
            None => false,
        },
        None => false,
    }
}

/// The attribute `key` if it is a string.
pub fn attr_str<'a>(props: &'a ElementProps, key: &str) -> (r: Option<&'a str>)
    ensures
        match r {
            Some(s) => lookup(props@.attrs, key@) == Some(JsonValue::<Seq<char>>::Str(s@)),
            None => !(lookup(props@.attrs, key@) matches Some(JsonValue::Str(_))),
        },
{
    match props.attrs.get(key) {
        Some(v) => v.as_str(),
        None => None,
    }
}

/// The JSON text of the attribute `key` if it is a number.
pub fn attr_number<'a>(props: &'a ElementProps, key: &str) -> (r: Option<&'a str>)
    ensures
        match r {
            Some(s) => lookup(props@.attrs, key@) == Some(JsonValue::<Seq<char>>::Number(s@)),
            None => !(lookup(props@.attrs, key@) matches Some(JsonValue::Number(_))),
        },
{
    match props.attrs.get(key) {
        Some(v) => match v {
            JsonValue::Number(t) => Some(t.as_str()),
            _ => None,
        },
        None => None,
    }
}

/// The handler a click on a view fires: its `onClick`.
pub fn click_handler(props: &ElementProps) -> (r: Option<u32>)
    ensures
        r == lookup(props@.handlers, "onClick"@),
{
    match props.handlers.get("onClick") {
        Some(h) => Some(*h),
        None => None,
    }
}

/// The handler a press fires: `onPress`, else `onClick`.
pub open spec fn press_handler_spec(p: PropsModel) -> Option<u32> {
    match lookup(p.handlers, "onPress"@) {
        Some(h) => Some(h),
        None => lookup(p.handlers, "onClick"@),
    }
}

/// The handler a press on a pressable fires: none while it is `disabled`,
/// else `onPress`, else `onClick` (React Native's name first).
pub fn press_handler(props: &ElementProps) -> (r: Option<u32>)
    ensures
        r == if attr_true(props@, "disabled"@) {
            None
        } else {
            press_handler_spec(props@)
        },
{
    if attr_bool(props, "disabled") {
        return None;
    }
    match props.handlers.get("onPress") {
        Some(h) => Some(*h),
        None => match props.handlers.get("onClick") {
            Some(h) => Some(*h),
            None => None,
        },
    }
}

/// A string attribute, or the empty text.
pub open spec fn attr_text(p: PropsModel, key: Seq<char>) -> Seq<char> {
    match lookup(p.attrs, key) {
        Some(JsonValue::Str(s)) => s,
        _ => seq![],
    }
}

/// What a text input shows: its `value`, or its `placeholder` while the value
/// is empty.
pub fn input_display(props: &ElementProps) -> (r: String)
    ensures
        r@ == if attr_text(props@, "value"@).len() == 0 {
            attr_text(props@, "placeholder"@)
        } else {
            attr_text(props@, "value"@)
        },
{
    let value = match attr_str(props, "value") {
        Some(s) => s,
        None => "",
    };
    let placeholder = match attr_str(props, "placeholder") {
        Some(s) => s,
        None => "",
    };
    proof {
        reveal_strlit("");
    }
    if value.unicode_len() == 0 {
        to_owned_string(placeholder)
    } else {
        to_owned_string(value)
    }
}

/// How an image fills its box.
#[derive(Debug, Clone, Copy, PartialEq, Eq)]
pub enum ObjectFit {
    Cover,
    Fill,
    /// Natural size, unscaled (`object-fit: none`).
    Unscaled,
    Contain,
}

/// The fit of an image: `cover`, `fill`, `none`, anything else `contain`;
/// `None` when the attribute is not a string.
pub fn object_fit(props: &ElementProps) -> (r: Option<ObjectFit>)
    ensures
        match lookup(props@.attrs, "objectFit"@) {
            Some(JsonValue::Str(s)) => r == Some(
                if s == "cover"@ {
                    ObjectFit::Cover
                } else if s == "fill"@ {
                    ObjectFit::Fill
                } else if s == "none"@ {
                    ObjectFit::Unscaled
                } else {
                    ObjectFit::Contain
                },
            ),
            _ => r is None,
        },
{
    match attr_str(props, "objectFit") {
        Some(s) => Some(
            if str_eq(s, "cover") {
                ObjectFit::Cover
            } else if str_eq(s, "fill") {
                ObjectFit::Fill
            } else if str_eq(s, "none") {
                ObjectFit::Unscaled
            } else {
                ObjectFit::Contain
            },
        ),
        None => None,
    }
}

/// The side of an icon. `S` is the text type of a float literal.
#[derive(Debug, Clone, PartialEq, Eq)]
pub enum IconSize<S> {
    /// Whole px.
    Px(u32),
    /// A float literal, in px.
    Literal(S),
}

/// The side of an icon from its `size` attribute: `xs` 12, `sm` 16, `lg` 24,
/// a float literal as given, anything else 20 px.
pub open spec fn icon_size(size: Option<Seq<char>>) -> IconSize<Seq<char>> {
    match size {
        Some(s) => if s == "xs"@ {
            IconSize::Px(12)
        } else if s == "sm"@ {
            IconSize::Px(16)
        } else if s == "lg"@ {
            IconSize::Px(24)
        } else if is_float_literal(s) {
            IconSize::Literal(s)
        } else {
            IconSize::Px(20)
        },
        None => IconSize::Px(20),
    }
}

/// The side of an icon from its `size` attribute (see `icon_size`).
pub fn size_to_px(size: Option<&str>) -> (r: IconSize<String>)
    ensures
        icon_size(
            match size {
                Some(s) => Some(s@),
                None => None,
            },
        ) == match r {
            IconSize::Px(n) => IconSize::<Seq<char>>::Px(n),
            IconSize::Literal(t) => IconSize::Literal(t@),
        },
{
    match size {
        Some(s) => if str_eq(s, "xs") {
            IconSize::Px(12)
        } else if str_eq(s, "sm") {
            IconSize::Px(16)
        } else if str_eq(s, "lg") {
            IconSize::Px(24)
        } else if is_float_text(s) {
            IconSize::Literal(to_owned_string(s))
        } else {
            IconSize::Px(20)
        },
        None => IconSize::Px(20),
    }
}

/// One step of styling an element: a class style or a `style` declaration.
/// `S` is the text type of numeric amounts.
#[derive(Debug, Clone, PartialEq, Eq)]
pub enum Styling<S> {
    Class(ClassStyle<S>),
    Decl(StyleDecl<S>),
}

impl View for Styling<String> {
    type V = Styling<Seq<char>>;

    open spec fn view(&self) -> Styling<Seq<char>> {
        match self {
            Styling::Class(c) => Styling::Class(c@),
            Styling::Decl(d) => Styling::Decl(d@),
        }
    }
}

/// The styling of an element in the order it is applied: the styles of its
/// classes, then its `style` declarations, so the `style` prop wins over
/// classes.
pub open spec fn element_styling(p: PropsModel) -> Seq<Styling<Seq<char>>> {
    class_styles(p.classes).map_values(|c: ClassStyle<Seq<char>>| Styling::Class(c))
        + style_decls(p.style).map_values(|d: StyleDecl<Seq<char>>| Styling::Decl(d))
}

/// The styling steps of an element, in order (see `element_styling`).
pub fn styling(props: &ElementProps) -> (r: Vec<Styling<String>>)
    ensures
        r@.map_values(|x: Styling<String>| x@) == element_styling(props@),
{
    let ops = parse(props.classes.as_slice());
    let decls = apply(&props.style);
    let ghost cm = ops@.map_values(|o: StyleOp| o@);
    let ghost dm = decls@.map_values(|d: StyleDecl<String>| d@);
    let mut r: Vec<Styling<String>> = Vec::new();
    for op in it: ops
        invariant
            cm == it.seq().map_values(|o: StyleOp| o@),
            r@.map_values(|x: Styling<String>| x@) == cm.take(it.index() as int).map_values(
                |c: ClassStyle<Seq<char>>| Styling::Class(c),
            ),
    {
        let ghost before = r@.map_values(|x: Styling<String>| x@);
        let ghost k = it.index() as int;
        assert(op@ == cm[k]);
        assert(cm.take(k + 1) =~= cm.take(k).push(cm[k]));
        r.push(Styling::Class(op));
        proof {
            assert(r@.map_values(|x: Styling<String>| x@) =~= before.push(Styling::Class(cm[k])));
            assert(r@.map_values(|x: Styling<String>| x@) =~= cm.take(k + 1).map_values(
                |c: ClassStyle<Seq<char>>| Styling::Class(c),
            ));
        }
    }
    assert(cm.take(cm.len() as int) =~= cm);
    let ghost classes_part = r@.map_values(|x: Styling<String>| x@);
    for d in jt: decls
        invariant
            dm == jt.seq().map_values(|d: StyleDecl<String>| d@),
            r@.map_values(|x: Styling<String>| x@) == classes_part + dm.take(
                jt.index() as int,
            ).map_values(|d: StyleDecl<Seq<char>>| Styling::Decl(d)),
    {
        let ghost k = jt.index() as int;
        let ghost before = r@.map_values(|x: Styling<String>| x@);
        assert(d@ == dm[k]);
        assert(dm.take(k + 1) =~= dm.take(k).push(dm[k]));
        r.push(Styling::Decl(d));
        proof {
            assert(r@.map_values(|x: Styling<String>| x@) =~= before.push(Styling::Decl(dm[k])));
            assert(r@.map_values(|x: Styling<String>| x@) =~= classes_part + dm.take(
                k + 1,
            ).map_values(|d: StyleDecl<Seq<char>>| Styling::Decl(d)));
        }
    }
    assert(dm.take(dm.len() as int) =~= dm);
    r
}

/// The tags documented for each primitive.
pub open spec fn primitive_tags(k: WidgetKind) -> Set<Seq<char>> {
    match k {
        WidgetKind::View => set!["view"@, "div"@],
        WidgetKind::Pressable => set!["pressable"@],
        WidgetKind::Text => set!["text"@, "span"@],
        WidgetKind::ScrollView => set!["scrollview"@],
        WidgetKind::Svg => set!["svg"@],
        WidgetKind::Image => set!["image"@, "img"@],
        WidgetKind::TextInput => set!["textinput"@, "input"@],
    }
}

/// Every documented tag renders as its primitive (`text` and `span` as
/// Text, `image` and `img` as Image, ...), and any other tag renders as a
/// view.
pub proof fn law_tags_render_as_their_primitive(tag: Seq<char>, k: WidgetKind)
    ensures
        primitive_tags(k).contains(tag) ==> widget_kind_spec(tag) == k,
        (forall|j: WidgetKind| !(#[trigger] primitive_tags(j)).contains(tag)) ==> widget_kind_spec(
            tag,
        ) == WidgetKind::View,
{
    reveal_strlit("view");
    reveal_strlit("div");
    reveal_strlit("pressable");
    reveal_strlit("text");
    reveal_strlit("span");
    reveal_strlit("scrollview");
    reveal_strlit("svg");
    reveal_strlit("image");
    reveal_strlit("img");
    reveal_strlit("textinput");
    reveal_strlit("input");
    assert("view"@[0] == 'v' && "div"@[0] == 'd' && "pressable"@[0] == 'p');
    assert("text"@[0] == 't' && "span"@[0] == 's' && "scrollview"@[0] == 's');
    assert("svg"@[0] == 's' && "image"@[1] == 'm' && "img"@[0] == 'i');
    assert("textinput"@[0] == 't' && "input"@[1] == 'n' && "image"@[0] == 'i');
    assert("input"@[0] == 'i' && "span"@[1] == 'p' && "svg"@[1] == 'v');
    assert(widget_kind_spec("view"@) == WidgetKind::View);
    assert(widget_kind_spec("div"@) == WidgetKind::View);
    assert(widget_kind_spec("pressable"@) == WidgetKind::Pressable);
    assert(widget_kind_spec("text"@) == WidgetKind::Text);
    assert(widget_kind_spec("span"@) == WidgetKind::Text);
    assert(widget_kind_spec("scrollview"@) == WidgetKind::ScrollView);
    assert(widget_kind_spec("svg"@) == WidgetKind::Svg);
    assert(widget_kind_spec("image"@) == WidgetKind::Image);
    assert(widget_kind_spec("img"@) == WidgetKind::Image);
    assert("textinput"@ != "pressable"@);
    assert("textinput"@ != "scrollview"@);
    assert("textinput"@.len() == 9 && "text"@.len() == 4);
    assert("textinput"@ != "text"@);
    assert(widget_kind_spec("textinput"@) == WidgetKind::TextInput);
    assert(widget_kind_spec("input"@) == WidgetKind::TextInput);
    if forall|j: WidgetKind| !(#[trigger] primitive_tags(j)).contains(tag) {
        assert(!primitive_tags(WidgetKind::View).contains(tag));
        assert(!primitive_tags(WidgetKind::Pressable).contains(tag));
        assert(!primitive_tags(WidgetKind::Text).contains(tag));
        assert(!primitive_tags(WidgetKind::ScrollView).contains(tag));
        assert(!primitive_tags(WidgetKind::Svg).contains(tag));
        assert(!primitive_tags(WidgetKind::Image).contains(tag));
        assert(!primitive_tags(WidgetKind::TextInput).contains(tag));
    }
}

} // verus!
