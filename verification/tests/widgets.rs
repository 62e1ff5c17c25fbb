use valhalla::style::{Length, StyleDecl, StyleProp, StyleValue};
use valhalla::tailwind::{ClassStyle, Spacing};
use valhalla::widgets::{styling, Styling};
use valhalla::props::{JsonValue, PropMap};
use valhalla::scene::ElementProps;
use valhalla::widgets::{
    attr_bool, attr_number, attr_str, click_handler, input_display, object_fit, press_handler,
    size_to_px, widget_kind, IconSize, ObjectFit, WidgetKind,
};

fn props(handlers: &[(&str, u32)], attrs: &[(&str, JsonValue<String>)]) -> ElementProps {
    let mut p = ElementProps::new();
    let mut hs = PropMap::new();
    for (k, v) in handlers {
        hs.insert(k.to_string(), *v);
    }
    let mut at = PropMap::new();
    for (k, v) in attrs {
        at.insert(k.to_string(), v.clone());
    }
    p.handlers = hs;
    p.attrs = at;
    p
}

#[test]
fn tags_pick_primitives() {
    assert_eq!(widget_kind("div"), WidgetKind::View);
    assert_eq!(widget_kind("pressable"), WidgetKind::Pressable);
    assert_eq!(widget_kind("span"), WidgetKind::Text);
    assert_eq!(widget_kind("scrollview"), WidgetKind::ScrollView);
    assert_eq!(widget_kind("svg"), WidgetKind::Svg);
    assert_eq!(widget_kind("img"), WidgetKind::Image);
    assert_eq!(widget_kind("input"), WidgetKind::TextInput);
    assert_eq!(widget_kind("blink"), WidgetKind::View);
}

#[test]
fn press_prefers_on_press_and_respects_disabled() {
    let p = props(&[("onClick", 1), ("onPress", 2)], &[]);
    assert_eq!(press_handler(&p), Some(2));
    assert_eq!(click_handler(&p), Some(1));
    let q = props(&[("onClick", 1)], &[]);
    assert_eq!(press_handler(&q), Some(1));
    let d = props(&[("onPress", 2)], &[("disabled", JsonValue::Bool(true))]);
    assert_eq!(press_handler(&d), None);
    let e = props(&[("onPress", 2)], &[("disabled", JsonValue::Str("true".into()))]);
    assert_eq!(press_handler(&e), Some(2));
    assert!(!attr_bool(&e, "disabled"));
}

#[test]
fn attrs_by_kind() {
    let p = props(&[], &[("src", JsonValue::Str("a.svg".into())), ("width", JsonValue::Number("40".into()))]);
    assert_eq!(attr_str(&p, "src"), Some("a.svg"));
    assert_eq!(attr_str(&p, "width"), None);
    assert_eq!(attr_number(&p, "width"), Some("40"));
    assert_eq!(attr_number(&p, "src"), None);
}

#[test]
fn input_shows_value_or_placeholder() {
    let p = props(&[], &[("value", JsonValue::Str("".into())), ("placeholder", JsonValue::Str("Type".into()))]);
    assert_eq!(input_display(&p), "Type");
    let q = props(&[], &[("value", JsonValue::Str("hi".into())), ("placeholder", JsonValue::Str("Type".into()))]);
    assert_eq!(input_display(&q), "hi");
    assert_eq!(input_display(&props(&[], &[])), "");
}

#[test]
fn image_fit_and_icon_size() {
    let fit = |s: &str| object_fit(&props(&[], &[("objectFit", JsonValue::Str(s.into()))]));
    assert_eq!(fit("cover"), Some(ObjectFit::Cover));
    assert_eq!(fit("fill"), Some(ObjectFit::Fill));
    assert_eq!(fit("none"), Some(ObjectFit::Unscaled));
    assert_eq!(fit("scale-down"), Some(ObjectFit::Contain));
    assert_eq!(object_fit(&props(&[], &[])), None);
    assert_eq!(size_to_px(Some("xs")), IconSize::Px(12));
    assert_eq!(size_to_px(Some("sm")), IconSize::Px(16));
    assert_eq!(size_to_px(Some("lg")), IconSize::Px(24));
    assert_eq!(size_to_px(Some("18.5")), IconSize::Literal("18.5".to_string()));
    assert_eq!(size_to_px(Some("huge")), IconSize::Px(20));
    assert_eq!(size_to_px(None), IconSize::Px(20));
}

#[test]
fn style_prop_comes_after_classes() {
    let mut props = ElementProps::new();
    props.classes = vec!["p-4".to_string(), "bogus".to_string(), "flex".to_string()];
    let mut style = PropMap::new();
    style.insert("padding".to_string(), JsonValue::Number("17".to_string()));
    style.insert("unknownKey".to_string(), JsonValue::Number("1".to_string()));
    props.style = style;
    assert_eq!(
        styling(&props),
        vec![
            Styling::Class(ClassStyle::Spaced(Spacing::P, "4".to_string())),
            Styling::Class(ClassStyle::Flex),
            Styling::Decl(StyleDecl {
                prop: StyleProp::Padding,
                value: StyleValue::Length(Length::Number("17".to_string())),
            }),
        ]
    );
}
