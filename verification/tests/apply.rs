use bumaga::animation::{AnimationDirection, AnimationIterations, TimingFunction};
use bumaga::apply::{apply, ElementStyle, Extent};
use bumaga::css::{ComputedValue, Dim, PropertyKey, Units};
use bumaga::decimal::Decimal;
use bumaga::element::{PointerEvents, TextAlign};
use bumaga::layout::{AlignItems, Display, FlexDirection, Overflow, Position};
use bumaga::styles::CascadeError;

fn dec(mantissa: u64, scale: u32) -> Decimal {
    Decimal::new(false, mantissa, scale)
}

fn kw(k: &str) -> ComputedValue {
    ComputedValue::Keyword(k.to_string())
}

fn px(v: u64) -> ComputedValue {
    ComputedValue::Dimension(Dim::new(dec(v, 0), Units::Px))
}

#[test]
fn test_apply_display_keywords() {
    let mut style = ElementStyle::new();
    assert_eq!(style.boxes.display, Display::Block);
    assert_eq!(apply(PropertyKey::Display, 0, &kw("flex"), &mut style), Ok(()));
    assert_eq!(style.boxes.display, Display::Flex);
    assert_eq!(apply(PropertyKey::Display, 0, &kw("flow"), &mut style), Ok(()));
    assert_eq!(style.boxes.display, Display::Block);
    assert_eq!(
        apply(PropertyKey::Display, 0, &kw("inline"), &mut style),
        Err(CascadeError::InvalidKeyword("inline".to_string()))
    );
    assert_eq!(style.boxes.display, Display::Block);
    assert_eq!(
        apply(PropertyKey::Display, 0, &px(3), &mut style),
        Err(CascadeError::PropertyNotSupported)
    );
}

#[test]
fn test_apply_lengths_stay_unresolved() {
    let mut style = ElementStyle::new();
    assert_eq!(apply(PropertyKey::Width, 0, &px(120), &mut style), Ok(()));
    assert_eq!(style.boxes.width, Extent::Length(Dim::new(dec(120, 0), Units::Px)));
    assert_eq!(apply(PropertyKey::MarginLeft, 0, &kw("auto"), &mut style), Ok(()));
    assert_eq!(style.boxes.margin.left, Extent::Auto);
    let half = ComputedValue::Percentage(dec(5, 1));
    assert_eq!(apply(PropertyKey::PaddingTop, 0, &half, &mut style), Ok(()));
    assert_eq!(style.boxes.padding.top, Extent::Percent(dec(5, 1)));
    // a padding takes no bare zero and no `auto`
    assert_eq!(
        apply(PropertyKey::PaddingTop, 0, &ComputedValue::Zero, &mut style),
        Err(CascadeError::ValueNotSupported)
    );
    assert_eq!(
        apply(PropertyKey::PaddingTop, 0, &kw("auto"), &mut style),
        Err(CascadeError::ValueNotSupported)
    );
    assert_eq!(style.boxes.padding.top, Extent::Percent(dec(5, 1)));
    let number = ComputedValue::Number(dec(2, 0));
    assert_eq!(apply(PropertyKey::FontSize, 0, &number, &mut style), Ok(()));
    assert_eq!(style.look.font_size, Extent::Number(dec(2, 0)));
    assert_eq!(apply(PropertyKey::BorderTopWidth, 0, &ComputedValue::Zero, &mut style), Ok(()));
    assert_eq!(style.look.border_widths.top, Extent::Zero);
}

#[test]
fn test_apply_look() {
    let mut style = ElementStyle::new();
    assert_eq!(style.look.color, [0, 0, 0, 255]);
    assert_eq!(apply(PropertyKey::Color, 0, &kw("red"), &mut style), Ok(()));
    assert_eq!(style.look.color, [255, 0, 0, 255]);
    let color = ComputedValue::Color([1, 2, 3, 4]);
    assert_eq!(apply(PropertyKey::BackgroundColor, 0, &color, &mut style), Ok(()));
    assert_eq!(style.look.background_color, [1, 2, 3, 4]);
    assert_eq!(apply(PropertyKey::FontWeight, 0, &kw("bold"), &mut style), Ok(()));
    assert_eq!(style.look.font_weight, 700);
    assert_eq!(apply(PropertyKey::FontStyle, 0, &kw("italic"), &mut style), Ok(()));
    assert_eq!(style.look.font_style, "italic");
    assert_eq!(
        apply(PropertyKey::FontStyle, 0, &kw("slanted"), &mut style),
        Err(CascadeError::InvalidKeyword("slanted".to_string()))
    );
    assert_eq!(apply(PropertyKey::TextAlign, 0, &kw("center"), &mut style), Ok(()));
    assert_eq!(style.look.text_align, TextAlign::Center);
    assert_eq!(apply(PropertyKey::PointerEvents, 0, &kw("none"), &mut style), Ok(()));
    assert_eq!(style.look.pointer_events, PointerEvents::Ignore);
    let family = ComputedValue::Str("Roboto".to_string());
    assert_eq!(apply(PropertyKey::FontFamily, 0, &family, &mut style), Ok(()));
    assert_eq!(style.look.font_family, "Roboto");
}

#[test]
fn test_apply_box_keywords() {
    let mut style = ElementStyle::new();
    assert_eq!(apply(PropertyKey::OverflowY, 0, &kw("auto"), &mut style), Ok(()));
    assert_eq!(style.boxes.overflow_y, Overflow::Scroll);
    assert_eq!(apply(PropertyKey::Position, 0, &kw("absolute"), &mut style), Ok(()));
    assert_eq!(style.boxes.position, Position::Absolute);
    assert_eq!(apply(PropertyKey::AlignItems, 0, &kw("center"), &mut style), Ok(()));
    assert_eq!(style.boxes.align_items, Some(AlignItems::Center));
    assert_eq!(apply(PropertyKey::AlignItems, 0, &kw("normal"), &mut style), Ok(()));
    assert_eq!(style.boxes.align_items, None);
    assert_eq!(apply(PropertyKey::FlexDirection, 0, &kw("column"), &mut style), Ok(()));
    assert_eq!(style.boxes.flex_direction, FlexDirection::Column);
    let grow = ComputedValue::Number(dec(3, 0));
    assert_eq!(apply(PropertyKey::FlexGrow, 0, &grow, &mut style), Ok(()));
    assert_eq!(style.boxes.flex_grow, dec(3, 0));
    assert_eq!(
        apply(PropertyKey::FlexGrow, 0, &px(3), &mut style),
        Err(CascadeError::PropertyNotSupported)
    );
}

#[test]
fn test_apply_box_sizing_and_shorthands() {
    let mut style = ElementStyle::new();
    let before = style.boxes;
    assert_eq!(apply(PropertyKey::BoxSizing, 0, &kw("border-box"), &mut style), Ok(()));
    assert_eq!(style.boxes, before);
    assert_eq!(
        apply(PropertyKey::Margin, 0, &px(1), &mut style),
        Err(CascadeError::PropertyNotSupported)
    );
    assert_eq!(style.boxes, before);
}

#[test]
fn test_apply_animation_slots() {
    let mut style = ElementStyle::new();
    let time = ComputedValue::Time(dec(15, 1));
    assert_eq!(apply(PropertyKey::AnimationDuration, 2, &time, &mut style), Ok(()));
    assert_eq!(style.animators.len(), 3);
    assert_eq!(style.animators[2].duration, dec(15, 1));
    assert_eq!(style.animators[0].duration, dec(0, 0));
    assert_eq!(style.animators[0].iterations, AnimationIterations::Number(dec(1, 0)));
    assert!(style.animators[0].running);
    assert_eq!(apply(PropertyKey::AnimationName, 0, &kw("fade"), &mut style), Ok(()));
    assert_eq!(style.animators[0].name, "fade");
    assert_eq!(apply(PropertyKey::AnimationDirection, 1, &kw("alternate"), &mut style), Ok(()));
    assert_eq!(style.animators[1].direction, AnimationDirection::Alternate);
    assert_eq!(apply(PropertyKey::AnimationIterationCount, 1, &kw("infinite"), &mut style), Ok(()));
    assert_eq!(style.animators[1].iterations, AnimationIterations::Infinite);
    assert_eq!(apply(PropertyKey::AnimationPlayState, 1, &kw("paused"), &mut style), Ok(()));
    assert!(!style.animators[1].running);
    // an error adds no slot
    assert_eq!(
        apply(PropertyKey::AnimationPlayState, 5, &kw("stopped"), &mut style),
        Err(CascadeError::InvalidKeyword("stopped".to_string()))
    );
    assert_eq!(style.animators.len(), 3);
}

#[test]
fn test_apply_transition_slots() {
    let mut style = ElementStyle::new();
    assert_eq!(apply(PropertyKey::TransitionProperty, 1, &kw("width"), &mut style), Ok(()));
    assert_eq!(style.transitions.len(), 2);
    assert_eq!(style.transitions[1].key, Some(PropertyKey::Width));
    assert_eq!(style.transitions[0].key, None);
    assert_eq!(apply(PropertyKey::TransitionTimingFunction, 1, &kw("ease-in"), &mut style), Ok(()));
    assert_eq!(style.transitions[1].animator.timing, TimingFunction::EaseIn);
    assert_eq!(
        apply(PropertyKey::TransitionProperty, 3, &kw("no-such-property"), &mut style),
        Err(CascadeError::InvalidKeyword("no-such-property".to_string()))
    );
    assert_eq!(
        apply(PropertyKey::TransitionTimingFunction, 3, &kw("bouncy"), &mut style),
        Err(CascadeError::ValueNotSupported)
    );
    assert_eq!(style.transitions.len(), 2);
}

use bumaga::cascade::{compute_style, ComputedStyle, PropertyDescriptor};

#[test]
fn test_apply_computed_style_in_order() {
    let mut computed = ComputedStyle::new();
    compute_style(PropertyKey::Padding, 0, &[px(4)], &mut computed);
    compute_style(PropertyKey::Display, 0, &[kw("flex")], &mut computed);
    compute_style(PropertyKey::Position, 0, &[px(1)], &mut computed);
    compute_style(PropertyKey::AnimationName, 1, &[kw("spin")], &mut computed);
    assert!(computed.slots_fit());
    let mut style = ElementStyle::new();
    let (ok, failed) = computed.apply_to(&mut style);
    assert_eq!((ok, failed), (6, 1));
    let four = Extent::Length(Dim::new(dec(4, 0), Units::Px));
    assert_eq!(style.boxes.padding.top, four);
    assert_eq!(style.boxes.padding.left, four);
    assert_eq!(style.boxes.display, Display::Flex);
    assert_eq!(style.boxes.position, Position::Relative);
    assert_eq!(style.animators.len(), 2);
    assert_eq!(style.animators[1].name, "spin");
}

#[test]
fn test_computing_one_index_keeps_the_others() {
    let mut computed = ComputedStyle::new();
    compute_style(PropertyKey::Width, 0, &[px(1)], &mut computed);
    compute_style(PropertyKey::Width, 1, &[px(2)], &mut computed);
    compute_style(PropertyKey::Width, 1, &[px(3)], &mut computed);
    assert_eq!(computed.get(&PropertyDescriptor::new(PropertyKey::Width, 0)), Some(&px(1)));
    assert_eq!(computed.get(&PropertyDescriptor::new(PropertyKey::Width, 1)), Some(&px(3)));
    assert_eq!(computed.len(), 2);
}

#[test]
fn test_apply_changes_one_part() {
    let mut style = ElementStyle::new();
    let boxes = style.boxes;
    assert_eq!(apply(PropertyKey::Color, 0, &kw("blue"), &mut style), Ok(()));
    assert_eq!(style.boxes, boxes);
    assert!(style.transitions.is_empty() && style.animators.is_empty());
    assert_eq!(apply(PropertyKey::AnimationDelay, 0, &ComputedValue::Time(dec(1, 0)), &mut style), Ok(()));
    assert_eq!(apply(PropertyKey::AnimationDelay, 1, &ComputedValue::Time(dec(2, 0)), &mut style), Ok(()));
    assert_eq!(style.animators[0].delay, dec(1, 0));
    assert_eq!(style.look.color, [0, 0, 255, 255]);
}

#[test]
fn test_apply_twice_is_apply_once() {
    let mut style = ElementStyle::new();
    let time = ComputedValue::Time(dec(3, 0));
    assert_eq!(apply(PropertyKey::TransitionDelay, 2, &time, &mut style), Ok(()));
    assert_eq!(apply(PropertyKey::Width, 0, &px(5), &mut style), Ok(()));
    let boxes = style.boxes;
    assert_eq!(apply(PropertyKey::TransitionDelay, 2, &time, &mut style), Ok(()));
    assert_eq!(apply(PropertyKey::Width, 0, &px(5), &mut style), Ok(()));
    assert_eq!(style.boxes, boxes);
    assert_eq!(style.transitions.len(), 3);
    assert_eq!(style.transitions[2].animator.delay, dec(3, 0));
}
