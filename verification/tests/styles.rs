use bumaga::animation::{AnimationDirection, AnimationFillMode, AnimationIterations, TimingFunction};
use bumaga::layout::{
    map_align_content, map_align_items, resolve_display, resolve_flex_direction,
    resolve_flex_wrap, resolve_overflow, resolve_position, AlignContent, AlignItems, Display,
    FlexDirection, FlexWrap, Overflow, Position,
};
use bumaga::styles::{resolve_font_style, resolve_iterations, resolve_string, resolve_timing};
use bumaga::cascade::{compute_style, longhands_of, ComputedStyle, PropertyDescriptor};
use bumaga::css::{ComputedValue, Dim, PropertyKey, Units};
use bumaga::decimal::Decimal;
use bumaga::element::{PointerEvents, TextAlign};
use bumaga::styles::{
    compute_function, map_a, map_c, resolve_animation_direction, resolve_animation_fill_mode,
    resolve_color, resolve_font_weight, resolve_play_state, resolve_pointer_events,
    resolve_text_align, CascadeError,
};

fn dec(negative: bool, mantissa: u64, scale: u32) -> Decimal {
    Decimal::new(negative, mantissa, scale)
}

fn num(m: u64, s: u32) -> ComputedValue {
    ComputedValue::Number(dec(false, m, s))
}

fn kw(k: &str) -> ComputedValue {
    ComputedValue::Keyword(k.to_string())
}

fn px(v: u64) -> ComputedValue {
    ComputedValue::Dimension(Dim::new(dec(false, v, 0), Units::Px))
}

#[test]
fn test_keywords_resolve() {
    assert_eq!(resolve_text_align("center").ok(), Some(TextAlign::Center));
    assert_eq!(resolve_text_align("justify-all").ok(), Some(TextAlign::JustifyAll));
    assert_eq!(resolve_pointer_events("none").ok(), Some(PointerEvents::Ignore));
    assert_eq!(resolve_animation_direction("alternate-reverse").ok(), Some(AnimationDirection::AlternateReverse));
    assert_eq!(resolve_animation_fill_mode("none").ok(), Some(AnimationFillMode::NoFill));
    assert_eq!(resolve_play_state("paused").ok(), Some(false));
    assert_eq!(resolve_play_state("running").ok(), Some(true));
}

#[test]
fn test_unknown_keyword_is_reported() {
    assert_eq!(resolve_text_align("middle").err(), Some(CascadeError::InvalidKeyword("middle".to_string())));
    assert_eq!(resolve_pointer_events("").err(), Some(CascadeError::InvalidKeyword(String::new())));
    let r: Result<u8, CascadeError> = CascadeError::invalid_keyword("x");
    assert_eq!(r, Err(CascadeError::InvalidKeyword("x".to_string())));
}

#[test]
fn test_colors() {
    assert_eq!(resolve_color(&kw("red")), Ok([255, 0, 0, 255]));
    assert_eq!(resolve_color(&kw("transparent")), Ok([0, 0, 0, 0]));
    assert_eq!(resolve_color(&ComputedValue::Color([1, 2, 3, 4])), Ok([1, 2, 3, 4]));
    assert_eq!(resolve_color(&kw("purple")), Err(CascadeError::InvalidKeyword("purple".to_string())));
    assert_eq!(resolve_color(&px(1)), Err(CascadeError::ValueNotSupported));
}

#[test]
fn test_font_weight() {
    assert_eq!(resolve_font_weight(&num(700, 0)), Ok(700));
    assert_eq!(resolve_font_weight(&num(4505, 1)), Ok(450));
    assert_eq!(resolve_font_weight(&num(1, 0)), Ok(1));
    assert_eq!(resolve_font_weight(&num(1000, 0)), Ok(1000));
    assert_eq!(resolve_font_weight(&num(10001, 1)), Err(CascadeError::ValueNotSupported));
    assert_eq!(resolve_font_weight(&num(5, 1)), Err(CascadeError::ValueNotSupported));
    assert_eq!(resolve_font_weight(&ComputedValue::Number(dec(true, 400, 0))), Err(CascadeError::ValueNotSupported));
    assert_eq!(resolve_font_weight(&kw("bold")), Ok(700));
    assert_eq!(resolve_font_weight(&kw("normal")), Ok(400));
    assert_eq!(resolve_font_weight(&kw("heavy")), Err(CascadeError::InvalidKeyword("heavy".to_string())));
}

#[test]
fn test_channels() {
    assert_eq!(map_c(&ComputedValue::Zero), 0);
    assert_eq!(map_c(&num(133, 0)), 133);
    assert_eq!(map_c(&num(300, 0)), 255);
    assert_eq!(map_c(&num(12, 1)), 1);
    assert_eq!(map_c(&ComputedValue::Number(dec(true, 5, 0))), 0);
    assert_eq!(map_c(&ComputedValue::Percentage(dec(false, 5, 1))), 127);
    assert_eq!(map_c(&ComputedValue::Percentage(dec(false, 2, 0))), 255);
    assert_eq!(map_c(&kw("x")), 0);
    assert_eq!(map_a(&num(5, 1)), 127);
    assert_eq!(map_a(&num(1, 0)), 255);
    assert_eq!(map_a(&ComputedValue::Percentage(dec(false, 1, 1))), 25);
    assert_eq!(map_a(&ComputedValue::Number(dec(false, 1, 30))), 0);
}

#[test]
fn test_compute_function() {
    assert_eq!(
        compute_function("rgb", &[num(1, 0), num(2, 0), num(3, 0)]),
        ComputedValue::Color([1, 2, 3, 255])
    );
    assert_eq!(
        compute_function("rgba", &[num(133, 0), num(155, 0), num(155, 0), num(5, 1)]),
        ComputedValue::Color([133, 155, 155, 127])
    );
    assert_eq!(
        compute_function("url", &[ComputedValue::Str("a.png".to_string())]),
        ComputedValue::Str("a.png".to_string())
    );
    assert_eq!(compute_function("url", &[num(1, 0)]), ComputedValue::Error);
    assert_eq!(compute_function("rgb", &[num(1, 0)]), ComputedValue::Error);
    assert_eq!(compute_function("hsl", &[]), ComputedValue::Error);
}

#[test]
fn test_padding_shorthands() {
    let two = longhands_of(PropertyKey::Padding, &[px(1), px(2)]);
    assert_eq!(
        two,
        vec![
            (PropertyKey::PaddingTop, px(1)),
            (PropertyKey::PaddingRight, px(2)),
            (PropertyKey::PaddingBottom, px(1)),
            (PropertyKey::PaddingLeft, px(2)),
        ]
    );
    let three = longhands_of(PropertyKey::Margin, &[px(1), px(2), px(3)]);
    assert_eq!(three[3], (PropertyKey::MarginLeft, px(2)));
    assert!(longhands_of(PropertyKey::Padding, &[px(1), px(2), px(3), px(4), px(5)]).is_empty());
    assert!(longhands_of(PropertyKey::Inset, &[px(1), px(2)]).is_empty());
}

#[test]
fn test_border_and_animation_shorthands() {
    let border = longhands_of(PropertyKey::Border, &[px(1), kw("solid"), kw("red")]);
    assert_eq!(border.len(), 8);
    assert_eq!(border[0], (PropertyKey::BorderTopWidth, px(1)));
    assert_eq!(border[7], (PropertyKey::BorderLeftColor, kw("red")));
    let time = ComputedValue::Time(dec(false, 1, 0));
    let delay = ComputedValue::Time(dec(false, 2, 0));
    let animation = longhands_of(PropertyKey::Animation, &[time.clone(), kw("linear"), delay.clone(), kw("A")]);
    assert_eq!(
        animation,
        vec![
            (PropertyKey::AnimationDelay, delay),
            (PropertyKey::AnimationDuration, time.clone()),
            (PropertyKey::AnimationName, kw("A")),
            (PropertyKey::AnimationTimingFunction, kw("linear")),
        ]
    );
    let counted = longhands_of(PropertyKey::Animation, &[time.clone(), kw("linear"), num(3, 0), kw("A")]);
    assert_eq!(counted[1], (PropertyKey::AnimationIterationCount, num(3, 0)));
    assert_eq!(longhands_of(PropertyKey::Width, &[px(5)]), vec![(PropertyKey::Width, px(5))]);
    assert!(longhands_of(PropertyKey::Width, &[px(5), px(6)]).is_empty());
    let gap = longhands_of(PropertyKey::Gap, &[px(1), px(2)]);
    assert_eq!(gap, vec![(PropertyKey::RowGap, px(2)), (PropertyKey::ColumnGap, px(1))]);
}

#[test]
fn test_computed_style_overwrites() {
    let mut style = ComputedStyle::new();
    compute_style(PropertyKey::Padding, 0, &[px(4)], &mut style);
    assert_eq!(style.len(), 4);
    compute_style(PropertyKey::PaddingLeft, 0, &[px(9)], &mut style);
    assert_eq!(style.len(), 4);
    assert_eq!(style.get(&PropertyDescriptor::new(PropertyKey::PaddingLeft, 0)), Some(&px(9)));
    assert_eq!(style.get(&PropertyDescriptor::new(PropertyKey::PaddingTop, 0)), Some(&px(4)));
    assert_eq!(style.get(&PropertyDescriptor::new(PropertyKey::PaddingTop, 1)), None);
    compute_style(PropertyKey::Width, 1, &[px(2)], &mut style);
    assert_eq!(style.len(), 5);
    assert_eq!(style.get(&PropertyDescriptor::new(PropertyKey::Width, 1)), Some(&px(2)));
}

#[test]
fn test_layout_keywords() {
    assert_eq!(resolve_overflow("auto").ok(), Some(Overflow::Scroll));
    assert_eq!(resolve_overflow("clip").ok(), Some(Overflow::Clip));
    assert_eq!(resolve_display("flow").ok(), Some(Display::Block));
    assert_eq!(resolve_display("grid").ok(), Some(Display::Grid));
    assert_eq!(resolve_display("inline").err(), Some(CascadeError::InvalidKeyword("inline".to_string())));
    assert_eq!(resolve_position("absolute").ok(), Some(Position::Absolute));
    assert_eq!(resolve_flex_direction("column-reverse").ok(), Some(FlexDirection::ColumnReverse));
    assert_eq!(resolve_flex_wrap("nowrap").ok(), Some(FlexWrap::NoWrap));
    assert_eq!(map_align_items("normal").ok(), Some(None));
    assert_eq!(map_align_items("baseline").ok(), Some(Some(AlignItems::Baseline)));
    assert_eq!(map_align_content("space-evenly").ok(), Some(Some(AlignContent::SpaceEvenly)));
    assert_eq!(map_align_content("baseline").err(), Some(CascadeError::InvalidKeyword("baseline".to_string())));
}

#[test]
fn test_timing_iterations_font_style() {
    assert_eq!(resolve_timing(&kw("ease-in-out")), Ok(TimingFunction::EaseInOut));
    assert_eq!(resolve_timing(&kw("step-end")), Ok(TimingFunction::StepEnd));
    assert_eq!(resolve_timing(&kw("bounce")), Err(CascadeError::ValueNotSupported));
    assert_eq!(resolve_timing(&num(1, 0)), Err(CascadeError::ValueNotSupported));
    assert_eq!(resolve_iterations(&kw("infinite")), Ok(AnimationIterations::Infinite));
    assert_eq!(resolve_iterations(&num(25, 1)), Ok(AnimationIterations::Number(dec(false, 25, 1))));
    assert_eq!(resolve_iterations(&kw("twice")), Err(CascadeError::ValueNotSupported));
    assert_eq!(resolve_font_style("italic"), Ok("italic".to_string()));
    assert_eq!(resolve_font_style("bold"), Err(CascadeError::InvalidKeyword("bold".to_string())));
    assert_eq!(resolve_string(&ComputedValue::Str("a".to_string())), Ok("a".to_string()));
    assert_eq!(resolve_string(&kw("a")), Err(CascadeError::ValueNotSupported));
}
