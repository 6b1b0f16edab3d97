//! The properties of style sheets and their names.
use vstd::prelude::*;
use crate::lexer::matches_at;

verus! {

/// The properties that the cascade knows.
#[derive(Clone, Copy, Debug, PartialEq, Eq, Hash, Structural)]
pub enum PropertyKey {
    AlignContent,
    AlignItems,
    AlignSelf,
    Animation,
    AnimationDelay,
    AnimationDirection,
    AnimationDuration,
    AnimationFillMode,
    AnimationIterationCount,
    AnimationName,
    AnimationPlayState,
    AnimationTimingFunction,
    Background,
    BackgroundColor,
    BackgroundPosition,
    BackgroundPositionX,
    BackgroundPositionY,
    Border,
    BorderBottom,
    BorderBottomColor,
    BorderBottomLeftRadius,
    BorderBottomRightRadius,
    BorderBottomWidth,
    BorderColor,
    BorderLeft,
    BorderLeftColor,
    BorderLeftWidth,
    BorderRadius,
    BorderRight,
    BorderRightColor,
    BorderRightWidth,
    BorderTop,
    BorderTopColor,
    BorderTopLeftRadius,
    BorderTopRightRadius,
    BorderTopWidth,
    BorderWidth,
    Bottom,
    BoxShadow,
    BoxSizing,
    Color,
    ColumnGap,
    Content,
    Display,
    FlexBasis,
    FlexDirection,
    FlexGrow,
    FlexShrink,
    FlexWrap,
    FontFamily,
    FontSize,
    FontStyle,
    FontWeight,
    Gap,
    Height,
    Inset,
    JustifyContent,
    JustifyItems,
    JustifySelf,
    Left,
    LineHeight,
    Margin,
    MarginBottom,
    MarginLeft,
    MarginRight,
    MarginTop,
    MaskImage,
    MaxHeight,
    MaxWidth,
    MinHeight,
    MinWidth,
    Overflow,
    OverflowX,
    OverflowY,
    Padding,
    PaddingBottom,
    PaddingLeft,
    PaddingRight,
    PaddingTop,
    PointerEvents,
    Position,
    Right,
    RowGap,
    TextAlign,
    Top,
    Transform,
    Transition,
    TransitionDelay,
    TransitionDuration,
    TransitionProperty,
    TransitionTimingFunction,
    Width,
}

/// The name of a property in style sheets.
pub open spec fn property_name(key: PropertyKey) -> Seq<char> {
    match key {
        PropertyKey::AlignContent => seq!['a', 'l', 'i', 'g', 'n', '-', 'c', 'o', 'n', 't', 'e', 'n', 't'],
        PropertyKey::AlignItems => seq!['a', 'l', 'i', 'g', 'n', '-', 'i', 't', 'e', 'm', 's'],
        PropertyKey::AlignSelf => seq!['a', 'l', 'i', 'g', 'n', '-', 's', 'e', 'l', 'f'],
        PropertyKey::Animation => seq!['a', 'n', 'i', 'm', 'a', 't', 'i', 'o', 'n'],
        PropertyKey::AnimationDelay => seq!['a', 'n', 'i', 'm', 'a', 't', 'i', 'o', 'n', '-', 'd', 'e', 'l', 'a', 'y'],
        PropertyKey::AnimationDirection => seq!['a', 'n', 'i', 'm', 'a', 't', 'i', 'o', 'n', '-', 'd', 'i', 'r', 'e', 'c', 't', 'i', 'o', 'n'],
        PropertyKey::AnimationDuration => seq!['a', 'n', 'i', 'm', 'a', 't', 'i', 'o', 'n', '-', 'd', 'u', 'r', 'a', 't', 'i', 'o', 'n'],
        PropertyKey::AnimationFillMode => seq!['a', 'n', 'i', 'm', 'a', 't', 'i', 'o', 'n', '-', 'f', 'i', 'l', 'l', '-', 'm', 'o', 'd', 'e'],
        PropertyKey::AnimationIterationCount => seq!['a', 'n', 'i', 'm', 'a', 't', 'i', 'o', 'n', '-', 'i', 't', 'e', 'r', 'a', 't', 'i', 'o', 'n', '-', 'c', 'o', 'u', 'n', 't'],
        PropertyKey::AnimationName => seq!['a', 'n', 'i', 'm', 'a', 't', 'i', 'o', 'n', '-', 'n', 'a', 'm', 'e'],
        PropertyKey::AnimationPlayState => seq!['a', 'n', 'i', 'm', 'a', 't', 'i', 'o', 'n', '-', 'p', 'l', 'a', 'y', '-', 's', 't', 'a', 't', 'e'],
        PropertyKey::AnimationTimingFunction => seq!['a', 'n', 'i', 'm', 'a', 't', 'i', 'o', 'n', '-', 't', 'i', 'm', 'i', 'n', 'g', '-', 'f', 'u', 'n', 'c', 't', 'i', 'o', 'n'],
        PropertyKey::Background => seq!['b', 'a', 'c', 'k', 'g', 'r', 'o', 'u', 'n', 'd'],
        PropertyKey::BackgroundColor => seq!['b', 'a', 'c', 'k', 'g', 'r', 'o', 'u', 'n', 'd', '-', 'c', 'o', 'l', 'o', 'r'],
        PropertyKey::BackgroundPosition => seq!['b', 'a', 'c', 'k', 'g', 'r', 'o', 'u', 'n', 'd', '-', 'p', 'o', 's', 'i', 't', 'i', 'o', 'n'],
        PropertyKey::BackgroundPositionX => seq!['b', 'a', 'c', 'k', 'g', 'r', 'o', 'u', 'n', 'd', '-', 'p', 'o', 's', 'i', 't', 'i', 'o', 'n', '-', 'x'],
        PropertyKey::BackgroundPositionY => seq!['b', 'a', 'c', 'k', 'g', 'r', 'o', 'u', 'n', 'd', '-', 'p', 'o', 's', 'i', 't', 'i', 'o', 'n', '-', 'y'],
        PropertyKey::Border => seq!['b', 'o', 'r', 'd', 'e', 'r'],
        PropertyKey::BorderBottom => seq!['b', 'o', 'r', 'd', 'e', 'r', '-', 'b', 'o', 't', 't', 'o', 'm'],
        PropertyKey::BorderBottomColor => seq!['b', 'o', 'r', 'd', 'e', 'r', '-', 'b', 'o', 't', 't', 'o', 'm', '-', 'c', 'o', 'l', 'o', 'r'],
        PropertyKey::BorderBottomLeftRadius => seq!['b', 'o', 'r', 'd', 'e', 'r', '-', 'b', 'o', 't', 't', 'o', 'm', '-', 'l', 'e', 'f', 't', '-', 'r', 'a', 'd', 'i', 'u', 's'],
        PropertyKey::BorderBottomRightRadius => seq!['b', 'o', 'r', 'd', 'e', 'r', '-', 'b', 'o', 't', 't', 'o', 'm', '-', 'r', 'i', 'g', 'h', 't', '-', 'r', 'a', 'd', 'i', 'u', 's'],
        PropertyKey::BorderBottomWidth => seq!['b', 'o', 'r', 'd', 'e', 'r', '-', 'b', 'o', 't', 't', 'o', 'm', '-', 'w', 'i', 'd', 't', 'h'],
        PropertyKey::BorderColor => seq!['b', 'o', 'r', 'd', 'e', 'r', '-', 'c', 'o', 'l', 'o', 'r'],
        PropertyKey::BorderLeft => seq!['b', 'o', 'r', 'd', 'e', 'r', '-', 'l', 'e', 'f', 't'],
        PropertyKey::BorderLeftColor => seq!['b', 'o', 'r', 'd', 'e', 'r', '-', 'l', 'e', 'f', 't', '-', 'c', 'o', 'l', 'o', 'r'],
        PropertyKey::BorderLeftWidth => seq!['b', 'o', 'r', 'd', 'e', 'r', '-', 'l', 'e', 'f', 't', '-', 'w', 'i', 'd', 't', 'h'],
        PropertyKey::BorderRadius => seq!['b', 'o', 'r', 'd', 'e', 'r', '-', 'r', 'a', 'd', 'i', 'u', 's'],
        PropertyKey::BorderRight => seq!['b', 'o', 'r', 'd', 'e', 'r', '-', 'r', 'i', 'g', 'h', 't'],
        PropertyKey::BorderRightColor => seq!['b', 'o', 'r', 'd', 'e', 'r', '-', 'r', 'i', 'g', 'h', 't', '-', 'c', 'o', 'l', 'o', 'r'],
        PropertyKey::BorderRightWidth => seq!['b', 'o', 'r', 'd', 'e', 'r', '-', 'r', 'i', 'g', 'h', 't', '-', 'w', 'i', 'd', 't', 'h'],
        PropertyKey::BorderTop => seq!['b', 'o', 'r', 'd', 'e', 'r', '-', 't', 'o', 'p'],
        PropertyKey::BorderTopColor => seq!['b', 'o', 'r', 'd', 'e', 'r', '-', 't', 'o', 'p', '-', 'c', 'o', 'l', 'o', 'r'],
        PropertyKey::BorderTopLeftRadius => seq!['b', 'o', 'r', 'd', 'e', 'r', '-', 't', 'o', 'p', '-', 'l', 'e', 'f', 't', '-', 'r', 'a', 'd', 'i', 'u', 's'],
        PropertyKey::BorderTopRightRadius => seq!['b', 'o', 'r', 'd', 'e', 'r', '-', 't', 'o', 'p', '-', 'r', 'i', 'g', 'h', 't', '-', 'r', 'a', 'd', 'i', 'u', 's'],
        PropertyKey::BorderTopWidth => seq!['b', 'o', 'r', 'd', 'e', 'r', '-', 't', 'o', 'p', '-', 'w', 'i', 'd', 't', 'h'],
        PropertyKey::BorderWidth => seq!['b', 'o', 'r', 'd', 'e', 'r', '-', 'w', 'i', 'd', 't', 'h'],
        PropertyKey::Bottom => seq!['b', 'o', 't', 't', 'o', 'm'],
        PropertyKey::BoxShadow => seq!['b', 'o', 'x', '-', 's', 'h', 'a', 'd', 'o', 'w'],
        PropertyKey::BoxSizing => seq!['b', 'o', 'x', '-', 's', 'i', 'z', 'i', 'n', 'g'],
        PropertyKey::Color => seq!['c', 'o', 'l', 'o', 'r'],
        PropertyKey::ColumnGap => seq!['c', 'o', 'l', 'u', 'm', 'n', '-', 'g', 'a', 'p'],
        PropertyKey::Content => seq!['c', 'o', 'n', 't', 'e', 'n', 't'],
        PropertyKey::Display => seq!['d', 'i', 's', 'p', 'l', 'a', 'y'],
        PropertyKey::FlexBasis => seq!['f', 'l', 'e', 'x', '-', 'b', 'a', 's', 'i', 's'],
        PropertyKey::FlexDirection => seq!['f', 'l', 'e', 'x', '-', 'd', 'i', 'r', 'e', 'c', 't', 'i', 'o', 'n'],
        PropertyKey::FlexGrow => seq!['f', 'l', 'e', 'x', '-', 'g', 'r', 'o', 'w'],
        PropertyKey::FlexShrink => seq!['f', 'l', 'e', 'x', '-', 's', 'h', 'r', 'i', 'n', 'k'],
        PropertyKey::FlexWrap => seq!['f', 'l', 'e', 'x', '-', 'w', 'r', 'a', 'p'],
        PropertyKey::FontFamily => seq!['f', 'o', 'n', 't', '-', 'f', 'a', 'm', 'i', 'l', 'y'],
        PropertyKey::FontSize => seq!['f', 'o', 'n', 't', '-', 's', 'i', 'z', 'e'],
        PropertyKey::FontStyle => seq!['f', 'o', 'n', 't', '-', 's', 't', 'y', 'l', 'e'],
        PropertyKey::FontWeight => seq!['f', 'o', 'n', 't', '-', 'w', 'e', 'i', 'g', 'h', 't'],
        PropertyKey::Gap => seq!['g', 'a', 'p'],
        PropertyKey::Height => seq!['h', 'e', 'i', 'g', 'h', 't'],
        PropertyKey::Inset => seq!['i', 'n', 's', 'e', 't'],
        PropertyKey::JustifyContent => seq!['j', 'u', 's', 't', 'i', 'f', 'y', '-', 'c', 'o', 'n', 't', 'e', 'n', 't'],
        PropertyKey::JustifyItems => seq!['j', 'u', 's', 't', 'i', 'f', 'y', '-', 'i', 't', 'e', 'm', 's'],
        PropertyKey::JustifySelf => seq!['j', 'u', 's', 't', 'i', 'f', 'y', '-', 's', 'e', 'l', 'f'],
        PropertyKey::Left => seq!['l', 'e', 'f', 't'],
        PropertyKey::LineHeight => seq!['l', 'i', 'n', 'e', '-', 'h', 'e', 'i', 'g', 'h', 't'],
        PropertyKey::Margin => seq!['m', 'a', 'r', 'g', 'i', 'n'],
        PropertyKey::MarginBottom => seq!['m', 'a', 'r', 'g', 'i', 'n', '-', 'b', 'o', 't', 't', 'o', 'm'],
        PropertyKey::MarginLeft => seq!['m', 'a', 'r', 'g', 'i', 'n', '-', 'l', 'e', 'f', 't'],
        PropertyKey::MarginRight => seq!['m', 'a', 'r', 'g', 'i', 'n', '-', 'r', 'i', 'g', 'h', 't'],
        PropertyKey::MarginTop => seq!['m', 'a', 'r', 'g', 'i', 'n', '-', 't', 'o', 'p'],
        PropertyKey::MaskImage => seq!['m', 'a', 's', 'k', '-', 'i', 'm', 'a', 'g', 'e'],
        PropertyKey::MaxHeight => seq!['m', 'a', 'x', '-', 'h', 'e', 'i', 'g', 'h', 't'],
        PropertyKey::MaxWidth => seq!['m', 'a', 'x', '-', 'w', 'i', 'd', 't', 'h'],
        PropertyKey::MinHeight => seq!['m', 'i', 'n', '-', 'h', 'e', 'i', 'g', 'h', 't'],
        PropertyKey::MinWidth => seq!['m', 'i', 'n', '-', 'w', 'i', 'd', 't', 'h'],
        PropertyKey::Overflow => seq!['o', 'v', 'e', 'r', 'f', 'l', 'o', 'w'],
        PropertyKey::OverflowX => seq!['o', 'v', 'e', 'r', 'f', 'l', 'o', 'w', '-', 'x'],
        PropertyKey::OverflowY => seq!['o', 'v', 'e', 'r', 'f', 'l', 'o', 'w', '-', 'y'],
        PropertyKey::Padding => seq!['p', 'a', 'd', 'd', 'i', 'n', 'g'],
        PropertyKey::PaddingBottom => seq!['p', 'a', 'd', 'd', 'i', 'n', 'g', '-', 'b', 'o', 't', 't', 'o', 'm'],
        PropertyKey::PaddingLeft => seq!['p', 'a', 'd', 'd', 'i', 'n', 'g', '-', 'l', 'e', 'f', 't'],
        PropertyKey::PaddingRight => seq!['p', 'a', 'd', 'd', 'i', 'n', 'g', '-', 'r', 'i', 'g', 'h', 't'],
        PropertyKey::PaddingTop => seq!['p', 'a', 'd', 'd', 'i', 'n', 'g', '-', 't', 'o', 'p'],
        PropertyKey::PointerEvents => seq!['p', 'o', 'i', 'n', 't', 'e', 'r', '-', 'e', 'v', 'e', 'n', 't', 's'],
        PropertyKey::Position => seq!['p', 'o', 's', 'i', 't', 'i', 'o', 'n'],
        PropertyKey::Right => seq!['r', 'i', 'g', 'h', 't'],
        PropertyKey::RowGap => seq!['r', 'o', 'w', '-', 'g', 'a', 'p'],
        PropertyKey::TextAlign => seq!['t', 'e', 'x', 't', '-', 'a', 'l', 'i', 'g', 'n'],
        PropertyKey::Top => seq!['t', 'o', 'p'],
        PropertyKey::Transform => seq!['t', 'r', 'a', 'n', 's', 'f', 'o', 'r', 'm'],
        PropertyKey::Transition => seq!['t', 'r', 'a', 'n', 's', 'i', 't', 'i', 'o', 'n'],
        PropertyKey::TransitionDelay => seq!['t', 'r', 'a', 'n', 's', 'i', 't', 'i', 'o', 'n', '-', 'd', 'e', 'l', 'a', 'y'],
        PropertyKey::TransitionDuration => seq!['t', 'r', 'a', 'n', 's', 'i', 't', 'i', 'o', 'n', '-', 'd', 'u', 'r', 'a', 't', 'i', 'o', 'n'],
        PropertyKey::TransitionProperty => seq!['t', 'r', 'a', 'n', 's', 'i', 't', 'i', 'o', 'n', '-', 'p', 'r', 'o', 'p', 'e', 'r', 't', 'y'],
        PropertyKey::TransitionTimingFunction => seq!['t', 'r', 'a', 'n', 's', 'i', 't', 'i', 'o', 'n', '-', 't', 'i', 'm', 'i', 'n', 'g', '-', 'f', 'u', 'n', 'c', 't', 'i', 'o', 'n'],
        PropertyKey::Width => seq!['w', 'i', 'd', 't', 'h'],
    }
}

pub open spec fn property_key_0(name: Seq<char>) -> Option<PropertyKey> {
    if name == property_name(PropertyKey::AlignContent) {
        Some(PropertyKey::AlignContent)
    }
    else if name == property_name(PropertyKey::AlignItems) {
        Some(PropertyKey::AlignItems)
    }
    else if name == property_name(PropertyKey::AlignSelf) {
        Some(PropertyKey::AlignSelf)
    }
    else if name == property_name(PropertyKey::Animation) {
        Some(PropertyKey::Animation)
    }
    else if name == property_name(PropertyKey::AnimationDelay) {
        Some(PropertyKey::AnimationDelay)
    }
    else if name == property_name(PropertyKey::AnimationDirection) {
        Some(PropertyKey::AnimationDirection)
    }
    else if name == property_name(PropertyKey::AnimationDuration) {
        Some(PropertyKey::AnimationDuration)
    }
    else if name == property_name(PropertyKey::AnimationFillMode) {
        Some(PropertyKey::AnimationFillMode)
    }
    else if name == property_name(PropertyKey::AnimationIterationCount) {
        Some(PropertyKey::AnimationIterationCount)
    }
    else if name == property_name(PropertyKey::AnimationName) {
        Some(PropertyKey::AnimationName)
    }
    else if name == property_name(PropertyKey::AnimationPlayState) {
        Some(PropertyKey::AnimationPlayState)
    }
    else if name == property_name(PropertyKey::AnimationTimingFunction) {
        Some(PropertyKey::AnimationTimingFunction)
    }
    else {
        None
    }
}

pub open spec fn property_key_1(name: Seq<char>) -> Option<PropertyKey> {
    if name == property_name(PropertyKey::Background) {
        Some(PropertyKey::Background)
    }
    else if name == property_name(PropertyKey::BackgroundColor) {
        Some(PropertyKey::BackgroundColor)
    }
    else if name == property_name(PropertyKey::BackgroundPosition) {
        Some(PropertyKey::BackgroundPosition)
    }
    else if name == property_name(PropertyKey::BackgroundPositionX) {
        Some(PropertyKey::BackgroundPositionX)
    }
    else if name == property_name(PropertyKey::BackgroundPositionY) {
        Some(PropertyKey::BackgroundPositionY)
    }
    else if name == property_name(PropertyKey::Border) {
        Some(PropertyKey::Border)
    }
    else if name == property_name(PropertyKey::BorderBottom) {
        Some(PropertyKey::BorderBottom)
    }
    else if name == property_name(PropertyKey::BorderBottomColor) {
        Some(PropertyKey::BorderBottomColor)
    }
    else if name == property_name(PropertyKey::BorderBottomLeftRadius) {
        Some(PropertyKey::BorderBottomLeftRadius)
    }
    else if name == property_name(PropertyKey::BorderBottomRightRadius) {
        Some(PropertyKey::BorderBottomRightRadius)
    }
    else if name == property_name(PropertyKey::BorderBottomWidth) {
        Some(PropertyKey::BorderBottomWidth)
    }
    else if name == property_name(PropertyKey::BorderColor) {
        Some(PropertyKey::BorderColor)
    }
    else {
        None
    }
}

pub open spec fn property_key_2(name: Seq<char>) -> Option<PropertyKey> {
    if name == property_name(PropertyKey::BorderLeft) {
        Some(PropertyKey::BorderLeft)
    }
    else if name == property_name(PropertyKey::BorderLeftColor) {
        Some(PropertyKey::BorderLeftColor)
    }
    else if name == property_name(PropertyKey::BorderLeftWidth) {
        Some(PropertyKey::BorderLeftWidth)
    }
    else if name == property_name(PropertyKey::BorderRadius) {
        Some(PropertyKey::BorderRadius)
    }
    else if name == property_name(PropertyKey::BorderRight) {
        Some(PropertyKey::BorderRight)
    }
    else if name == property_name(PropertyKey::BorderRightColor) {
        Some(PropertyKey::BorderRightColor)
    }
    else if name == property_name(PropertyKey::BorderRightWidth) {
        Some(PropertyKey::BorderRightWidth)
    }
    else if name == property_name(PropertyKey::BorderTop) {
        Some(PropertyKey::BorderTop)
    }
    else if name == property_name(PropertyKey::BorderTopColor) {
        Some(PropertyKey::BorderTopColor)
    }
    else if name == property_name(PropertyKey::BorderTopLeftRadius) {
        Some(PropertyKey::BorderTopLeftRadius)
    }
    else if name == property_name(PropertyKey::BorderTopRightRadius) {
        Some(PropertyKey::BorderTopRightRadius)
    }
    else if name == property_name(PropertyKey::BorderTopWidth) {
        Some(PropertyKey::BorderTopWidth)
    }
    else {
        None
    }
}

pub open spec fn property_key_3(name: Seq<char>) -> Option<PropertyKey> {
    if name == property_name(PropertyKey::BorderWidth) {
        Some(PropertyKey::BorderWidth)
    }
    else if name == property_name(PropertyKey::Bottom) {
        Some(PropertyKey::Bottom)
    }
    else if name == property_name(PropertyKey::BoxShadow) {
        Some(PropertyKey::BoxShadow)
    }
    else if name == property_name(PropertyKey::BoxSizing) {
        Some(PropertyKey::BoxSizing)
    }
    else if name == property_name(PropertyKey::Color) {
        Some(PropertyKey::Color)
    }
    else if name == property_name(PropertyKey::ColumnGap) {
        Some(PropertyKey::ColumnGap)
    }
    else if name == property_name(PropertyKey::Content) {
        Some(PropertyKey::Content)
    }
    else if name == property_name(PropertyKey::Display) {
        Some(PropertyKey::Display)
    }
    else if name == property_name(PropertyKey::FlexBasis) {
        Some(PropertyKey::FlexBasis)
    }
    else if name == property_name(PropertyKey::FlexDirection) {
        Some(PropertyKey::FlexDirection)
    }
    else if name == property_name(PropertyKey::FlexGrow) {
        Some(PropertyKey::FlexGrow)
    }
    else if name == property_name(PropertyKey::FlexShrink) {
        Some(PropertyKey::FlexShrink)
    }
    else {
        None
    }
}

pub open spec fn property_key_4(name: Seq<char>) -> Option<PropertyKey> {
    if name == property_name(PropertyKey::FlexWrap) {
        Some(PropertyKey::FlexWrap)
    }
    else if name == property_name(PropertyKey::FontFamily) {
        Some(PropertyKey::FontFamily)
    }
    else if name == property_name(PropertyKey::FontSize) {
        Some(PropertyKey::FontSize)
    }
    else if name == property_name(PropertyKey::FontStyle) {
        Some(PropertyKey::FontStyle)
    }
    else if name == property_name(PropertyKey::FontWeight) {
        Some(PropertyKey::FontWeight)
    }
    else if name == property_name(PropertyKey::Gap) {
        Some(PropertyKey::Gap)
    }
    else if name == property_name(PropertyKey::Height) {
        Some(PropertyKey::Height)
    }
    else if name == property_name(PropertyKey::Inset) {
        Some(PropertyKey::Inset)
    }
    else if name == property_name(PropertyKey::JustifyContent) {
        Some(PropertyKey::JustifyContent)
    }
    else if name == property_name(PropertyKey::JustifyItems) {
        Some(PropertyKey::JustifyItems)
    }
    else if name == property_name(PropertyKey::JustifySelf) {
        Some(PropertyKey::JustifySelf)
    }
    else if name == property_name(PropertyKey::Left) {
        Some(PropertyKey::Left)
    }
    else {
        None
    }
}

pub open spec fn property_key_5(name: Seq<char>) -> Option<PropertyKey> {
    if name == property_name(PropertyKey::LineHeight) {
        Some(PropertyKey::LineHeight)
    }
    else if name == property_name(PropertyKey::Margin) {
        Some(PropertyKey::Margin)
    }
    else if name == property_name(PropertyKey::MarginBottom) {
        Some(PropertyKey::MarginBottom)
    }
    else if name == property_name(PropertyKey::MarginLeft) {
        Some(PropertyKey::MarginLeft)
    }
    else if name == property_name(PropertyKey::MarginRight) {
        Some(PropertyKey::MarginRight)
    }
    else if name == property_name(PropertyKey::MarginTop) {
        Some(PropertyKey::MarginTop)
    }
    else if name == property_name(PropertyKey::MaskImage) {
        Some(PropertyKey::MaskImage)
    }
    else if name == property_name(PropertyKey::MaxHeight) {
        Some(PropertyKey::MaxHeight)
    }
    else if name == property_name(PropertyKey::MaxWidth) {
        Some(PropertyKey::MaxWidth)
    }
    else if name == property_name(PropertyKey::MinHeight) {
        Some(PropertyKey::MinHeight)
    }
    else if name == property_name(PropertyKey::MinWidth) {
        Some(PropertyKey::MinWidth)
    }
    else if name == property_name(PropertyKey::Overflow) {
        Some(PropertyKey::Overflow)
    }
    else {
        None
    }
}

pub open spec fn property_key_6(name: Seq<char>) -> Option<PropertyKey> {
    if name == property_name(PropertyKey::OverflowX) {
        Some(PropertyKey::OverflowX)
    }
    else if name == property_name(PropertyKey::OverflowY) {
        Some(PropertyKey::OverflowY)
    }
    else if name == property_name(PropertyKey::Padding) {
        Some(PropertyKey::Padding)
    }
    else if name == property_name(PropertyKey::PaddingBottom) {
        Some(PropertyKey::PaddingBottom)
    }
    else if name == property_name(PropertyKey::PaddingLeft) {
        Some(PropertyKey::PaddingLeft)
    }
    else if name == property_name(PropertyKey::PaddingRight) {
        Some(PropertyKey::PaddingRight)
    }
    else if name == property_name(PropertyKey::PaddingTop) {
        Some(PropertyKey::PaddingTop)
    }
    else if name == property_name(PropertyKey::PointerEvents) {
        Some(PropertyKey::PointerEvents)
    }
    else if name == property_name(PropertyKey::Position) {
        Some(PropertyKey::Position)
    }
    else if name == property_name(PropertyKey::Right) {
        Some(PropertyKey::Right)
    }
    else if name == property_name(PropertyKey::RowGap) {
        Some(PropertyKey::RowGap)
    }
    else if name == property_name(PropertyKey::TextAlign) {
        Some(PropertyKey::TextAlign)
    }
    else {
        None
    }
}

pub open spec fn property_key_7(name: Seq<char>) -> Option<PropertyKey> {
    if name == property_name(PropertyKey::Top) {
        Some(PropertyKey::Top)
    }
    else if name == property_name(PropertyKey::Transform) {
        Some(PropertyKey::Transform)
    }
    else if name == property_name(PropertyKey::Transition) {
        Some(PropertyKey::Transition)
    }
    else if name == property_name(PropertyKey::TransitionDelay) {
        Some(PropertyKey::TransitionDelay)
    }
    else if name == property_name(PropertyKey::TransitionDuration) {
        Some(PropertyKey::TransitionDuration)
    }
    else if name == property_name(PropertyKey::TransitionProperty) {
        Some(PropertyKey::TransitionProperty)
    }
    else if name == property_name(PropertyKey::TransitionTimingFunction) {
        Some(PropertyKey::TransitionTimingFunction)
    }
    else if name == property_name(PropertyKey::Width) {
        Some(PropertyKey::Width)
    }
    else {
        None
    }
}

/// The property that a name names: the first of the list whose name it is.
pub open spec fn property_key(name: Seq<char>) -> Option<PropertyKey> {
    match property_key_0(name) {
        Some(k) => Some(k),
        None => match property_key_1(name) {
        Some(k) => Some(k),
        None => match property_key_2(name) {
        Some(k) => Some(k),
        None => match property_key_3(name) {
        Some(k) => Some(k),
        None => match property_key_4(name) {
        Some(k) => Some(k),
        None => match property_key_5(name) {
        Some(k) => Some(k),
        None => match property_key_6(name) {
        Some(k) => Some(k),
        None => match property_key_7(name) {
        Some(k) => Some(k),
        None => None,
    },
    },
    },
    },
    },
    },
    },
    }
}

fn parse_key_0(name: &[char]) -> (r: Option<PropertyKey>)
    ensures
        r == property_key_0(name@),
{
    let w = ['a', 'l', 'i', 'g', 'n', '-', 'c', 'o', 'n', 't', 'e', 'n', 't'];
    assert(w@ =~= property_name(PropertyKey::AlignContent));
    if name.len() == 13 && matches_at(name, 0, &w) {
        assert(name@.subrange(0, 13) =~= name@);
        return Some(PropertyKey::AlignContent);
    }
    proof {
        if name@ == property_name(PropertyKey::AlignContent) {
            assert(name@.subrange(0, 13) =~= name@);
        }
    }
    let w = ['a', 'l', 'i', 'g', 'n', '-', 'i', 't', 'e', 'm', 's'];
    assert(w@ =~= property_name(PropertyKey::AlignItems));
    if name.len() == 11 && matches_at(name, 0, &w) {
        assert(name@.subrange(0, 11) =~= name@);
        return Some(PropertyKey::AlignItems);
    }
    proof {
        if name@ == property_name(PropertyKey::AlignItems) {
            assert(name@.subrange(0, 11) =~= name@);
        }
    }
    let w = ['a', 'l', 'i', 'g', 'n', '-', 's', 'e', 'l', 'f'];
    assert(w@ =~= property_name(PropertyKey::AlignSelf));
    if name.len() == 10 && matches_at(name, 0, &w) {
        assert(name@.subrange(0, 10) =~= name@);
        return Some(PropertyKey::AlignSelf);
    }
    proof {
        if name@ == property_name(PropertyKey::AlignSelf) {
            assert(name@.subrange(0, 10) =~= name@);
        }
    }
    let w = ['a', 'n', 'i', 'm', 'a', 't', 'i', 'o', 'n'];
    assert(w@ =~= property_name(PropertyKey::Animation));
    if name.len() == 9 && matches_at(name, 0, &w) {
        assert(name@.subrange(0, 9) =~= name@);
        return Some(PropertyKey::Animation);
    }
    proof {
        if name@ == property_name(PropertyKey::Animation) {
            assert(name@.subrange(0, 9) =~= name@);
        }
    }
    let w = ['a', 'n', 'i', 'm', 'a', 't', 'i', 'o', 'n', '-', 'd', 'e', 'l', 'a', 'y'];
    assert(w@ =~= property_name(PropertyKey::AnimationDelay));
    if name.len() == 15 && matches_at(name, 0, &w) {
        assert(name@.subrange(0, 15) =~= name@);
        return Some(PropertyKey::AnimationDelay);
    }
    proof {
        if name@ == property_name(PropertyKey::AnimationDelay) {
            assert(name@.subrange(0, 15) =~= name@);
        }
    }
    let w = ['a', 'n', 'i', 'm', 'a', 't', 'i', 'o', 'n', '-', 'd', 'i', 'r', 'e', 'c', 't', 'i', 'o', 'n'];
    assert(w@ =~= property_name(PropertyKey::AnimationDirection));
    if name.len() == 19 && matches_at(name, 0, &w) {
        assert(name@.subrange(0, 19) =~= name@);
        return Some(PropertyKey::AnimationDirection);
    }
    proof {
        if name@ == property_name(PropertyKey::AnimationDirection) {
            assert(name@.subrange(0, 19) =~= name@);
        }
    }
    let w = ['a', 'n', 'i', 'm', 'a', 't', 'i', 'o', 'n', '-', 'd', 'u', 'r', 'a', 't', 'i', 'o', 'n'];
    assert(w@ =~= property_name(PropertyKey::AnimationDuration));
    if name.len() == 18 && matches_at(name, 0, &w) {
        assert(name@.subrange(0, 18) =~= name@);
        return Some(PropertyKey::AnimationDuration);
    }
    proof {
        if name@ == property_name(PropertyKey::AnimationDuration) {
            assert(name@.subrange(0, 18) =~= name@);
        }
    }
    let w = ['a', 'n', 'i', 'm', 'a', 't', 'i', 'o', 'n', '-', 'f', 'i', 'l', 'l', '-', 'm', 'o', 'd', 'e'];
    assert(w@ =~= property_name(PropertyKey::AnimationFillMode));
    if name.len() == 19 && matches_at(name, 0, &w) {
        assert(name@.subrange(0, 19) =~= name@);
        return Some(PropertyKey::AnimationFillMode);
    }
    proof {
        if name@ == property_name(PropertyKey::AnimationFillMode) {
            assert(name@.subrange(0, 19) =~= name@);
        }
    }
    let w = ['a', 'n', 'i', 'm', 'a', 't', 'i', 'o', 'n', '-', 'i', 't', 'e', 'r', 'a', 't', 'i', 'o', 'n', '-', 'c', 'o', 'u', 'n', 't'];
    assert(w@ =~= property_name(PropertyKey::AnimationIterationCount));
    if name.len() == 25 && matches_at(name, 0, &w) {
        assert(name@.subrange(0, 25) =~= name@);
        return Some(PropertyKey::AnimationIterationCount);
    }
    proof {
        if name@ == property_name(PropertyKey::AnimationIterationCount) {
            assert(name@.subrange(0, 25) =~= name@);
        }
    }
    let w = ['a', 'n', 'i', 'm', 'a', 't', 'i', 'o', 'n', '-', 'n', 'a', 'm', 'e'];
    assert(w@ =~= property_name(PropertyKey::AnimationName));
    if name.len() == 14 && matches_at(name, 0, &w) {
        assert(name@.subrange(0, 14) =~= name@);
        return Some(PropertyKey::AnimationName);
    }
    proof {
        if name@ == property_name(PropertyKey::AnimationName) {
            assert(name@.subrange(0, 14) =~= name@);
        }
    }
    let w = ['a', 'n', 'i', 'm', 'a', 't', 'i', 'o', 'n', '-', 'p', 'l', 'a', 'y', '-', 's', 't', 'a', 't', 'e'];
    assert(w@ =~= property_name(PropertyKey::AnimationPlayState));
    if name.len() == 20 && matches_at(name, 0, &w) {
        assert(name@.subrange(0, 20) =~= name@);
        return Some(PropertyKey::AnimationPlayState);
    }
    proof {
        if name@ == property_name(PropertyKey::AnimationPlayState) {
            assert(name@.subrange(0, 20) =~= name@);
        }
    }
    let w = ['a', 'n', 'i', 'm', 'a', 't', 'i', 'o', 'n', '-', 't', 'i', 'm', 'i', 'n', 'g', '-', 'f', 'u', 'n', 'c', 't', 'i', 'o', 'n'];
    assert(w@ =~= property_name(PropertyKey::AnimationTimingFunction));
    if name.len() == 25 && matches_at(name, 0, &w) {
        assert(name@.subrange(0, 25) =~= name@);
        return Some(PropertyKey::AnimationTimingFunction);
    }
    proof {
        if name@ == property_name(PropertyKey::AnimationTimingFunction) {
            assert(name@.subrange(0, 25) =~= name@);
        }
    }
    None
}

fn parse_key_1(name: &[char]) -> (r: Option<PropertyKey>)
    ensures
        r == property_key_1(name@),
{
    let w = ['b', 'a', 'c', 'k', 'g', 'r', 'o', 'u', 'n', 'd'];
    assert(w@ =~= property_name(PropertyKey::Background));
    if name.len() == 10 && matches_at(name, 0, &w) {
        assert(name@.subrange(0, 10) =~= name@);
        return Some(PropertyKey::Background);
    }
    proof {
        if name@ == property_name(PropertyKey::Background) {
            assert(name@.subrange(0, 10) =~= name@);
        }
    }
    let w = ['b', 'a', 'c', 'k', 'g', 'r', 'o', 'u', 'n', 'd', '-', 'c', 'o', 'l', 'o', 'r'];
    assert(w@ =~= property_name(PropertyKey::BackgroundColor));
    if name.len() == 16 && matches_at(name, 0, &w) {
        assert(name@.subrange(0, 16) =~= name@);
        return Some(PropertyKey::BackgroundColor);
    }
    proof {
        if name@ == property_name(PropertyKey::BackgroundColor) {
            assert(name@.subrange(0, 16) =~= name@);
        }
    }
    let w = ['b', 'a', 'c', 'k', 'g', 'r', 'o', 'u', 'n', 'd', '-', 'p', 'o', 's', 'i', 't', 'i', 'o', 'n'];
    assert(w@ =~= property_name(PropertyKey::BackgroundPosition));
    if name.len() == 19 && matches_at(name, 0, &w) {
        assert(name@.subrange(0, 19) =~= name@);
        return Some(PropertyKey::BackgroundPosition);
    }
    proof {
        if name@ == property_name(PropertyKey::BackgroundPosition) {
            assert(name@.subrange(0, 19) =~= name@);
        }
    }
    let w = ['b', 'a', 'c', 'k', 'g', 'r', 'o', 'u', 'n', 'd', '-', 'p', 'o', 's', 'i', 't', 'i', 'o', 'n', '-', 'x'];
    assert(w@ =~= property_name(PropertyKey::BackgroundPositionX));
    if name.len() == 21 && matches_at(name, 0, &w) {
        assert(name@.subrange(0, 21) =~= name@);
        return Some(PropertyKey::BackgroundPositionX);
    }
    proof {
        if name@ == property_name(PropertyKey::BackgroundPositionX) {
            assert(name@.subrange(0, 21) =~= name@);
        }
    }
    let w = ['b', 'a', 'c', 'k', 'g', 'r', 'o', 'u', 'n', 'd', '-', 'p', 'o', 's', 'i', 't', 'i', 'o', 'n', '-', 'y'];
    assert(w@ =~= property_name(PropertyKey::BackgroundPositionY));
    if name.len() == 21 && matches_at(name, 0, &w) {
        assert(name@.subrange(0, 21) =~= name@);
        return Some(PropertyKey::BackgroundPositionY);
    }
    proof {
        if name@ == property_name(PropertyKey::BackgroundPositionY) {
            assert(name@.subrange(0, 21) =~= name@);
        }
    }
    let w = ['b', 'o', 'r', 'd', 'e', 'r'];
    assert(w@ =~= property_name(PropertyKey::Border));
    if name.len() == 6 && matches_at(name, 0, &w) {
        assert(name@.subrange(0, 6) =~= name@);
        return Some(PropertyKey::Border);
    }
    proof {
        if name@ == property_name(PropertyKey::Border) {
            assert(name@.subrange(0, 6) =~= name@);
        }
    }
    let w = ['b', 'o', 'r', 'd', 'e', 'r', '-', 'b', 'o', 't', 't', 'o', 'm'];
    assert(w@ =~= property_name(PropertyKey::BorderBottom));
    if name.len() == 13 && matches_at(name, 0, &w) {
        assert(name@.subrange(0, 13) =~= name@);
        return Some(PropertyKey::BorderBottom);
    }
    proof {
        if name@ == property_name(PropertyKey::BorderBottom) {
            assert(name@.subrange(0, 13) =~= name@);
        }
    }
    let w = ['b', 'o', 'r', 'd', 'e', 'r', '-', 'b', 'o', 't', 't', 'o', 'm', '-', 'c', 'o', 'l', 'o', 'r'];
    assert(w@ =~= property_name(PropertyKey::BorderBottomColor));
    if name.len() == 19 && matches_at(name, 0, &w) {
        assert(name@.subrange(0, 19) =~= name@);
        return Some(PropertyKey::BorderBottomColor);
    }
    proof {
        if name@ == property_name(PropertyKey::BorderBottomColor) {
            assert(name@.subrange(0, 19) =~= name@);
        }
    }
    let w = ['b', 'o', 'r', 'd', 'e', 'r', '-', 'b', 'o', 't', 't', 'o', 'm', '-', 'l', 'e', 'f', 't', '-', 'r', 'a', 'd', 'i', 'u', 's'];
    assert(w@ =~= property_name(PropertyKey::BorderBottomLeftRadius));
    if name.len() == 25 && matches_at(name, 0, &w) {
        assert(name@.subrange(0, 25) =~= name@);
        return Some(PropertyKey::BorderBottomLeftRadius);
    }
    proof {
        if name@ == property_name(PropertyKey::BorderBottomLeftRadius) {
            assert(name@.subrange(0, 25) =~= name@);
        }
    }
    let w = ['b', 'o', 'r', 'd', 'e', 'r', '-', 'b', 'o', 't', 't', 'o', 'm', '-', 'r', 'i', 'g', 'h', 't', '-', 'r', 'a', 'd', 'i', 'u', 's'];
    assert(w@ =~= property_name(PropertyKey::BorderBottomRightRadius));
    if name.len() == 26 && matches_at(name, 0, &w) {
        assert(name@.subrange(0, 26) =~= name@);
        return Some(PropertyKey::BorderBottomRightRadius);
    }
    proof {
        if name@ == property_name(PropertyKey::BorderBottomRightRadius) {
            assert(name@.subrange(0, 26) =~= name@);
        }
    }
    let w = ['b', 'o', 'r', 'd', 'e', 'r', '-', 'b', 'o', 't', 't', 'o', 'm', '-', 'w', 'i', 'd', 't', 'h'];
    assert(w@ =~= property_name(PropertyKey::BorderBottomWidth));
    if name.len() == 19 && matches_at(name, 0, &w) {
        assert(name@.subrange(0, 19) =~= name@);
        return Some(PropertyKey::BorderBottomWidth);
    }
    proof {
        if name@ == property_name(PropertyKey::BorderBottomWidth) {
            assert(name@.subrange(0, 19) =~= name@);
        }
    }
    let w = ['b', 'o', 'r', 'd', 'e', 'r', '-', 'c', 'o', 'l', 'o', 'r'];
    assert(w@ =~= property_name(PropertyKey::BorderColor));
    if name.len() == 12 && matches_at(name, 0, &w) {
        assert(name@.subrange(0, 12) =~= name@);
        return Some(PropertyKey::BorderColor);
    }
    proof {
        if name@ == property_name(PropertyKey::BorderColor) {
            assert(name@.subrange(0, 12) =~= name@);
        }
    }
    None
}

fn parse_key_2(name: &[char]) -> (r: Option<PropertyKey>)
    ensures
        r == property_key_2(name@),
{
    let w = ['b', 'o', 'r', 'd', 'e', 'r', '-', 'l', 'e', 'f', 't'];
    assert(w@ =~= property_name(PropertyKey::BorderLeft));
    if name.len() == 11 && matches_at(name, 0, &w) {
        assert(name@.subrange(0, 11) =~= name@);
        return Some(PropertyKey::BorderLeft);
    }
    proof {
        if name@ == property_name(PropertyKey::BorderLeft) {
            assert(name@.subrange(0, 11) =~= name@);
        }
    }
    let w = ['b', 'o', 'r', 'd', 'e', 'r', '-', 'l', 'e', 'f', 't', '-', 'c', 'o', 'l', 'o', 'r'];
    assert(w@ =~= property_name(PropertyKey::BorderLeftColor));
    if name.len() == 17 && matches_at(name, 0, &w) {
        assert(name@.subrange(0, 17) =~= name@);
        return Some(PropertyKey::BorderLeftColor);
    }
    proof {
        if name@ == property_name(PropertyKey::BorderLeftColor) {
            assert(name@.subrange(0, 17) =~= name@);
        }
    }
    let w = ['b', 'o', 'r', 'd', 'e', 'r', '-', 'l', 'e', 'f', 't', '-', 'w', 'i', 'd', 't', 'h'];
    assert(w@ =~= property_name(PropertyKey::BorderLeftWidth));
    if name.len() == 17 && matches_at(name, 0, &w) {
        assert(name@.subrange(0, 17) =~= name@);
        return Some(PropertyKey::BorderLeftWidth);
    }
    proof {
        if name@ == property_name(PropertyKey::BorderLeftWidth) {
            assert(name@.subrange(0, 17) =~= name@);
        }
    }
    let w = ['b', 'o', 'r', 'd', 'e', 'r', '-', 'r', 'a', 'd', 'i', 'u', 's'];
    assert(w@ =~= property_name(PropertyKey::BorderRadius));
    if name.len() == 13 && matches_at(name, 0, &w) {
        assert(name@.subrange(0, 13) =~= name@);
        return Some(PropertyKey::BorderRadius);
    }
    proof {
        if name@ == property_name(PropertyKey::BorderRadius) {
            assert(name@.subrange(0, 13) =~= name@);
        }
    }
    let w = ['b', 'o', 'r', 'd', 'e', 'r', '-', 'r', 'i', 'g', 'h', 't'];
    assert(w@ =~= property_name(PropertyKey::BorderRight));
    if name.len() == 12 && matches_at(name, 0, &w) {
        assert(name@.subrange(0, 12) =~= name@);
        return Some(PropertyKey::BorderRight);
    }
    proof {
        if name@ == property_name(PropertyKey::BorderRight) {
            assert(name@.subrange(0, 12) =~= name@);
        }
    }
    let w = ['b', 'o', 'r', 'd', 'e', 'r', '-', 'r', 'i', 'g', 'h', 't', '-', 'c', 'o', 'l', 'o', 'r'];
    assert(w@ =~= property_name(PropertyKey::BorderRightColor));
    if name.len() == 18 && matches_at(name, 0, &w) {
        assert(name@.subrange(0, 18) =~= name@);
        return Some(PropertyKey::BorderRightColor);
    }
    proof {
        if name@ == property_name(PropertyKey::BorderRightColor) {
            assert(name@.subrange(0, 18) =~= name@);
        }
    }
    let w = ['b', 'o', 'r', 'd', 'e', 'r', '-', 'r', 'i', 'g', 'h', 't', '-', 'w', 'i', 'd', 't', 'h'];
    assert(w@ =~= property_name(PropertyKey::BorderRightWidth));
    if name.len() == 18 && matches_at(name, 0, &w) {
        assert(name@.subrange(0, 18) =~= name@);
        return Some(PropertyKey::BorderRightWidth);
    }
    proof {
        if name@ == property_name(PropertyKey::BorderRightWidth) {
            assert(name@.subrange(0, 18) =~= name@);
        }
    }
    let w = ['b', 'o', 'r', 'd', 'e', 'r', '-', 't', 'o', 'p'];
    assert(w@ =~= property_name(PropertyKey::BorderTop));
    if name.len() == 10 && matches_at(name, 0, &w) {
        assert(name@.subrange(0, 10) =~= name@);
        return Some(PropertyKey::BorderTop);
    }
    proof {
        if name@ == property_name(PropertyKey::BorderTop) {
            assert(name@.subrange(0, 10) =~= name@);
        }
    }
    let w = ['b', 'o', 'r', 'd', 'e', 'r', '-', 't', 'o', 'p', '-', 'c', 'o', 'l', 'o', 'r'];
    assert(w@ =~= property_name(PropertyKey::BorderTopColor));
    if name.len() == 16 && matches_at(name, 0, &w) {
        assert(name@.subrange(0, 16) =~= name@);
        return Some(PropertyKey::BorderTopColor);
    }
    proof {
        if name@ == property_name(PropertyKey::BorderTopColor) {
            assert(name@.subrange(0, 16) =~= name@);
        }
    }
    let w = ['b', 'o', 'r', 'd', 'e', 'r', '-', 't', 'o', 'p', '-', 'l', 'e', 'f', 't', '-', 'r', 'a', 'd', 'i', 'u', 's'];
    assert(w@ =~= property_name(PropertyKey::BorderTopLeftRadius));
    if name.len() == 22 && matches_at(name, 0, &w) {
        assert(name@.subrange(0, 22) =~= name@);
        return Some(PropertyKey::BorderTopLeftRadius);
    }
    proof {
        if name@ == property_name(PropertyKey::BorderTopLeftRadius) {
            assert(name@.subrange(0, 22) =~= name@);
        }
    }
    let w = ['b', 'o', 'r', 'd', 'e', 'r', '-', 't', 'o', 'p', '-', 'r', 'i', 'g', 'h', 't', '-', 'r', 'a', 'd', 'i', 'u', 's'];
    assert(w@ =~= property_name(PropertyKey::BorderTopRightRadius));
    if name.len() == 23 && matches_at(name, 0, &w) {
        assert(name@.subrange(0, 23) =~= name@);
        return Some(PropertyKey::BorderTopRightRadius);
    }
    proof {
        if name@ == property_name(PropertyKey::BorderTopRightRadius) {
            assert(name@.subrange(0, 23) =~= name@);
        }
    }
    let w = ['b', 'o', 'r', 'd', 'e', 'r', '-', 't', 'o', 'p', '-', 'w', 'i', 'd', 't', 'h'];
    assert(w@ =~= property_name(PropertyKey::BorderTopWidth));
    if name.len() == 16 && matches_at(name, 0, &w) {
        assert(name@.subrange(0, 16) =~= name@);
        return Some(PropertyKey::BorderTopWidth);
    }
    proof {
        if name@ == property_name(PropertyKey::BorderTopWidth) {
            assert(name@.subrange(0, 16) =~= name@);
        }
    }
    None
}

fn parse_key_3(name: &[char]) -> (r: Option<PropertyKey>)
    ensures
        r == property_key_3(name@),
{
    let w = ['b', 'o', 'r', 'd', 'e', 'r', '-', 'w', 'i', 'd', 't', 'h'];
    assert(w@ =~= property_name(PropertyKey::BorderWidth));
    if name.len() == 12 && matches_at(name, 0, &w) {
        assert(name@.subrange(0, 12) =~= name@);
        return Some(PropertyKey::BorderWidth);
    }
    proof {
        if name@ == property_name(PropertyKey::BorderWidth) {
            assert(name@.subrange(0, 12) =~= name@);
        }
    }
    let w = ['b', 'o', 't', 't', 'o', 'm'];
    assert(w@ =~= property_name(PropertyKey::Bottom));
    if name.len() == 6 && matches_at(name, 0, &w) {
        assert(name@.subrange(0, 6) =~= name@);
        return Some(PropertyKey::Bottom);
    }
    proof {
        if name@ == property_name(PropertyKey::Bottom) {
            assert(name@.subrange(0, 6) =~= name@);
        }
    }
    let w = ['b', 'o', 'x', '-', 's', 'h', 'a', 'd', 'o', 'w'];
    assert(w@ =~= property_name(PropertyKey::BoxShadow));
    if name.len() == 10 && matches_at(name, 0, &w) {
        assert(name@.subrange(0, 10) =~= name@);
        return Some(PropertyKey::BoxShadow);
    }
    proof {
        if name@ == property_name(PropertyKey::BoxShadow) {
            assert(name@.subrange(0, 10) =~= name@);
        }
    }
    let w = ['b', 'o', 'x', '-', 's', 'i', 'z', 'i', 'n', 'g'];
    assert(w@ =~= property_name(PropertyKey::BoxSizing));
    if name.len() == 10 && matches_at(name, 0, &w) {
        assert(name@.subrange(0, 10) =~= name@);
        return Some(PropertyKey::BoxSizing);
    }
    proof {
        if name@ == property_name(PropertyKey::BoxSizing) {
            assert(name@.subrange(0, 10) =~= name@);
        }
    }
    let w = ['c', 'o', 'l', 'o', 'r'];
    assert(w@ =~= property_name(PropertyKey::Color));
    if name.len() == 5 && matches_at(name, 0, &w) {
        assert(name@.subrange(0, 5) =~= name@);
        return Some(PropertyKey::Color);
    }
    proof {
        if name@ == property_name(PropertyKey::Color) {
            assert(name@.subrange(0, 5) =~= name@);
        }
    }
    let w = ['c', 'o', 'l', 'u', 'm', 'n', '-', 'g', 'a', 'p'];
    assert(w@ =~= property_name(PropertyKey::ColumnGap));
    if name.len() == 10 && matches_at(name, 0, &w) {
        assert(name@.subrange(0, 10) =~= name@);
        return Some(PropertyKey::ColumnGap);
    }
    proof {
        if name@ == property_name(PropertyKey::ColumnGap) {
            assert(name@.subrange(0, 10) =~= name@);
        }
    }
    let w = ['c', 'o', 'n', 't', 'e', 'n', 't'];
    assert(w@ =~= property_name(PropertyKey::Content));
    if name.len() == 7 && matches_at(name, 0, &w) {
        assert(name@.subrange(0, 7) =~= name@);
        return Some(PropertyKey::Content);
    }
    proof {
        if name@ == property_name(PropertyKey::Content) {
            assert(name@.subrange(0, 7) =~= name@);
        }
    }
    let w = ['d', 'i', 's', 'p', 'l', 'a', 'y'];
    assert(w@ =~= property_name(PropertyKey::Display));
    if name.len() == 7 && matches_at(name, 0, &w) {
        assert(name@.subrange(0, 7) =~= name@);
        return Some(PropertyKey::Display);
    }
    proof {
        if name@ == property_name(PropertyKey::Display) {
            assert(name@.subrange(0, 7) =~= name@);
        }
    }
    let w = ['f', 'l', 'e', 'x', '-', 'b', 'a', 's', 'i', 's'];
    assert(w@ =~= property_name(PropertyKey::FlexBasis));
    if name.len() == 10 && matches_at(name, 0, &w) {
        assert(name@.subrange(0, 10) =~= name@);
        return Some(PropertyKey::FlexBasis);
    }
    proof {
        if name@ == property_name(PropertyKey::FlexBasis) {
            assert(name@.subrange(0, 10) =~= name@);
        }
    }
    let w = ['f', 'l', 'e', 'x', '-', 'd', 'i', 'r', 'e', 'c', 't', 'i', 'o', 'n'];
    assert(w@ =~= property_name(PropertyKey::FlexDirection));
    if name.len() == 14 && matches_at(name, 0, &w) {
        assert(name@.subrange(0, 14) =~= name@);
        return Some(PropertyKey::FlexDirection);
    }
    proof {
        if name@ == property_name(PropertyKey::FlexDirection) {
            assert(name@.subrange(0, 14) =~= name@);
        }
    }
    let w = ['f', 'l', 'e', 'x', '-', 'g', 'r', 'o', 'w'];
    assert(w@ =~= property_name(PropertyKey::FlexGrow));
    if name.len() == 9 && matches_at(name, 0, &w) {
        assert(name@.subrange(0, 9) =~= name@);
        return Some(PropertyKey::FlexGrow);
    }
    proof {
        if name@ == property_name(PropertyKey::FlexGrow) {
            assert(name@.subrange(0, 9) =~= name@);
        }
    }
    let w = ['f', 'l', 'e', 'x', '-', 's', 'h', 'r', 'i', 'n', 'k'];
    assert(w@ =~= property_name(PropertyKey::FlexShrink));
    if name.len() == 11 && matches_at(name, 0, &w) {
        assert(name@.subrange(0, 11) =~= name@);
        return Some(PropertyKey::FlexShrink);
    }
    proof {
        if name@ == property_name(PropertyKey::FlexShrink) {
            assert(name@.subrange(0, 11) =~= name@);
        }
    }
    None
}

fn parse_key_4(name: &[char]) -> (r: Option<PropertyKey>)
    ensures
        r == property_key_4(name@),
{
    let w = ['f', 'l', 'e', 'x', '-', 'w', 'r', 'a', 'p'];
    assert(w@ =~= property_name(PropertyKey::FlexWrap));
    if name.len() == 9 && matches_at(name, 0, &w) {
        assert(name@.subrange(0, 9) =~= name@);
        return Some(PropertyKey::FlexWrap);
    }
    proof {
        if name@ == property_name(PropertyKey::FlexWrap) {
            assert(name@.subrange(0, 9) =~= name@);
        }
    }
    let w = ['f', 'o', 'n', 't', '-', 'f', 'a', 'm', 'i', 'l', 'y'];
    assert(w@ =~= property_name(PropertyKey::FontFamily));
    if name.len() == 11 && matches_at(name, 0, &w) {
        assert(name@.subrange(0, 11) =~= name@);
        return Some(PropertyKey::FontFamily);
    }
    proof {
        if name@ == property_name(PropertyKey::FontFamily) {
            assert(name@.subrange(0, 11) =~= name@);
        }
    }
    let w = ['f', 'o', 'n', 't', '-', 's', 'i', 'z', 'e'];
    assert(w@ =~= property_name(PropertyKey::FontSize));
    if name.len() == 9 && matches_at(name, 0, &w) {
        assert(name@.subrange(0, 9) =~= name@);
        return Some(PropertyKey::FontSize);
    }
    proof {
        if name@ == property_name(PropertyKey::FontSize) {
            assert(name@.subrange(0, 9) =~= name@);
        }
    }
    let w = ['f', 'o', 'n', 't', '-', 's', 't', 'y', 'l', 'e'];
    assert(w@ =~= property_name(PropertyKey::FontStyle));
    if name.len() == 10 && matches_at(name, 0, &w) {
        assert(name@.subrange(0, 10) =~= name@);
        return Some(PropertyKey::FontStyle);
    }
    proof {
        if name@ == property_name(PropertyKey::FontStyle) {
            assert(name@.subrange(0, 10) =~= name@);
        }
    }
    let w = ['f', 'o', 'n', 't', '-', 'w', 'e', 'i', 'g', 'h', 't'];
    assert(w@ =~= property_name(PropertyKey::FontWeight));
    if name.len() == 11 && matches_at(name, 0, &w) {
        assert(name@.subrange(0, 11) =~= name@);
        return Some(PropertyKey::FontWeight);
    }
    proof {
        if name@ == property_name(PropertyKey::FontWeight) {
            assert(name@.subrange(0, 11) =~= name@);
        }
    }
    let w = ['g', 'a', 'p'];
    assert(w@ =~= property_name(PropertyKey::Gap));
    if name.len() == 3 && matches_at(name, 0, &w) {
        assert(name@.subrange(0, 3) =~= name@);
        return Some(PropertyKey::Gap);
    }
    proof {
        if name@ == property_name(PropertyKey::Gap) {
            assert(name@.subrange(0, 3) =~= name@);
        }
    }
    let w = ['h', 'e', 'i', 'g', 'h', 't'];
    assert(w@ =~= property_name(PropertyKey::Height));
    if name.len() == 6 && matches_at(name, 0, &w) {
        assert(name@.subrange(0, 6) =~= name@);
        return Some(PropertyKey::Height);
    }
    proof {
        if name@ == property_name(PropertyKey::Height) {
            assert(name@.subrange(0, 6) =~= name@);
        }
    }
    let w = ['i', 'n', 's', 'e', 't'];
    assert(w@ =~= property_name(PropertyKey::Inset));
    if name.len() == 5 && matches_at(name, 0, &w) {
        assert(name@.subrange(0, 5) =~= name@);
        return Some(PropertyKey::Inset);
    }
    proof {
        if name@ == property_name(PropertyKey::Inset) {
            assert(name@.subrange(0, 5) =~= name@);
        }
    }
    let w = ['j', 'u', 's', 't', 'i', 'f', 'y', '-', 'c', 'o', 'n', 't', 'e', 'n', 't'];
    assert(w@ =~= property_name(PropertyKey::JustifyContent));
    if name.len() == 15 && matches_at(name, 0, &w) {
        assert(name@.subrange(0, 15) =~= name@);
        return Some(PropertyKey::JustifyContent);
    }
    proof {
        if name@ == property_name(PropertyKey::JustifyContent) {
            assert(name@.subrange(0, 15) =~= name@);
        }
    }
    let w = ['j', 'u', 's', 't', 'i', 'f', 'y', '-', 'i', 't', 'e', 'm', 's'];
    assert(w@ =~= property_name(PropertyKey::JustifyItems));
    if name.len() == 13 && matches_at(name, 0, &w) {
        assert(name@.subrange(0, 13) =~= name@);
        return Some(PropertyKey::JustifyItems);
    }
    proof {
        if name@ == property_name(PropertyKey::JustifyItems) {
            assert(name@.subrange(0, 13) =~= name@);
        }
    }
    let w = ['j', 'u', 's', 't', 'i', 'f', 'y', '-', 's', 'e', 'l', 'f'];
    assert(w@ =~= property_name(PropertyKey::JustifySelf));
    if name.len() == 12 && matches_at(name, 0, &w) {
        assert(name@.subrange(0, 12) =~= name@);
        return Some(PropertyKey::JustifySelf);
    }
    proof {
        if name@ == property_name(PropertyKey::JustifySelf) {
            assert(name@.subrange(0, 12) =~= name@);
        }
    }
    let w = ['l', 'e', 'f', 't'];
    assert(w@ =~= property_name(PropertyKey::Left));
    if name.len() == 4 && matches_at(name, 0, &w) {
        assert(name@.subrange(0, 4) =~= name@);
        return Some(PropertyKey::Left);
    }
    proof {
        if name@ == property_name(PropertyKey::Left) {
            assert(name@.subrange(0, 4) =~= name@);
        }
    }
    None
}

fn parse_key_5(name: &[char]) -> (r: Option<PropertyKey>)
    ensures
        r == property_key_5(name@),
{
    let w = ['l', 'i', 'n', 'e', '-', 'h', 'e', 'i', 'g', 'h', 't'];
    assert(w@ =~= property_name(PropertyKey::LineHeight));
    if name.len() == 11 && matches_at(name, 0, &w) {
        assert(name@.subrange(0, 11) =~= name@);
        return Some(PropertyKey::LineHeight);
    }
    proof {
        if name@ == property_name(PropertyKey::LineHeight) {
            assert(name@.subrange(0, 11) =~= name@);
        }
    }
    let w = ['m', 'a', 'r', 'g', 'i', 'n'];
    assert(w@ =~= property_name(PropertyKey::Margin));
    if name.len() == 6 && matches_at(name, 0, &w) {
        assert(name@.subrange(0, 6) =~= name@);
        return Some(PropertyKey::Margin);
    }
    proof {
        if name@ == property_name(PropertyKey::Margin) {
            assert(name@.subrange(0, 6) =~= name@);
        }
    }
    let w = ['m', 'a', 'r', 'g', 'i', 'n', '-', 'b', 'o', 't', 't', 'o', 'm'];
    assert(w@ =~= property_name(PropertyKey::MarginBottom));
    if name.len() == 13 && matches_at(name, 0, &w) {
        assert(name@.subrange(0, 13) =~= name@);
        return Some(PropertyKey::MarginBottom);
    }
    proof {
        if name@ == property_name(PropertyKey::MarginBottom) {
            assert(name@.subrange(0, 13) =~= name@);
        }
    }
    let w = ['m', 'a', 'r', 'g', 'i', 'n', '-', 'l', 'e', 'f', 't'];
    assert(w@ =~= property_name(PropertyKey::MarginLeft));
    if name.len() == 11 && matches_at(name, 0, &w) {
        assert(name@.subrange(0, 11) =~= name@);
        return Some(PropertyKey::MarginLeft);
    }
    proof {
        if name@ == property_name(PropertyKey::MarginLeft) {
            assert(name@.subrange(0, 11) =~= name@);
        }
    }
    let w = ['m', 'a', 'r', 'g', 'i', 'n', '-', 'r', 'i', 'g', 'h', 't'];
    assert(w@ =~= property_name(PropertyKey::MarginRight));
    if name.len() == 12 && matches_at(name, 0, &w) {
        assert(name@.subrange(0, 12) =~= name@);
        return Some(PropertyKey::MarginRight);
    }
    proof {
        if name@ == property_name(PropertyKey::MarginRight) {
            assert(name@.subrange(0, 12) =~= name@);
        }
    }
    let w = ['m', 'a', 'r', 'g', 'i', 'n', '-', 't', 'o', 'p'];
    assert(w@ =~= property_name(PropertyKey::MarginTop));
    if name.len() == 10 && matches_at(name, 0, &w) {
        assert(name@.subrange(0, 10) =~= name@);
        return Some(PropertyKey::MarginTop);
    }
    proof {
        if name@ == property_name(PropertyKey::MarginTop) {
            assert(name@.subrange(0, 10) =~= name@);
        }
    }
    let w = ['m', 'a', 's', 'k', '-', 'i', 'm', 'a', 'g', 'e'];
    assert(w@ =~= property_name(PropertyKey::MaskImage));
    if name.len() == 10 && matches_at(name, 0, &w) {
        assert(name@.subrange(0, 10) =~= name@);
        return Some(PropertyKey::MaskImage);
    }
    proof {
        if name@ == property_name(PropertyKey::MaskImage) {
            assert(name@.subrange(0, 10) =~= name@);
        }
    }
    let w = ['m', 'a', 'x', '-', 'h', 'e', 'i', 'g', 'h', 't'];
    assert(w@ =~= property_name(PropertyKey::MaxHeight));
    if name.len() == 10 && matches_at(name, 0, &w) {
        assert(name@.subrange(0, 10) =~= name@);
        return Some(PropertyKey::MaxHeight);
    }
    proof {
        if name@ == property_name(PropertyKey::MaxHeight) {
            assert(name@.subrange(0, 10) =~= name@);
        }
    }
    let w = ['m', 'a', 'x', '-', 'w', 'i', 'd', 't', 'h'];
    assert(w@ =~= property_name(PropertyKey::MaxWidth));
    if name.len() == 9 && matches_at(name, 0, &w) {
        assert(name@.subrange(0, 9) =~= name@);
        return Some(PropertyKey::MaxWidth);
    }
    proof {
        if name@ == property_name(PropertyKey::MaxWidth) {
            assert(name@.subrange(0, 9) =~= name@);
        }
    }
    let w = ['m', 'i', 'n', '-', 'h', 'e', 'i', 'g', 'h', 't'];
    assert(w@ =~= property_name(PropertyKey::MinHeight));
    if name.len() == 10 && matches_at(name, 0, &w) {
        assert(name@.subrange(0, 10) =~= name@);
        return Some(PropertyKey::MinHeight);
    }
    proof {
        if name@ == property_name(PropertyKey::MinHeight) {
            assert(name@.subrange(0, 10) =~= name@);
        }
    }
    let w = ['m', 'i', 'n', '-', 'w', 'i', 'd', 't', 'h'];
    assert(w@ =~= property_name(PropertyKey::MinWidth));
    if name.len() == 9 && matches_at(name, 0, &w) {
        assert(name@.subrange(0, 9) =~= name@);
        return Some(PropertyKey::MinWidth);
    }
    proof {
        if name@ == property_name(PropertyKey::MinWidth) {
            assert(name@.subrange(0, 9) =~= name@);
        }
    }
    let w = ['o', 'v', 'e', 'r', 'f', 'l', 'o', 'w'];
    assert(w@ =~= property_name(PropertyKey::Overflow));
    if name.len() == 8 && matches_at(name, 0, &w) {
        assert(name@.subrange(0, 8) =~= name@);
        return Some(PropertyKey::Overflow);
    }
    proof {
        if name@ == property_name(PropertyKey::Overflow) {
            assert(name@.subrange(0, 8) =~= name@);
        }
    }
    None
}

fn parse_key_6(name: &[char]) -> (r: Option<PropertyKey>)
    ensures
        r == property_key_6(name@),
{
    let w = ['o', 'v', 'e', 'r', 'f', 'l', 'o', 'w', '-', 'x'];
    assert(w@ =~= property_name(PropertyKey::OverflowX));
    if name.len() == 10 && matches_at(name, 0, &w) {
        assert(name@.subrange(0, 10) =~= name@);
        return Some(PropertyKey::OverflowX);
    }
    proof {
        if name@ == property_name(PropertyKey::OverflowX) {
            assert(name@.subrange(0, 10) =~= name@);
        }
    }
    let w = ['o', 'v', 'e', 'r', 'f', 'l', 'o', 'w', '-', 'y'];
    assert(w@ =~= property_name(PropertyKey::OverflowY));
    if name.len() == 10 && matches_at(name, 0, &w) {
        assert(name@.subrange(0, 10) =~= name@);
        return Some(PropertyKey::OverflowY);
    }
    proof {
        if name@ == property_name(PropertyKey::OverflowY) {
            assert(name@.subrange(0, 10) =~= name@);
        }
    }
    let w = ['p', 'a', 'd', 'd', 'i', 'n', 'g'];
    assert(w@ =~= property_name(PropertyKey::Padding));
    if name.len() == 7 && matches_at(name, 0, &w) {
        assert(name@.subrange(0, 7) =~= name@);
        return Some(PropertyKey::Padding);
    }
    proof {
        if name@ == property_name(PropertyKey::Padding) {
            assert(name@.subrange(0, 7) =~= name@);
        }
    }
    let w = ['p', 'a', 'd', 'd', 'i', 'n', 'g', '-', 'b', 'o', 't', 't', 'o', 'm'];
    assert(w@ =~= property_name(PropertyKey::PaddingBottom));
    if name.len() == 14 && matches_at(name, 0, &w) {
        assert(name@.subrange(0, 14) =~= name@);
        return Some(PropertyKey::PaddingBottom);
    }
    proof {
        if name@ == property_name(PropertyKey::PaddingBottom) {
            assert(name@.subrange(0, 14) =~= name@);
        }
    }
    let w = ['p', 'a', 'd', 'd', 'i', 'n', 'g', '-', 'l', 'e', 'f', 't'];
    assert(w@ =~= property_name(PropertyKey::PaddingLeft));
    if name.len() == 12 && matches_at(name, 0, &w) {
        assert(name@.subrange(0, 12) =~= name@);
        return Some(PropertyKey::PaddingLeft);
    }
    proof {
        if name@ == property_name(PropertyKey::PaddingLeft) {
            assert(name@.subrange(0, 12) =~= name@);
        }
    }
    let w = ['p', 'a', 'd', 'd', 'i', 'n', 'g', '-', 'r', 'i', 'g', 'h', 't'];
    assert(w@ =~= property_name(PropertyKey::PaddingRight));
    if name.len() == 13 && matches_at(name, 0, &w) {
        assert(name@.subrange(0, 13) =~= name@);
        return Some(PropertyKey::PaddingRight);
    }
    proof {
        if name@ == property_name(PropertyKey::PaddingRight) {
            assert(name@.subrange(0, 13) =~= name@);
        }
    }
    let w = ['p', 'a', 'd', 'd', 'i', 'n', 'g', '-', 't', 'o', 'p'];
    assert(w@ =~= property_name(PropertyKey::PaddingTop));
    if name.len() == 11 && matches_at(name, 0, &w) {
        assert(name@.subrange(0, 11) =~= name@);
        return Some(PropertyKey::PaddingTop);
    }
    proof {
        if name@ == property_name(PropertyKey::PaddingTop) {
            assert(name@.subrange(0, 11) =~= name@);
        }
    }
    let w = ['p', 'o', 'i', 'n', 't', 'e', 'r', '-', 'e', 'v', 'e', 'n', 't', 's'];
    assert(w@ =~= property_name(PropertyKey::PointerEvents));
    if name.len() == 14 && matches_at(name, 0, &w) {
        assert(name@.subrange(0, 14) =~= name@);
        return Some(PropertyKey::PointerEvents);
    }
    proof {
        if name@ == property_name(PropertyKey::PointerEvents) {
            assert(name@.subrange(0, 14) =~= name@);
        }
    }
    let w = ['p', 'o', 's', 'i', 't', 'i', 'o', 'n'];
    assert(w@ =~= property_name(PropertyKey::Position));
    if name.len() == 8 && matches_at(name, 0, &w) {
        assert(name@.subrange(0, 8) =~= name@);
        return Some(PropertyKey::Position);
    }
    proof {
        if name@ == property_name(PropertyKey::Position) {
            assert(name@.subrange(0, 8) =~= name@);
        }
    }
    let w = ['r', 'i', 'g', 'h', 't'];
    assert(w@ =~= property_name(PropertyKey::Right));
    if name.len() == 5 && matches_at(name, 0, &w) {
        assert(name@.subrange(0, 5) =~= name@);
        return Some(PropertyKey::Right);
    }
    proof {
        if name@ == property_name(PropertyKey::Right) {
            assert(name@.subrange(0, 5) =~= name@);
        }
    }
    let w = ['r', 'o', 'w', '-', 'g', 'a', 'p'];
    assert(w@ =~= property_name(PropertyKey::RowGap));
    if name.len() == 7 && matches_at(name, 0, &w) {
        assert(name@.subrange(0, 7) =~= name@);
        return Some(PropertyKey::RowGap);
    }
    proof {
        if name@ == property_name(PropertyKey::RowGap) {
            assert(name@.subrange(0, 7) =~= name@);
        }
    }
    let w = ['t', 'e', 'x', 't', '-', 'a', 'l', 'i', 'g', 'n'];
    assert(w@ =~= property_name(PropertyKey::TextAlign));
    if name.len() == 10 && matches_at(name, 0, &w) {
        assert(name@.subrange(0, 10) =~= name@);
        return Some(PropertyKey::TextAlign);
    }
    proof {
        if name@ == property_name(PropertyKey::TextAlign) {
            assert(name@.subrange(0, 10) =~= name@);
        }
    }
    None
}

fn parse_key_7(name: &[char]) -> (r: Option<PropertyKey>)
    ensures
        r == property_key_7(name@),
{
    let w = ['t', 'o', 'p'];
    assert(w@ =~= property_name(PropertyKey::Top));
    if name.len() == 3 && matches_at(name, 0, &w) {
        assert(name@.subrange(0, 3) =~= name@);
        return Some(PropertyKey::Top);
    }
    proof {
        if name@ == property_name(PropertyKey::Top) {
            assert(name@.subrange(0, 3) =~= name@);
        }
    }
    let w = ['t', 'r', 'a', 'n', 's', 'f', 'o', 'r', 'm'];
    assert(w@ =~= property_name(PropertyKey::Transform));
    if name.len() == 9 && matches_at(name, 0, &w) {
        assert(name@.subrange(0, 9) =~= name@);
        return Some(PropertyKey::Transform);
    }
    proof {
        if name@ == property_name(PropertyKey::Transform) {
            assert(name@.subrange(0, 9) =~= name@);
        }
    }
    let w = ['t', 'r', 'a', 'n', 's', 'i', 't', 'i', 'o', 'n'];
    assert(w@ =~= property_name(PropertyKey::Transition));
    if name.len() == 10 && matches_at(name, 0, &w) {
        assert(name@.subrange(0, 10) =~= name@);
        return Some(PropertyKey::Transition);
    }
    proof {
        if name@ == property_name(PropertyKey::Transition) {
            assert(name@.subrange(0, 10) =~= name@);
        }
    }
    let w = ['t', 'r', 'a', 'n', 's', 'i', 't', 'i', 'o', 'n', '-', 'd', 'e', 'l', 'a', 'y'];
    assert(w@ =~= property_name(PropertyKey::TransitionDelay));
    if name.len() == 16 && matches_at(name, 0, &w) {
        assert(name@.subrange(0, 16) =~= name@);
        return Some(PropertyKey::TransitionDelay);
    }
    proof {
        if name@ == property_name(PropertyKey::TransitionDelay) {
            assert(name@.subrange(0, 16) =~= name@);
        }
    }
    let w = ['t', 'r', 'a', 'n', 's', 'i', 't', 'i', 'o', 'n', '-', 'd', 'u', 'r', 'a', 't', 'i', 'o', 'n'];
    assert(w@ =~= property_name(PropertyKey::TransitionDuration));
    if name.len() == 19 && matches_at(name, 0, &w) {
        assert(name@.subrange(0, 19) =~= name@);
        return Some(PropertyKey::TransitionDuration);
    }
    proof {
        if name@ == property_name(PropertyKey::TransitionDuration) {
            assert(name@.subrange(0, 19) =~= name@);
        }
    }
    let w = ['t', 'r', 'a', 'n', 's', 'i', 't', 'i', 'o', 'n', '-', 'p', 'r', 'o', 'p', 'e', 'r', 't', 'y'];
    assert(w@ =~= property_name(PropertyKey::TransitionProperty));
    if name.len() == 19 && matches_at(name, 0, &w) {
        assert(name@.subrange(0, 19) =~= name@);
        return Some(PropertyKey::TransitionProperty);
    }
    proof {
        if name@ == property_name(PropertyKey::TransitionProperty) {
            assert(name@.subrange(0, 19) =~= name@);
        }
    }
    let w = ['t', 'r', 'a', 'n', 's', 'i', 't', 'i', 'o', 'n', '-', 't', 'i', 'm', 'i', 'n', 'g', '-', 'f', 'u', 'n', 'c', 't', 'i', 'o', 'n'];
    assert(w@ =~= property_name(PropertyKey::TransitionTimingFunction));
    if name.len() == 26 && matches_at(name, 0, &w) {
        assert(name@.subrange(0, 26) =~= name@);
        return Some(PropertyKey::TransitionTimingFunction);
    }
    proof {
        if name@ == property_name(PropertyKey::TransitionTimingFunction) {
            assert(name@.subrange(0, 26) =~= name@);
        }
    }
    let w = ['w', 'i', 'd', 't', 'h'];
    assert(w@ =~= property_name(PropertyKey::Width));
    if name.len() == 5 && matches_at(name, 0, &w) {
        assert(name@.subrange(0, 5) =~= name@);
        return Some(PropertyKey::Width);
    }
    proof {
        if name@ == property_name(PropertyKey::Width) {
            assert(name@.subrange(0, 5) =~= name@);
        }
    }
    None
}

impl PropertyKey {
    /// The property named `name`, if any.
    pub fn parse(name: &str) -> (r: Option<PropertyKey>)
        ensures
            r == property_key(name@),
            r matches Some(k) ==> property_name(k) == name@,
    {
        let chars = crate::text::chars_of(name);
        Self::parse_chars(chars.as_slice())
    }

    /// The property that the characters `name` name, if any.
    pub fn parse_chars(name: &[char]) -> (r: Option<PropertyKey>)
        ensures
            r == property_key(name@),
            r matches Some(k) ==> property_name(k) == name@,
    {
        if let Some(k) = parse_key_0(name) {
            return Some(k);
        }
        if let Some(k) = parse_key_1(name) {
            return Some(k);
        }
        if let Some(k) = parse_key_2(name) {
            return Some(k);
        }
        if let Some(k) = parse_key_3(name) {
            return Some(k);
        }
        if let Some(k) = parse_key_4(name) {
            return Some(k);
        }
        if let Some(k) = parse_key_5(name) {
            return Some(k);
        }
        if let Some(k) = parse_key_6(name) {
            return Some(k);
        }
        if let Some(k) = parse_key_7(name) {
            return Some(k);
        }
        None
    }
}

} // verus!
