//! Applying the computed value of one property to the style of an element: which part
//! of the element or of its box the property sets, and which values it accepts.
//!
//! Lengths stay as the style sheet wrote them (a `Dim` with its unit, a percentage, a
//! number); resolving them against font and viewport sizes is left to the renderer.
use vstd::prelude::*;
use crate::animation::{AnimationDirection, AnimationFillMode, AnimationIterations, TimingFunction};
use crate::cascade::PropertyDescriptor;
use crate::css::{ComputedValue, ComputedValueV, Dim, PropertyKey};
use crate::css::property::property_key;
use crate::decimal::{Decimal, integer_part};
use crate::element::{PointerEvents, TextAlign};
use crate::layout::{
    AlignContent, AlignItems, Display, FlexDirection, FlexWrap, Overflow, Position,
    overflow_of, display_of, position_of, flex_direction_of, flex_wrap_of, align_items_of,
    align_content_of, resolve_overflow, resolve_display, resolve_position,
    resolve_flex_direction, resolve_flex_wrap, map_align_items, map_align_content,
};
use crate::styles::{
    CascadeError, CascadeErrorV, color_keyword, font_weight_keyword, weight_in_range,
    text_align_of, pointer_events_of, font_style_of, timing_of, animation_direction_of,
    animation_fill_mode_of, play_state_of, is_word, resolve_color, resolve_font_weight,
    resolve_string, resolve_font_style, resolve_text_align, resolve_pointer_events,
    resolve_timing, resolve_iterations, resolve_animation_direction,
    resolve_animation_fill_mode, resolve_play_state,
};
use crate::text::chars_of;

verus! {

/// A length as a style sheet gives it, before it is resolved against the sizes of the
/// view.
#[derive(Clone, Copy, Debug, PartialEq, Eq)]
pub enum Extent {
    Zero,
    Length(Dim),
    Number(Decimal),
    Percent(Decimal),
    Auto,
}

/// One extent for each side of a box.
#[derive(Clone, Copy, Debug, PartialEq, Eq)]
pub struct Sides {
    pub top: Extent,
    pub right: Extent,
    pub bottom: Extent,
    pub left: Extent,
}

/// One extent for each corner of a box.
#[derive(Clone, Copy, Debug, PartialEq, Eq)]
pub struct Corners {
    pub top_left: Extent,
    pub top_right: Extent,
    pub bottom_right: Extent,
    pub bottom_left: Extent,
}

/// How an element looks: colors, font, borders and pointer behavior.
#[derive(Debug)]
pub struct Look {
    pub background_color: [u8; 4],
    pub color: [u8; 4],
    pub font_size: Extent,
    pub font_weight: u16,
    pub font_family: String,
    pub font_style: String,
    pub text_align: TextAlign,
    pub pointer_events: PointerEvents,
    pub border_widths: Sides,
    pub border_top_color: [u8; 4],
    pub border_right_color: [u8; 4],
    pub border_bottom_color: [u8; 4],
    pub border_left_color: [u8; 4],
    pub radii: Corners,
}

pub struct LookV {
    pub background_color: Seq<u8>,
    pub color: Seq<u8>,
    pub font_size: Extent,
    pub font_weight: u16,
    pub font_family: Seq<char>,
    pub font_style: Seq<char>,
    pub text_align: TextAlign,
    pub pointer_events: PointerEvents,
    pub border_widths: Sides,
    pub border_top_color: Seq<u8>,
    pub border_right_color: Seq<u8>,
    pub border_bottom_color: Seq<u8>,
    pub border_left_color: Seq<u8>,
    pub radii: Corners,
}

impl View for Look {
    type V = LookV;

    open spec fn view(&self) -> LookV {
        LookV {
            background_color: self.background_color@,
            color: self.color@,
            font_size: self.font_size,
            font_weight: self.font_weight,
            font_family: self.font_family@,
            font_style: self.font_style@,
            text_align: self.text_align,
            pointer_events: self.pointer_events,
            border_widths: self.border_widths,
            border_top_color: self.border_top_color@,
            border_right_color: self.border_right_color@,
            border_bottom_color: self.border_bottom_color@,
            border_left_color: self.border_left_color@,
            radii: self.radii,
        }
    }
}

/// How an element's box is laid out.
#[derive(Clone, Copy, Debug, PartialEq, Eq)]
pub struct BoxStyle {
    pub display: Display,
    pub overflow_x: Overflow,
    pub overflow_y: Overflow,
    pub position: Position,
    pub inset: Sides,
    pub margin: Sides,
    pub padding: Sides,
    pub width: Extent,
    pub height: Extent,
    pub min_width: Extent,
    pub min_height: Extent,
    pub max_width: Extent,
    pub max_height: Extent,
    pub column_gap: Extent,
    pub row_gap: Extent,
    pub align_items: Option<AlignItems>,
    pub align_self: Option<AlignItems>,
    pub justify_items: Option<AlignItems>,
    pub justify_self: Option<AlignItems>,
    pub align_content: Option<AlignContent>,
    pub justify_content: Option<AlignContent>,
    pub flex_direction: FlexDirection,
    pub flex_wrap: FlexWrap,
    pub flex_grow: Decimal,
    pub flex_shrink: Decimal,
    pub flex_basis: Extent,
}

/// The settings of one animation of an element, or of the animation of one transition.
#[derive(Debug)]
pub struct AnimatorSettings {
    pub name: String,
    pub delay: Decimal,
    pub direction: AnimationDirection,
    pub duration: Decimal,
    pub fill_mode: AnimationFillMode,
    pub timing: TimingFunction,
    pub iterations: AnimationIterations,
    pub running: bool,
}

pub struct AnimatorSettingsV {
    pub name: Seq<char>,
    pub delay: Decimal,
    pub direction: AnimationDirection,
    pub duration: Decimal,
    pub fill_mode: AnimationFillMode,
    pub timing: TimingFunction,
    pub iterations: AnimationIterations,
    pub running: bool,
}

impl View for AnimatorSettings {
    type V = AnimatorSettingsV;

    open spec fn view(&self) -> AnimatorSettingsV {
        AnimatorSettingsV {
            name: self.name@,
            delay: self.delay,
            direction: self.direction,
            duration: self.duration,
            fill_mode: self.fill_mode,
            timing: self.timing,
            iterations: self.iterations,
            running: self.running,
        }
    }
}

/// The settings of one transition of an element: the property it follows and how.
#[derive(Debug)]
pub struct TransitionSettings {
    pub key: Option<PropertyKey>,
    pub animator: AnimatorSettings,
}

pub struct TransitionSettingsV {
    pub key: Option<PropertyKey>,
    pub animator: AnimatorSettingsV,
}

impl View for TransitionSettings {
    type V = TransitionSettingsV;

    open spec fn view(&self) -> TransitionSettingsV {
        TransitionSettingsV { key: self.key, animator: self.animator@ }
    }
}

/// The style of an element that applying computed values fills in.
#[derive(Debug)]
pub struct ElementStyle {
    pub look: Look,
    pub boxes: BoxStyle,
    pub transitions: Vec<TransitionSettings>,
    pub animators: Vec<AnimatorSettings>,
}

pub struct ElementStyleV {
    pub look: LookV,
    pub boxes: BoxStyle,
    pub transitions: Seq<TransitionSettingsV>,
    pub animators: Seq<AnimatorSettingsV>,
}

impl View for ElementStyle {
    type V = ElementStyleV;

    open spec fn view(&self) -> ElementStyleV {
        ElementStyleV {
            look: self.look@,
            boxes: self.boxes,
            transitions: self.transitions@.map_values(|t: TransitionSettings| t@),
            animators: self.animators@.map_values(|a: AnimatorSettings| a@),
        }
    }
}

pub open spec fn decimal_zero() -> Decimal {
    Decimal { negative: false, mantissa: 0, scale: 0 }
}

pub open spec fn decimal_one() -> Decimal {
    Decimal { negative: false, mantissa: 1, scale: 0 }
}

/// An animation that has not been given any setting yet: no name, no delay, no
/// duration, played once, forwards, linearly, running.
pub open spec fn initial_animator() -> AnimatorSettingsV {
    AnimatorSettingsV {
        name: Seq::empty(),
        delay: decimal_zero(),
        direction: AnimationDirection::Normal,
        duration: decimal_zero(),
        fill_mode: AnimationFillMode::NoFill,
        timing: TimingFunction::Linear,
        iterations: AnimationIterations::Number(decimal_one()),
        running: true,
    }
}

/// A transition that has not been given any setting yet: it follows no property.
pub open spec fn initial_transition() -> TransitionSettingsV {
    TransitionSettingsV { key: None, animator: initial_animator() }
}

/// `s` grown with `fill` so that it has a slot at `index`.
pub open spec fn filled<T>(s: Seq<T>, index: nat, fill: T) -> Seq<T> {
    if index < s.len() {
        s
    } else {
        s + Seq::new((index + 1 - s.len()) as nat, |i: int| fill)
    }
}

/// What a keyword lookup gives: the value found, or the keyword in the error.
pub open spec fn found<T>(x: Option<T>, k: Seq<char>) -> Result<T, CascadeErrorV> {
    match x {
        Some(v) => Ok(v),
        None => Err(CascadeErrorV::InvalidKeyword(k)),
    }
}

/// Whether a result of the library's functions is the result `s` states.
pub open spec fn gives<T>(r: Result<T, CascadeError>, s: Result<T, CascadeErrorV>) -> bool {
    match s {
        Ok(x) => r == Ok::<T, CascadeError>(x),
        Err(e) => r matches Err(x) && x@ == e,
    }
}

pub open spec fn is_auto(k: Seq<char>) -> bool {
    k == seq!['a', 'u', 't', 'o']
}

/// The extent of a value where zero, a number, a percentage or `auto` may be allowed; a
/// length with a unit always is.
pub open spec fn extent_with(
    v: ComputedValueV,
    zero: bool,
    number: bool,
    percent: bool,
    auto: bool,
) -> Result<Extent, CascadeErrorV> {
    match v {
        ComputedValueV::Zero => if zero {
            Ok(Extent::Zero)
        } else {
            Err(CascadeErrorV::ValueNotSupported)
        },
        ComputedValueV::Dimension(d) => Ok(Extent::Length(d)),
        ComputedValueV::Number(n) => if number {
            Ok(Extent::Number(n))
        } else {
            Err(CascadeErrorV::ValueNotSupported)
        },
        ComputedValueV::Percentage(p) => if percent {
            Ok(Extent::Percent(p))
        } else {
            Err(CascadeErrorV::ValueNotSupported)
        },
        ComputedValueV::Keyword(k) => if auto && is_auto(k) {
            Ok(Extent::Auto)
        } else {
            Err(CascadeErrorV::ValueNotSupported)
        },
        _ => Err(CascadeErrorV::ValueNotSupported),
    }
}

/// A font size: zero, a length, a percentage of the parent's or a number.
pub open spec fn font_size_extent(v: ComputedValueV) -> Result<Extent, CascadeErrorV> {
    extent_with(v, true, true, true, false)
}

/// A border width: zero, a length or a number.
pub open spec fn border_width_extent(v: ComputedValueV) -> Result<Extent, CascadeErrorV> {
    extent_with(v, true, true, false, false)
}

/// A size of a box: zero, a length, a percentage or `auto`.
pub open spec fn size_extent(v: ComputedValueV) -> Result<Extent, CascadeErrorV> {
    extent_with(v, true, false, true, true)
}

/// A radius, a padding or a gap: a length or a percentage.
pub open spec fn length_extent(v: ComputedValueV) -> Result<Extent, CascadeErrorV> {
    extent_with(v, false, false, true, false)
}

/// A margin or an inset: zero, a length, a percentage or `auto`.
pub open spec fn margin_extent(v: ComputedValueV) -> Result<Extent, CascadeErrorV> {
    extent_with(v, true, false, true, true)
}

pub open spec fn color_value(v: ComputedValueV) -> Result<Seq<u8>, CascadeErrorV> {
    match v {
        ComputedValueV::Color(c) => Ok(c),
        ComputedValueV::Keyword(k) => match color_keyword(k) {
            Some(x) => Ok(x@),
            None => Err(CascadeErrorV::InvalidKeyword(k)),
        },
        _ => Err(CascadeErrorV::ValueNotSupported),
    }
}

pub open spec fn weight_value(v: ComputedValueV) -> Result<u16, CascadeErrorV> {
    match v {
        ComputedValueV::Number(d) => if weight_in_range(d) {
            Ok(integer_part(d) as u16)
        } else {
            Err(CascadeErrorV::ValueNotSupported)
        },
        ComputedValueV::Keyword(k) => found(font_weight_keyword(k), k),
        _ => Err(CascadeErrorV::ValueNotSupported),
    }
}

pub open spec fn string_value(v: ComputedValueV) -> Result<Seq<char>, CascadeErrorV> {
    match v {
        ComputedValueV::Str(s) => Ok(s),
        _ => Err(CascadeErrorV::ValueNotSupported),
    }
}

pub open spec fn timing_value(v: ComputedValueV) -> Result<TimingFunction, CascadeErrorV> {
    match v {
        ComputedValueV::Keyword(k) => match timing_of(k) {
            Some(t) => Ok(t),
            None => Err(CascadeErrorV::ValueNotSupported),
        },
        _ => Err(CascadeErrorV::ValueNotSupported),
    }
}

pub open spec fn iterations_value(v: ComputedValueV) -> Result<AnimationIterations, CascadeErrorV> {
    match v {
        ComputedValueV::Keyword(k) => if k == seq!['i', 'n', 'f', 'i', 'n', 'i', 't', 'e'] {
            Ok(AnimationIterations::Infinite)
        } else {
            Err(CascadeErrorV::ValueNotSupported)
        },
        ComputedValueV::Number(d) => Ok(AnimationIterations::Number(d)),
        _ => Err(CascadeErrorV::ValueNotSupported),
    }
}

/// The keyword of a value where the property takes only keywords.
pub open spec fn keyword_value<T>(v: ComputedValueV, lookup: spec_fn(Seq<char>) -> Option<T>) -> Result<T, CascadeErrorV> {
    match v {
        ComputedValueV::Keyword(k) => found(lookup(k), k),
        _ => Err(CascadeErrorV::PropertyNotSupported),
    }
}


/// The look after a value of a property that sets the look; the error where the value
/// does not fit.
pub open spec fn look_applied(l: LookV, key: PropertyKey, v: ComputedValueV) -> Result<LookV, CascadeErrorV> {
    match key {
        PropertyKey::BackgroundColor => match color_value(v) {
            Ok(c) => Ok(LookV { background_color: c, ..l }),
            Err(e) => Err(e),
        },
        PropertyKey::Color => match color_value(v) {
            Ok(c) => Ok(LookV { color: c, ..l }),
            Err(e) => Err(e),
        },
        PropertyKey::FontSize => match font_size_extent(v) {
            Ok(x) => Ok(LookV { font_size: x, ..l }),
            Err(e) => Err(e),
        },
        PropertyKey::FontWeight => match weight_value(v) {
            Ok(w) => Ok(LookV { font_weight: w, ..l }),
            Err(e) => Err(e),
        },
        PropertyKey::FontFamily => match string_value(v) {
            Ok(f) => Ok(LookV { font_family: f, ..l }),
            Err(e) => Err(e),
        },
        PropertyKey::FontStyle => match keyword_value(v, |k: Seq<char>| font_style_of(k)) {
            Ok(f) => Ok(LookV { font_style: f, ..l }),
            Err(e) => Err(e),
        },
        PropertyKey::TextAlign => match keyword_value(v, |k: Seq<char>| text_align_of(k)) {
            Ok(a) => Ok(LookV { text_align: a, ..l }),
            Err(e) => Err(e),
        },
        PropertyKey::PointerEvents => match keyword_value(v, |k: Seq<char>| pointer_events_of(k)) {
            Ok(p) => Ok(LookV { pointer_events: p, ..l }),
            Err(e) => Err(e),
        },
        PropertyKey::BorderTopWidth => match border_width_extent(v) {
            Ok(x) => Ok(LookV { border_widths: Sides { top: x, ..l.border_widths }, ..l }),
            Err(e) => Err(e),
        },
        PropertyKey::BorderRightWidth => match border_width_extent(v) {
            Ok(x) => Ok(LookV { border_widths: Sides { right: x, ..l.border_widths }, ..l }),
            Err(e) => Err(e),
        },
        PropertyKey::BorderBottomWidth => match border_width_extent(v) {
            Ok(x) => Ok(LookV { border_widths: Sides { bottom: x, ..l.border_widths }, ..l }),
            Err(e) => Err(e),
        },
        PropertyKey::BorderLeftWidth => match border_width_extent(v) {
            Ok(x) => Ok(LookV { border_widths: Sides { left: x, ..l.border_widths }, ..l }),
            Err(e) => Err(e),
        },
        PropertyKey::BorderTopColor => match color_value(v) {
            Ok(c) => Ok(LookV { border_top_color: c, ..l }),
            Err(e) => Err(e),
        },
        PropertyKey::BorderRightColor => match color_value(v) {
            Ok(c) => Ok(LookV { border_right_color: c, ..l }),
            Err(e) => Err(e),
        },
        PropertyKey::BorderBottomColor => match color_value(v) {
            Ok(c) => Ok(LookV { border_bottom_color: c, ..l }),
            Err(e) => Err(e),
        },
        PropertyKey::BorderLeftColor => match color_value(v) {
            Ok(c) => Ok(LookV { border_left_color: c, ..l }),
            Err(e) => Err(e),
        },
        PropertyKey::BorderTopLeftRadius => match length_extent(v) {
            Ok(x) => Ok(LookV { radii: Corners { top_left: x, ..l.radii }, ..l }),
            Err(e) => Err(e),
        },
        PropertyKey::BorderTopRightRadius => match length_extent(v) {
            Ok(x) => Ok(LookV { radii: Corners { top_right: x, ..l.radii }, ..l }),
            Err(e) => Err(e),
        },
        PropertyKey::BorderBottomRightRadius => match length_extent(v) {
            Ok(x) => Ok(LookV { radii: Corners { bottom_right: x, ..l.radii }, ..l }),
            Err(e) => Err(e),
        },
        PropertyKey::BorderBottomLeftRadius => match length_extent(v) {
            Ok(x) => Ok(LookV { radii: Corners { bottom_left: x, ..l.radii }, ..l }),
            Err(e) => Err(e),
        },
        _ => Err(CascadeErrorV::PropertyNotSupported),
    }
}

/// The properties that set the look of an element.
pub open spec fn look_key(key: PropertyKey) -> bool {
    match key {
        PropertyKey::BackgroundColor | PropertyKey::Color | PropertyKey::FontSize
        | PropertyKey::FontWeight | PropertyKey::FontFamily | PropertyKey::FontStyle
        | PropertyKey::TextAlign | PropertyKey::PointerEvents | PropertyKey::BorderTopWidth
        | PropertyKey::BorderRightWidth | PropertyKey::BorderBottomWidth
        | PropertyKey::BorderLeftWidth | PropertyKey::BorderTopColor
        | PropertyKey::BorderRightColor | PropertyKey::BorderBottomColor
        | PropertyKey::BorderLeftColor | PropertyKey::BorderTopLeftRadius
        | PropertyKey::BorderTopRightRadius | PropertyKey::BorderBottomRightRadius
        | PropertyKey::BorderBottomLeftRadius => true,
        _ => false,
    }
}

/// The extent of a value, where zero, a number, a percentage or `auto` may be allowed.
fn extent_of(value: &ComputedValue, zero: bool, number: bool, percent: bool, auto: bool) -> (r: Result<Extent, CascadeError>)
    ensures
        gives(r, extent_with(value@, zero, number, percent, auto)),
{
    match value {
        ComputedValue::Zero => if zero {
            Ok(Extent::Zero)
        } else {
            Err(CascadeError::ValueNotSupported)
        },
        ComputedValue::Dimension(d) => Ok(Extent::Length(*d)),
        ComputedValue::Number(n) => if number {
            Ok(Extent::Number(*n))
        } else {
            Err(CascadeError::ValueNotSupported)
        },
        ComputedValue::Percentage(p) => if percent {
            Ok(Extent::Percent(*p))
        } else {
            Err(CascadeError::ValueNotSupported)
        },
        ComputedValue::Keyword(k) => {
            let chars = chars_of(k.as_str());
            let word = ['a', 'u', 't', 'o'];
            assert(word@ =~= seq!['a', 'u', 't', 'o']);
            if auto && is_word(&chars, &word) {
                Ok(Extent::Auto)
            } else {
                Err(CascadeError::ValueNotSupported)
            }
        },
        _ => Err(CascadeError::ValueNotSupported),
    }
}

/// The color of a value, as `resolve_color` reads it.
fn color_of(value: &ComputedValue) -> (r: Result<[u8; 4], CascadeError>)
    ensures
        match color_value(value@) {
            Ok(c) => r matches Ok(x) && x@ == c,
            Err(e) => r matches Err(x) && x@ == e,
        },
{
    resolve_color(value)
}

fn is_look_key(key: PropertyKey) -> (r: bool)
    ensures
        r == look_key(key),
{
    matches!(key, PropertyKey::BackgroundColor | PropertyKey::Color | PropertyKey::FontSize
        | PropertyKey::FontWeight | PropertyKey::FontFamily | PropertyKey::FontStyle
        | PropertyKey::TextAlign | PropertyKey::PointerEvents | PropertyKey::BorderTopWidth
        | PropertyKey::BorderRightWidth | PropertyKey::BorderBottomWidth
        | PropertyKey::BorderLeftWidth | PropertyKey::BorderTopColor
        | PropertyKey::BorderRightColor | PropertyKey::BorderBottomColor
        | PropertyKey::BorderLeftColor | PropertyKey::BorderTopLeftRadius
        | PropertyKey::BorderTopRightRadius | PropertyKey::BorderBottomRightRadius
        | PropertyKey::BorderBottomLeftRadius)
}

/// Sets the part of the look that `key` names from `value`; on an error nothing changes.
fn apply_look(key: PropertyKey, value: &ComputedValue, look: &mut Look) -> (r: Result<(), CascadeError>)
    requires
        look_key(key),
    ensures
        match look_applied(old(look)@, key, value@) {
            Ok(l) => r is Ok && final(look)@ == l,
            Err(e) => r matches Err(x) && x@ == e && final(look)@ == old(look)@,
        },
{
    match key {
        PropertyKey::BackgroundColor | PropertyKey::Color | PropertyKey::BorderTopColor
        | PropertyKey::BorderRightColor | PropertyKey::BorderBottomColor
        | PropertyKey::BorderLeftColor => {
            let c = match color_of(value) {
                Ok(c) => c,
                Err(e) => return Err(e),
            };
            match key {
                PropertyKey::BackgroundColor => look.background_color = c,
                PropertyKey::Color => look.color = c,
                PropertyKey::BorderTopColor => look.border_top_color = c,
                PropertyKey::BorderRightColor => look.border_right_color = c,
                PropertyKey::BorderBottomColor => look.border_bottom_color = c,
                _ => look.border_left_color = c,
            }
            Ok(())
        },
        PropertyKey::FontSize => match extent_of(value, true, true, true, false) {
            Ok(x) => {
                look.font_size = x;
                Ok(())
            },
            Err(e) => Err(e),
        },
        PropertyKey::FontWeight => match resolve_font_weight(value) {
            Ok(w) => {
                look.font_weight = w;
                Ok(())
            },
            Err(e) => Err(e),
        },
        PropertyKey::FontFamily => match resolve_string(value) {
            Ok(f) => {
                look.font_family = f;
                Ok(())
            },
            Err(e) => Err(e),
        },
        PropertyKey::FontStyle => match value {
            ComputedValue::Keyword(k) => match resolve_font_style(k.as_str()) {
                Ok(f) => {
                    look.font_style = f;
                    Ok(())
                },
                Err(e) => Err(e),
            },
            _ => Err(CascadeError::PropertyNotSupported),
        },
        PropertyKey::TextAlign => match value {
            ComputedValue::Keyword(k) => match resolve_text_align(k.as_str()) {
                Ok(a) => {
                    look.text_align = a;
                    Ok(())
                },
                Err(e) => Err(e),
            },
            _ => Err(CascadeError::PropertyNotSupported),
        },
        PropertyKey::PointerEvents => match value {
            ComputedValue::Keyword(k) => match resolve_pointer_events(k.as_str()) {
                Ok(p) => {
                    look.pointer_events = p;
                    Ok(())
                },
                Err(e) => Err(e),
            },
            _ => Err(CascadeError::PropertyNotSupported),
        },
        PropertyKey::BorderTopWidth | PropertyKey::BorderRightWidth
        | PropertyKey::BorderBottomWidth | PropertyKey::BorderLeftWidth => {
            let x = match extent_of(value, true, true, false, false) {
                Ok(x) => x,
                Err(e) => return Err(e),
            };
            match key {
                PropertyKey::BorderTopWidth => look.border_widths.top = x,
                PropertyKey::BorderRightWidth => look.border_widths.right = x,
                PropertyKey::BorderBottomWidth => look.border_widths.bottom = x,
                _ => look.border_widths.left = x,
            }
            Ok(())
        },
        _ => {
            let x = match extent_of(value, false, false, true, false) {
                Ok(x) => x,
                Err(e) => return Err(e),
            };
            match key {
                PropertyKey::BorderTopLeftRadius => look.radii.top_left = x,
                PropertyKey::BorderTopRightRadius => look.radii.top_right = x,
                PropertyKey::BorderBottomRightRadius => look.radii.bottom_right = x,
                _ => look.radii.bottom_left = x,
            }
            Ok(())
        },
    }
}


/// The box after a value of a property that sets the layout; the error where the value
/// does not fit. `box-sizing` is accepted and changes nothing.
pub open spec fn box_applied(b: BoxStyle, key: PropertyKey, v: ComputedValueV) -> Result<BoxStyle, CascadeErrorV> {
    match key {
        PropertyKey::BoxSizing => Ok(b),
        PropertyKey::MarginTop => match margin_extent(v) {
            Ok(x) => Ok(BoxStyle { margin: Sides { top: x, ..b.margin }, ..b }),
            Err(e) => Err(e),
        },
        PropertyKey::MarginRight => match margin_extent(v) {
            Ok(x) => Ok(BoxStyle { margin: Sides { right: x, ..b.margin }, ..b }),
            Err(e) => Err(e),
        },
        PropertyKey::MarginBottom => match margin_extent(v) {
            Ok(x) => Ok(BoxStyle { margin: Sides { bottom: x, ..b.margin }, ..b }),
            Err(e) => Err(e),
        },
        PropertyKey::MarginLeft => match margin_extent(v) {
            Ok(x) => Ok(BoxStyle { margin: Sides { left: x, ..b.margin }, ..b }),
            Err(e) => Err(e),
        },
        PropertyKey::PaddingTop => match length_extent(v) {
            Ok(x) => Ok(BoxStyle { padding: Sides { top: x, ..b.padding }, ..b }),
            Err(e) => Err(e),
        },
        PropertyKey::PaddingRight => match length_extent(v) {
            Ok(x) => Ok(BoxStyle { padding: Sides { right: x, ..b.padding }, ..b }),
            Err(e) => Err(e),
        },
        PropertyKey::PaddingBottom => match length_extent(v) {
            Ok(x) => Ok(BoxStyle { padding: Sides { bottom: x, ..b.padding }, ..b }),
            Err(e) => Err(e),
        },
        PropertyKey::PaddingLeft => match length_extent(v) {
            Ok(x) => Ok(BoxStyle { padding: Sides { left: x, ..b.padding }, ..b }),
            Err(e) => Err(e),
        },
        PropertyKey::Top => match margin_extent(v) {
            Ok(x) => Ok(BoxStyle { inset: Sides { top: x, ..b.inset }, ..b }),
            Err(e) => Err(e),
        },
        PropertyKey::Right => match margin_extent(v) {
            Ok(x) => Ok(BoxStyle { inset: Sides { right: x, ..b.inset }, ..b }),
            Err(e) => Err(e),
        },
        PropertyKey::Bottom => match margin_extent(v) {
            Ok(x) => Ok(BoxStyle { inset: Sides { bottom: x, ..b.inset }, ..b }),
            Err(e) => Err(e),
        },
        PropertyKey::Left => match margin_extent(v) {
            Ok(x) => Ok(BoxStyle { inset: Sides { left: x, ..b.inset }, ..b }),
            Err(e) => Err(e),
        },
        PropertyKey::Width => match size_extent(v) {
            Ok(x) => Ok(BoxStyle { width: x, ..b }),
            Err(e) => Err(e),
        },
        PropertyKey::Height => match size_extent(v) {
            Ok(x) => Ok(BoxStyle { height: x, ..b }),
            Err(e) => Err(e),
        },
        PropertyKey::MinWidth => match size_extent(v) {
            Ok(x) => Ok(BoxStyle { min_width: x, ..b }),
            Err(e) => Err(e),
        },
        PropertyKey::MinHeight => match size_extent(v) {
            Ok(x) => Ok(BoxStyle { min_height: x, ..b }),
            Err(e) => Err(e),
        },
        PropertyKey::MaxWidth => match size_extent(v) {
            Ok(x) => Ok(BoxStyle { max_width: x, ..b }),
            Err(e) => Err(e),
        },
        PropertyKey::MaxHeight => match size_extent(v) {
            Ok(x) => Ok(BoxStyle { max_height: x, ..b }),
            Err(e) => Err(e),
        },
        PropertyKey::FlexBasis => match size_extent(v) {
            Ok(x) => Ok(BoxStyle { flex_basis: x, ..b }),
            Err(e) => Err(e),
        },
        PropertyKey::ColumnGap => match length_extent(v) {
            Ok(x) => Ok(BoxStyle { column_gap: x, ..b }),
            Err(e) => Err(e),
        },
        PropertyKey::RowGap => match length_extent(v) {
            Ok(x) => Ok(BoxStyle { row_gap: x, ..b }),
            Err(e) => Err(e),
        },
        _ => box_keyword_applied(b, key, v),
    }
}

/// The box after a value of a layout property that takes a keyword or a number.
pub open spec fn box_keyword_applied(b: BoxStyle, key: PropertyKey, v: ComputedValueV) -> Result<BoxStyle, CascadeErrorV> {
    match key {
        PropertyKey::Display => match keyword_value(v, |k: Seq<char>| display_of(k)) {
            Ok(d) => Ok(BoxStyle { display: d, ..b }),
            Err(e) => Err(e),
        },
        PropertyKey::OverflowX => match keyword_value(v, |k: Seq<char>| overflow_of(k)) {
            Ok(o) => Ok(BoxStyle { overflow_x: o, ..b }),
            Err(e) => Err(e),
        },
        PropertyKey::OverflowY => match keyword_value(v, |k: Seq<char>| overflow_of(k)) {
            Ok(o) => Ok(BoxStyle { overflow_y: o, ..b }),
            Err(e) => Err(e),
        },
        PropertyKey::Position => match keyword_value(v, |k: Seq<char>| position_of(k)) {
            Ok(p) => Ok(BoxStyle { position: p, ..b }),
            Err(e) => Err(e),
        },
        PropertyKey::AlignContent => match keyword_value(v, |k: Seq<char>| align_content_of(k)) {
            Ok(a) => Ok(BoxStyle { align_content: a, ..b }),
            Err(e) => Err(e),
        },
        PropertyKey::JustifyContent => match keyword_value(v, |k: Seq<char>| align_content_of(k)) {
            Ok(a) => Ok(BoxStyle { justify_content: a, ..b }),
            Err(e) => Err(e),
        },
        PropertyKey::AlignItems => match keyword_value(v, |k: Seq<char>| align_items_of(k)) {
            Ok(a) => Ok(BoxStyle { align_items: a, ..b }),
            Err(e) => Err(e),
        },
        PropertyKey::AlignSelf => match keyword_value(v, |k: Seq<char>| align_items_of(k)) {
            Ok(a) => Ok(BoxStyle { align_self: a, ..b }),
            Err(e) => Err(e),
        },
        PropertyKey::JustifyItems => match keyword_value(v, |k: Seq<char>| align_items_of(k)) {
            Ok(a) => Ok(BoxStyle { justify_items: a, ..b }),
            Err(e) => Err(e),
        },
        PropertyKey::JustifySelf => match keyword_value(v, |k: Seq<char>| align_items_of(k)) {
            Ok(a) => Ok(BoxStyle { justify_self: a, ..b }),
            Err(e) => Err(e),
        },
        PropertyKey::FlexDirection => match keyword_value(v, |k: Seq<char>| flex_direction_of(k)) {
            Ok(d) => Ok(BoxStyle { flex_direction: d, ..b }),
            Err(e) => Err(e),
        },
        PropertyKey::FlexWrap => match keyword_value(v, |k: Seq<char>| flex_wrap_of(k)) {
            Ok(w) => Ok(BoxStyle { flex_wrap: w, ..b }),
            Err(e) => Err(e),
        },
        PropertyKey::FlexGrow => match v {
            ComputedValueV::Number(n) => Ok(BoxStyle { flex_grow: n, ..b }),
            _ => Err(CascadeErrorV::PropertyNotSupported),
        },
        PropertyKey::FlexShrink => match v {
            ComputedValueV::Number(n) => Ok(BoxStyle { flex_shrink: n, ..b }),
            _ => Err(CascadeErrorV::PropertyNotSupported),
        },
        _ => Err(CascadeErrorV::PropertyNotSupported),
    }
}

/// The properties that set the layout of an element's box.
pub open spec fn box_key(key: PropertyKey) -> bool {
    box_extent_key(key) || box_keyword_key(key)
}

pub open spec fn box_extent_key(key: PropertyKey) -> bool {
    match key {
        PropertyKey::BoxSizing | PropertyKey::MarginTop | PropertyKey::MarginRight
        | PropertyKey::MarginBottom | PropertyKey::MarginLeft | PropertyKey::PaddingTop
        | PropertyKey::PaddingRight | PropertyKey::PaddingBottom | PropertyKey::PaddingLeft
        | PropertyKey::Top | PropertyKey::Right | PropertyKey::Bottom | PropertyKey::Left
        | PropertyKey::Width | PropertyKey::Height | PropertyKey::MinWidth
        | PropertyKey::MinHeight | PropertyKey::MaxWidth | PropertyKey::MaxHeight
        | PropertyKey::FlexBasis | PropertyKey::ColumnGap | PropertyKey::RowGap => true,
        _ => false,
    }
}

pub open spec fn box_keyword_key(key: PropertyKey) -> bool {
    match key {
        PropertyKey::Display | PropertyKey::OverflowX | PropertyKey::OverflowY
        | PropertyKey::Position | PropertyKey::AlignContent | PropertyKey::JustifyContent
        | PropertyKey::AlignItems | PropertyKey::AlignSelf | PropertyKey::JustifyItems
        | PropertyKey::JustifySelf | PropertyKey::FlexDirection | PropertyKey::FlexWrap
        | PropertyKey::FlexGrow | PropertyKey::FlexShrink => true,
        _ => false,
    }
}

fn is_box_extent_key(key: PropertyKey) -> (r: bool)
    ensures
        r == box_extent_key(key),
{
    matches!(key, PropertyKey::BoxSizing | PropertyKey::MarginTop | PropertyKey::MarginRight
        | PropertyKey::MarginBottom | PropertyKey::MarginLeft | PropertyKey::PaddingTop
        | PropertyKey::PaddingRight | PropertyKey::PaddingBottom | PropertyKey::PaddingLeft
        | PropertyKey::Top | PropertyKey::Right | PropertyKey::Bottom | PropertyKey::Left
        | PropertyKey::Width | PropertyKey::Height | PropertyKey::MinWidth
        | PropertyKey::MinHeight | PropertyKey::MaxWidth | PropertyKey::MaxHeight
        | PropertyKey::FlexBasis | PropertyKey::ColumnGap | PropertyKey::RowGap)
}

fn is_box_keyword_key(key: PropertyKey) -> (r: bool)
    ensures
        r == box_keyword_key(key),
{
    matches!(key, PropertyKey::Display | PropertyKey::OverflowX | PropertyKey::OverflowY
        | PropertyKey::Position | PropertyKey::AlignContent | PropertyKey::JustifyContent
        | PropertyKey::AlignItems | PropertyKey::AlignSelf | PropertyKey::JustifyItems
        | PropertyKey::JustifySelf | PropertyKey::FlexDirection | PropertyKey::FlexWrap
        | PropertyKey::FlexGrow | PropertyKey::FlexShrink)
}

/// Sets the extent of the box that `key` names from `value`.
fn apply_box_extent(key: PropertyKey, value: &ComputedValue, b: &mut BoxStyle) -> (r: Result<(), CascadeError>)
    requires
        box_extent_key(key),
    ensures
        match box_applied(*old(b), key, value@) {
            Ok(x) => r is Ok && *final(b) == x,
            Err(e) => r matches Err(x) && x@ == e && *final(b) == *old(b),
        },
{
    match key {
        PropertyKey::BoxSizing => Ok(()),
        PropertyKey::MarginTop | PropertyKey::MarginRight | PropertyKey::MarginBottom
        | PropertyKey::MarginLeft | PropertyKey::Top | PropertyKey::Right | PropertyKey::Bottom
        | PropertyKey::Left => {
            let x = match extent_of(value, true, false, true, true) {
                Ok(x) => x,
                Err(e) => return Err(e),
            };
            match key {
                PropertyKey::MarginTop => b.margin.top = x,
                PropertyKey::MarginRight => b.margin.right = x,
                PropertyKey::MarginBottom => b.margin.bottom = x,
                PropertyKey::MarginLeft => b.margin.left = x,
                PropertyKey::Top => b.inset.top = x,
                PropertyKey::Right => b.inset.right = x,
                PropertyKey::Bottom => b.inset.bottom = x,
                _ => b.inset.left = x,
            }
            Ok(())
        },
        PropertyKey::PaddingTop | PropertyKey::PaddingRight | PropertyKey::PaddingBottom
        | PropertyKey::PaddingLeft | PropertyKey::ColumnGap | PropertyKey::RowGap => {
            let x = match extent_of(value, false, false, true, false) {
                Ok(x) => x,
                Err(e) => return Err(e),
            };
            match key {
                PropertyKey::PaddingTop => b.padding.top = x,
                PropertyKey::PaddingRight => b.padding.right = x,
                PropertyKey::PaddingBottom => b.padding.bottom = x,
                PropertyKey::PaddingLeft => b.padding.left = x,
                PropertyKey::ColumnGap => b.column_gap = x,
                _ => b.row_gap = x,
            }
            Ok(())
        },
        _ => {
            let x = match extent_of(value, true, false, true, true) {
                Ok(x) => x,
                Err(e) => return Err(e),
            };
            match key {
                PropertyKey::Width => b.width = x,
                PropertyKey::Height => b.height = x,
                PropertyKey::MinWidth => b.min_width = x,
                PropertyKey::MinHeight => b.min_height = x,
                PropertyKey::MaxWidth => b.max_width = x,
                PropertyKey::MaxHeight => b.max_height = x,
                _ => b.flex_basis = x,
            }
            Ok(())
        },
    }
}

/// Sets the keyword or number of the box that `key` names from `value`.
fn apply_box_keyword(key: PropertyKey, value: &ComputedValue, b: &mut BoxStyle) -> (r: Result<(), CascadeError>)
    requires
        box_keyword_key(key),
    ensures
        match box_applied(*old(b), key, value@) {
            Ok(x) => r is Ok && *final(b) == x,
            Err(e) => r matches Err(x) && x@ == e && *final(b) == *old(b),
        },
{
    match key {
        PropertyKey::FlexGrow | PropertyKey::FlexShrink => match value {
            ComputedValue::Number(n) => {
                if key == PropertyKey::FlexGrow {
                    b.flex_grow = *n;
                } else {
                    b.flex_shrink = *n;
                }
                Ok(())
            },
            _ => Err(CascadeError::PropertyNotSupported),
        },
        _ => {
            let k = match value {
                ComputedValue::Keyword(k) => k.as_str(),
                _ => return Err(CascadeError::PropertyNotSupported),
            };
            match key {
                PropertyKey::Display => match resolve_display(k) {
                    Ok(d) => b.display = d,
                    Err(e) => return Err(e),
                },
                PropertyKey::OverflowX => match resolve_overflow(k) {
                    Ok(o) => b.overflow_x = o,
                    Err(e) => return Err(e),
                },
                PropertyKey::OverflowY => match resolve_overflow(k) {
                    Ok(o) => b.overflow_y = o,
                    Err(e) => return Err(e),
                },
                PropertyKey::Position => match resolve_position(k) {
                    Ok(p) => b.position = p,
                    Err(e) => return Err(e),
                },
                PropertyKey::AlignContent => match map_align_content(k) {
                    Ok(a) => b.align_content = a,
                    Err(e) => return Err(e),
                },
                PropertyKey::JustifyContent => match map_align_content(k) {
                    Ok(a) => b.justify_content = a,
                    Err(e) => return Err(e),
                },
                PropertyKey::AlignItems => match map_align_items(k) {
                    Ok(a) => b.align_items = a,
                    Err(e) => return Err(e),
                },
                PropertyKey::AlignSelf => match map_align_items(k) {
                    Ok(a) => b.align_self = a,
                    Err(e) => return Err(e),
                },
                PropertyKey::JustifyItems => match map_align_items(k) {
                    Ok(a) => b.justify_items = a,
                    Err(e) => return Err(e),
                },
                PropertyKey::JustifySelf => match map_align_items(k) {
                    Ok(a) => b.justify_self = a,
                    Err(e) => return Err(e),
                },
                PropertyKey::FlexDirection => match resolve_flex_direction(k) {
                    Ok(d) => b.flex_direction = d,
                    Err(e) => return Err(e),
                },
                _ => match resolve_flex_wrap(k) {
                    Ok(w) => b.flex_wrap = w,
                    Err(e) => return Err(e),
                },
            }
            Ok(())
        },
    }
}


/// A transition after a value of a transition property.
pub open spec fn transition_applied(t: TransitionSettingsV, key: PropertyKey, v: ComputedValueV) -> Result<TransitionSettingsV, CascadeErrorV> {
    match key {
        PropertyKey::TransitionProperty => match v {
            ComputedValueV::Keyword(k) => match property_key(k) {
                Some(p) => Ok(TransitionSettingsV { key: Some(p), ..t }),
                None => Err(CascadeErrorV::InvalidKeyword(k)),
            },
            _ => Err(CascadeErrorV::PropertyNotSupported),
        },
        PropertyKey::TransitionDuration => match v {
            ComputedValueV::Time(d) => Ok(TransitionSettingsV { animator: AnimatorSettingsV { duration: d, ..t.animator }, ..t }),
            _ => Err(CascadeErrorV::PropertyNotSupported),
        },
        PropertyKey::TransitionDelay => match v {
            ComputedValueV::Time(d) => Ok(TransitionSettingsV { animator: AnimatorSettingsV { delay: d, ..t.animator }, ..t }),
            _ => Err(CascadeErrorV::PropertyNotSupported),
        },
        PropertyKey::TransitionTimingFunction => match timing_value(v) {
            Ok(f) => Ok(TransitionSettingsV { animator: AnimatorSettingsV { timing: f, ..t.animator }, ..t }),
            Err(e) => Err(e),
        },
        _ => Err(CascadeErrorV::PropertyNotSupported),
    }
}

/// An animation after a value of an animation property.
pub open spec fn animator_applied(a: AnimatorSettingsV, key: PropertyKey, v: ComputedValueV) -> Result<AnimatorSettingsV, CascadeErrorV> {
    match key {
        PropertyKey::AnimationName => match v {
            ComputedValueV::Keyword(k) => Ok(AnimatorSettingsV { name: k, ..a }),
            _ => Err(CascadeErrorV::PropertyNotSupported),
        },
        PropertyKey::AnimationDelay => match v {
            ComputedValueV::Time(d) => Ok(AnimatorSettingsV { delay: d, ..a }),
            _ => Err(CascadeErrorV::PropertyNotSupported),
        },
        PropertyKey::AnimationDuration => match v {
            ComputedValueV::Time(d) => Ok(AnimatorSettingsV { duration: d, ..a }),
            _ => Err(CascadeErrorV::PropertyNotSupported),
        },
        PropertyKey::AnimationDirection => match keyword_value(v, |k: Seq<char>| animation_direction_of(k)) {
            Ok(d) => Ok(AnimatorSettingsV { direction: d, ..a }),
            Err(e) => Err(e),
        },
        PropertyKey::AnimationFillMode => match keyword_value(v, |k: Seq<char>| animation_fill_mode_of(k)) {
            Ok(f) => Ok(AnimatorSettingsV { fill_mode: f, ..a }),
            Err(e) => Err(e),
        },
        PropertyKey::AnimationPlayState => match keyword_value(v, |k: Seq<char>| play_state_of(k)) {
            Ok(p) => Ok(AnimatorSettingsV { running: p, ..a }),
            Err(e) => Err(e),
        },
        PropertyKey::AnimationIterationCount => match iterations_value(v) {
            Ok(i) => Ok(AnimatorSettingsV { iterations: i, ..a }),
            Err(e) => Err(e),
        },
        PropertyKey::AnimationTimingFunction => match timing_value(v) {
            Ok(f) => Ok(AnimatorSettingsV { timing: f, ..a }),
            Err(e) => Err(e),
        },
        _ => Err(CascadeErrorV::PropertyNotSupported),
    }
}

pub open spec fn transition_key(key: PropertyKey) -> bool {
    match key {
        PropertyKey::TransitionProperty | PropertyKey::TransitionDuration
        | PropertyKey::TransitionDelay | PropertyKey::TransitionTimingFunction => true,
        _ => false,
    }
}

pub open spec fn animation_key(key: PropertyKey) -> bool {
    match key {
        PropertyKey::AnimationName | PropertyKey::AnimationDelay | PropertyKey::AnimationDuration
        | PropertyKey::AnimationDirection | PropertyKey::AnimationFillMode
        | PropertyKey::AnimationPlayState | PropertyKey::AnimationIterationCount
        | PropertyKey::AnimationTimingFunction => true,
        _ => false,
    }
}

/// The style of an element after the value `v` of the property `key` at position
/// `index` of its list, or the error where the property takes no such value. Each
/// property sets one part of the look, of the box, or of the transition or animation
/// at `index`; transitions and animations are added with their initial settings up to
/// `index` where there are fewer.
pub open spec fn applied(s: ElementStyleV, key: PropertyKey, index: nat, v: ComputedValueV) -> Result<ElementStyleV, CascadeErrorV> {
    if look_key(key) {
        match look_applied(s.look, key, v) {
            Ok(l) => Ok(ElementStyleV { look: l, ..s }),
            Err(e) => Err(e),
        }
    } else if box_key(key) {
        match box_applied(s.boxes, key, v) {
            Ok(b) => Ok(ElementStyleV { boxes: b, ..s }),
            Err(e) => Err(e),
        }
    } else if transition_key(key) {
        let slots = filled(s.transitions, index, initial_transition());
        match transition_applied(slots[index as int], key, v) {
            Ok(t) => Ok(ElementStyleV { transitions: slots.update(index as int, t), ..s }),
            Err(e) => Err(e),
        }
    } else if animation_key(key) {
        let slots = filled(s.animators, index, initial_animator());
        match animator_applied(slots[index as int], key, v) {
            Ok(a) => Ok(ElementStyleV { animators: slots.update(index as int, a), ..s }),
            Err(e) => Err(e),
        }
    } else {
        Err(CascadeErrorV::PropertyNotSupported)
    }
}

impl AnimatorSettings {
    /// The settings of an animation that nothing has set yet.
    pub fn new() -> (a: Self)
        ensures
            a@ == initial_animator(),
    {
        let a = AnimatorSettings {
            name: String::new(),
            delay: Decimal { negative: false, mantissa: 0, scale: 0 },
            direction: AnimationDirection::Normal,
            duration: Decimal { negative: false, mantissa: 0, scale: 0 },
            fill_mode: AnimationFillMode::NoFill,
            timing: TimingFunction::Linear,
            iterations: AnimationIterations::Number(Decimal { negative: false, mantissa: 1, scale: 0 }),
            running: true,
        };
        assert(a.name@ =~= Seq::<char>::empty());
        a
    }
}

impl TransitionSettings {
    /// The settings of a transition that nothing has set yet.
    pub fn new() -> (t: Self)
        ensures
            t@ == initial_transition(),
    {
        TransitionSettings { key: None, animator: AnimatorSettings::new() }
    }
}

/// Grows `transitions` with initial settings until it has a slot at `index`.
fn fill_transitions(transitions: &mut Vec<TransitionSettings>, index: usize)
    requires
        index < usize::MAX,
    ensures
        final(transitions)@.map_values(|t: TransitionSettings| t@) == filled(
            old(transitions)@.map_values(|t: TransitionSettings| t@),
            index as nat,
            initial_transition(),
        ),
        index < final(transitions)@.len(),
{
    let ghost start = old(transitions)@.map_values(|t: TransitionSettings| t@);
    if index < transitions.len() {
        return;
    }
    while transitions.len() <= index
        invariant
            start.len() <= transitions@.len() <= index + 1,
            transitions@.map_values(|t: TransitionSettings| t@) =~= start + Seq::new(
                (transitions@.len() - start.len()) as nat,
                |i: int| initial_transition(),
            ),
        decreases index + 1 - transitions@.len(),
    {
        let item = TransitionSettings::new();
        let ghost before = transitions@.map_values(|t: TransitionSettings| t@);
        transitions.push(item);
        assert(transitions@.map_values(|t: TransitionSettings| t@) =~= before.push(initial_transition()));
        assert(transitions@.map_values(|t: TransitionSettings| t@) =~= start + Seq::new(
            (transitions@.len() - start.len()) as nat,
            |i: int| initial_transition(),
        ));
    }
}

/// Grows `animators` with initial settings until it has a slot at `index`.
fn fill_animators(animators: &mut Vec<AnimatorSettings>, index: usize)
    requires
        index < usize::MAX,
    ensures
        final(animators)@.map_values(|a: AnimatorSettings| a@) == filled(
            old(animators)@.map_values(|a: AnimatorSettings| a@),
            index as nat,
            initial_animator(),
        ),
        index < final(animators)@.len(),
{
    let ghost start = old(animators)@.map_values(|a: AnimatorSettings| a@);
    if index < animators.len() {
        return;
    }
    while animators.len() <= index
        invariant
            start.len() <= animators@.len() <= index + 1,
            animators@.map_values(|a: AnimatorSettings| a@) =~= start + Seq::new(
                (animators@.len() - start.len()) as nat,
                |i: int| initial_animator(),
            ),
        decreases index + 1 - animators@.len(),
    {
        let item = AnimatorSettings::new();
        let ghost before = animators@.map_values(|a: AnimatorSettings| a@);
        animators.push(item);
        assert(animators@.map_values(|a: AnimatorSettings| a@) =~= before.push(initial_animator()));
        assert(animators@.map_values(|a: AnimatorSettings| a@) =~= start + Seq::new(
            (animators@.len() - start.len()) as nat,
            |i: int| initial_animator(),
        ));
    }
}

/// Puts `t` at `index` and hands back what stood there.
fn swap_transition(transitions: &mut Vec<TransitionSettings>, index: usize, t: TransitionSettings) -> (was: TransitionSettings)
    requires
        index < old(transitions)@.len(),
    ensures
        final(transitions)@.map_values(|x: TransitionSettings| x@) == old(transitions)@.map_values(
            |x: TransitionSettings| x@,
        ).update(index as int, t@),
        was@ == old(transitions)@[index as int]@,
        final(transitions)@.len() == old(transitions)@.len(),
{
    let was = transitions.remove(index);
    transitions.insert(index, t);
    assert(transitions@.map_values(|x: TransitionSettings| x@) =~= old(transitions)@.map_values(
        |x: TransitionSettings| x@,
    ).update(index as int, t@));
    was
}

/// Puts `a` at `index` and hands back what stood there.
fn swap_animator(animators: &mut Vec<AnimatorSettings>, index: usize, a: AnimatorSettings) -> (was: AnimatorSettings)
    requires
        index < old(animators)@.len(),
    ensures
        final(animators)@.map_values(|x: AnimatorSettings| x@) == old(animators)@.map_values(
            |x: AnimatorSettings| x@,
        ).update(index as int, a@),
        was@ == old(animators)@[index as int]@,
        final(animators)@.len() == old(animators)@.len(),
{
    let was = animators.remove(index);
    animators.insert(index, a);
    assert(animators@.map_values(|x: AnimatorSettings| x@) =~= old(animators)@.map_values(
        |x: AnimatorSettings| x@,
    ).update(index as int, a@));
    was
}


fn is_transition_key(key: PropertyKey) -> (r: bool)
    ensures
        r == transition_key(key),
{
    matches!(key, PropertyKey::TransitionProperty | PropertyKey::TransitionDuration
        | PropertyKey::TransitionDelay | PropertyKey::TransitionTimingFunction)
}

fn is_animation_key(key: PropertyKey) -> (r: bool)
    ensures
        r == animation_key(key),
{
    matches!(key, PropertyKey::AnimationName | PropertyKey::AnimationDelay
        | PropertyKey::AnimationDuration | PropertyKey::AnimationDirection
        | PropertyKey::AnimationFillMode | PropertyKey::AnimationPlayState
        | PropertyKey::AnimationIterationCount | PropertyKey::AnimationTimingFunction)
}

/// Sets the transition at `index` from a value of a transition property.
#[verifier::rlimit(40)]
fn apply_transition(key: PropertyKey, index: usize, value: &ComputedValue, transitions: &mut Vec<TransitionSettings>) -> (r: Result<(), CascadeError>)
    requires
        transition_key(key),
        index < usize::MAX,
    ensures
        ({
            let before = old(transitions)@.map_values(|t: TransitionSettings| t@);
            let slots = filled(before, index as nat, initial_transition());
            match transition_applied(slots[index as int], key, value@) {
                Ok(t) => r is Ok && final(transitions)@.map_values(|t: TransitionSettings| t@)
                    == slots.update(index as int, t),
                Err(e) => r matches Err(x) && x@ == e && final(transitions)@.map_values(
                    |t: TransitionSettings| t@,
                ) == before,
            }
        }),
{
    // the value is read before any slot is added
    let mut property: Option<PropertyKey> = None;
    let mut time = Decimal { negative: false, mantissa: 0, scale: 0 };
    let mut timing = TimingFunction::Linear;
    match key {
        PropertyKey::TransitionProperty => match value {
            ComputedValue::Keyword(name) => match PropertyKey::parse(name.as_str()) {
                Some(p) => property = Some(p),
                None => return CascadeError::invalid_keyword(name.as_str()),
            },
            _ => return Err(CascadeError::PropertyNotSupported),
        },
        PropertyKey::TransitionDuration | PropertyKey::TransitionDelay => match value {
            ComputedValue::Time(d) => time = *d,
            _ => return Err(CascadeError::PropertyNotSupported),
        },
        _ => match resolve_timing(value) {
            Ok(f) => timing = f,
            Err(e) => return Err(e),
        },
    }
    fill_transitions(transitions, index);
    let ghost slots = transitions@.map_values(|t: TransitionSettings| t@);
    let mut t = swap_transition(transitions, index, TransitionSettings::new());
    match key {
        PropertyKey::TransitionProperty => t.key = property,
        PropertyKey::TransitionDuration => t.animator.duration = time,
        PropertyKey::TransitionDelay => t.animator.delay = time,
        _ => t.animator.timing = timing,
    }
    assert(transition_applied(slots[index as int], key, value@) == Ok::<TransitionSettingsV, CascadeErrorV>(t@));
    swap_transition(transitions, index, t);
    assert(slots.update(index as int, initial_transition()).update(index as int, t@) =~= slots.update(index as int, t@));
    Ok(())
}

/// Sets the animation at `index` from a value of an animation property.
#[verifier::rlimit(40)]
fn apply_animation(key: PropertyKey, index: usize, value: &ComputedValue, animators: &mut Vec<AnimatorSettings>) -> (r: Result<(), CascadeError>)
    requires
        animation_key(key),
        index < usize::MAX,
    ensures
        ({
            let before = old(animators)@.map_values(|a: AnimatorSettings| a@);
            let slots = filled(before, index as nat, initial_animator());
            match animator_applied(slots[index as int], key, value@) {
                Ok(a) => r is Ok && final(animators)@.map_values(|a: AnimatorSettings| a@)
                    == slots.update(index as int, a),
                Err(e) => r matches Err(x) && x@ == e && final(animators)@.map_values(
                    |a: AnimatorSettings| a@,
                ) == before,
            }
        }),
{
    // the value is read before any slot is added
    let mut name = String::new();
    let mut time = Decimal { negative: false, mantissa: 0, scale: 0 };
    let mut direction = AnimationDirection::Normal;
    let mut fill_mode = AnimationFillMode::NoFill;
    let mut running = true;
    let mut iterations = AnimationIterations::Infinite;
    let mut timing = TimingFunction::Linear;
    match key {
        PropertyKey::AnimationName => match value {
            ComputedValue::Keyword(k) => name = k.clone(),
            _ => return Err(CascadeError::PropertyNotSupported),
        },
        PropertyKey::AnimationDelay | PropertyKey::AnimationDuration => match value {
            ComputedValue::Time(d) => time = *d,
            _ => return Err(CascadeError::PropertyNotSupported),
        },
        PropertyKey::AnimationDirection | PropertyKey::AnimationFillMode
        | PropertyKey::AnimationPlayState => {
            let k = match value {
                ComputedValue::Keyword(k) => k.as_str(),
                _ => return Err(CascadeError::PropertyNotSupported),
            };
            match key {
                PropertyKey::AnimationDirection => match resolve_animation_direction(k) {
                    Ok(d) => direction = d,
                    Err(e) => return Err(e),
                },
                PropertyKey::AnimationFillMode => match resolve_animation_fill_mode(k) {
                    Ok(f) => fill_mode = f,
                    Err(e) => return Err(e),
                },
                _ => match resolve_play_state(k) {
                    Ok(p) => running = p,
                    Err(e) => return Err(e),
                },
            }
        },
        PropertyKey::AnimationIterationCount => match resolve_iterations(value) {
            Ok(i) => iterations = i,
            Err(e) => return Err(e),
        },
        _ => match resolve_timing(value) {
            Ok(f) => timing = f,
            Err(e) => return Err(e),
        },
    }
    fill_animators(animators, index);
    let ghost slots = animators@.map_values(|a: AnimatorSettings| a@);
    let mut a = swap_animator(animators, index, AnimatorSettings::new());
    match key {
        PropertyKey::AnimationName => a.name = name,
        PropertyKey::AnimationDelay => a.delay = time,
        PropertyKey::AnimationDuration => a.duration = time,
        PropertyKey::AnimationDirection => a.direction = direction,
        PropertyKey::AnimationFillMode => a.fill_mode = fill_mode,
        PropertyKey::AnimationPlayState => a.running = running,
        PropertyKey::AnimationIterationCount => a.iterations = iterations,
        _ => a.timing = timing,
    }
    assert(animator_applied(slots[index as int], key, value@) == Ok::<AnimatorSettingsV, CascadeErrorV>(a@));
    swap_animator(animators, index, a);
    assert(slots.update(index as int, initial_animator()).update(index as int, a@) =~= slots.update(index as int, a@));
    Ok(())
}

/// Applies the value `value` of the property `key`, at position `index` of the
/// property's list, to the style of an element. A property that takes no such value,
/// or that this step does not apply (a shorthand, for one), gives an error and leaves
/// the style as it was.
pub fn apply(key: PropertyKey, index: usize, value: &ComputedValue, style: &mut ElementStyle) -> (r: Result<(), CascadeError>)
    requires
        transition_key(key) || animation_key(key) ==> index < usize::MAX,
    ensures
        match applied(old(style)@, key, index as nat, value@) {
            Ok(s) => r is Ok && final(style)@ == s,
            Err(e) => r matches Err(x) && x@ == e && final(style)@ == old(style)@,
        },
{
    if is_look_key(key) {
        apply_look(key, value, &mut style.look)
    } else if is_box_extent_key(key) {
        apply_box_extent(key, value, &mut style.boxes)
    } else if is_box_keyword_key(key) {
        apply_box_keyword(key, value, &mut style.boxes)
    } else if is_transition_key(key) {
        apply_transition(key, index, value, &mut style.transitions)
    } else if is_animation_key(key) {
        apply_animation(key, index, value, &mut style.animators)
    } else {
        Err(CascadeError::PropertyNotSupported)
    }
}


pub open spec fn all_sides(x: Extent) -> Sides {
    Sides { top: x, right: x, bottom: x, left: x }
}

/// The look of an element that no style has touched: transparent background, black
/// text in a 16px `system-ui` font of weight 400, no borders.
pub open spec fn initial_look() -> LookV {
    LookV {
        background_color: seq![0u8, 0u8, 0u8, 0u8],
        color: seq![0u8, 0u8, 0u8, 255u8],
        font_size: Extent::Length(Dim { value: Decimal { negative: false, mantissa: 16, scale: 0 }, unit: crate::css::Units::Px }),
        font_weight: 400,
        font_family: seq!['s', 'y', 's', 't', 'e', 'm', '-', 'u', 'i'],
        font_style: seq!['n', 'o', 'r', 'm', 'a', 'l'],
        text_align: TextAlign::Start,
        pointer_events: PointerEvents::Auto,
        border_widths: all_sides(Extent::Zero),
        border_top_color: seq![0u8, 0u8, 0u8, 0u8],
        border_right_color: seq![0u8, 0u8, 0u8, 0u8],
        border_bottom_color: seq![0u8, 0u8, 0u8, 0u8],
        border_left_color: seq![0u8, 0u8, 0u8, 0u8],
        radii: Corners { top_left: Extent::Zero, top_right: Extent::Zero, bottom_right: Extent::Zero, bottom_left: Extent::Zero },
    }
}

/// The box of an element that no style has touched: a block, positioned relatively,
/// sized automatically, with no margin, padding or gap, and a flex row that does not
/// wrap, grows by 0 and shrinks by 1.
pub open spec fn initial_box() -> BoxStyle {
    BoxStyle {
        display: Display::Block,
        overflow_x: Overflow::Visible,
        overflow_y: Overflow::Visible,
        position: Position::Relative,
        inset: all_sides(Extent::Auto),
        margin: all_sides(Extent::Zero),
        padding: all_sides(Extent::Zero),
        width: Extent::Auto,
        height: Extent::Auto,
        min_width: Extent::Auto,
        min_height: Extent::Auto,
        max_width: Extent::Auto,
        max_height: Extent::Auto,
        column_gap: Extent::Zero,
        row_gap: Extent::Zero,
        align_items: None,
        align_self: None,
        justify_items: None,
        justify_self: None,
        align_content: None,
        justify_content: None,
        flex_direction: FlexDirection::Row,
        flex_wrap: FlexWrap::NoWrap,
        flex_grow: decimal_zero(),
        flex_shrink: decimal_one(),
        flex_basis: Extent::Auto,
    }
}

pub open spec fn initial_style() -> ElementStyleV {
    ElementStyleV {
        look: initial_look(),
        boxes: initial_box(),
        transitions: Seq::empty(),
        animators: Seq::empty(),
    }
}

impl ElementStyle {
    /// The style of an element that no style sheet has touched yet.
    pub fn new() -> (s: Self)
        ensures
            s@ == initial_style(),
    {
        let zero = Extent::Zero;
        let auto = Extent::Auto;
        let look = Look {
            background_color: [0, 0, 0, 0],
            color: [0, 0, 0, 255],
            font_size: Extent::Length(Dim { value: Decimal { negative: false, mantissa: 16, scale: 0 }, unit: crate::css::Units::Px }),
            font_weight: 400,
            font_family: "system-ui".to_string(),
            font_style: "normal".to_string(),
            text_align: TextAlign::Start,
            pointer_events: PointerEvents::Auto,
            border_widths: Sides { top: zero, right: zero, bottom: zero, left: zero },
            border_top_color: [0, 0, 0, 0],
            border_right_color: [0, 0, 0, 0],
            border_bottom_color: [0, 0, 0, 0],
            border_left_color: [0, 0, 0, 0],
            radii: Corners { top_left: zero, top_right: zero, bottom_right: zero, bottom_left: zero },
        };
        let boxes = BoxStyle {
            display: Display::Block,
            overflow_x: Overflow::Visible,
            overflow_y: Overflow::Visible,
            position: Position::Relative,
            inset: Sides { top: auto, right: auto, bottom: auto, left: auto },
            margin: Sides { top: zero, right: zero, bottom: zero, left: zero },
            padding: Sides { top: zero, right: zero, bottom: zero, left: zero },
            width: auto,
            height: auto,
            min_width: auto,
            min_height: auto,
            max_width: auto,
            max_height: auto,
            column_gap: zero,
            row_gap: zero,
            align_items: None,
            align_self: None,
            justify_items: None,
            justify_self: None,
            align_content: None,
            justify_content: None,
            flex_direction: FlexDirection::Row,
            flex_wrap: FlexWrap::NoWrap,
            flex_grow: Decimal { negative: false, mantissa: 0, scale: 0 },
            flex_shrink: Decimal { negative: false, mantissa: 1, scale: 0 },
            flex_basis: auto,
        };
        let s = ElementStyle { look, boxes, transitions: Vec::new(), animators: Vec::new() };
        proof {
            reveal_strlit("system-ui");
            reveal_strlit("normal");
        }
        assert(s.look.background_color@ =~= seq![0u8, 0u8, 0u8, 0u8]);
        assert(s.look.color@ =~= seq![0u8, 0u8, 0u8, 255u8]);
        assert(s.look.border_top_color@ =~= seq![0u8, 0u8, 0u8, 0u8]);
        assert(s.look.border_right_color@ =~= seq![0u8, 0u8, 0u8, 0u8]);
        assert(s.look.border_bottom_color@ =~= seq![0u8, 0u8, 0u8, 0u8]);
        assert(s.look.border_left_color@ =~= seq![0u8, 0u8, 0u8, 0u8]);
        assert(s.look.font_family@ =~= seq!['s', 'y', 's', 't', 'e', 'm', '-', 'u', 'i']);
        assert(s.look.font_style@ =~= seq!['n', 'o', 'r', 'm', 'a', 'l']);
        assert(s@.transitions =~= Seq::<TransitionSettingsV>::empty());
        assert(s@.animators =~= Seq::<AnimatorSettingsV>::empty());
        s
    }
}


/// Whether a property with this descriptor can be applied: the slot of a transition or an
/// animation at its index can be added.
pub open spec fn slot_fits(d: PropertyDescriptor) -> bool {
    transition_key(d.key) || animation_key(d.key) ==> d.index < usize::MAX
}

/// The style after applying the values one after another, and how many of them applied
/// and how many failed (a failed value leaves the style as it was).
pub open spec fn applied_all(s: ElementStyleV, entries: Seq<(PropertyDescriptor, ComputedValueV)>) -> (ElementStyleV, nat, nat)
    decreases entries.len(),
{
    if entries.len() == 0 {
        (s, 0, 0)
    } else {
        let (t, ok, failed) = applied_all(s, entries.drop_last());
        let e = entries.last();
        match applied(t, e.0.key, e.0.index as nat, e.1) {
            Ok(u) => (u, ok + 1, failed),
            Err(_) => (t, ok, failed + 1),
        }
    }
}

/// Applying a value changes only the part of the style that its property names: the look,
/// the box, or the transition or animation at its index (after adding the slots up to it).
pub proof fn law_apply_changes_one_part(s: ElementStyleV, key: PropertyKey, index: nat, v: ComputedValueV)
    ensures
        applied(s, key, index, v) matches Ok(t) ==> {
            &&& look_key(key) ==> t.boxes == s.boxes && t.transitions == s.transitions && t.animators == s.animators
            &&& box_key(key) ==> t.look == s.look && t.transitions == s.transitions && t.animators == s.animators
            &&& transition_key(key) ==> t.look == s.look && t.boxes == s.boxes && t.animators == s.animators
                && t.transitions.len() == if index < s.transitions.len() { s.transitions.len() } else { index + 1 }
                && forall|i: int| 0 <= i < s.transitions.len() && i != index ==> #[trigger] t.transitions[i] == s.transitions[i]
            &&& animation_key(key) ==> t.look == s.look && t.boxes == s.boxes && t.transitions == s.transitions
                && t.animators.len() == if index < s.animators.len() { s.animators.len() } else { index + 1 }
                && forall|i: int| 0 <= i < s.animators.len() && i != index ==> #[trigger] t.animators[i] == s.animators[i]
        },
{
}


proof fn lemma_look_twice(l: LookV, key: PropertyKey, v: ComputedValueV)
    ensures
        look_applied(l, key, v) matches Ok(m) ==> look_applied(m, key, v) == Ok::<LookV, CascadeErrorV>(m),
{
}

proof fn lemma_box_twice(b: BoxStyle, key: PropertyKey, v: ComputedValueV)
    ensures
        box_applied(b, key, v) matches Ok(c) ==> box_applied(c, key, v) == Ok::<BoxStyle, CascadeErrorV>(c),
{
}

proof fn lemma_transition_twice(t: TransitionSettingsV, key: PropertyKey, v: ComputedValueV)
    ensures
        transition_applied(t, key, v) matches Ok(u) ==> transition_applied(u, key, v) == Ok::<TransitionSettingsV, CascadeErrorV>(u),
{
}

proof fn lemma_animator_twice(a: AnimatorSettingsV, key: PropertyKey, v: ComputedValueV)
    ensures
        animator_applied(a, key, v) matches Ok(c) ==> animator_applied(c, key, v) == Ok::<AnimatorSettingsV, CascadeErrorV>(c),
{
}

/// Applying the same value a second time changes nothing more.
pub proof fn law_apply_twice_is_apply_once(s: ElementStyleV, key: PropertyKey, index: nat, v: ComputedValueV)
    ensures
        applied(s, key, index, v) matches Ok(t) ==> applied(t, key, index, v) == Ok::<ElementStyleV, CascadeErrorV>(t),
{
    if let Ok(t) = applied(s, key, index, v) {
        if look_key(key) {
            lemma_look_twice(s.look, key, v);
        } else if box_key(key) {
            lemma_box_twice(s.boxes, key, v);
        } else if transition_key(key) {
            let slots = filled(s.transitions, index, initial_transition());
            lemma_transition_twice(slots[index as int], key, v);
            assert(filled(t.transitions, index, initial_transition()) == t.transitions);
            assert(t.transitions.update(index as int, t.transitions[index as int]) =~= t.transitions);
        } else if animation_key(key) {
            let slots = filled(s.animators, index, initial_animator());
            lemma_animator_twice(slots[index as int], key, v);
            assert(filled(t.animators, index, initial_animator()) == t.animators);
            assert(t.animators.update(index as int, t.animators[index as int]) =~= t.animators);
        }
    }
}


/// Whether the extent is the length that a value writes: zero, a length with its unit,
/// a number, a percentage, or `auto` for a keyword.
pub open spec fn denotes(e: Extent, v: ComputedValueV) -> bool {
    match v {
        ComputedValueV::Zero => e == Extent::Zero,
        ComputedValueV::Dimension(d) => e == Extent::Length(d),
        ComputedValueV::Number(n) => e == Extent::Number(n),
        ComputedValueV::Percentage(p) => e == Extent::Percent(p),
        ComputedValueV::Keyword(k) => e == Extent::Auto && k == seq!['a', 'u', 't', 'o'],
        _ => false,
    }
}

/// A margin property sets its own side of the margin to the length that its value denotes, and nothing else; a length with a unit is always taken.
pub proof fn law_margins_set_their_own_side(s: ElementStyleV, index: nat, v: ComputedValueV, d: Dim)
    ensures
        (applied(s, PropertyKey::MarginTop, index, v) matches Ok(t) ==> t.boxes == (BoxStyle { margin: (Sides { top: t.boxes.margin.top, ..s.boxes.margin }), ..s.boxes }) && denotes(t.boxes.margin.top, v) && t.look == s.look && t.transitions == s.transitions && t.animators == s.animators),
        (applied(s, PropertyKey::MarginTop, index, ComputedValueV::Dimension(d)) is Ok),
        (applied(s, PropertyKey::MarginRight, index, v) matches Ok(t) ==> t.boxes == (BoxStyle { margin: (Sides { right: t.boxes.margin.right, ..s.boxes.margin }), ..s.boxes }) && denotes(t.boxes.margin.right, v) && t.look == s.look && t.transitions == s.transitions && t.animators == s.animators),
        (applied(s, PropertyKey::MarginRight, index, ComputedValueV::Dimension(d)) is Ok),
        (applied(s, PropertyKey::MarginBottom, index, v) matches Ok(t) ==> t.boxes == (BoxStyle { margin: (Sides { bottom: t.boxes.margin.bottom, ..s.boxes.margin }), ..s.boxes }) && denotes(t.boxes.margin.bottom, v) && t.look == s.look && t.transitions == s.transitions && t.animators == s.animators),
        (applied(s, PropertyKey::MarginBottom, index, ComputedValueV::Dimension(d)) is Ok),
        (applied(s, PropertyKey::MarginLeft, index, v) matches Ok(t) ==> t.boxes == (BoxStyle { margin: (Sides { left: t.boxes.margin.left, ..s.boxes.margin }), ..s.boxes }) && denotes(t.boxes.margin.left, v) && t.look == s.look && t.transitions == s.transitions && t.animators == s.animators),
        (applied(s, PropertyKey::MarginLeft, index, ComputedValueV::Dimension(d)) is Ok),
{
}

/// A padding property sets its own side of the padding to the length that its value denotes, and nothing else; a length with a unit is always taken.
pub proof fn law_paddings_set_their_own_side(s: ElementStyleV, index: nat, v: ComputedValueV, d: Dim)
    ensures
        (applied(s, PropertyKey::PaddingTop, index, v) matches Ok(t) ==> t.boxes == (BoxStyle { padding: (Sides { top: t.boxes.padding.top, ..s.boxes.padding }), ..s.boxes }) && denotes(t.boxes.padding.top, v) && t.look == s.look && t.transitions == s.transitions && t.animators == s.animators),
        (applied(s, PropertyKey::PaddingTop, index, ComputedValueV::Dimension(d)) is Ok),
        (applied(s, PropertyKey::PaddingRight, index, v) matches Ok(t) ==> t.boxes == (BoxStyle { padding: (Sides { right: t.boxes.padding.right, ..s.boxes.padding }), ..s.boxes }) && denotes(t.boxes.padding.right, v) && t.look == s.look && t.transitions == s.transitions && t.animators == s.animators),
        (applied(s, PropertyKey::PaddingRight, index, ComputedValueV::Dimension(d)) is Ok),
        (applied(s, PropertyKey::PaddingBottom, index, v) matches Ok(t) ==> t.boxes == (BoxStyle { padding: (Sides { bottom: t.boxes.padding.bottom, ..s.boxes.padding }), ..s.boxes }) && denotes(t.boxes.padding.bottom, v) && t.look == s.look && t.transitions == s.transitions && t.animators == s.animators),
        (applied(s, PropertyKey::PaddingBottom, index, ComputedValueV::Dimension(d)) is Ok),
        (applied(s, PropertyKey::PaddingLeft, index, v) matches Ok(t) ==> t.boxes == (BoxStyle { padding: (Sides { left: t.boxes.padding.left, ..s.boxes.padding }), ..s.boxes }) && denotes(t.boxes.padding.left, v) && t.look == s.look && t.transitions == s.transitions && t.animators == s.animators),
        (applied(s, PropertyKey::PaddingLeft, index, ComputedValueV::Dimension(d)) is Ok),
{
}

/// An inset property (`top`, `right`, `bottom`, `left`) sets its own side of the inset to the length that its value denotes, and nothing else; a length with a unit is always taken.
pub proof fn law_insets_set_their_own_side(s: ElementStyleV, index: nat, v: ComputedValueV, d: Dim)
    ensures
        (applied(s, PropertyKey::Top, index, v) matches Ok(t) ==> t.boxes == (BoxStyle { inset: (Sides { top: t.boxes.inset.top, ..s.boxes.inset }), ..s.boxes }) && denotes(t.boxes.inset.top, v) && t.look == s.look && t.transitions == s.transitions && t.animators == s.animators),
        (applied(s, PropertyKey::Top, index, ComputedValueV::Dimension(d)) is Ok),
        (applied(s, PropertyKey::Right, index, v) matches Ok(t) ==> t.boxes == (BoxStyle { inset: (Sides { right: t.boxes.inset.right, ..s.boxes.inset }), ..s.boxes }) && denotes(t.boxes.inset.right, v) && t.look == s.look && t.transitions == s.transitions && t.animators == s.animators),
        (applied(s, PropertyKey::Right, index, ComputedValueV::Dimension(d)) is Ok),
        (applied(s, PropertyKey::Bottom, index, v) matches Ok(t) ==> t.boxes == (BoxStyle { inset: (Sides { bottom: t.boxes.inset.bottom, ..s.boxes.inset }), ..s.boxes }) && denotes(t.boxes.inset.bottom, v) && t.look == s.look && t.transitions == s.transitions && t.animators == s.animators),
        (applied(s, PropertyKey::Bottom, index, ComputedValueV::Dimension(d)) is Ok),
        (applied(s, PropertyKey::Left, index, v) matches Ok(t) ==> t.boxes == (BoxStyle { inset: (Sides { left: t.boxes.inset.left, ..s.boxes.inset }), ..s.boxes }) && denotes(t.boxes.inset.left, v) && t.look == s.look && t.transitions == s.transitions && t.animators == s.animators),
        (applied(s, PropertyKey::Left, index, ComputedValueV::Dimension(d)) is Ok),
{
}

/// A size property (width, height, their minimum and maximum, the flex basis, the gaps) sets its own size to the length that its value denotes, and nothing else; a length with a unit is always taken.
pub proof fn law_sizes_set_their_own_size(s: ElementStyleV, index: nat, v: ComputedValueV, d: Dim)
    ensures
        (applied(s, PropertyKey::Width, index, v) matches Ok(t) ==> t.boxes == (BoxStyle { width: t.boxes.width, ..s.boxes }) && denotes(t.boxes.width, v) && t.look == s.look && t.transitions == s.transitions && t.animators == s.animators),
        (applied(s, PropertyKey::Width, index, ComputedValueV::Dimension(d)) is Ok),
        (applied(s, PropertyKey::Height, index, v) matches Ok(t) ==> t.boxes == (BoxStyle { height: t.boxes.height, ..s.boxes }) && denotes(t.boxes.height, v) && t.look == s.look && t.transitions == s.transitions && t.animators == s.animators),
        (applied(s, PropertyKey::Height, index, ComputedValueV::Dimension(d)) is Ok),
        (applied(s, PropertyKey::MinWidth, index, v) matches Ok(t) ==> t.boxes == (BoxStyle { min_width: t.boxes.min_width, ..s.boxes }) && denotes(t.boxes.min_width, v) && t.look == s.look && t.transitions == s.transitions && t.animators == s.animators),
        (applied(s, PropertyKey::MinWidth, index, ComputedValueV::Dimension(d)) is Ok),
        (applied(s, PropertyKey::MinHeight, index, v) matches Ok(t) ==> t.boxes == (BoxStyle { min_height: t.boxes.min_height, ..s.boxes }) && denotes(t.boxes.min_height, v) && t.look == s.look && t.transitions == s.transitions && t.animators == s.animators),
        (applied(s, PropertyKey::MinHeight, index, ComputedValueV::Dimension(d)) is Ok),
        (applied(s, PropertyKey::MaxWidth, index, v) matches Ok(t) ==> t.boxes == (BoxStyle { max_width: t.boxes.max_width, ..s.boxes }) && denotes(t.boxes.max_width, v) && t.look == s.look && t.transitions == s.transitions && t.animators == s.animators),
        (applied(s, PropertyKey::MaxWidth, index, ComputedValueV::Dimension(d)) is Ok),
        (applied(s, PropertyKey::MaxHeight, index, v) matches Ok(t) ==> t.boxes == (BoxStyle { max_height: t.boxes.max_height, ..s.boxes }) && denotes(t.boxes.max_height, v) && t.look == s.look && t.transitions == s.transitions && t.animators == s.animators),
        (applied(s, PropertyKey::MaxHeight, index, ComputedValueV::Dimension(d)) is Ok),
        (applied(s, PropertyKey::FlexBasis, index, v) matches Ok(t) ==> t.boxes == (BoxStyle { flex_basis: t.boxes.flex_basis, ..s.boxes }) && denotes(t.boxes.flex_basis, v) && t.look == s.look && t.transitions == s.transitions && t.animators == s.animators),
        (applied(s, PropertyKey::FlexBasis, index, ComputedValueV::Dimension(d)) is Ok),
        (applied(s, PropertyKey::ColumnGap, index, v) matches Ok(t) ==> t.boxes == (BoxStyle { column_gap: t.boxes.column_gap, ..s.boxes }) && denotes(t.boxes.column_gap, v) && t.look == s.look && t.transitions == s.transitions && t.animators == s.animators),
        (applied(s, PropertyKey::ColumnGap, index, ComputedValueV::Dimension(d)) is Ok),
        (applied(s, PropertyKey::RowGap, index, v) matches Ok(t) ==> t.boxes == (BoxStyle { row_gap: t.boxes.row_gap, ..s.boxes }) && denotes(t.boxes.row_gap, v) && t.look == s.look && t.transitions == s.transitions && t.animators == s.animators),
        (applied(s, PropertyKey::RowGap, index, ComputedValueV::Dimension(d)) is Ok),
{
}

/// A keyword or number property of the box sets its own field, to what its keyword names or to its number, and nothing else.
pub proof fn law_box_keywords_set_their_own_field(s: ElementStyleV, index: nat, v: ComputedValueV, n: Decimal)
    ensures
        (applied(s, PropertyKey::Display, index, v) matches Ok(t) ==> t.boxes == (BoxStyle { display: t.boxes.display, ..s.boxes }) && v is Keyword && Some(t.boxes.display) == display_of(v->Keyword_0) && t.look == s.look && t.transitions == s.transitions && t.animators == s.animators),
        (applied(s, PropertyKey::OverflowX, index, v) matches Ok(t) ==> t.boxes == (BoxStyle { overflow_x: t.boxes.overflow_x, ..s.boxes }) && v is Keyword && Some(t.boxes.overflow_x) == overflow_of(v->Keyword_0) && t.look == s.look && t.transitions == s.transitions && t.animators == s.animators),
        (applied(s, PropertyKey::OverflowY, index, v) matches Ok(t) ==> t.boxes == (BoxStyle { overflow_y: t.boxes.overflow_y, ..s.boxes }) && v is Keyword && Some(t.boxes.overflow_y) == overflow_of(v->Keyword_0) && t.look == s.look && t.transitions == s.transitions && t.animators == s.animators),
        (applied(s, PropertyKey::Position, index, v) matches Ok(t) ==> t.boxes == (BoxStyle { position: t.boxes.position, ..s.boxes }) && v is Keyword && Some(t.boxes.position) == position_of(v->Keyword_0) && t.look == s.look && t.transitions == s.transitions && t.animators == s.animators),
        (applied(s, PropertyKey::AlignContent, index, v) matches Ok(t) ==> t.boxes == (BoxStyle { align_content: t.boxes.align_content, ..s.boxes }) && v is Keyword && Some(t.boxes.align_content) == align_content_of(v->Keyword_0) && t.look == s.look && t.transitions == s.transitions && t.animators == s.animators),
        (applied(s, PropertyKey::JustifyContent, index, v) matches Ok(t) ==> t.boxes == (BoxStyle { justify_content: t.boxes.justify_content, ..s.boxes }) && v is Keyword && Some(t.boxes.justify_content) == align_content_of(v->Keyword_0) && t.look == s.look && t.transitions == s.transitions && t.animators == s.animators),
        (applied(s, PropertyKey::AlignItems, index, v) matches Ok(t) ==> t.boxes == (BoxStyle { align_items: t.boxes.align_items, ..s.boxes }) && v is Keyword && Some(t.boxes.align_items) == align_items_of(v->Keyword_0) && t.look == s.look && t.transitions == s.transitions && t.animators == s.animators),
        (applied(s, PropertyKey::AlignSelf, index, v) matches Ok(t) ==> t.boxes == (BoxStyle { align_self: t.boxes.align_self, ..s.boxes }) && v is Keyword && Some(t.boxes.align_self) == align_items_of(v->Keyword_0) && t.look == s.look && t.transitions == s.transitions && t.animators == s.animators),
        (applied(s, PropertyKey::JustifyItems, index, v) matches Ok(t) ==> t.boxes == (BoxStyle { justify_items: t.boxes.justify_items, ..s.boxes }) && v is Keyword && Some(t.boxes.justify_items) == align_items_of(v->Keyword_0) && t.look == s.look && t.transitions == s.transitions && t.animators == s.animators),
        (applied(s, PropertyKey::JustifySelf, index, v) matches Ok(t) ==> t.boxes == (BoxStyle { justify_self: t.boxes.justify_self, ..s.boxes }) && v is Keyword && Some(t.boxes.justify_self) == align_items_of(v->Keyword_0) && t.look == s.look && t.transitions == s.transitions && t.animators == s.animators),
        (applied(s, PropertyKey::FlexDirection, index, v) matches Ok(t) ==> t.boxes == (BoxStyle { flex_direction: t.boxes.flex_direction, ..s.boxes }) && v is Keyword && Some(t.boxes.flex_direction) == flex_direction_of(v->Keyword_0) && t.look == s.look && t.transitions == s.transitions && t.animators == s.animators),
        (applied(s, PropertyKey::FlexWrap, index, v) matches Ok(t) ==> t.boxes == (BoxStyle { flex_wrap: t.boxes.flex_wrap, ..s.boxes }) && v is Keyword && Some(t.boxes.flex_wrap) == flex_wrap_of(v->Keyword_0) && t.look == s.look && t.transitions == s.transitions && t.animators == s.animators),
        (applied(s, PropertyKey::FlexGrow, index, v) matches Ok(t) ==> t.boxes == (BoxStyle { flex_grow: t.boxes.flex_grow, ..s.boxes }) && v is Number && t.boxes.flex_grow == v->Number_0 && t.look == s.look && t.transitions == s.transitions && t.animators == s.animators),
        (applied(s, PropertyKey::FlexGrow, index, ComputedValueV::Number(n)) is Ok),
        (applied(s, PropertyKey::FlexShrink, index, v) matches Ok(t) ==> t.boxes == (BoxStyle { flex_shrink: t.boxes.flex_shrink, ..s.boxes }) && v is Number && t.boxes.flex_shrink == v->Number_0 && t.look == s.look && t.transitions == s.transitions && t.animators == s.animators),
        (applied(s, PropertyKey::FlexShrink, index, ComputedValueV::Number(n)) is Ok),
{
}

/// A color property sets its own color, to the color that its value gives, and nothing else; a color value is always taken.
pub proof fn law_colors_set_their_own_color(s: ElementStyleV, index: nat, v: ComputedValueV, c: Seq<u8>)
    ensures
        (applied(s, PropertyKey::BackgroundColor, index, v) matches Ok(t) ==> t.look == (LookV { background_color: t.look.background_color, ..s.look }) && (v is Color ==> t.look.background_color == v->Color_0) && t.boxes == s.boxes && t.transitions == s.transitions && t.animators == s.animators),
        (applied(s, PropertyKey::BackgroundColor, index, ComputedValueV::Color(c)) is Ok),
        (applied(s, PropertyKey::Color, index, v) matches Ok(t) ==> t.look == (LookV { color: t.look.color, ..s.look }) && (v is Color ==> t.look.color == v->Color_0) && t.boxes == s.boxes && t.transitions == s.transitions && t.animators == s.animators),
        (applied(s, PropertyKey::Color, index, ComputedValueV::Color(c)) is Ok),
        (applied(s, PropertyKey::BorderTopColor, index, v) matches Ok(t) ==> t.look == (LookV { border_top_color: t.look.border_top_color, ..s.look }) && (v is Color ==> t.look.border_top_color == v->Color_0) && t.boxes == s.boxes && t.transitions == s.transitions && t.animators == s.animators),
        (applied(s, PropertyKey::BorderTopColor, index, ComputedValueV::Color(c)) is Ok),
        (applied(s, PropertyKey::BorderRightColor, index, v) matches Ok(t) ==> t.look == (LookV { border_right_color: t.look.border_right_color, ..s.look }) && (v is Color ==> t.look.border_right_color == v->Color_0) && t.boxes == s.boxes && t.transitions == s.transitions && t.animators == s.animators),
        (applied(s, PropertyKey::BorderRightColor, index, ComputedValueV::Color(c)) is Ok),
        (applied(s, PropertyKey::BorderBottomColor, index, v) matches Ok(t) ==> t.look == (LookV { border_bottom_color: t.look.border_bottom_color, ..s.look }) && (v is Color ==> t.look.border_bottom_color == v->Color_0) && t.boxes == s.boxes && t.transitions == s.transitions && t.animators == s.animators),
        (applied(s, PropertyKey::BorderBottomColor, index, ComputedValueV::Color(c)) is Ok),
        (applied(s, PropertyKey::BorderLeftColor, index, v) matches Ok(t) ==> t.look == (LookV { border_left_color: t.look.border_left_color, ..s.look }) && (v is Color ==> t.look.border_left_color == v->Color_0) && t.boxes == s.boxes && t.transitions == s.transitions && t.animators == s.animators),
        (applied(s, PropertyKey::BorderLeftColor, index, ComputedValueV::Color(c)) is Ok),
{
}

/// A property of the look (a font, a border width or radius, the alignment of text, pointer events) sets its own field, to what its value denotes, and nothing else.
pub proof fn law_look_properties_set_their_own_field(s: ElementStyleV, index: nat, v: ComputedValueV, d: Dim)
    ensures
        (applied(s, PropertyKey::FontSize, index, v) matches Ok(t) ==> t.look == (LookV { font_size: t.look.font_size, ..s.look }) && denotes(t.look.font_size, v) && t.boxes == s.boxes && t.transitions == s.transitions && t.animators == s.animators),
        (applied(s, PropertyKey::FontSize, index, ComputedValueV::Dimension(d)) is Ok),
        (applied(s, PropertyKey::BorderTopWidth, index, v) matches Ok(t) ==> t.look == (LookV { border_widths: (Sides { top: t.look.border_widths.top, ..s.look.border_widths }), ..s.look }) && denotes(t.look.border_widths.top, v) && t.boxes == s.boxes && t.transitions == s.transitions && t.animators == s.animators),
        (applied(s, PropertyKey::BorderTopWidth, index, ComputedValueV::Dimension(d)) is Ok),
        (applied(s, PropertyKey::BorderRightWidth, index, v) matches Ok(t) ==> t.look == (LookV { border_widths: (Sides { right: t.look.border_widths.right, ..s.look.border_widths }), ..s.look }) && denotes(t.look.border_widths.right, v) && t.boxes == s.boxes && t.transitions == s.transitions && t.animators == s.animators),
        (applied(s, PropertyKey::BorderRightWidth, index, ComputedValueV::Dimension(d)) is Ok),
        (applied(s, PropertyKey::BorderBottomWidth, index, v) matches Ok(t) ==> t.look == (LookV { border_widths: (Sides { bottom: t.look.border_widths.bottom, ..s.look.border_widths }), ..s.look }) && denotes(t.look.border_widths.bottom, v) && t.boxes == s.boxes && t.transitions == s.transitions && t.animators == s.animators),
        (applied(s, PropertyKey::BorderBottomWidth, index, ComputedValueV::Dimension(d)) is Ok),
        (applied(s, PropertyKey::BorderLeftWidth, index, v) matches Ok(t) ==> t.look == (LookV { border_widths: (Sides { left: t.look.border_widths.left, ..s.look.border_widths }), ..s.look }) && denotes(t.look.border_widths.left, v) && t.boxes == s.boxes && t.transitions == s.transitions && t.animators == s.animators),
        (applied(s, PropertyKey::BorderLeftWidth, index, ComputedValueV::Dimension(d)) is Ok),
        (applied(s, PropertyKey::BorderTopLeftRadius, index, v) matches Ok(t) ==> t.look == (LookV { radii: (Corners { top_left: t.look.radii.top_left, ..s.look.radii }), ..s.look }) && denotes(t.look.radii.top_left, v) && t.boxes == s.boxes && t.transitions == s.transitions && t.animators == s.animators),
        (applied(s, PropertyKey::BorderTopLeftRadius, index, ComputedValueV::Dimension(d)) is Ok),
        (applied(s, PropertyKey::BorderTopRightRadius, index, v) matches Ok(t) ==> t.look == (LookV { radii: (Corners { top_right: t.look.radii.top_right, ..s.look.radii }), ..s.look }) && denotes(t.look.radii.top_right, v) && t.boxes == s.boxes && t.transitions == s.transitions && t.animators == s.animators),
        (applied(s, PropertyKey::BorderTopRightRadius, index, ComputedValueV::Dimension(d)) is Ok),
        (applied(s, PropertyKey::BorderBottomRightRadius, index, v) matches Ok(t) ==> t.look == (LookV { radii: (Corners { bottom_right: t.look.radii.bottom_right, ..s.look.radii }), ..s.look }) && denotes(t.look.radii.bottom_right, v) && t.boxes == s.boxes && t.transitions == s.transitions && t.animators == s.animators),
        (applied(s, PropertyKey::BorderBottomRightRadius, index, ComputedValueV::Dimension(d)) is Ok),
        (applied(s, PropertyKey::BorderBottomLeftRadius, index, v) matches Ok(t) ==> t.look == (LookV { radii: (Corners { bottom_left: t.look.radii.bottom_left, ..s.look.radii }), ..s.look }) && denotes(t.look.radii.bottom_left, v) && t.boxes == s.boxes && t.transitions == s.transitions && t.animators == s.animators),
        (applied(s, PropertyKey::BorderBottomLeftRadius, index, ComputedValueV::Dimension(d)) is Ok),
        (applied(s, PropertyKey::FontStyle, index, v) matches Ok(t) ==> t.look == (LookV { font_style: t.look.font_style, ..s.look }) && v is Keyword && Some(t.look.font_style) == font_style_of(v->Keyword_0) && t.boxes == s.boxes && t.transitions == s.transitions && t.animators == s.animators),
        (applied(s, PropertyKey::TextAlign, index, v) matches Ok(t) ==> t.look == (LookV { text_align: t.look.text_align, ..s.look }) && v is Keyword && Some(t.look.text_align) == text_align_of(v->Keyword_0) && t.boxes == s.boxes && t.transitions == s.transitions && t.animators == s.animators),
        (applied(s, PropertyKey::PointerEvents, index, v) matches Ok(t) ==> t.look == (LookV { pointer_events: t.look.pointer_events, ..s.look }) && v is Keyword && Some(t.look.pointer_events) == pointer_events_of(v->Keyword_0) && t.boxes == s.boxes && t.transitions == s.transitions && t.animators == s.animators),
        (applied(s, PropertyKey::FontFamily, index, v) matches Ok(t) ==> t.look == (LookV { font_family: t.look.font_family, ..s.look }) && v is Str && t.look.font_family == v->Str_0 && t.boxes == s.boxes && t.transitions == s.transitions && t.animators == s.animators),
        (applied(s, PropertyKey::FontWeight, index, v) matches Ok(t) ==> t.look == (LookV { font_weight: t.look.font_weight, ..s.look }) && t.boxes == s.boxes && t.transitions == s.transitions && t.animators == s.animators),
{
}


/// A transition property sets its own setting of the transition at its index (added with
/// its initial settings where there was none) to what its value gives, and nothing else;
/// a time is always taken as a duration or a delay.
pub proof fn law_transition_properties_set_their_own_setting(s: ElementStyleV, index: nat, v: ComputedValueV, x: Decimal)
    ensures
        (applied(s, PropertyKey::TransitionProperty, index, v) matches Ok(t) ==> t.transitions[index as int] == (TransitionSettingsV { key: t.transitions[index as int].key, ..filled(s.transitions, index, initial_transition())[index as int] }) && v is Keyword && t.transitions[index as int].key == property_key(v->Keyword_0) && t.transitions[index as int].key is Some && t.look == s.look && t.boxes == s.boxes && t.animators == s.animators),
        (applied(s, PropertyKey::TransitionDuration, index, v) matches Ok(t) ==> t.transitions[index as int] == (TransitionSettingsV { animator: (AnimatorSettingsV { duration: t.transitions[index as int].animator.duration, ..filled(s.transitions, index, initial_transition())[index as int].animator }), ..filled(s.transitions, index, initial_transition())[index as int] }) && v is Time && t.transitions[index as int].animator.duration == v->Time_0 && t.look == s.look && t.boxes == s.boxes && t.animators == s.animators),
        (applied(s, PropertyKey::TransitionDelay, index, v) matches Ok(t) ==> t.transitions[index as int] == (TransitionSettingsV { animator: (AnimatorSettingsV { delay: t.transitions[index as int].animator.delay, ..filled(s.transitions, index, initial_transition())[index as int].animator }), ..filled(s.transitions, index, initial_transition())[index as int] }) && v is Time && t.transitions[index as int].animator.delay == v->Time_0 && t.look == s.look && t.boxes == s.boxes && t.animators == s.animators),
        (applied(s, PropertyKey::TransitionTimingFunction, index, v) matches Ok(t) ==> t.transitions[index as int] == (TransitionSettingsV { animator: (AnimatorSettingsV { timing: t.transitions[index as int].animator.timing, ..filled(s.transitions, index, initial_transition())[index as int].animator }), ..filled(s.transitions, index, initial_transition())[index as int] }) && v is Keyword && Some(t.transitions[index as int].animator.timing) == timing_of(v->Keyword_0) && t.look == s.look && t.boxes == s.boxes && t.animators == s.animators),
        (index < usize::MAX ==> (applied(s, PropertyKey::TransitionDuration, index, ComputedValueV::Time(x)) is Ok)),
        (index < usize::MAX ==> (applied(s, PropertyKey::TransitionDelay, index, ComputedValueV::Time(x)) is Ok)),
{
}

/// An animation property sets its own setting of the animation at its index (added with
/// its initial settings where there was none) to what its value gives, and nothing else;
/// a time is always taken as a duration or a delay.
pub proof fn law_animation_properties_set_their_own_setting(s: ElementStyleV, index: nat, v: ComputedValueV, x: Decimal)
    ensures
        (applied(s, PropertyKey::AnimationName, index, v) matches Ok(t) ==> t.animators[index as int] == (AnimatorSettingsV { name: t.animators[index as int].name, ..filled(s.animators, index, initial_animator())[index as int] }) && v is Keyword && t.animators[index as int].name == v->Keyword_0 && t.look == s.look && t.boxes == s.boxes && t.transitions == s.transitions),
        (applied(s, PropertyKey::AnimationDelay, index, v) matches Ok(t) ==> t.animators[index as int] == (AnimatorSettingsV { delay: t.animators[index as int].delay, ..filled(s.animators, index, initial_animator())[index as int] }) && v is Time && t.animators[index as int].delay == v->Time_0 && t.look == s.look && t.boxes == s.boxes && t.transitions == s.transitions),
        (applied(s, PropertyKey::AnimationDuration, index, v) matches Ok(t) ==> t.animators[index as int] == (AnimatorSettingsV { duration: t.animators[index as int].duration, ..filled(s.animators, index, initial_animator())[index as int] }) && v is Time && t.animators[index as int].duration == v->Time_0 && t.look == s.look && t.boxes == s.boxes && t.transitions == s.transitions),
        (applied(s, PropertyKey::AnimationDirection, index, v) matches Ok(t) ==> t.animators[index as int] == (AnimatorSettingsV { direction: t.animators[index as int].direction, ..filled(s.animators, index, initial_animator())[index as int] }) && v is Keyword && Some(t.animators[index as int].direction) == animation_direction_of(v->Keyword_0) && t.look == s.look && t.boxes == s.boxes && t.transitions == s.transitions),
        (applied(s, PropertyKey::AnimationFillMode, index, v) matches Ok(t) ==> t.animators[index as int] == (AnimatorSettingsV { fill_mode: t.animators[index as int].fill_mode, ..filled(s.animators, index, initial_animator())[index as int] }) && v is Keyword && Some(t.animators[index as int].fill_mode) == animation_fill_mode_of(v->Keyword_0) && t.look == s.look && t.boxes == s.boxes && t.transitions == s.transitions),
        (applied(s, PropertyKey::AnimationPlayState, index, v) matches Ok(t) ==> t.animators[index as int] == (AnimatorSettingsV { running: t.animators[index as int].running, ..filled(s.animators, index, initial_animator())[index as int] }) && v is Keyword && Some(t.animators[index as int].running) == play_state_of(v->Keyword_0) && t.look == s.look && t.boxes == s.boxes && t.transitions == s.transitions),
        (applied(s, PropertyKey::AnimationIterationCount, index, v) matches Ok(t) ==> t.animators[index as int] == (AnimatorSettingsV { iterations: t.animators[index as int].iterations, ..filled(s.animators, index, initial_animator())[index as int] }) && (v is Number && t.animators[index as int].iterations == AnimationIterations::Number(v->Number_0) || v is Keyword && t.animators[index as int].iterations == AnimationIterations::Infinite) && t.look == s.look && t.boxes == s.boxes && t.transitions == s.transitions),
        (applied(s, PropertyKey::AnimationTimingFunction, index, v) matches Ok(t) ==> t.animators[index as int] == (AnimatorSettingsV { timing: t.animators[index as int].timing, ..filled(s.animators, index, initial_animator())[index as int] }) && v is Keyword && Some(t.animators[index as int].timing) == timing_of(v->Keyword_0) && t.look == s.look && t.boxes == s.boxes && t.transitions == s.transitions),
        (index < usize::MAX ==> (applied(s, PropertyKey::AnimationDelay, index, ComputedValueV::Time(x)) is Ok)),
        (index < usize::MAX ==> (applied(s, PropertyKey::AnimationDuration, index, ComputedValueV::Time(x)) is Ok)),
{
}


/// `font-weight` takes a keyword (`normal` 400, `bold` 700) or a number from 1 to 1000
/// (its integer part) and sets the weight to it.
pub proof fn law_font_weight_value(s: ElementStyleV, index: nat, v: ComputedValueV)
    ensures
        (applied(s, PropertyKey::FontWeight, index, v) matches Ok(t) ==> (v is Keyword && Some(t.look.font_weight) == font_weight_keyword(v->Keyword_0))
            || (v is Number && weight_in_range(v->Number_0) && t.look.font_weight == integer_part(v->Number_0) as u16)),
{
}

} // verus!
