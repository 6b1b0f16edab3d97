//! The cascade's reading of computed values: keywords, colors, font weights and the
//! color functions.
use vstd::prelude::*;
use crate::animation::{AnimationDirection, AnimationFillMode, AnimationIterations, TimingFunction};
use crate::css::{ComputedValue, ComputedValueV};
use crate::decimal::{Decimal, integer_part, pow10, pow10_u128, lemma_small_mantissa, lemma_pow10_positive};
use crate::element::{PointerEvents, TextAlign};
use crate::lexer::slice_is;
use crate::text::chars_of;

verus! {

/// How often the cascade matched styles and applied values.
#[derive(Debug, Clone, Copy, PartialEq, Eq)]
pub struct CascadeStats {
    pub matches_static: usize,
    pub matches_dynamic: usize,
    pub apply_ok: usize,
    pub apply_error: usize,
}

impl Default for CascadeStats {
    fn default() -> (s: Self)
        ensures
            s.matches_static == 0 && s.matches_dynamic == 0 && s.apply_ok == 0 && s.apply_error == 0,
    {
        CascadeStats { matches_static: 0, matches_dynamic: 0, apply_ok: 0, apply_error: 0 }
    }
}

/// Why a value could not be applied to an element.
#[derive(Debug, PartialEq)]
pub enum CascadeError {
    PropertyNotSupported,
    DimensionUnitsNotSupported,
    ValueNotSupported,
    TransformFunctionNotSupported,
    VariableNotFound,
    InvalidKeyword(String),
}

/// A failure to apply a value, with the keyword as characters.
pub enum CascadeErrorV {
    PropertyNotSupported,
    DimensionUnitsNotSupported,
    ValueNotSupported,
    TransformFunctionNotSupported,
    VariableNotFound,
    InvalidKeyword(Seq<char>),
}

impl View for CascadeError {
    type V = CascadeErrorV;

    open spec fn view(&self) -> CascadeErrorV {
        match self {
            CascadeError::PropertyNotSupported => CascadeErrorV::PropertyNotSupported,
            CascadeError::DimensionUnitsNotSupported => CascadeErrorV::DimensionUnitsNotSupported,
            CascadeError::ValueNotSupported => CascadeErrorV::ValueNotSupported,
            CascadeError::TransformFunctionNotSupported => CascadeErrorV::TransformFunctionNotSupported,
            CascadeError::VariableNotFound => CascadeErrorV::VariableNotFound,
            CascadeError::InvalidKeyword(k) => CascadeErrorV::InvalidKeyword(k@),
        }
    }
}

impl CascadeError {
    /// The failure for a keyword that the property does not know.
    pub fn invalid_keyword<T>(keyword: &str) -> (r: Result<T, Self>)
        ensures
            r matches Err(CascadeError::InvalidKeyword(k)) && k@ == keyword@,
    {
        Err(CascadeError::InvalidKeyword(keyword.to_string()))
    }
}

/// Whether the characters of a keyword are `word`.
pub(crate) fn is_word(k: &Vec<char>, word: &[char]) -> (r: bool)
    ensures
        r == (k@ == word@),
{
    let r = slice_is(k.as_slice(), 0, k.len(), word);
    assert(k@.subrange(0, k@.len() as int) =~= k@);
    r
}

/// What a failed keyword lookup returns: the keyword itself in the error.
pub open spec fn keyword_result<T>(found: Option<T>, r: Result<T, CascadeError>, keyword: Seq<char>) -> bool {
    match found {
        Some(x) => r == Ok::<T, CascadeError>(x),
        None => r matches Err(CascadeError::InvalidKeyword(k)) && k@ == keyword,
    }
}

pub open spec fn text_align_of(k: Seq<char>) -> Option<TextAlign> {
    if k == seq!['s', 't', 'a', 'r', 't'] {
        Some(TextAlign::Start)
    } else if k == seq!['e', 'n', 'd'] {
        Some(TextAlign::End)
    } else if k == seq!['l', 'e', 'f', 't'] {
        Some(TextAlign::Left)
    } else if k == seq!['r', 'i', 'g', 'h', 't'] {
        Some(TextAlign::Right)
    } else if k == seq!['c', 'e', 'n', 't', 'e', 'r'] {
        Some(TextAlign::Center)
    } else if k == seq!['j', 'u', 's', 't', 'i', 'f', 'y'] {
        Some(TextAlign::Justify)
    } else if k == seq!['j', 'u', 's', 't', 'i', 'f', 'y', '-', 'a', 'l', 'l'] {
        Some(TextAlign::JustifyAll)
    } else if k == seq!['m', 'a', 't', 'c', 'h', '-', 'p', 'a', 'r', 'e', 'n', 't'] {
        Some(TextAlign::MatchParent)
    } else {
        None
    }
}

/// The alignment that a `text-align` keyword names.
pub fn resolve_text_align(keyword: &str) -> (r: Result<TextAlign, CascadeError>)
    ensures
        keyword_result(text_align_of(keyword@), r, keyword@),
{
    let k = chars_of(keyword);
    let start = ['s', 't', 'a', 'r', 't'];
    let end = ['e', 'n', 'd'];
    let left = ['l', 'e', 'f', 't'];
    let right = ['r', 'i', 'g', 'h', 't'];
    let center = ['c', 'e', 'n', 't', 'e', 'r'];
    let justify = ['j', 'u', 's', 't', 'i', 'f', 'y'];
    let justify_all = ['j', 'u', 's', 't', 'i', 'f', 'y', '-', 'a', 'l', 'l'];
    let match_parent = ['m', 'a', 't', 'c', 'h', '-', 'p', 'a', 'r', 'e', 'n', 't'];
    assert(start@ =~= seq!['s', 't', 'a', 'r', 't']);
    assert(end@ =~= seq!['e', 'n', 'd']);
    assert(left@ =~= seq!['l', 'e', 'f', 't']);
    assert(right@ =~= seq!['r', 'i', 'g', 'h', 't']);
    assert(center@ =~= seq!['c', 'e', 'n', 't', 'e', 'r']);
    assert(justify@ =~= seq!['j', 'u', 's', 't', 'i', 'f', 'y']);
    assert(justify_all@ =~= seq!['j', 'u', 's', 't', 'i', 'f', 'y', '-', 'a', 'l', 'l']);
    assert(match_parent@ =~= seq!['m', 'a', 't', 'c', 'h', '-', 'p', 'a', 'r', 'e', 'n', 't']);
    if is_word(&k, &start) {
        Ok(TextAlign::Start)
    } else if is_word(&k, &end) {
        Ok(TextAlign::End)
    } else if is_word(&k, &left) {
        Ok(TextAlign::Left)
    } else if is_word(&k, &right) {
        Ok(TextAlign::Right)
    } else if is_word(&k, &center) {
        Ok(TextAlign::Center)
    } else if is_word(&k, &justify) {
        Ok(TextAlign::Justify)
    } else if is_word(&k, &justify_all) {
        Ok(TextAlign::JustifyAll)
    } else if is_word(&k, &match_parent) {
        Ok(TextAlign::MatchParent)
    } else {
        CascadeError::invalid_keyword(keyword)
    }
}

pub open spec fn pointer_events_of(k: Seq<char>) -> Option<PointerEvents> {
    if k == seq!['a', 'u', 't', 'o'] {
        Some(PointerEvents::Auto)
    } else if k == seq!['n', 'o', 'n', 'e'] {
        Some(PointerEvents::Ignore)
    } else {
        None
    }
}

/// The behavior that a `pointer-events` keyword names.
pub fn resolve_pointer_events(keyword: &str) -> (r: Result<PointerEvents, CascadeError>)
    ensures
        keyword_result(pointer_events_of(keyword@), r, keyword@),
{
    let k = chars_of(keyword);
    let auto = ['a', 'u', 't', 'o'];
    let none = ['n', 'o', 'n', 'e'];
    assert(auto@ =~= seq!['a', 'u', 't', 'o']);
    assert(none@ =~= seq!['n', 'o', 'n', 'e']);
    if is_word(&k, &auto) {
        Ok(PointerEvents::Auto)
    } else if is_word(&k, &none) {
        Ok(PointerEvents::Ignore)
    } else {
        CascadeError::invalid_keyword(keyword)
    }
}

pub open spec fn animation_direction_of(k: Seq<char>) -> Option<AnimationDirection> {
    if k == seq!['n', 'o', 'r', 'm', 'a', 'l'] {
        Some(AnimationDirection::Normal)
    } else if k == seq!['r', 'e', 'v', 'e', 'r', 's', 'e'] {
        Some(AnimationDirection::Reverse)
    } else if k == seq!['a', 'l', 't', 'e', 'r', 'n', 'a', 't', 'e'] {
        Some(AnimationDirection::Alternate)
    } else if k == seq![
        'a', 'l', 't', 'e', 'r', 'n', 'a', 't', 'e', '-', 'r', 'e', 'v', 'e', 'r', 's', 'e',
    ] {
        Some(AnimationDirection::AlternateReverse)
    } else {
        None
    }
}

/// The direction that an `animation-direction` keyword names.
pub fn resolve_animation_direction(keyword: &str) -> (r: Result<AnimationDirection, CascadeError>)
    ensures
        keyword_result(animation_direction_of(keyword@), r, keyword@),
{
    let k = chars_of(keyword);
    let normal = ['n', 'o', 'r', 'm', 'a', 'l'];
    let reverse = ['r', 'e', 'v', 'e', 'r', 's', 'e'];
    let alternate = ['a', 'l', 't', 'e', 'r', 'n', 'a', 't', 'e'];
    let alternate_reverse = [
        'a', 'l', 't', 'e', 'r', 'n', 'a', 't', 'e', '-', 'r', 'e', 'v', 'e', 'r', 's', 'e',
    ];
    assert(normal@ =~= seq!['n', 'o', 'r', 'm', 'a', 'l']);
    assert(reverse@ =~= seq!['r', 'e', 'v', 'e', 'r', 's', 'e']);
    assert(alternate@ =~= seq!['a', 'l', 't', 'e', 'r', 'n', 'a', 't', 'e']);
    assert(alternate_reverse@ =~= seq![
        'a', 'l', 't', 'e', 'r', 'n', 'a', 't', 'e', '-', 'r', 'e', 'v', 'e', 'r', 's', 'e',
    ]);
    if is_word(&k, &normal) {
        Ok(AnimationDirection::Normal)
    } else if is_word(&k, &reverse) {
        Ok(AnimationDirection::Reverse)
    } else if is_word(&k, &alternate) {
        Ok(AnimationDirection::Alternate)
    } else if is_word(&k, &alternate_reverse) {
        Ok(AnimationDirection::AlternateReverse)
    } else {
        CascadeError::invalid_keyword(keyword)
    }
}

pub open spec fn animation_fill_mode_of(k: Seq<char>) -> Option<AnimationFillMode> {
    if k == seq!['n', 'o', 'n', 'e'] {
        Some(AnimationFillMode::NoFill)
    } else if k == seq!['f', 'o', 'r', 'w', 'a', 'r', 'd', 's'] {
        Some(AnimationFillMode::Forwards)
    } else if k == seq!['b', 'a', 'c', 'k', 'w', 'a', 'r', 'd', 's'] {
        Some(AnimationFillMode::Backwards)
    } else if k == seq!['b', 'o', 't', 'h'] {
        Some(AnimationFillMode::Both)
    } else {
        None
    }
}

/// The fill mode that an `animation-fill-mode` keyword names.
pub fn resolve_animation_fill_mode(keyword: &str) -> (r: Result<AnimationFillMode, CascadeError>)
    ensures
        keyword_result(animation_fill_mode_of(keyword@), r, keyword@),
{
    let k = chars_of(keyword);
    let none = ['n', 'o', 'n', 'e'];
    let forwards = ['f', 'o', 'r', 'w', 'a', 'r', 'd', 's'];
    let backwards = ['b', 'a', 'c', 'k', 'w', 'a', 'r', 'd', 's'];
    let both = ['b', 'o', 't', 'h'];
    assert(none@ =~= seq!['n', 'o', 'n', 'e']);
    assert(forwards@ =~= seq!['f', 'o', 'r', 'w', 'a', 'r', 'd', 's']);
    assert(backwards@ =~= seq!['b', 'a', 'c', 'k', 'w', 'a', 'r', 'd', 's']);
    assert(both@ =~= seq!['b', 'o', 't', 'h']);
    if is_word(&k, &none) {
        Ok(AnimationFillMode::NoFill)
    } else if is_word(&k, &forwards) {
        Ok(AnimationFillMode::Forwards)
    } else if is_word(&k, &backwards) {
        Ok(AnimationFillMode::Backwards)
    } else if is_word(&k, &both) {
        Ok(AnimationFillMode::Both)
    } else {
        CascadeError::invalid_keyword(keyword)
    }
}

pub open spec fn play_state_of(k: Seq<char>) -> Option<bool> {
    if k == seq!['r', 'u', 'n', 'n', 'i', 'n', 'g'] {
        Some(true)
    } else if k == seq!['p', 'a', 'u', 's', 'e', 'd'] {
        Some(false)
    } else {
        None
    }
}

/// Whether an `animation-play-state` keyword lets the animation run.
pub fn resolve_play_state(keyword: &str) -> (r: Result<bool, CascadeError>)
    ensures
        keyword_result(play_state_of(keyword@), r, keyword@),
{
    let k = chars_of(keyword);
    let running = ['r', 'u', 'n', 'n', 'i', 'n', 'g'];
    let paused = ['p', 'a', 'u', 's', 'e', 'd'];
    assert(running@ =~= seq!['r', 'u', 'n', 'n', 'i', 'n', 'g']);
    assert(paused@ =~= seq!['p', 'a', 'u', 's', 'e', 'd']);
    if is_word(&k, &running) {
        Ok(true)
    } else if is_word(&k, &paused) {
        Ok(false)
    } else {
        CascadeError::invalid_keyword(keyword)
    }
}

pub open spec fn color_keyword(k: Seq<char>) -> Option<[u8; 4]> {
    if k == seq!['b', 'l', 'a', 'c', 'k'] {
        Some([0u8, 0u8, 0u8, 255u8])
    } else if k == seq!['w', 'h', 'i', 't', 'e'] {
        Some([255u8, 255u8, 255u8, 255u8])
    } else if k == seq!['r', 'e', 'd'] {
        Some([255u8, 0u8, 0u8, 255u8])
    } else if k == seq!['b', 'l', 'u', 'e'] {
        Some([0u8, 0u8, 255u8, 255u8])
    } else if k == seq!['g', 'r', 'e', 'e', 'n'] {
        Some([0u8, 255u8, 0u8, 255u8])
    } else if k == seq!['t', 'r', 'a', 'n', 's', 'p', 'a', 'r', 'e', 'n', 't'] {
        Some([0u8, 0u8, 0u8, 0u8])
    } else {
        None
    }
}

fn resolve_color_keyword(keyword: &String) -> (r: Result<[u8; 4], CascadeError>)
    ensures
        keyword_result(color_keyword(keyword@), r, keyword@),
{
    let k = chars_of(keyword.as_str());
    let black = ['b', 'l', 'a', 'c', 'k'];
    let white = ['w', 'h', 'i', 't', 'e'];
    let red = ['r', 'e', 'd'];
    let blue = ['b', 'l', 'u', 'e'];
    let green = ['g', 'r', 'e', 'e', 'n'];
    let transparent = ['t', 'r', 'a', 'n', 's', 'p', 'a', 'r', 'e', 'n', 't'];
    assert(black@ =~= seq!['b', 'l', 'a', 'c', 'k']);
    assert(white@ =~= seq!['w', 'h', 'i', 't', 'e']);
    assert(red@ =~= seq!['r', 'e', 'd']);
    assert(blue@ =~= seq!['b', 'l', 'u', 'e']);
    assert(green@ =~= seq!['g', 'r', 'e', 'e', 'n']);
    assert(transparent@ =~= seq!['t', 'r', 'a', 'n', 's', 'p', 'a', 'r', 'e', 'n', 't']);
    if is_word(&k, &black) {
        Ok([0, 0, 0, 255])
    } else if is_word(&k, &white) {
        Ok([255, 255, 255, 255])
    } else if is_word(&k, &red) {
        Ok([255, 0, 0, 255])
    } else if is_word(&k, &blue) {
        Ok([0, 0, 255, 255])
    } else if is_word(&k, &green) {
        Ok([0, 255, 0, 255])
    } else if is_word(&k, &transparent) {
        Ok([0, 0, 0, 0])
    } else {
        CascadeError::invalid_keyword(keyword.as_str())
    }
}

/// The color of a computed value: a color as it is, or a named color.
pub fn resolve_color(value: &ComputedValue) -> (r: Result<[u8; 4], CascadeError>)
    ensures
        match value@ {
            ComputedValueV::Color(c) => r matches Ok(x) && x@ == c,
            ComputedValueV::Keyword(k) => keyword_result(color_keyword(k), r, k),
            _ => r == Err::<[u8; 4], CascadeError>(CascadeError::ValueNotSupported),
        },
{
    match value {
        ComputedValue::Color(color) => Ok(*color),
        ComputedValue::Keyword(keyword) => resolve_color_keyword(keyword),
        _ => Err(CascadeError::ValueNotSupported),
    }
}

pub open spec fn timing_of(k: Seq<char>) -> Option<TimingFunction> {
    if k == seq!['e', 'a', 's', 'e'] {
        Some(TimingFunction::Ease)
    } else if k == seq!['e', 'a', 's', 'e', '-', 'i', 'n'] {
        Some(TimingFunction::EaseIn)
    } else if k == seq!['e', 'a', 's', 'e', '-', 'o', 'u', 't'] {
        Some(TimingFunction::EaseOut)
    } else if k == seq!['e', 'a', 's', 'e', '-', 'i', 'n', '-', 'o', 'u', 't'] {
        Some(TimingFunction::EaseInOut)
    } else if k == seq!['l', 'i', 'n', 'e', 'a', 'r'] {
        Some(TimingFunction::Linear)
    } else if k == seq!['s', 't', 'e', 'p', '-', 's', 't', 'a', 'r', 't'] {
        Some(TimingFunction::StepStart)
    } else if k == seq!['s', 't', 'e', 'p', '-', 'e', 'n', 'd'] {
        Some(TimingFunction::StepEnd)
    } else {
        None
    }
}

fn timing_keyword(keyword: &String) -> (r: Option<TimingFunction>)
    ensures
        r == timing_of(keyword@),
{
    let k = chars_of(keyword.as_str());
    let w0 = ['e', 'a', 's', 'e'];
    assert(w0@ =~= seq!['e', 'a', 's', 'e']);
    let w1 = ['e', 'a', 's', 'e', '-', 'i', 'n'];
    assert(w1@ =~= seq!['e', 'a', 's', 'e', '-', 'i', 'n']);
    let w2 = ['e', 'a', 's', 'e', '-', 'o', 'u', 't'];
    assert(w2@ =~= seq!['e', 'a', 's', 'e', '-', 'o', 'u', 't']);
    let w3 = ['e', 'a', 's', 'e', '-', 'i', 'n', '-', 'o', 'u', 't'];
    assert(w3@ =~= seq!['e', 'a', 's', 'e', '-', 'i', 'n', '-', 'o', 'u', 't']);
    let w4 = ['l', 'i', 'n', 'e', 'a', 'r'];
    assert(w4@ =~= seq!['l', 'i', 'n', 'e', 'a', 'r']);
    let w5 = ['s', 't', 'e', 'p', '-', 's', 't', 'a', 'r', 't'];
    assert(w5@ =~= seq!['s', 't', 'e', 'p', '-', 's', 't', 'a', 'r', 't']);
    let w6 = ['s', 't', 'e', 'p', '-', 'e', 'n', 'd'];
    assert(w6@ =~= seq!['s', 't', 'e', 'p', '-', 'e', 'n', 'd']);
    if is_word(&k, &w0) {
        Some(TimingFunction::Ease)
    } else if is_word(&k, &w1) {
        Some(TimingFunction::EaseIn)
    } else if is_word(&k, &w2) {
        Some(TimingFunction::EaseOut)
    } else if is_word(&k, &w3) {
        Some(TimingFunction::EaseInOut)
    } else if is_word(&k, &w4) {
        Some(TimingFunction::Linear)
    } else if is_word(&k, &w5) {
        Some(TimingFunction::StepStart)
    } else if is_word(&k, &w6) {
        Some(TimingFunction::StepEnd)
    } else {
        None
    }
}

/// The timing function of a computed value: one of the timing keywords.
pub fn resolve_timing(value: &ComputedValue) -> (r: Result<TimingFunction, CascadeError>)
    ensures
        match value@ {
            ComputedValueV::Keyword(k) => match timing_of(k) {
                Some(t) => r == Ok::<TimingFunction, CascadeError>(t),
                None => r == Err::<TimingFunction, CascadeError>(CascadeError::ValueNotSupported),
            },
            _ => r == Err::<TimingFunction, CascadeError>(CascadeError::ValueNotSupported),
        },
{
    match value {
        ComputedValue::Keyword(keyword) => match timing_keyword(keyword) {
            Some(t) => Ok(t),
            None => Err(CascadeError::ValueNotSupported),
        },
        _ => Err(CascadeError::ValueNotSupported),
    }
}

/// How many times an animation plays: a number, or `infinite`.
pub fn resolve_iterations(value: &ComputedValue) -> (r: Result<AnimationIterations, CascadeError>)
    ensures
        match value@ {
            ComputedValueV::Keyword(k) => if k == seq!['i', 'n', 'f', 'i', 'n', 'i', 't', 'e'] {
                r == Ok::<AnimationIterations, CascadeError>(AnimationIterations::Infinite)
            } else {
                r == Err::<AnimationIterations, CascadeError>(CascadeError::ValueNotSupported)
            },
            ComputedValueV::Number(d) => r == Ok::<AnimationIterations, CascadeError>(AnimationIterations::Number(d)),
            _ => r == Err::<AnimationIterations, CascadeError>(CascadeError::ValueNotSupported),
        },
{
    match value {
        ComputedValue::Keyword(keyword) => {
            let k = chars_of(keyword.as_str());
            let infinite = ['i', 'n', 'f', 'i', 'n', 'i', 't', 'e'];
            assert(infinite@ =~= seq!['i', 'n', 'f', 'i', 'n', 'i', 't', 'e']);
            if is_word(&k, &infinite) {
                Ok(AnimationIterations::Infinite)
            } else {
                Err(CascadeError::ValueNotSupported)
            }
        },
        ComputedValue::Number(d) => Ok(AnimationIterations::Number(*d)),
        _ => Err(CascadeError::ValueNotSupported),
    }
}

pub open spec fn font_style_of(k: Seq<char>) -> Option<Seq<char>> {
    if k == seq!['n', 'o', 'r', 'm', 'a', 'l'] || k == seq!['i', 't', 'a', 'l', 'i', 'c'] || k == seq![
        'o', 'b', 'l', 'i', 'q', 'u', 'e',
    ] {
        Some(k)
    } else {
        None
    }
}

/// The font style that a `font-style` keyword names: `normal`, `italic` or `oblique`.
pub fn resolve_font_style(keyword: &str) -> (r: Result<String, CascadeError>)
    ensures
        match font_style_of(keyword@) {
            Some(s) => r matches Ok(x) && x@ == s,
            None => r matches Err(CascadeError::InvalidKeyword(k)) && k@ == keyword@,
        },
{
    let k = chars_of(keyword);
    let normal = ['n', 'o', 'r', 'm', 'a', 'l'];
    let italic = ['i', 't', 'a', 'l', 'i', 'c'];
    let oblique = ['o', 'b', 'l', 'i', 'q', 'u', 'e'];
    assert(normal@ =~= seq!['n', 'o', 'r', 'm', 'a', 'l']);
    assert(italic@ =~= seq!['i', 't', 'a', 'l', 'i', 'c']);
    assert(oblique@ =~= seq!['o', 'b', 'l', 'i', 'q', 'u', 'e']);
    if is_word(&k, &normal) || is_word(&k, &italic) || is_word(&k, &oblique) {
        Ok(keyword.to_string())
    } else {
        CascadeError::invalid_keyword(keyword)
    }
}

/// The string of a computed value that is a string.
pub fn resolve_string(value: &ComputedValue) -> (r: Result<String, CascadeError>)
    ensures
        match value@ {
            ComputedValueV::Str(s) => r matches Ok(x) && x@ == s,
            _ => r == Err::<String, CascadeError>(CascadeError::ValueNotSupported),
        },
{
    match value {
        ComputedValue::Str(s) => Ok(s.clone()),
        _ => Err(CascadeError::ValueNotSupported),
    }
}

/// Whether the magnitude of a decimal is one or more.
fn magnitude_at_least_one(d: Decimal) -> (r: bool)
    ensures
        r == (d.mantissa as nat >= pow10(d.scale as nat)),
{
    if d.scale >= 20 {
        proof {
            lemma_small_mantissa(d.mantissa, d.scale as nat);
        }
        false
    } else {
        let p = pow10_u128(d.scale);
        d.mantissa as u128 >= p
    }
}

pub open spec fn font_weight_keyword(k: Seq<char>) -> Option<u16> {
    if k == seq!['n', 'o', 'r', 'm', 'a', 'l'] {
        Some(400u16)
    } else if k == seq!['b', 'o', 'l', 'd'] {
        Some(700u16)
    } else {
        None
    }
}

/// Whether a decimal lies in `1..=1000`.
pub open spec fn weight_in_range(d: Decimal) -> bool {
    !d.negative && d.mantissa as nat >= pow10(d.scale as nat) && d.mantissa as nat <= 1000
        * pow10(d.scale as nat)
}

/// The font weight of a computed value: a number from 1 to 1000 (its integer part), or
/// `normal` (400) or `bold` (700).
pub fn resolve_font_weight(value: &ComputedValue) -> (r: Result<u16, CascadeError>)
    ensures
        match value@ {
            ComputedValueV::Number(d) => if weight_in_range(d) {
                r == Ok::<u16, CascadeError>(integer_part(d) as u16)
            } else {
                r == Err::<u16, CascadeError>(CascadeError::ValueNotSupported)
            },
            ComputedValueV::Keyword(k) => keyword_result(font_weight_keyword(k), r, k),
            _ => r == Err::<u16, CascadeError>(CascadeError::ValueNotSupported),
        },
{
    match value {
        ComputedValue::Number(d) => {
            if d.negative || !magnitude_at_least_one(*d) {
                return Err(CascadeError::ValueNotSupported);
            }
            // a magnitude of at least one has a scale below 20
            proof {
                if d.scale >= 20 {
                    lemma_small_mantissa(d.mantissa, d.scale as nat);
                }
            }
            let p = pow10_u128(d.scale);
            let m = d.mantissa as u128;
            if m > 1000 * p {
                return Err(CascadeError::ValueNotSupported);
            }
            proof {
                lemma_pow10_positive(d.scale as nat);
                assert(m / p <= 1000) by (nonlinear_arith)
                    requires
                        m <= 1000 * p,
                        p >= 1,
                ;
            }
            Ok((m / p) as u16)
        },
        ComputedValue::Keyword(keyword) => {
            let k = chars_of(keyword.as_str());
            let normal = ['n', 'o', 'r', 'm', 'a', 'l'];
            let bold = ['b', 'o', 'l', 'd'];
            assert(normal@ =~= seq!['n', 'o', 'r', 'm', 'a', 'l']);
            assert(bold@ =~= seq!['b', 'o', 'l', 'd']);
            if is_word(&k, &normal) {
                Ok(400)
            } else if is_word(&k, &bold) {
                Ok(700)
            } else {
                CascadeError::invalid_keyword(keyword.as_str())
            }
        },
        _ => Err(CascadeError::ValueNotSupported),
    }
}

/// A decimal times 255, rounded toward zero and saturated to `0..=255`.
pub open spec fn scaled_255(d: Decimal) -> u8 {
    if d.negative {
        0
    } else {
        let q = d.mantissa as nat * 255 / pow10(d.scale as nat);
        if q > 255 {
            255
        } else {
            q as u8
        }
    }
}

/// A decimal rounded toward zero and saturated to `0..=255`.
pub open spec fn truncated_255(d: Decimal) -> u8 {
    if d.negative {
        0
    } else if integer_part(d) > 255 {
        255
    } else {
        integer_part(d) as u8
    }
}

pub(crate) fn scale_255(d: Decimal) -> (r: u8)
    ensures
        r == scaled_255(d),
{
    if d.negative {
        return 0;
    }
    let x = d.mantissa as u128 * 255;
    if d.scale >= 22 {
        proof {
            crate::decimal::lemma_pow10_monotonic(22, d.scale as nat);
            crate::decimal::lemma_pow10_values();
            vstd::arithmetic::div_mod::lemma_basic_div(x as int, pow10(d.scale as nat) as int);
        }
        return 0;
    }
    let p = pow10_u128(d.scale);
    proof {
        lemma_pow10_positive(d.scale as nat);
    }
    let q = x / p;
    if q > 255 {
        255
    } else {
        q as u8
    }
}

pub(crate) fn truncate_255(d: Decimal) -> (r: u8)
    ensures
        r == truncated_255(d),
{
    if d.negative {
        return 0;
    }
    let t = d.trunc();
    if t > 255 {
        255
    } else {
        t as u8
    }
}

/// A color channel: a percentage of 255, or a number taken as it is.
pub fn map_c(value: &ComputedValue) -> (r: u8)
    ensures
        r == match value@ {
            ComputedValueV::Percentage(d) => scaled_255(d),
            ComputedValueV::Number(d) => truncated_255(d),
            _ => 0u8,
        },
{
    match value {
        ComputedValue::Zero => 0,
        ComputedValue::Percentage(d) => scale_255(*d),
        ComputedValue::Number(d) => truncate_255(*d),
        _ => 0,
    }
}

/// An alpha channel: a percentage or a fraction of 255.
pub fn map_a(value: &ComputedValue) -> (r: u8)
    ensures
        r == match value@ {
            ComputedValueV::Percentage(d) => scaled_255(d),
            ComputedValueV::Number(d) => scaled_255(d),
            _ => 0u8,
        },
{
    match value {
        ComputedValue::Zero => 0,
        ComputedValue::Percentage(d) => scale_255(*d),
        ComputedValue::Number(d) => scale_255(*d),
        _ => 0,
    }
}

pub open spec fn channel(v: ComputedValueV) -> u8 {
    match v {
        ComputedValueV::Percentage(d) => scaled_255(d),
        ComputedValueV::Number(d) => truncated_255(d),
        _ => 0u8,
    }
}

pub open spec fn alpha(v: ComputedValueV) -> u8 {
    match v {
        ComputedValueV::Percentage(d) => scaled_255(d),
        ComputedValueV::Number(d) => scaled_255(d),
        _ => 0u8,
    }
}

/// The value of a function call whose arguments are computed: `rgb(r, g, b)`,
/// `rgba(r, g, b, a)` and `url("path")`; any other call is an error value.
pub open spec fn function_value(name: Seq<char>, args: Seq<ComputedValueV>) -> ComputedValueV {
    if name == seq!['r', 'g', 'b'] && args.len() == 3 {
        ComputedValueV::Color(seq![channel(args[0]), channel(args[1]), channel(args[2]), 255u8])
    } else if name == seq!['r', 'g', 'b', 'a'] && args.len() == 4 {
        ComputedValueV::Color(seq![channel(args[0]), channel(args[1]), channel(args[2]), alpha(args[3])])
    } else if name == seq!['u', 'r', 'l'] && args.len() == 1 && args[0] is Str {
        args[0]
    } else {
        ComputedValueV::Error
    }
}

/// Computes a function call from its name and its computed arguments.
pub fn compute_function(name: &str, arguments: &[ComputedValue]) -> (r: ComputedValue)
    ensures
        r@ == function_value(name@, arguments@.map_values(|v: ComputedValue| v@)),
{
    let ghost args = arguments@.map_values(|v: ComputedValue| v@);
    let k = chars_of(name);
    let rgb = ['r', 'g', 'b'];
    let rgba = ['r', 'g', 'b', 'a'];
    let url = ['u', 'r', 'l'];
    assert(rgb@ =~= seq!['r', 'g', 'b']);
    assert(rgba@ =~= seq!['r', 'g', 'b', 'a']);
    assert(url@ =~= seq!['u', 'r', 'l']);
    if is_word(&k, &rgb) && arguments.len() == 3 {
        let c = [map_c(&arguments[0]), map_c(&arguments[1]), map_c(&arguments[2]), 255];
        assert(c@ =~= seq![channel(args[0]), channel(args[1]), channel(args[2]), 255u8]);
        ComputedValue::Color(c)
    } else if is_word(&k, &rgba) && arguments.len() == 4 {
        let c = [map_c(&arguments[0]), map_c(&arguments[1]), map_c(&arguments[2]), map_a(&arguments[3])];
        assert(c@ =~= seq![channel(args[0]), channel(args[1]), channel(args[2]), alpha(args[3])]);
        ComputedValue::Color(c)
    } else if is_word(&k, &url) && arguments.len() == 1 {
        match &arguments[0] {
            ComputedValue::Str(path) => ComputedValue::Str(path.clone()),
            _ => ComputedValue::Error,
        }
    } else {
        ComputedValue::Error
    }
}

/// The `text-align` keywords and the alignment each names; no other keyword names one.
pub proof fn law_text_align_of_table(k: Seq<char>)
    ensures
        (text_align_of(seq!['s', 't', 'a', 'r', 't']) == Some(TextAlign::Start)),
        (text_align_of(seq!['e', 'n', 'd']) == Some(TextAlign::End)),
        (text_align_of(seq!['l', 'e', 'f', 't']) == Some(TextAlign::Left)),
        (text_align_of(seq!['r', 'i', 'g', 'h', 't']) == Some(TextAlign::Right)),
        (text_align_of(seq!['c', 'e', 'n', 't', 'e', 'r']) == Some(TextAlign::Center)),
        (text_align_of(seq!['j', 'u', 's', 't', 'i', 'f', 'y']) == Some(TextAlign::Justify)),
        (text_align_of(seq!['j', 'u', 's', 't', 'i', 'f', 'y', '-', 'a', 'l', 'l']) == Some(TextAlign::JustifyAll)),
        (text_align_of(seq!['m', 'a', 't', 'c', 'h', '-', 'p', 'a', 'r', 'e', 'n', 't']) == Some(TextAlign::MatchParent)),
        (k != seq!['s', 't', 'a', 'r', 't'] && k != seq!['e', 'n', 'd'] && k != seq!['l', 'e', 'f', 't'] && k != seq!['r', 'i', 'g', 'h', 't'] && k != seq!['c', 'e', 'n', 't', 'e', 'r'] && k != seq!['j', 'u', 's', 't', 'i', 'f', 'y'] && k != seq!['j', 'u', 's', 't', 'i', 'f', 'y', '-', 'a', 'l', 'l'] && k != seq!['m', 'a', 't', 'c', 'h', '-', 'p', 'a', 'r', 'e', 'n', 't'] ==> (text_align_of(k) is None)),
{
    assert(seq!['s', 't', 'a', 'r', 't'] != seq!['e', 'n', 'd']) by {
        assert(seq!['s', 't', 'a', 'r', 't'].len() != seq!['e', 'n', 'd'].len());
    }
    assert(seq!['s', 't', 'a', 'r', 't'] != seq!['l', 'e', 'f', 't']) by {
        assert(seq!['s', 't', 'a', 'r', 't'].len() != seq!['l', 'e', 'f', 't'].len());
    }
    assert(seq!['e', 'n', 'd'] != seq!['l', 'e', 'f', 't']) by {
        assert(seq!['e', 'n', 'd'].len() != seq!['l', 'e', 'f', 't'].len());
    }
    assert(seq!['s', 't', 'a', 'r', 't'] != seq!['r', 'i', 'g', 'h', 't']) by {
        assert(seq!['s', 't', 'a', 'r', 't'][0] != seq!['r', 'i', 'g', 'h', 't'][0]);
    }
    assert(seq!['e', 'n', 'd'] != seq!['r', 'i', 'g', 'h', 't']) by {
        assert(seq!['e', 'n', 'd'].len() != seq!['r', 'i', 'g', 'h', 't'].len());
    }
    assert(seq!['l', 'e', 'f', 't'] != seq!['r', 'i', 'g', 'h', 't']) by {
        assert(seq!['l', 'e', 'f', 't'].len() != seq!['r', 'i', 'g', 'h', 't'].len());
    }
    assert(seq!['s', 't', 'a', 'r', 't'] != seq!['c', 'e', 'n', 't', 'e', 'r']) by {
        assert(seq!['s', 't', 'a', 'r', 't'].len() != seq!['c', 'e', 'n', 't', 'e', 'r'].len());
    }
    assert(seq!['e', 'n', 'd'] != seq!['c', 'e', 'n', 't', 'e', 'r']) by {
        assert(seq!['e', 'n', 'd'].len() != seq!['c', 'e', 'n', 't', 'e', 'r'].len());
    }
    assert(seq!['l', 'e', 'f', 't'] != seq!['c', 'e', 'n', 't', 'e', 'r']) by {
        assert(seq!['l', 'e', 'f', 't'].len() != seq!['c', 'e', 'n', 't', 'e', 'r'].len());
    }
    assert(seq!['r', 'i', 'g', 'h', 't'] != seq!['c', 'e', 'n', 't', 'e', 'r']) by {
        assert(seq!['r', 'i', 'g', 'h', 't'].len() != seq!['c', 'e', 'n', 't', 'e', 'r'].len());
    }
    assert(seq!['s', 't', 'a', 'r', 't'] != seq!['j', 'u', 's', 't', 'i', 'f', 'y']) by {
        assert(seq!['s', 't', 'a', 'r', 't'].len() != seq!['j', 'u', 's', 't', 'i', 'f', 'y'].len());
    }
    assert(seq!['e', 'n', 'd'] != seq!['j', 'u', 's', 't', 'i', 'f', 'y']) by {
        assert(seq!['e', 'n', 'd'].len() != seq!['j', 'u', 's', 't', 'i', 'f', 'y'].len());
    }
    assert(seq!['l', 'e', 'f', 't'] != seq!['j', 'u', 's', 't', 'i', 'f', 'y']) by {
        assert(seq!['l', 'e', 'f', 't'].len() != seq!['j', 'u', 's', 't', 'i', 'f', 'y'].len());
    }
    assert(seq!['r', 'i', 'g', 'h', 't'] != seq!['j', 'u', 's', 't', 'i', 'f', 'y']) by {
        assert(seq!['r', 'i', 'g', 'h', 't'].len() != seq!['j', 'u', 's', 't', 'i', 'f', 'y'].len());
    }
    assert(seq!['c', 'e', 'n', 't', 'e', 'r'] != seq!['j', 'u', 's', 't', 'i', 'f', 'y']) by {
        assert(seq!['c', 'e', 'n', 't', 'e', 'r'].len() != seq!['j', 'u', 's', 't', 'i', 'f', 'y'].len());
    }
    assert(seq!['s', 't', 'a', 'r', 't'] != seq!['j', 'u', 's', 't', 'i', 'f', 'y', '-', 'a', 'l', 'l']) by {
        assert(seq!['s', 't', 'a', 'r', 't'].len() != seq!['j', 'u', 's', 't', 'i', 'f', 'y', '-', 'a', 'l', 'l'].len());
    }
    assert(seq!['e', 'n', 'd'] != seq!['j', 'u', 's', 't', 'i', 'f', 'y', '-', 'a', 'l', 'l']) by {
        assert(seq!['e', 'n', 'd'].len() != seq!['j', 'u', 's', 't', 'i', 'f', 'y', '-', 'a', 'l', 'l'].len());
    }
    assert(seq!['l', 'e', 'f', 't'] != seq!['j', 'u', 's', 't', 'i', 'f', 'y', '-', 'a', 'l', 'l']) by {
        assert(seq!['l', 'e', 'f', 't'].len() != seq!['j', 'u', 's', 't', 'i', 'f', 'y', '-', 'a', 'l', 'l'].len());
    }
    assert(seq!['r', 'i', 'g', 'h', 't'] != seq!['j', 'u', 's', 't', 'i', 'f', 'y', '-', 'a', 'l', 'l']) by {
        assert(seq!['r', 'i', 'g', 'h', 't'].len() != seq!['j', 'u', 's', 't', 'i', 'f', 'y', '-', 'a', 'l', 'l'].len());
    }
    assert(seq!['c', 'e', 'n', 't', 'e', 'r'] != seq!['j', 'u', 's', 't', 'i', 'f', 'y', '-', 'a', 'l', 'l']) by {
        assert(seq!['c', 'e', 'n', 't', 'e', 'r'].len() != seq!['j', 'u', 's', 't', 'i', 'f', 'y', '-', 'a', 'l', 'l'].len());
    }
    assert(seq!['j', 'u', 's', 't', 'i', 'f', 'y'] != seq!['j', 'u', 's', 't', 'i', 'f', 'y', '-', 'a', 'l', 'l']) by {
        assert(seq!['j', 'u', 's', 't', 'i', 'f', 'y'].len() != seq!['j', 'u', 's', 't', 'i', 'f', 'y', '-', 'a', 'l', 'l'].len());
    }
    assert(seq!['s', 't', 'a', 'r', 't'] != seq!['m', 'a', 't', 'c', 'h', '-', 'p', 'a', 'r', 'e', 'n', 't']) by {
        assert(seq!['s', 't', 'a', 'r', 't'].len() != seq!['m', 'a', 't', 'c', 'h', '-', 'p', 'a', 'r', 'e', 'n', 't'].len());
    }
    assert(seq!['e', 'n', 'd'] != seq!['m', 'a', 't', 'c', 'h', '-', 'p', 'a', 'r', 'e', 'n', 't']) by {
        assert(seq!['e', 'n', 'd'].len() != seq!['m', 'a', 't', 'c', 'h', '-', 'p', 'a', 'r', 'e', 'n', 't'].len());
    }
    assert(seq!['l', 'e', 'f', 't'] != seq!['m', 'a', 't', 'c', 'h', '-', 'p', 'a', 'r', 'e', 'n', 't']) by {
        assert(seq!['l', 'e', 'f', 't'].len() != seq!['m', 'a', 't', 'c', 'h', '-', 'p', 'a', 'r', 'e', 'n', 't'].len());
    }
    assert(seq!['r', 'i', 'g', 'h', 't'] != seq!['m', 'a', 't', 'c', 'h', '-', 'p', 'a', 'r', 'e', 'n', 't']) by {
        assert(seq!['r', 'i', 'g', 'h', 't'].len() != seq!['m', 'a', 't', 'c', 'h', '-', 'p', 'a', 'r', 'e', 'n', 't'].len());
    }
    assert(seq!['c', 'e', 'n', 't', 'e', 'r'] != seq!['m', 'a', 't', 'c', 'h', '-', 'p', 'a', 'r', 'e', 'n', 't']) by {
        assert(seq!['c', 'e', 'n', 't', 'e', 'r'].len() != seq!['m', 'a', 't', 'c', 'h', '-', 'p', 'a', 'r', 'e', 'n', 't'].len());
    }
    assert(seq!['j', 'u', 's', 't', 'i', 'f', 'y'] != seq!['m', 'a', 't', 'c', 'h', '-', 'p', 'a', 'r', 'e', 'n', 't']) by {
        assert(seq!['j', 'u', 's', 't', 'i', 'f', 'y'].len() != seq!['m', 'a', 't', 'c', 'h', '-', 'p', 'a', 'r', 'e', 'n', 't'].len());
    }
    assert(seq!['j', 'u', 's', 't', 'i', 'f', 'y', '-', 'a', 'l', 'l'] != seq!['m', 'a', 't', 'c', 'h', '-', 'p', 'a', 'r', 'e', 'n', 't']) by {
        assert(seq!['j', 'u', 's', 't', 'i', 'f', 'y', '-', 'a', 'l', 'l'].len() != seq!['m', 'a', 't', 'c', 'h', '-', 'p', 'a', 'r', 'e', 'n', 't'].len());
    }
}

/// The `pointer-events` keywords: `auto` and `none`; no other keyword names one.
pub proof fn law_pointer_events_of_table(k: Seq<char>)
    ensures
        (pointer_events_of(seq!['a', 'u', 't', 'o']) == Some(PointerEvents::Auto)),
        (pointer_events_of(seq!['n', 'o', 'n', 'e']) == Some(PointerEvents::Ignore)),
        (k != seq!['a', 'u', 't', 'o'] && k != seq!['n', 'o', 'n', 'e'] ==> (pointer_events_of(k) is None)),
{
    assert(seq!['a', 'u', 't', 'o'] != seq!['n', 'o', 'n', 'e']) by {
        assert(seq!['a', 'u', 't', 'o'][0] != seq!['n', 'o', 'n', 'e'][0]);
    }
}

/// The `animation-direction` keywords and the direction each names; no other keyword names one.
pub proof fn law_animation_direction_of_table(k: Seq<char>)
    ensures
        (animation_direction_of(seq!['n', 'o', 'r', 'm', 'a', 'l']) == Some(AnimationDirection::Normal)),
        (animation_direction_of(seq!['r', 'e', 'v', 'e', 'r', 's', 'e']) == Some(AnimationDirection::Reverse)),
        (animation_direction_of(seq!['a', 'l', 't', 'e', 'r', 'n', 'a', 't', 'e']) == Some(AnimationDirection::Alternate)),
        (animation_direction_of(seq![
        'a', 'l', 't', 'e', 'r', 'n', 'a', 't', 'e', '-', 'r', 'e', 'v', 'e', 'r', 's', 'e',
    ]) == Some(AnimationDirection::AlternateReverse)),
        (k != seq!['n', 'o', 'r', 'm', 'a', 'l'] && k != seq!['r', 'e', 'v', 'e', 'r', 's', 'e'] && k != seq!['a', 'l', 't', 'e', 'r', 'n', 'a', 't', 'e'] && k != seq![
        'a', 'l', 't', 'e', 'r', 'n', 'a', 't', 'e', '-', 'r', 'e', 'v', 'e', 'r', 's', 'e',
    ] ==> (animation_direction_of(k) is None)),
{
    assert(seq!['n', 'o', 'r', 'm', 'a', 'l'] != seq!['r', 'e', 'v', 'e', 'r', 's', 'e']) by {
        assert(seq!['n', 'o', 'r', 'm', 'a', 'l'].len() != seq!['r', 'e', 'v', 'e', 'r', 's', 'e'].len());
    }
    assert(seq!['n', 'o', 'r', 'm', 'a', 'l'] != seq!['a', 'l', 't', 'e', 'r', 'n', 'a', 't', 'e']) by {
        assert(seq!['n', 'o', 'r', 'm', 'a', 'l'].len() != seq!['a', 'l', 't', 'e', 'r', 'n', 'a', 't', 'e'].len());
    }
    assert(seq!['r', 'e', 'v', 'e', 'r', 's', 'e'] != seq!['a', 'l', 't', 'e', 'r', 'n', 'a', 't', 'e']) by {
        assert(seq!['r', 'e', 'v', 'e', 'r', 's', 'e'].len() != seq!['a', 'l', 't', 'e', 'r', 'n', 'a', 't', 'e'].len());
    }
    assert(seq!['n', 'o', 'r', 'm', 'a', 'l'] != seq![
        'a', 'l', 't', 'e', 'r', 'n', 'a', 't', 'e', '-', 'r', 'e', 'v', 'e', 'r', 's', 'e',
    ]) by {
        assert(seq!['n', 'o', 'r', 'm', 'a', 'l'].len() != seq![
        'a', 'l', 't', 'e', 'r', 'n', 'a', 't', 'e', '-', 'r', 'e', 'v', 'e', 'r', 's', 'e',
    ].len());
    }
    assert(seq!['r', 'e', 'v', 'e', 'r', 's', 'e'] != seq![
        'a', 'l', 't', 'e', 'r', 'n', 'a', 't', 'e', '-', 'r', 'e', 'v', 'e', 'r', 's', 'e',
    ]) by {
        assert(seq!['r', 'e', 'v', 'e', 'r', 's', 'e'].len() != seq![
        'a', 'l', 't', 'e', 'r', 'n', 'a', 't', 'e', '-', 'r', 'e', 'v', 'e', 'r', 's', 'e',
    ].len());
    }
    assert(seq!['a', 'l', 't', 'e', 'r', 'n', 'a', 't', 'e'] != seq![
        'a', 'l', 't', 'e', 'r', 'n', 'a', 't', 'e', '-', 'r', 'e', 'v', 'e', 'r', 's', 'e',
    ]) by {
        assert(seq!['a', 'l', 't', 'e', 'r', 'n', 'a', 't', 'e'].len() != seq![
        'a', 'l', 't', 'e', 'r', 'n', 'a', 't', 'e', '-', 'r', 'e', 'v', 'e', 'r', 's', 'e',
    ].len());
    }
}

/// The `animation-fill-mode` keywords and the fill mode each names; no other keyword names one.
pub proof fn law_animation_fill_mode_of_table(k: Seq<char>)
    ensures
        (animation_fill_mode_of(seq!['n', 'o', 'n', 'e']) == Some(AnimationFillMode::NoFill)),
        (animation_fill_mode_of(seq!['f', 'o', 'r', 'w', 'a', 'r', 'd', 's']) == Some(AnimationFillMode::Forwards)),
        (animation_fill_mode_of(seq!['b', 'a', 'c', 'k', 'w', 'a', 'r', 'd', 's']) == Some(AnimationFillMode::Backwards)),
        (animation_fill_mode_of(seq!['b', 'o', 't', 'h']) == Some(AnimationFillMode::Both)),
        (k != seq!['n', 'o', 'n', 'e'] && k != seq!['f', 'o', 'r', 'w', 'a', 'r', 'd', 's'] && k != seq!['b', 'a', 'c', 'k', 'w', 'a', 'r', 'd', 's'] && k != seq!['b', 'o', 't', 'h'] ==> (animation_fill_mode_of(k) is None)),
{
    assert(seq!['n', 'o', 'n', 'e'] != seq!['f', 'o', 'r', 'w', 'a', 'r', 'd', 's']) by {
        assert(seq!['n', 'o', 'n', 'e'].len() != seq!['f', 'o', 'r', 'w', 'a', 'r', 'd', 's'].len());
    }
    assert(seq!['n', 'o', 'n', 'e'] != seq!['b', 'a', 'c', 'k', 'w', 'a', 'r', 'd', 's']) by {
        assert(seq!['n', 'o', 'n', 'e'].len() != seq!['b', 'a', 'c', 'k', 'w', 'a', 'r', 'd', 's'].len());
    }
    assert(seq!['f', 'o', 'r', 'w', 'a', 'r', 'd', 's'] != seq!['b', 'a', 'c', 'k', 'w', 'a', 'r', 'd', 's']) by {
        assert(seq!['f', 'o', 'r', 'w', 'a', 'r', 'd', 's'].len() != seq!['b', 'a', 'c', 'k', 'w', 'a', 'r', 'd', 's'].len());
    }
    assert(seq!['n', 'o', 'n', 'e'] != seq!['b', 'o', 't', 'h']) by {
        assert(seq!['n', 'o', 'n', 'e'][0] != seq!['b', 'o', 't', 'h'][0]);
    }
    assert(seq!['f', 'o', 'r', 'w', 'a', 'r', 'd', 's'] != seq!['b', 'o', 't', 'h']) by {
        assert(seq!['f', 'o', 'r', 'w', 'a', 'r', 'd', 's'].len() != seq!['b', 'o', 't', 'h'].len());
    }
    assert(seq!['b', 'a', 'c', 'k', 'w', 'a', 'r', 'd', 's'] != seq!['b', 'o', 't', 'h']) by {
        assert(seq!['b', 'a', 'c', 'k', 'w', 'a', 'r', 'd', 's'].len() != seq!['b', 'o', 't', 'h'].len());
    }
}

/// The `animation-play-state` keywords: `running` runs and `paused` does not; no other keyword names one.
pub proof fn law_play_state_of_table(k: Seq<char>)
    ensures
        (play_state_of(seq!['r', 'u', 'n', 'n', 'i', 'n', 'g']) == Some(true)),
        (play_state_of(seq!['p', 'a', 'u', 's', 'e', 'd']) == Some(false)),
        (k != seq!['r', 'u', 'n', 'n', 'i', 'n', 'g'] && k != seq!['p', 'a', 'u', 's', 'e', 'd'] ==> (play_state_of(k) is None)),
{
    assert(seq!['r', 'u', 'n', 'n', 'i', 'n', 'g'] != seq!['p', 'a', 'u', 's', 'e', 'd']) by {
        assert(seq!['r', 'u', 'n', 'n', 'i', 'n', 'g'].len() != seq!['p', 'a', 'u', 's', 'e', 'd'].len());
    }
}

/// The named colors and their channels (red, green, blue, alpha); no other name is a color.
pub proof fn law_color_keyword_table(k: Seq<char>)
    ensures
        (color_keyword(seq!['b', 'l', 'a', 'c', 'k']) == Some([0u8, 0u8, 0u8, 255u8])),
        (color_keyword(seq!['w', 'h', 'i', 't', 'e']) == Some([255u8, 255u8, 255u8, 255u8])),
        (color_keyword(seq!['r', 'e', 'd']) == Some([255u8, 0u8, 0u8, 255u8])),
        (color_keyword(seq!['b', 'l', 'u', 'e']) == Some([0u8, 0u8, 255u8, 255u8])),
        (color_keyword(seq!['g', 'r', 'e', 'e', 'n']) == Some([0u8, 255u8, 0u8, 255u8])),
        (color_keyword(seq!['t', 'r', 'a', 'n', 's', 'p', 'a', 'r', 'e', 'n', 't']) == Some([0u8, 0u8, 0u8, 0u8])),
        (k != seq!['b', 'l', 'a', 'c', 'k'] && k != seq!['w', 'h', 'i', 't', 'e'] && k != seq!['r', 'e', 'd'] && k != seq!['b', 'l', 'u', 'e'] && k != seq!['g', 'r', 'e', 'e', 'n'] && k != seq!['t', 'r', 'a', 'n', 's', 'p', 'a', 'r', 'e', 'n', 't'] ==> (color_keyword(k) is None)),
{
    assert(seq!['b', 'l', 'a', 'c', 'k'] != seq!['w', 'h', 'i', 't', 'e']) by {
        assert(seq!['b', 'l', 'a', 'c', 'k'][0] != seq!['w', 'h', 'i', 't', 'e'][0]);
    }
    assert(seq!['b', 'l', 'a', 'c', 'k'] != seq!['r', 'e', 'd']) by {
        assert(seq!['b', 'l', 'a', 'c', 'k'].len() != seq!['r', 'e', 'd'].len());
    }
    assert(seq!['w', 'h', 'i', 't', 'e'] != seq!['r', 'e', 'd']) by {
        assert(seq!['w', 'h', 'i', 't', 'e'].len() != seq!['r', 'e', 'd'].len());
    }
    assert(seq!['b', 'l', 'a', 'c', 'k'] != seq!['b', 'l', 'u', 'e']) by {
        assert(seq!['b', 'l', 'a', 'c', 'k'].len() != seq!['b', 'l', 'u', 'e'].len());
    }
    assert(seq!['w', 'h', 'i', 't', 'e'] != seq!['b', 'l', 'u', 'e']) by {
        assert(seq!['w', 'h', 'i', 't', 'e'].len() != seq!['b', 'l', 'u', 'e'].len());
    }
    assert(seq!['r', 'e', 'd'] != seq!['b', 'l', 'u', 'e']) by {
        assert(seq!['r', 'e', 'd'].len() != seq!['b', 'l', 'u', 'e'].len());
    }
    assert(seq!['b', 'l', 'a', 'c', 'k'] != seq!['g', 'r', 'e', 'e', 'n']) by {
        assert(seq!['b', 'l', 'a', 'c', 'k'][0] != seq!['g', 'r', 'e', 'e', 'n'][0]);
    }
    assert(seq!['w', 'h', 'i', 't', 'e'] != seq!['g', 'r', 'e', 'e', 'n']) by {
        assert(seq!['w', 'h', 'i', 't', 'e'][0] != seq!['g', 'r', 'e', 'e', 'n'][0]);
    }
    assert(seq!['r', 'e', 'd'] != seq!['g', 'r', 'e', 'e', 'n']) by {
        assert(seq!['r', 'e', 'd'].len() != seq!['g', 'r', 'e', 'e', 'n'].len());
    }
    assert(seq!['b', 'l', 'u', 'e'] != seq!['g', 'r', 'e', 'e', 'n']) by {
        assert(seq!['b', 'l', 'u', 'e'].len() != seq!['g', 'r', 'e', 'e', 'n'].len());
    }
    assert(seq!['b', 'l', 'a', 'c', 'k'] != seq!['t', 'r', 'a', 'n', 's', 'p', 'a', 'r', 'e', 'n', 't']) by {
        assert(seq!['b', 'l', 'a', 'c', 'k'].len() != seq!['t', 'r', 'a', 'n', 's', 'p', 'a', 'r', 'e', 'n', 't'].len());
    }
    assert(seq!['w', 'h', 'i', 't', 'e'] != seq!['t', 'r', 'a', 'n', 's', 'p', 'a', 'r', 'e', 'n', 't']) by {
        assert(seq!['w', 'h', 'i', 't', 'e'].len() != seq!['t', 'r', 'a', 'n', 's', 'p', 'a', 'r', 'e', 'n', 't'].len());
    }
    assert(seq!['r', 'e', 'd'] != seq!['t', 'r', 'a', 'n', 's', 'p', 'a', 'r', 'e', 'n', 't']) by {
        assert(seq!['r', 'e', 'd'].len() != seq!['t', 'r', 'a', 'n', 's', 'p', 'a', 'r', 'e', 'n', 't'].len());
    }
    assert(seq!['b', 'l', 'u', 'e'] != seq!['t', 'r', 'a', 'n', 's', 'p', 'a', 'r', 'e', 'n', 't']) by {
        assert(seq!['b', 'l', 'u', 'e'].len() != seq!['t', 'r', 'a', 'n', 's', 'p', 'a', 'r', 'e', 'n', 't'].len());
    }
    assert(seq!['g', 'r', 'e', 'e', 'n'] != seq!['t', 'r', 'a', 'n', 's', 'p', 'a', 'r', 'e', 'n', 't']) by {
        assert(seq!['g', 'r', 'e', 'e', 'n'].len() != seq!['t', 'r', 'a', 'n', 's', 'p', 'a', 'r', 'e', 'n', 't'].len());
    }
}

/// The timing function keywords and the function each names; no other keyword names one.
pub proof fn law_timing_of_table(k: Seq<char>)
    ensures
        (timing_of(seq!['e', 'a', 's', 'e']) == Some(TimingFunction::Ease)),
        (timing_of(seq!['e', 'a', 's', 'e', '-', 'i', 'n']) == Some(TimingFunction::EaseIn)),
        (timing_of(seq!['e', 'a', 's', 'e', '-', 'o', 'u', 't']) == Some(TimingFunction::EaseOut)),
        (timing_of(seq!['e', 'a', 's', 'e', '-', 'i', 'n', '-', 'o', 'u', 't']) == Some(TimingFunction::EaseInOut)),
        (timing_of(seq!['l', 'i', 'n', 'e', 'a', 'r']) == Some(TimingFunction::Linear)),
        (timing_of(seq!['s', 't', 'e', 'p', '-', 's', 't', 'a', 'r', 't']) == Some(TimingFunction::StepStart)),
        (timing_of(seq!['s', 't', 'e', 'p', '-', 'e', 'n', 'd']) == Some(TimingFunction::StepEnd)),
        (k != seq!['e', 'a', 's', 'e'] && k != seq!['e', 'a', 's', 'e', '-', 'i', 'n'] && k != seq!['e', 'a', 's', 'e', '-', 'o', 'u', 't'] && k != seq!['e', 'a', 's', 'e', '-', 'i', 'n', '-', 'o', 'u', 't'] && k != seq!['l', 'i', 'n', 'e', 'a', 'r'] && k != seq!['s', 't', 'e', 'p', '-', 's', 't', 'a', 'r', 't'] && k != seq!['s', 't', 'e', 'p', '-', 'e', 'n', 'd'] ==> (timing_of(k) is None)),
{
    assert(seq!['e', 'a', 's', 'e'] != seq!['e', 'a', 's', 'e', '-', 'i', 'n']) by {
        assert(seq!['e', 'a', 's', 'e'].len() != seq!['e', 'a', 's', 'e', '-', 'i', 'n'].len());
    }
    assert(seq!['e', 'a', 's', 'e'] != seq!['e', 'a', 's', 'e', '-', 'o', 'u', 't']) by {
        assert(seq!['e', 'a', 's', 'e'].len() != seq!['e', 'a', 's', 'e', '-', 'o', 'u', 't'].len());
    }
    assert(seq!['e', 'a', 's', 'e', '-', 'i', 'n'] != seq!['e', 'a', 's', 'e', '-', 'o', 'u', 't']) by {
        assert(seq!['e', 'a', 's', 'e', '-', 'i', 'n'].len() != seq!['e', 'a', 's', 'e', '-', 'o', 'u', 't'].len());
    }
    assert(seq!['e', 'a', 's', 'e'] != seq!['e', 'a', 's', 'e', '-', 'i', 'n', '-', 'o', 'u', 't']) by {
        assert(seq!['e', 'a', 's', 'e'].len() != seq!['e', 'a', 's', 'e', '-', 'i', 'n', '-', 'o', 'u', 't'].len());
    }
    assert(seq!['e', 'a', 's', 'e', '-', 'i', 'n'] != seq!['e', 'a', 's', 'e', '-', 'i', 'n', '-', 'o', 'u', 't']) by {
        assert(seq!['e', 'a', 's', 'e', '-', 'i', 'n'].len() != seq!['e', 'a', 's', 'e', '-', 'i', 'n', '-', 'o', 'u', 't'].len());
    }
    assert(seq!['e', 'a', 's', 'e', '-', 'o', 'u', 't'] != seq!['e', 'a', 's', 'e', '-', 'i', 'n', '-', 'o', 'u', 't']) by {
        assert(seq!['e', 'a', 's', 'e', '-', 'o', 'u', 't'].len() != seq!['e', 'a', 's', 'e', '-', 'i', 'n', '-', 'o', 'u', 't'].len());
    }
    assert(seq!['e', 'a', 's', 'e'] != seq!['l', 'i', 'n', 'e', 'a', 'r']) by {
        assert(seq!['e', 'a', 's', 'e'].len() != seq!['l', 'i', 'n', 'e', 'a', 'r'].len());
    }
    assert(seq!['e', 'a', 's', 'e', '-', 'i', 'n'] != seq!['l', 'i', 'n', 'e', 'a', 'r']) by {
        assert(seq!['e', 'a', 's', 'e', '-', 'i', 'n'].len() != seq!['l', 'i', 'n', 'e', 'a', 'r'].len());
    }
    assert(seq!['e', 'a', 's', 'e', '-', 'o', 'u', 't'] != seq!['l', 'i', 'n', 'e', 'a', 'r']) by {
        assert(seq!['e', 'a', 's', 'e', '-', 'o', 'u', 't'].len() != seq!['l', 'i', 'n', 'e', 'a', 'r'].len());
    }
    assert(seq!['e', 'a', 's', 'e', '-', 'i', 'n', '-', 'o', 'u', 't'] != seq!['l', 'i', 'n', 'e', 'a', 'r']) by {
        assert(seq!['e', 'a', 's', 'e', '-', 'i', 'n', '-', 'o', 'u', 't'].len() != seq!['l', 'i', 'n', 'e', 'a', 'r'].len());
    }
    assert(seq!['e', 'a', 's', 'e'] != seq!['s', 't', 'e', 'p', '-', 's', 't', 'a', 'r', 't']) by {
        assert(seq!['e', 'a', 's', 'e'].len() != seq!['s', 't', 'e', 'p', '-', 's', 't', 'a', 'r', 't'].len());
    }
    assert(seq!['e', 'a', 's', 'e', '-', 'i', 'n'] != seq!['s', 't', 'e', 'p', '-', 's', 't', 'a', 'r', 't']) by {
        assert(seq!['e', 'a', 's', 'e', '-', 'i', 'n'].len() != seq!['s', 't', 'e', 'p', '-', 's', 't', 'a', 'r', 't'].len());
    }
    assert(seq!['e', 'a', 's', 'e', '-', 'o', 'u', 't'] != seq!['s', 't', 'e', 'p', '-', 's', 't', 'a', 'r', 't']) by {
        assert(seq!['e', 'a', 's', 'e', '-', 'o', 'u', 't'].len() != seq!['s', 't', 'e', 'p', '-', 's', 't', 'a', 'r', 't'].len());
    }
    assert(seq!['e', 'a', 's', 'e', '-', 'i', 'n', '-', 'o', 'u', 't'] != seq!['s', 't', 'e', 'p', '-', 's', 't', 'a', 'r', 't']) by {
        assert(seq!['e', 'a', 's', 'e', '-', 'i', 'n', '-', 'o', 'u', 't'].len() != seq!['s', 't', 'e', 'p', '-', 's', 't', 'a', 'r', 't'].len());
    }
    assert(seq!['l', 'i', 'n', 'e', 'a', 'r'] != seq!['s', 't', 'e', 'p', '-', 's', 't', 'a', 'r', 't']) by {
        assert(seq!['l', 'i', 'n', 'e', 'a', 'r'].len() != seq!['s', 't', 'e', 'p', '-', 's', 't', 'a', 'r', 't'].len());
    }
    assert(seq!['e', 'a', 's', 'e'] != seq!['s', 't', 'e', 'p', '-', 'e', 'n', 'd']) by {
        assert(seq!['e', 'a', 's', 'e'].len() != seq!['s', 't', 'e', 'p', '-', 'e', 'n', 'd'].len());
    }
    assert(seq!['e', 'a', 's', 'e', '-', 'i', 'n'] != seq!['s', 't', 'e', 'p', '-', 'e', 'n', 'd']) by {
        assert(seq!['e', 'a', 's', 'e', '-', 'i', 'n'].len() != seq!['s', 't', 'e', 'p', '-', 'e', 'n', 'd'].len());
    }
    assert(seq!['e', 'a', 's', 'e', '-', 'o', 'u', 't'] != seq!['s', 't', 'e', 'p', '-', 'e', 'n', 'd']) by {
        assert(seq!['e', 'a', 's', 'e', '-', 'o', 'u', 't'][0] != seq!['s', 't', 'e', 'p', '-', 'e', 'n', 'd'][0]);
    }
    assert(seq!['e', 'a', 's', 'e', '-', 'i', 'n', '-', 'o', 'u', 't'] != seq!['s', 't', 'e', 'p', '-', 'e', 'n', 'd']) by {
        assert(seq!['e', 'a', 's', 'e', '-', 'i', 'n', '-', 'o', 'u', 't'].len() != seq!['s', 't', 'e', 'p', '-', 'e', 'n', 'd'].len());
    }
    assert(seq!['l', 'i', 'n', 'e', 'a', 'r'] != seq!['s', 't', 'e', 'p', '-', 'e', 'n', 'd']) by {
        assert(seq!['l', 'i', 'n', 'e', 'a', 'r'].len() != seq!['s', 't', 'e', 'p', '-', 'e', 'n', 'd'].len());
    }
    assert(seq!['s', 't', 'e', 'p', '-', 's', 't', 'a', 'r', 't'] != seq!['s', 't', 'e', 'p', '-', 'e', 'n', 'd']) by {
        assert(seq!['s', 't', 'e', 'p', '-', 's', 't', 'a', 'r', 't'].len() != seq!['s', 't', 'e', 'p', '-', 'e', 'n', 'd'].len());
    }
}

/// The font weight keywords: `normal` is 400 and `bold` 700; no other keyword names one.
pub proof fn law_font_weight_keyword_table(k: Seq<char>)
    ensures
        (font_weight_keyword(seq!['n', 'o', 'r', 'm', 'a', 'l']) == Some(400u16)),
        (font_weight_keyword(seq!['b', 'o', 'l', 'd']) == Some(700u16)),
        (k != seq!['n', 'o', 'r', 'm', 'a', 'l'] && k != seq!['b', 'o', 'l', 'd'] ==> (font_weight_keyword(k) is None)),
{
    assert(seq!['n', 'o', 'r', 'm', 'a', 'l'] != seq!['b', 'o', 'l', 'd']) by {
        assert(seq!['n', 'o', 'r', 'm', 'a', 'l'].len() != seq!['b', 'o', 'l', 'd'].len());
    }
}


/// The `font-style` keywords `normal`, `italic` and `oblique` name themselves; no other
/// keyword names a font style.
pub proof fn law_font_style_table(k: Seq<char>)
    ensures
        (font_style_of(seq!['n', 'o', 'r', 'm', 'a', 'l']) == Some(seq!['n', 'o', 'r', 'm', 'a', 'l'])),
        (font_style_of(seq!['i', 't', 'a', 'l', 'i', 'c']) == Some(seq!['i', 't', 'a', 'l', 'i', 'c'])),
        (font_style_of(seq!['o', 'b', 'l', 'i', 'q', 'u', 'e']) == Some(seq!['o', 'b', 'l', 'i', 'q', 'u', 'e'])),
        (font_style_of(k) matches Some(x) ==> x == k),
        (k != seq!['n', 'o', 'r', 'm', 'a', 'l'] && k != seq!['i', 't', 'a', 'l', 'i', 'c'] && k != seq!['o', 'b', 'l', 'i', 'q', 'u', 'e'] ==> (font_style_of(k) is None)),
{
}

} // verus!
