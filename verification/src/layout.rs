//! The layout settings that style sheets choose by keyword.
use vstd::prelude::*;
use crate::styles::{is_word, keyword_result, CascadeError};
use crate::text::chars_of;

verus! {

/// What a box does with content that overflows it.
#[derive(Clone, Copy, Debug, PartialEq, Eq)]
pub enum Overflow {
    Visible,
    Hidden,
    Clip,
    Scroll,
}

/// The layout algorithm of a box's children.
#[derive(Clone, Copy, Debug, PartialEq, Eq)]
pub enum Display {
    Block,
    Flex,
    Grid,
}

/// How a box is positioned.
#[derive(Clone, Copy, Debug, PartialEq, Eq)]
pub enum Position {
    Relative,
    Absolute,
}

/// The main axis of a flex container.
#[derive(Clone, Copy, Debug, PartialEq, Eq)]
pub enum FlexDirection {
    Row,
    RowReverse,
    Column,
    ColumnReverse,
}

/// Whether the items of a flex container wrap.
#[derive(Clone, Copy, Debug, PartialEq, Eq)]
pub enum FlexWrap {
    Wrap,
    NoWrap,
    WrapReverse,
}

/// How items are aligned on the cross axis.
#[derive(Clone, Copy, Debug, PartialEq, Eq)]
pub enum AlignItems {
    Start,
    End,
    FlexStart,
    FlexEnd,
    Center,
    Baseline,
    Stretch,
}

/// How lines (or items, on the main axis) are distributed.
#[derive(Clone, Copy, Debug, PartialEq, Eq)]
pub enum AlignContent {
    Start,
    End,
    FlexStart,
    FlexEnd,
    Center,
    Stretch,
    SpaceBetween,
    SpaceEvenly,
    SpaceAround,
}

pub open spec fn overflow_of(k: Seq<char>) -> Option<Overflow> {
    if k == seq!['v', 'i', 's', 'i', 'b', 'l', 'e'] {
        Some(Overflow::Visible)
    } else if k == seq!['h', 'i', 'd', 'd', 'e', 'n'] {
        Some(Overflow::Hidden)
    } else if k == seq!['c', 'l', 'i', 'p'] {
        Some(Overflow::Clip)
    } else if k == seq!['s', 'c', 'r', 'o', 'l', 'l'] {
        Some(Overflow::Scroll)
    } else if k == seq!['a', 'u', 't', 'o'] {
        Some(Overflow::Scroll)
    } else {
        None
    }
}

/// The overflow behavior that an `overflow` keyword names (`auto` scrolls).
pub fn resolve_overflow(keyword: &str) -> (r: Result<Overflow, CascadeError>)
    ensures
        keyword_result(overflow_of(keyword@), r, keyword@),
{
    let k = chars_of(keyword);
    let w0 = ['v', 'i', 's', 'i', 'b', 'l', 'e'];
    assert(w0@ =~= seq!['v', 'i', 's', 'i', 'b', 'l', 'e']);
    let w1 = ['h', 'i', 'd', 'd', 'e', 'n'];
    assert(w1@ =~= seq!['h', 'i', 'd', 'd', 'e', 'n']);
    let w2 = ['c', 'l', 'i', 'p'];
    assert(w2@ =~= seq!['c', 'l', 'i', 'p']);
    let w3 = ['s', 'c', 'r', 'o', 'l', 'l'];
    assert(w3@ =~= seq!['s', 'c', 'r', 'o', 'l', 'l']);
    let w4 = ['a', 'u', 't', 'o'];
    assert(w4@ =~= seq!['a', 'u', 't', 'o']);
    if is_word(&k, &w0) {
        Ok(Overflow::Visible)
    } else if is_word(&k, &w1) {
        Ok(Overflow::Hidden)
    } else if is_word(&k, &w2) {
        Ok(Overflow::Clip)
    } else if is_word(&k, &w3) {
        Ok(Overflow::Scroll)
    } else if is_word(&k, &w4) {
        Ok(Overflow::Scroll)
    } else {
        CascadeError::invalid_keyword(keyword)
    }
}

pub open spec fn display_of(k: Seq<char>) -> Option<Display> {
    if k == seq!['f', 'l', 'o', 'w'] {
        Some(Display::Block)
    } else if k == seq!['b', 'l', 'o', 'c', 'k'] {
        Some(Display::Block)
    } else if k == seq!['f', 'l', 'e', 'x'] {
        Some(Display::Flex)
    } else if k == seq!['g', 'r', 'i', 'd'] {
        Some(Display::Grid)
    } else {
        None
    }
}

/// The layout that a `display` keyword names.
pub fn resolve_display(keyword: &str) -> (r: Result<Display, CascadeError>)
    ensures
        keyword_result(display_of(keyword@), r, keyword@),
{
    let k = chars_of(keyword);
    let w0 = ['f', 'l', 'o', 'w'];
    assert(w0@ =~= seq!['f', 'l', 'o', 'w']);
    let w1 = ['b', 'l', 'o', 'c', 'k'];
    assert(w1@ =~= seq!['b', 'l', 'o', 'c', 'k']);
    let w2 = ['f', 'l', 'e', 'x'];
    assert(w2@ =~= seq!['f', 'l', 'e', 'x']);
    let w3 = ['g', 'r', 'i', 'd'];
    assert(w3@ =~= seq!['g', 'r', 'i', 'd']);
    if is_word(&k, &w0) {
        Ok(Display::Block)
    } else if is_word(&k, &w1) {
        Ok(Display::Block)
    } else if is_word(&k, &w2) {
        Ok(Display::Flex)
    } else if is_word(&k, &w3) {
        Ok(Display::Grid)
    } else {
        CascadeError::invalid_keyword(keyword)
    }
}

pub open spec fn position_of(k: Seq<char>) -> Option<Position> {
    if k == seq!['r', 'e', 'l', 'a', 't', 'i', 'v', 'e'] {
        Some(Position::Relative)
    } else if k == seq!['a', 'b', 's', 'o', 'l', 'u', 't', 'e'] {
        Some(Position::Absolute)
    } else {
        None
    }
}

/// The positioning that a `position` keyword names.
pub fn resolve_position(keyword: &str) -> (r: Result<Position, CascadeError>)
    ensures
        keyword_result(position_of(keyword@), r, keyword@),
{
    let k = chars_of(keyword);
    let w0 = ['r', 'e', 'l', 'a', 't', 'i', 'v', 'e'];
    assert(w0@ =~= seq!['r', 'e', 'l', 'a', 't', 'i', 'v', 'e']);
    let w1 = ['a', 'b', 's', 'o', 'l', 'u', 't', 'e'];
    assert(w1@ =~= seq!['a', 'b', 's', 'o', 'l', 'u', 't', 'e']);
    if is_word(&k, &w0) {
        Ok(Position::Relative)
    } else if is_word(&k, &w1) {
        Ok(Position::Absolute)
    } else {
        CascadeError::invalid_keyword(keyword)
    }
}

pub open spec fn flex_direction_of(k: Seq<char>) -> Option<FlexDirection> {
    if k == seq!['r', 'o', 'w'] {
        Some(FlexDirection::Row)
    } else if k == seq!['r', 'o', 'w', '-', 'r', 'e', 'v', 'e', 'r', 's', 'e'] {
        Some(FlexDirection::RowReverse)
    } else if k == seq!['c', 'o', 'l', 'u', 'm', 'n'] {
        Some(FlexDirection::Column)
    } else if k == seq!['c', 'o', 'l', 'u', 'm', 'n', '-', 'r', 'e', 'v', 'e', 'r', 's', 'e'] {
        Some(FlexDirection::ColumnReverse)
    } else {
        None
    }
}

/// The main axis that a `flex-direction` keyword names.
pub fn resolve_flex_direction(keyword: &str) -> (r: Result<FlexDirection, CascadeError>)
    ensures
        keyword_result(flex_direction_of(keyword@), r, keyword@),
{
    let k = chars_of(keyword);
    let w0 = ['r', 'o', 'w'];
    assert(w0@ =~= seq!['r', 'o', 'w']);
    let w1 = ['r', 'o', 'w', '-', 'r', 'e', 'v', 'e', 'r', 's', 'e'];
    assert(w1@ =~= seq!['r', 'o', 'w', '-', 'r', 'e', 'v', 'e', 'r', 's', 'e']);
    let w2 = ['c', 'o', 'l', 'u', 'm', 'n'];
    assert(w2@ =~= seq!['c', 'o', 'l', 'u', 'm', 'n']);
    let w3 = ['c', 'o', 'l', 'u', 'm', 'n', '-', 'r', 'e', 'v', 'e', 'r', 's', 'e'];
    assert(w3@ =~= seq!['c', 'o', 'l', 'u', 'm', 'n', '-', 'r', 'e', 'v', 'e', 'r', 's', 'e']);
    if is_word(&k, &w0) {
        Ok(FlexDirection::Row)
    } else if is_word(&k, &w1) {
        Ok(FlexDirection::RowReverse)
    } else if is_word(&k, &w2) {
        Ok(FlexDirection::Column)
    } else if is_word(&k, &w3) {
        Ok(FlexDirection::ColumnReverse)
    } else {
        CascadeError::invalid_keyword(keyword)
    }
}

pub open spec fn flex_wrap_of(k: Seq<char>) -> Option<FlexWrap> {
    if k == seq!['w', 'r', 'a', 'p'] {
        Some(FlexWrap::Wrap)
    } else if k == seq!['n', 'o', 'w', 'r', 'a', 'p'] {
        Some(FlexWrap::NoWrap)
    } else if k == seq!['w', 'r', 'a', 'p', '-', 'r', 'e', 'v', 'e', 'r', 's', 'e'] {
        Some(FlexWrap::WrapReverse)
    } else {
        None
    }
}

/// The wrapping that a `flex-wrap` keyword names.
pub fn resolve_flex_wrap(keyword: &str) -> (r: Result<FlexWrap, CascadeError>)
    ensures
        keyword_result(flex_wrap_of(keyword@), r, keyword@),
{
    let k = chars_of(keyword);
    let w0 = ['w', 'r', 'a', 'p'];
    assert(w0@ =~= seq!['w', 'r', 'a', 'p']);
    let w1 = ['n', 'o', 'w', 'r', 'a', 'p'];
    assert(w1@ =~= seq!['n', 'o', 'w', 'r', 'a', 'p']);
    let w2 = ['w', 'r', 'a', 'p', '-', 'r', 'e', 'v', 'e', 'r', 's', 'e'];
    assert(w2@ =~= seq!['w', 'r', 'a', 'p', '-', 'r', 'e', 'v', 'e', 'r', 's', 'e']);
    if is_word(&k, &w0) {
        Ok(FlexWrap::Wrap)
    } else if is_word(&k, &w1) {
        Ok(FlexWrap::NoWrap)
    } else if is_word(&k, &w2) {
        Ok(FlexWrap::WrapReverse)
    } else {
        CascadeError::invalid_keyword(keyword)
    }
}

pub open spec fn align_items_of(k: Seq<char>) -> Option<Option<AlignItems>> {
    if k == seq!['n', 'o', 'r', 'm', 'a', 'l'] {
        Some(None)
    } else if k == seq!['s', 't', 'a', 'r', 't'] {
        Some(Some(AlignItems::Start))
    } else if k == seq!['e', 'n', 'd'] {
        Some(Some(AlignItems::End))
    } else if k == seq!['f', 'l', 'e', 'x', '-', 's', 't', 'a', 'r', 't'] {
        Some(Some(AlignItems::FlexStart))
    } else if k == seq!['f', 'l', 'e', 'x', '-', 'e', 'n', 'd'] {
        Some(Some(AlignItems::FlexEnd))
    } else if k == seq!['c', 'e', 'n', 't', 'e', 'r'] {
        Some(Some(AlignItems::Center))
    } else if k == seq!['b', 'a', 's', 'e', 'l', 'i', 'n', 'e'] {
        Some(Some(AlignItems::Baseline))
    } else if k == seq!['s', 't', 'r', 'e', 't', 'c', 'h'] {
        Some(Some(AlignItems::Stretch))
    } else {
        None
    }
}

/// The alignment that an `align-items`, `align-self`, `justify-items` or `justify-self` keyword names; `normal` names none.
pub fn map_align_items(keyword: &str) -> (r: Result<Option<AlignItems>, CascadeError>)
    ensures
        keyword_result(align_items_of(keyword@), r, keyword@),
{
    let k = chars_of(keyword);
    let w0 = ['n', 'o', 'r', 'm', 'a', 'l'];
    assert(w0@ =~= seq!['n', 'o', 'r', 'm', 'a', 'l']);
    let w1 = ['s', 't', 'a', 'r', 't'];
    assert(w1@ =~= seq!['s', 't', 'a', 'r', 't']);
    let w2 = ['e', 'n', 'd'];
    assert(w2@ =~= seq!['e', 'n', 'd']);
    let w3 = ['f', 'l', 'e', 'x', '-', 's', 't', 'a', 'r', 't'];
    assert(w3@ =~= seq!['f', 'l', 'e', 'x', '-', 's', 't', 'a', 'r', 't']);
    let w4 = ['f', 'l', 'e', 'x', '-', 'e', 'n', 'd'];
    assert(w4@ =~= seq!['f', 'l', 'e', 'x', '-', 'e', 'n', 'd']);
    let w5 = ['c', 'e', 'n', 't', 'e', 'r'];
    assert(w5@ =~= seq!['c', 'e', 'n', 't', 'e', 'r']);
    let w6 = ['b', 'a', 's', 'e', 'l', 'i', 'n', 'e'];
    assert(w6@ =~= seq!['b', 'a', 's', 'e', 'l', 'i', 'n', 'e']);
    let w7 = ['s', 't', 'r', 'e', 't', 'c', 'h'];
    assert(w7@ =~= seq!['s', 't', 'r', 'e', 't', 'c', 'h']);
    if is_word(&k, &w0) {
        Ok(None)
    } else if is_word(&k, &w1) {
        Ok(Some(AlignItems::Start))
    } else if is_word(&k, &w2) {
        Ok(Some(AlignItems::End))
    } else if is_word(&k, &w3) {
        Ok(Some(AlignItems::FlexStart))
    } else if is_word(&k, &w4) {
        Ok(Some(AlignItems::FlexEnd))
    } else if is_word(&k, &w5) {
        Ok(Some(AlignItems::Center))
    } else if is_word(&k, &w6) {
        Ok(Some(AlignItems::Baseline))
    } else if is_word(&k, &w7) {
        Ok(Some(AlignItems::Stretch))
    } else {
        CascadeError::invalid_keyword(keyword)
    }
}

pub open spec fn align_content_of(k: Seq<char>) -> Option<Option<AlignContent>> {
    if k == seq!['n', 'o', 'r', 'm', 'a', 'l'] {
        Some(None)
    } else if k == seq!['s', 't', 'a', 'r', 't'] {
        Some(Some(AlignContent::Start))
    } else if k == seq!['e', 'n', 'd'] {
        Some(Some(AlignContent::End))
    } else if k == seq!['f', 'l', 'e', 'x', '-', 's', 't', 'a', 'r', 't'] {
        Some(Some(AlignContent::FlexStart))
    } else if k == seq!['f', 'l', 'e', 'x', '-', 'e', 'n', 'd'] {
        Some(Some(AlignContent::FlexEnd))
    } else if k == seq!['c', 'e', 'n', 't', 'e', 'r'] {
        Some(Some(AlignContent::Center))
    } else if k == seq!['s', 't', 'r', 'e', 't', 'c', 'h'] {
        Some(Some(AlignContent::Stretch))
    } else if k == seq!['s', 'p', 'a', 'c', 'e', '-', 'b', 'e', 't', 'w', 'e', 'e', 'n'] {
        Some(Some(AlignContent::SpaceBetween))
    } else if k == seq!['s', 'p', 'a', 'c', 'e', '-', 'e', 'v', 'e', 'n', 'l', 'y'] {
        Some(Some(AlignContent::SpaceEvenly))
    } else if k == seq!['s', 'p', 'a', 'c', 'e', '-', 'a', 'r', 'o', 'u', 'n', 'd'] {
        Some(Some(AlignContent::SpaceAround))
    } else {
        None
    }
}

/// The alignment that an `align-content` or `justify-content` keyword names; `normal` names none.
pub fn map_align_content(keyword: &str) -> (r: Result<Option<AlignContent>, CascadeError>)
    ensures
        keyword_result(align_content_of(keyword@), r, keyword@),
{
    let k = chars_of(keyword);
    let w0 = ['n', 'o', 'r', 'm', 'a', 'l'];
    assert(w0@ =~= seq!['n', 'o', 'r', 'm', 'a', 'l']);
    let w1 = ['s', 't', 'a', 'r', 't'];
    assert(w1@ =~= seq!['s', 't', 'a', 'r', 't']);
    let w2 = ['e', 'n', 'd'];
    assert(w2@ =~= seq!['e', 'n', 'd']);
    let w3 = ['f', 'l', 'e', 'x', '-', 's', 't', 'a', 'r', 't'];
    assert(w3@ =~= seq!['f', 'l', 'e', 'x', '-', 's', 't', 'a', 'r', 't']);
    let w4 = ['f', 'l', 'e', 'x', '-', 'e', 'n', 'd'];
    assert(w4@ =~= seq!['f', 'l', 'e', 'x', '-', 'e', 'n', 'd']);
    let w5 = ['c', 'e', 'n', 't', 'e', 'r'];
    assert(w5@ =~= seq!['c', 'e', 'n', 't', 'e', 'r']);
    let w6 = ['s', 't', 'r', 'e', 't', 'c', 'h'];
    assert(w6@ =~= seq!['s', 't', 'r', 'e', 't', 'c', 'h']);
    let w7 = ['s', 'p', 'a', 'c', 'e', '-', 'b', 'e', 't', 'w', 'e', 'e', 'n'];
    assert(w7@ =~= seq!['s', 'p', 'a', 'c', 'e', '-', 'b', 'e', 't', 'w', 'e', 'e', 'n']);
    let w8 = ['s', 'p', 'a', 'c', 'e', '-', 'e', 'v', 'e', 'n', 'l', 'y'];
    assert(w8@ =~= seq!['s', 'p', 'a', 'c', 'e', '-', 'e', 'v', 'e', 'n', 'l', 'y']);
    let w9 = ['s', 'p', 'a', 'c', 'e', '-', 'a', 'r', 'o', 'u', 'n', 'd'];
    assert(w9@ =~= seq!['s', 'p', 'a', 'c', 'e', '-', 'a', 'r', 'o', 'u', 'n', 'd']);
    if is_word(&k, &w0) {
        Ok(None)
    } else if is_word(&k, &w1) {
        Ok(Some(AlignContent::Start))
    } else if is_word(&k, &w2) {
        Ok(Some(AlignContent::End))
    } else if is_word(&k, &w3) {
        Ok(Some(AlignContent::FlexStart))
    } else if is_word(&k, &w4) {
        Ok(Some(AlignContent::FlexEnd))
    } else if is_word(&k, &w5) {
        Ok(Some(AlignContent::Center))
    } else if is_word(&k, &w6) {
        Ok(Some(AlignContent::Stretch))
    } else if is_word(&k, &w7) {
        Ok(Some(AlignContent::SpaceBetween))
    } else if is_word(&k, &w8) {
        Ok(Some(AlignContent::SpaceEvenly))
    } else if is_word(&k, &w9) {
        Ok(Some(AlignContent::SpaceAround))
    } else {
        CascadeError::invalid_keyword(keyword)
    }
}

/// The `overflow` keywords and what each names (`auto` scrolls); no other keyword names one.
pub proof fn law_overflow_of_table(k: Seq<char>)
    ensures
        (overflow_of(seq!['v', 'i', 's', 'i', 'b', 'l', 'e']) == Some(Overflow::Visible)),
        (overflow_of(seq!['h', 'i', 'd', 'd', 'e', 'n']) == Some(Overflow::Hidden)),
        (overflow_of(seq!['c', 'l', 'i', 'p']) == Some(Overflow::Clip)),
        (overflow_of(seq!['s', 'c', 'r', 'o', 'l', 'l']) == Some(Overflow::Scroll)),
        (overflow_of(seq!['a', 'u', 't', 'o']) == Some(Overflow::Scroll)),
        (k != seq!['v', 'i', 's', 'i', 'b', 'l', 'e'] && k != seq!['h', 'i', 'd', 'd', 'e', 'n'] && k != seq!['c', 'l', 'i', 'p'] && k != seq!['s', 'c', 'r', 'o', 'l', 'l'] && k != seq!['a', 'u', 't', 'o'] ==> (overflow_of(k) is None)),
{
    assert(seq!['v', 'i', 's', 'i', 'b', 'l', 'e'] != seq!['h', 'i', 'd', 'd', 'e', 'n']) by {
        assert(seq!['v', 'i', 's', 'i', 'b', 'l', 'e'].len() != seq!['h', 'i', 'd', 'd', 'e', 'n'].len());
    }
    assert(seq!['v', 'i', 's', 'i', 'b', 'l', 'e'] != seq!['c', 'l', 'i', 'p']) by {
        assert(seq!['v', 'i', 's', 'i', 'b', 'l', 'e'].len() != seq!['c', 'l', 'i', 'p'].len());
    }
    assert(seq!['h', 'i', 'd', 'd', 'e', 'n'] != seq!['c', 'l', 'i', 'p']) by {
        assert(seq!['h', 'i', 'd', 'd', 'e', 'n'].len() != seq!['c', 'l', 'i', 'p'].len());
    }
    assert(seq!['v', 'i', 's', 'i', 'b', 'l', 'e'] != seq!['s', 'c', 'r', 'o', 'l', 'l']) by {
        assert(seq!['v', 'i', 's', 'i', 'b', 'l', 'e'].len() != seq!['s', 'c', 'r', 'o', 'l', 'l'].len());
    }
    assert(seq!['h', 'i', 'd', 'd', 'e', 'n'] != seq!['s', 'c', 'r', 'o', 'l', 'l']) by {
        assert(seq!['h', 'i', 'd', 'd', 'e', 'n'][0] != seq!['s', 'c', 'r', 'o', 'l', 'l'][0]);
    }
    assert(seq!['c', 'l', 'i', 'p'] != seq!['s', 'c', 'r', 'o', 'l', 'l']) by {
        assert(seq!['c', 'l', 'i', 'p'].len() != seq!['s', 'c', 'r', 'o', 'l', 'l'].len());
    }
    assert(seq!['v', 'i', 's', 'i', 'b', 'l', 'e'] != seq!['a', 'u', 't', 'o']) by {
        assert(seq!['v', 'i', 's', 'i', 'b', 'l', 'e'].len() != seq!['a', 'u', 't', 'o'].len());
    }
    assert(seq!['h', 'i', 'd', 'd', 'e', 'n'] != seq!['a', 'u', 't', 'o']) by {
        assert(seq!['h', 'i', 'd', 'd', 'e', 'n'].len() != seq!['a', 'u', 't', 'o'].len());
    }
    assert(seq!['c', 'l', 'i', 'p'] != seq!['a', 'u', 't', 'o']) by {
        assert(seq!['c', 'l', 'i', 'p'][0] != seq!['a', 'u', 't', 'o'][0]);
    }
    assert(seq!['s', 'c', 'r', 'o', 'l', 'l'] != seq!['a', 'u', 't', 'o']) by {
        assert(seq!['s', 'c', 'r', 'o', 'l', 'l'].len() != seq!['a', 'u', 't', 'o'].len());
    }
}

/// The `display` keywords and the layout each names (`flow` is a block); no other keyword names one.
pub proof fn law_display_of_table(k: Seq<char>)
    ensures
        (display_of(seq!['f', 'l', 'o', 'w']) == Some(Display::Block)),
        (display_of(seq!['b', 'l', 'o', 'c', 'k']) == Some(Display::Block)),
        (display_of(seq!['f', 'l', 'e', 'x']) == Some(Display::Flex)),
        (display_of(seq!['g', 'r', 'i', 'd']) == Some(Display::Grid)),
        (k != seq!['f', 'l', 'o', 'w'] && k != seq!['b', 'l', 'o', 'c', 'k'] && k != seq!['f', 'l', 'e', 'x'] && k != seq!['g', 'r', 'i', 'd'] ==> (display_of(k) is None)),
{
    assert(seq!['f', 'l', 'o', 'w'] != seq!['b', 'l', 'o', 'c', 'k']) by {
        assert(seq!['f', 'l', 'o', 'w'].len() != seq!['b', 'l', 'o', 'c', 'k'].len());
    }
    assert(seq!['f', 'l', 'o', 'w'] != seq!['f', 'l', 'e', 'x']) by {
        assert(seq!['f', 'l', 'o', 'w'][2] != seq!['f', 'l', 'e', 'x'][2]);
    }
    assert(seq!['b', 'l', 'o', 'c', 'k'] != seq!['f', 'l', 'e', 'x']) by {
        assert(seq!['b', 'l', 'o', 'c', 'k'].len() != seq!['f', 'l', 'e', 'x'].len());
    }
    assert(seq!['f', 'l', 'o', 'w'] != seq!['g', 'r', 'i', 'd']) by {
        assert(seq!['f', 'l', 'o', 'w'][0] != seq!['g', 'r', 'i', 'd'][0]);
    }
    assert(seq!['b', 'l', 'o', 'c', 'k'] != seq!['g', 'r', 'i', 'd']) by {
        assert(seq!['b', 'l', 'o', 'c', 'k'].len() != seq!['g', 'r', 'i', 'd'].len());
    }
    assert(seq!['f', 'l', 'e', 'x'] != seq!['g', 'r', 'i', 'd']) by {
        assert(seq!['f', 'l', 'e', 'x'][0] != seq!['g', 'r', 'i', 'd'][0]);
    }
}

/// The `position` keywords and the positioning each names; no other keyword names one.
pub proof fn law_position_of_table(k: Seq<char>)
    ensures
        (position_of(seq!['r', 'e', 'l', 'a', 't', 'i', 'v', 'e']) == Some(Position::Relative)),
        (position_of(seq!['a', 'b', 's', 'o', 'l', 'u', 't', 'e']) == Some(Position::Absolute)),
        (k != seq!['r', 'e', 'l', 'a', 't', 'i', 'v', 'e'] && k != seq!['a', 'b', 's', 'o', 'l', 'u', 't', 'e'] ==> (position_of(k) is None)),
{
    assert(seq!['r', 'e', 'l', 'a', 't', 'i', 'v', 'e'] != seq!['a', 'b', 's', 'o', 'l', 'u', 't', 'e']) by {
        assert(seq!['r', 'e', 'l', 'a', 't', 'i', 'v', 'e'][0] != seq!['a', 'b', 's', 'o', 'l', 'u', 't', 'e'][0]);
    }
}

/// The `flex-direction` keywords and the direction each names; no other keyword names one.
pub proof fn law_flex_direction_of_table(k: Seq<char>)
    ensures
        (flex_direction_of(seq!['r', 'o', 'w']) == Some(FlexDirection::Row)),
        (flex_direction_of(seq!['r', 'o', 'w', '-', 'r', 'e', 'v', 'e', 'r', 's', 'e']) == Some(FlexDirection::RowReverse)),
        (flex_direction_of(seq!['c', 'o', 'l', 'u', 'm', 'n']) == Some(FlexDirection::Column)),
        (flex_direction_of(seq!['c', 'o', 'l', 'u', 'm', 'n', '-', 'r', 'e', 'v', 'e', 'r', 's', 'e']) == Some(FlexDirection::ColumnReverse)),
        (k != seq!['r', 'o', 'w'] && k != seq!['r', 'o', 'w', '-', 'r', 'e', 'v', 'e', 'r', 's', 'e'] && k != seq!['c', 'o', 'l', 'u', 'm', 'n'] && k != seq!['c', 'o', 'l', 'u', 'm', 'n', '-', 'r', 'e', 'v', 'e', 'r', 's', 'e'] ==> (flex_direction_of(k) is None)),
{
    assert(seq!['r', 'o', 'w'] != seq!['r', 'o', 'w', '-', 'r', 'e', 'v', 'e', 'r', 's', 'e']) by {
        assert(seq!['r', 'o', 'w'].len() != seq!['r', 'o', 'w', '-', 'r', 'e', 'v', 'e', 'r', 's', 'e'].len());
    }
    assert(seq!['r', 'o', 'w'] != seq!['c', 'o', 'l', 'u', 'm', 'n']) by {
        assert(seq!['r', 'o', 'w'].len() != seq!['c', 'o', 'l', 'u', 'm', 'n'].len());
    }
    assert(seq!['r', 'o', 'w', '-', 'r', 'e', 'v', 'e', 'r', 's', 'e'] != seq!['c', 'o', 'l', 'u', 'm', 'n']) by {
        assert(seq!['r', 'o', 'w', '-', 'r', 'e', 'v', 'e', 'r', 's', 'e'].len() != seq!['c', 'o', 'l', 'u', 'm', 'n'].len());
    }
    assert(seq!['r', 'o', 'w'] != seq!['c', 'o', 'l', 'u', 'm', 'n', '-', 'r', 'e', 'v', 'e', 'r', 's', 'e']) by {
        assert(seq!['r', 'o', 'w'].len() != seq!['c', 'o', 'l', 'u', 'm', 'n', '-', 'r', 'e', 'v', 'e', 'r', 's', 'e'].len());
    }
    assert(seq!['r', 'o', 'w', '-', 'r', 'e', 'v', 'e', 'r', 's', 'e'] != seq!['c', 'o', 'l', 'u', 'm', 'n', '-', 'r', 'e', 'v', 'e', 'r', 's', 'e']) by {
        assert(seq!['r', 'o', 'w', '-', 'r', 'e', 'v', 'e', 'r', 's', 'e'].len() != seq!['c', 'o', 'l', 'u', 'm', 'n', '-', 'r', 'e', 'v', 'e', 'r', 's', 'e'].len());
    }
    assert(seq!['c', 'o', 'l', 'u', 'm', 'n'] != seq!['c', 'o', 'l', 'u', 'm', 'n', '-', 'r', 'e', 'v', 'e', 'r', 's', 'e']) by {
        assert(seq!['c', 'o', 'l', 'u', 'm', 'n'].len() != seq!['c', 'o', 'l', 'u', 'm', 'n', '-', 'r', 'e', 'v', 'e', 'r', 's', 'e'].len());
    }
}

/// The `flex-wrap` keywords and the wrapping each names; no other keyword names one.
pub proof fn law_flex_wrap_of_table(k: Seq<char>)
    ensures
        (flex_wrap_of(seq!['w', 'r', 'a', 'p']) == Some(FlexWrap::Wrap)),
        (flex_wrap_of(seq!['n', 'o', 'w', 'r', 'a', 'p']) == Some(FlexWrap::NoWrap)),
        (flex_wrap_of(seq!['w', 'r', 'a', 'p', '-', 'r', 'e', 'v', 'e', 'r', 's', 'e']) == Some(FlexWrap::WrapReverse)),
        (k != seq!['w', 'r', 'a', 'p'] && k != seq!['n', 'o', 'w', 'r', 'a', 'p'] && k != seq!['w', 'r', 'a', 'p', '-', 'r', 'e', 'v', 'e', 'r', 's', 'e'] ==> (flex_wrap_of(k) is None)),
{
    assert(seq!['w', 'r', 'a', 'p'] != seq!['n', 'o', 'w', 'r', 'a', 'p']) by {
        assert(seq!['w', 'r', 'a', 'p'].len() != seq!['n', 'o', 'w', 'r', 'a', 'p'].len());
    }
    assert(seq!['w', 'r', 'a', 'p'] != seq!['w', 'r', 'a', 'p', '-', 'r', 'e', 'v', 'e', 'r', 's', 'e']) by {
        assert(seq!['w', 'r', 'a', 'p'].len() != seq!['w', 'r', 'a', 'p', '-', 'r', 'e', 'v', 'e', 'r', 's', 'e'].len());
    }
    assert(seq!['n', 'o', 'w', 'r', 'a', 'p'] != seq!['w', 'r', 'a', 'p', '-', 'r', 'e', 'v', 'e', 'r', 's', 'e']) by {
        assert(seq!['n', 'o', 'w', 'r', 'a', 'p'].len() != seq!['w', 'r', 'a', 'p', '-', 'r', 'e', 'v', 'e', 'r', 's', 'e'].len());
    }
}

/// The item alignment keywords and the alignment each names (`normal` names none); no other keyword names one.
pub proof fn law_align_items_of_table(k: Seq<char>)
    ensures
        (align_items_of(seq!['n', 'o', 'r', 'm', 'a', 'l']) == Some(None::<AlignItems>)),
        (align_items_of(seq!['s', 't', 'a', 'r', 't']) == Some(Some(AlignItems::Start))),
        (align_items_of(seq!['e', 'n', 'd']) == Some(Some(AlignItems::End))),
        (align_items_of(seq!['f', 'l', 'e', 'x', '-', 's', 't', 'a', 'r', 't']) == Some(Some(AlignItems::FlexStart))),
        (align_items_of(seq!['f', 'l', 'e', 'x', '-', 'e', 'n', 'd']) == Some(Some(AlignItems::FlexEnd))),
        (align_items_of(seq!['c', 'e', 'n', 't', 'e', 'r']) == Some(Some(AlignItems::Center))),
        (align_items_of(seq!['b', 'a', 's', 'e', 'l', 'i', 'n', 'e']) == Some(Some(AlignItems::Baseline))),
        (align_items_of(seq!['s', 't', 'r', 'e', 't', 'c', 'h']) == Some(Some(AlignItems::Stretch))),
        (k != seq!['n', 'o', 'r', 'm', 'a', 'l'] && k != seq!['s', 't', 'a', 'r', 't'] && k != seq!['e', 'n', 'd'] && k != seq!['f', 'l', 'e', 'x', '-', 's', 't', 'a', 'r', 't'] && k != seq!['f', 'l', 'e', 'x', '-', 'e', 'n', 'd'] && k != seq!['c', 'e', 'n', 't', 'e', 'r'] && k != seq!['b', 'a', 's', 'e', 'l', 'i', 'n', 'e'] && k != seq!['s', 't', 'r', 'e', 't', 'c', 'h'] ==> (align_items_of(k) is None)),
{
    assert(seq!['n', 'o', 'r', 'm', 'a', 'l'] != seq!['s', 't', 'a', 'r', 't']) by {
        assert(seq!['n', 'o', 'r', 'm', 'a', 'l'].len() != seq!['s', 't', 'a', 'r', 't'].len());
    }
    assert(seq!['n', 'o', 'r', 'm', 'a', 'l'] != seq!['e', 'n', 'd']) by {
        assert(seq!['n', 'o', 'r', 'm', 'a', 'l'].len() != seq!['e', 'n', 'd'].len());
    }
    assert(seq!['s', 't', 'a', 'r', 't'] != seq!['e', 'n', 'd']) by {
        assert(seq!['s', 't', 'a', 'r', 't'].len() != seq!['e', 'n', 'd'].len());
    }
    assert(seq!['n', 'o', 'r', 'm', 'a', 'l'] != seq!['f', 'l', 'e', 'x', '-', 's', 't', 'a', 'r', 't']) by {
        assert(seq!['n', 'o', 'r', 'm', 'a', 'l'].len() != seq!['f', 'l', 'e', 'x', '-', 's', 't', 'a', 'r', 't'].len());
    }
    assert(seq!['s', 't', 'a', 'r', 't'] != seq!['f', 'l', 'e', 'x', '-', 's', 't', 'a', 'r', 't']) by {
        assert(seq!['s', 't', 'a', 'r', 't'].len() != seq!['f', 'l', 'e', 'x', '-', 's', 't', 'a', 'r', 't'].len());
    }
    assert(seq!['e', 'n', 'd'] != seq!['f', 'l', 'e', 'x', '-', 's', 't', 'a', 'r', 't']) by {
        assert(seq!['e', 'n', 'd'].len() != seq!['f', 'l', 'e', 'x', '-', 's', 't', 'a', 'r', 't'].len());
    }
    assert(seq!['n', 'o', 'r', 'm', 'a', 'l'] != seq!['f', 'l', 'e', 'x', '-', 'e', 'n', 'd']) by {
        assert(seq!['n', 'o', 'r', 'm', 'a', 'l'].len() != seq!['f', 'l', 'e', 'x', '-', 'e', 'n', 'd'].len());
    }
    assert(seq!['s', 't', 'a', 'r', 't'] != seq!['f', 'l', 'e', 'x', '-', 'e', 'n', 'd']) by {
        assert(seq!['s', 't', 'a', 'r', 't'].len() != seq!['f', 'l', 'e', 'x', '-', 'e', 'n', 'd'].len());
    }
    assert(seq!['e', 'n', 'd'] != seq!['f', 'l', 'e', 'x', '-', 'e', 'n', 'd']) by {
        assert(seq!['e', 'n', 'd'].len() != seq!['f', 'l', 'e', 'x', '-', 'e', 'n', 'd'].len());
    }
    assert(seq!['f', 'l', 'e', 'x', '-', 's', 't', 'a', 'r', 't'] != seq!['f', 'l', 'e', 'x', '-', 'e', 'n', 'd']) by {
        assert(seq!['f', 'l', 'e', 'x', '-', 's', 't', 'a', 'r', 't'].len() != seq!['f', 'l', 'e', 'x', '-', 'e', 'n', 'd'].len());
    }
    assert(seq!['n', 'o', 'r', 'm', 'a', 'l'] != seq!['c', 'e', 'n', 't', 'e', 'r']) by {
        assert(seq!['n', 'o', 'r', 'm', 'a', 'l'][0] != seq!['c', 'e', 'n', 't', 'e', 'r'][0]);
    }
    assert(seq!['s', 't', 'a', 'r', 't'] != seq!['c', 'e', 'n', 't', 'e', 'r']) by {
        assert(seq!['s', 't', 'a', 'r', 't'].len() != seq!['c', 'e', 'n', 't', 'e', 'r'].len());
    }
    assert(seq!['e', 'n', 'd'] != seq!['c', 'e', 'n', 't', 'e', 'r']) by {
        assert(seq!['e', 'n', 'd'].len() != seq!['c', 'e', 'n', 't', 'e', 'r'].len());
    }
    assert(seq!['f', 'l', 'e', 'x', '-', 's', 't', 'a', 'r', 't'] != seq!['c', 'e', 'n', 't', 'e', 'r']) by {
        assert(seq!['f', 'l', 'e', 'x', '-', 's', 't', 'a', 'r', 't'].len() != seq!['c', 'e', 'n', 't', 'e', 'r'].len());
    }
    assert(seq!['f', 'l', 'e', 'x', '-', 'e', 'n', 'd'] != seq!['c', 'e', 'n', 't', 'e', 'r']) by {
        assert(seq!['f', 'l', 'e', 'x', '-', 'e', 'n', 'd'].len() != seq!['c', 'e', 'n', 't', 'e', 'r'].len());
    }
    assert(seq!['n', 'o', 'r', 'm', 'a', 'l'] != seq!['b', 'a', 's', 'e', 'l', 'i', 'n', 'e']) by {
        assert(seq!['n', 'o', 'r', 'm', 'a', 'l'].len() != seq!['b', 'a', 's', 'e', 'l', 'i', 'n', 'e'].len());
    }
    assert(seq!['s', 't', 'a', 'r', 't'] != seq!['b', 'a', 's', 'e', 'l', 'i', 'n', 'e']) by {
        assert(seq!['s', 't', 'a', 'r', 't'].len() != seq!['b', 'a', 's', 'e', 'l', 'i', 'n', 'e'].len());
    }
    assert(seq!['e', 'n', 'd'] != seq!['b', 'a', 's', 'e', 'l', 'i', 'n', 'e']) by {
        assert(seq!['e', 'n', 'd'].len() != seq!['b', 'a', 's', 'e', 'l', 'i', 'n', 'e'].len());
    }
    assert(seq!['f', 'l', 'e', 'x', '-', 's', 't', 'a', 'r', 't'] != seq!['b', 'a', 's', 'e', 'l', 'i', 'n', 'e']) by {
        assert(seq!['f', 'l', 'e', 'x', '-', 's', 't', 'a', 'r', 't'].len() != seq!['b', 'a', 's', 'e', 'l', 'i', 'n', 'e'].len());
    }
    assert(seq!['f', 'l', 'e', 'x', '-', 'e', 'n', 'd'] != seq!['b', 'a', 's', 'e', 'l', 'i', 'n', 'e']) by {
        assert(seq!['f', 'l', 'e', 'x', '-', 'e', 'n', 'd'][0] != seq!['b', 'a', 's', 'e', 'l', 'i', 'n', 'e'][0]);
    }
    assert(seq!['c', 'e', 'n', 't', 'e', 'r'] != seq!['b', 'a', 's', 'e', 'l', 'i', 'n', 'e']) by {
        assert(seq!['c', 'e', 'n', 't', 'e', 'r'].len() != seq!['b', 'a', 's', 'e', 'l', 'i', 'n', 'e'].len());
    }
    assert(seq!['n', 'o', 'r', 'm', 'a', 'l'] != seq!['s', 't', 'r', 'e', 't', 'c', 'h']) by {
        assert(seq!['n', 'o', 'r', 'm', 'a', 'l'].len() != seq!['s', 't', 'r', 'e', 't', 'c', 'h'].len());
    }
    assert(seq!['s', 't', 'a', 'r', 't'] != seq!['s', 't', 'r', 'e', 't', 'c', 'h']) by {
        assert(seq!['s', 't', 'a', 'r', 't'].len() != seq!['s', 't', 'r', 'e', 't', 'c', 'h'].len());
    }
    assert(seq!['e', 'n', 'd'] != seq!['s', 't', 'r', 'e', 't', 'c', 'h']) by {
        assert(seq!['e', 'n', 'd'].len() != seq!['s', 't', 'r', 'e', 't', 'c', 'h'].len());
    }
    assert(seq!['f', 'l', 'e', 'x', '-', 's', 't', 'a', 'r', 't'] != seq!['s', 't', 'r', 'e', 't', 'c', 'h']) by {
        assert(seq!['f', 'l', 'e', 'x', '-', 's', 't', 'a', 'r', 't'].len() != seq!['s', 't', 'r', 'e', 't', 'c', 'h'].len());
    }
    assert(seq!['f', 'l', 'e', 'x', '-', 'e', 'n', 'd'] != seq!['s', 't', 'r', 'e', 't', 'c', 'h']) by {
        assert(seq!['f', 'l', 'e', 'x', '-', 'e', 'n', 'd'].len() != seq!['s', 't', 'r', 'e', 't', 'c', 'h'].len());
    }
    assert(seq!['c', 'e', 'n', 't', 'e', 'r'] != seq!['s', 't', 'r', 'e', 't', 'c', 'h']) by {
        assert(seq!['c', 'e', 'n', 't', 'e', 'r'].len() != seq!['s', 't', 'r', 'e', 't', 'c', 'h'].len());
    }
    assert(seq!['b', 'a', 's', 'e', 'l', 'i', 'n', 'e'] != seq!['s', 't', 'r', 'e', 't', 'c', 'h']) by {
        assert(seq!['b', 'a', 's', 'e', 'l', 'i', 'n', 'e'].len() != seq!['s', 't', 'r', 'e', 't', 'c', 'h'].len());
    }
}

/// The content alignment keywords and the alignment each names (`normal` names none); no other keyword names one.
pub proof fn law_align_content_of_table(k: Seq<char>)
    ensures
        (align_content_of(seq!['n', 'o', 'r', 'm', 'a', 'l']) == Some(None::<AlignContent>)),
        (align_content_of(seq!['s', 't', 'a', 'r', 't']) == Some(Some(AlignContent::Start))),
        (align_content_of(seq!['e', 'n', 'd']) == Some(Some(AlignContent::End))),
        (align_content_of(seq!['f', 'l', 'e', 'x', '-', 's', 't', 'a', 'r', 't']) == Some(Some(AlignContent::FlexStart))),
        (align_content_of(seq!['f', 'l', 'e', 'x', '-', 'e', 'n', 'd']) == Some(Some(AlignContent::FlexEnd))),
        (align_content_of(seq!['c', 'e', 'n', 't', 'e', 'r']) == Some(Some(AlignContent::Center))),
        (align_content_of(seq!['s', 't', 'r', 'e', 't', 'c', 'h']) == Some(Some(AlignContent::Stretch))),
        (align_content_of(seq!['s', 'p', 'a', 'c', 'e', '-', 'b', 'e', 't', 'w', 'e', 'e', 'n']) == Some(Some(AlignContent::SpaceBetween))),
        (align_content_of(seq!['s', 'p', 'a', 'c', 'e', '-', 'e', 'v', 'e', 'n', 'l', 'y']) == Some(Some(AlignContent::SpaceEvenly))),
        (align_content_of(seq!['s', 'p', 'a', 'c', 'e', '-', 'a', 'r', 'o', 'u', 'n', 'd']) == Some(Some(AlignContent::SpaceAround))),
        (k != seq!['n', 'o', 'r', 'm', 'a', 'l'] && k != seq!['s', 't', 'a', 'r', 't'] && k != seq!['e', 'n', 'd'] && k != seq!['f', 'l', 'e', 'x', '-', 's', 't', 'a', 'r', 't'] && k != seq!['f', 'l', 'e', 'x', '-', 'e', 'n', 'd'] && k != seq!['c', 'e', 'n', 't', 'e', 'r'] && k != seq!['s', 't', 'r', 'e', 't', 'c', 'h'] && k != seq!['s', 'p', 'a', 'c', 'e', '-', 'b', 'e', 't', 'w', 'e', 'e', 'n'] && k != seq!['s', 'p', 'a', 'c', 'e', '-', 'e', 'v', 'e', 'n', 'l', 'y'] && k != seq!['s', 'p', 'a', 'c', 'e', '-', 'a', 'r', 'o', 'u', 'n', 'd'] ==> (align_content_of(k) is None)),
{
    assert(seq!['n', 'o', 'r', 'm', 'a', 'l'] != seq!['s', 't', 'a', 'r', 't']) by {
        assert(seq!['n', 'o', 'r', 'm', 'a', 'l'].len() != seq!['s', 't', 'a', 'r', 't'].len());
    }
    assert(seq!['n', 'o', 'r', 'm', 'a', 'l'] != seq!['e', 'n', 'd']) by {
        assert(seq!['n', 'o', 'r', 'm', 'a', 'l'].len() != seq!['e', 'n', 'd'].len());
    }
    assert(seq!['s', 't', 'a', 'r', 't'] != seq!['e', 'n', 'd']) by {
        assert(seq!['s', 't', 'a', 'r', 't'].len() != seq!['e', 'n', 'd'].len());
    }
    assert(seq!['n', 'o', 'r', 'm', 'a', 'l'] != seq!['f', 'l', 'e', 'x', '-', 's', 't', 'a', 'r', 't']) by {
        assert(seq!['n', 'o', 'r', 'm', 'a', 'l'].len() != seq!['f', 'l', 'e', 'x', '-', 's', 't', 'a', 'r', 't'].len());
    }
    assert(seq!['s', 't', 'a', 'r', 't'] != seq!['f', 'l', 'e', 'x', '-', 's', 't', 'a', 'r', 't']) by {
        assert(seq!['s', 't', 'a', 'r', 't'].len() != seq!['f', 'l', 'e', 'x', '-', 's', 't', 'a', 'r', 't'].len());
    }
    assert(seq!['e', 'n', 'd'] != seq!['f', 'l', 'e', 'x', '-', 's', 't', 'a', 'r', 't']) by {
        assert(seq!['e', 'n', 'd'].len() != seq!['f', 'l', 'e', 'x', '-', 's', 't', 'a', 'r', 't'].len());
    }
    assert(seq!['n', 'o', 'r', 'm', 'a', 'l'] != seq!['f', 'l', 'e', 'x', '-', 'e', 'n', 'd']) by {
        assert(seq!['n', 'o', 'r', 'm', 'a', 'l'].len() != seq!['f', 'l', 'e', 'x', '-', 'e', 'n', 'd'].len());
    }
    assert(seq!['s', 't', 'a', 'r', 't'] != seq!['f', 'l', 'e', 'x', '-', 'e', 'n', 'd']) by {
        assert(seq!['s', 't', 'a', 'r', 't'].len() != seq!['f', 'l', 'e', 'x', '-', 'e', 'n', 'd'].len());
    }
    assert(seq!['e', 'n', 'd'] != seq!['f', 'l', 'e', 'x', '-', 'e', 'n', 'd']) by {
        assert(seq!['e', 'n', 'd'].len() != seq!['f', 'l', 'e', 'x', '-', 'e', 'n', 'd'].len());
    }
    assert(seq!['f', 'l', 'e', 'x', '-', 's', 't', 'a', 'r', 't'] != seq!['f', 'l', 'e', 'x', '-', 'e', 'n', 'd']) by {
        assert(seq!['f', 'l', 'e', 'x', '-', 's', 't', 'a', 'r', 't'].len() != seq!['f', 'l', 'e', 'x', '-', 'e', 'n', 'd'].len());
    }
    assert(seq!['n', 'o', 'r', 'm', 'a', 'l'] != seq!['c', 'e', 'n', 't', 'e', 'r']) by {
        assert(seq!['n', 'o', 'r', 'm', 'a', 'l'][0] != seq!['c', 'e', 'n', 't', 'e', 'r'][0]);
    }
    assert(seq!['s', 't', 'a', 'r', 't'] != seq!['c', 'e', 'n', 't', 'e', 'r']) by {
        assert(seq!['s', 't', 'a', 'r', 't'].len() != seq!['c', 'e', 'n', 't', 'e', 'r'].len());
    }
    assert(seq!['e', 'n', 'd'] != seq!['c', 'e', 'n', 't', 'e', 'r']) by {
        assert(seq!['e', 'n', 'd'].len() != seq!['c', 'e', 'n', 't', 'e', 'r'].len());
    }
    assert(seq!['f', 'l', 'e', 'x', '-', 's', 't', 'a', 'r', 't'] != seq!['c', 'e', 'n', 't', 'e', 'r']) by {
        assert(seq!['f', 'l', 'e', 'x', '-', 's', 't', 'a', 'r', 't'].len() != seq!['c', 'e', 'n', 't', 'e', 'r'].len());
    }
    assert(seq!['f', 'l', 'e', 'x', '-', 'e', 'n', 'd'] != seq!['c', 'e', 'n', 't', 'e', 'r']) by {
        assert(seq!['f', 'l', 'e', 'x', '-', 'e', 'n', 'd'].len() != seq!['c', 'e', 'n', 't', 'e', 'r'].len());
    }
    assert(seq!['n', 'o', 'r', 'm', 'a', 'l'] != seq!['s', 't', 'r', 'e', 't', 'c', 'h']) by {
        assert(seq!['n', 'o', 'r', 'm', 'a', 'l'].len() != seq!['s', 't', 'r', 'e', 't', 'c', 'h'].len());
    }
    assert(seq!['s', 't', 'a', 'r', 't'] != seq!['s', 't', 'r', 'e', 't', 'c', 'h']) by {
        assert(seq!['s', 't', 'a', 'r', 't'].len() != seq!['s', 't', 'r', 'e', 't', 'c', 'h'].len());
    }
    assert(seq!['e', 'n', 'd'] != seq!['s', 't', 'r', 'e', 't', 'c', 'h']) by {
        assert(seq!['e', 'n', 'd'].len() != seq!['s', 't', 'r', 'e', 't', 'c', 'h'].len());
    }
    assert(seq!['f', 'l', 'e', 'x', '-', 's', 't', 'a', 'r', 't'] != seq!['s', 't', 'r', 'e', 't', 'c', 'h']) by {
        assert(seq!['f', 'l', 'e', 'x', '-', 's', 't', 'a', 'r', 't'].len() != seq!['s', 't', 'r', 'e', 't', 'c', 'h'].len());
    }
    assert(seq!['f', 'l', 'e', 'x', '-', 'e', 'n', 'd'] != seq!['s', 't', 'r', 'e', 't', 'c', 'h']) by {
        assert(seq!['f', 'l', 'e', 'x', '-', 'e', 'n', 'd'].len() != seq!['s', 't', 'r', 'e', 't', 'c', 'h'].len());
    }
    assert(seq!['c', 'e', 'n', 't', 'e', 'r'] != seq!['s', 't', 'r', 'e', 't', 'c', 'h']) by {
        assert(seq!['c', 'e', 'n', 't', 'e', 'r'].len() != seq!['s', 't', 'r', 'e', 't', 'c', 'h'].len());
    }
    assert(seq!['n', 'o', 'r', 'm', 'a', 'l'] != seq!['s', 'p', 'a', 'c', 'e', '-', 'b', 'e', 't', 'w', 'e', 'e', 'n']) by {
        assert(seq!['n', 'o', 'r', 'm', 'a', 'l'].len() != seq!['s', 'p', 'a', 'c', 'e', '-', 'b', 'e', 't', 'w', 'e', 'e', 'n'].len());
    }
    assert(seq!['s', 't', 'a', 'r', 't'] != seq!['s', 'p', 'a', 'c', 'e', '-', 'b', 'e', 't', 'w', 'e', 'e', 'n']) by {
        assert(seq!['s', 't', 'a', 'r', 't'].len() != seq!['s', 'p', 'a', 'c', 'e', '-', 'b', 'e', 't', 'w', 'e', 'e', 'n'].len());
    }
    assert(seq!['e', 'n', 'd'] != seq!['s', 'p', 'a', 'c', 'e', '-', 'b', 'e', 't', 'w', 'e', 'e', 'n']) by {
        assert(seq!['e', 'n', 'd'].len() != seq!['s', 'p', 'a', 'c', 'e', '-', 'b', 'e', 't', 'w', 'e', 'e', 'n'].len());
    }
    assert(seq!['f', 'l', 'e', 'x', '-', 's', 't', 'a', 'r', 't'] != seq!['s', 'p', 'a', 'c', 'e', '-', 'b', 'e', 't', 'w', 'e', 'e', 'n']) by {
        assert(seq!['f', 'l', 'e', 'x', '-', 's', 't', 'a', 'r', 't'].len() != seq!['s', 'p', 'a', 'c', 'e', '-', 'b', 'e', 't', 'w', 'e', 'e', 'n'].len());
    }
    assert(seq!['f', 'l', 'e', 'x', '-', 'e', 'n', 'd'] != seq!['s', 'p', 'a', 'c', 'e', '-', 'b', 'e', 't', 'w', 'e', 'e', 'n']) by {
        assert(seq!['f', 'l', 'e', 'x', '-', 'e', 'n', 'd'].len() != seq!['s', 'p', 'a', 'c', 'e', '-', 'b', 'e', 't', 'w', 'e', 'e', 'n'].len());
    }
    assert(seq!['c', 'e', 'n', 't', 'e', 'r'] != seq!['s', 'p', 'a', 'c', 'e', '-', 'b', 'e', 't', 'w', 'e', 'e', 'n']) by {
        assert(seq!['c', 'e', 'n', 't', 'e', 'r'].len() != seq!['s', 'p', 'a', 'c', 'e', '-', 'b', 'e', 't', 'w', 'e', 'e', 'n'].len());
    }
    assert(seq!['s', 't', 'r', 'e', 't', 'c', 'h'] != seq!['s', 'p', 'a', 'c', 'e', '-', 'b', 'e', 't', 'w', 'e', 'e', 'n']) by {
        assert(seq!['s', 't', 'r', 'e', 't', 'c', 'h'].len() != seq!['s', 'p', 'a', 'c', 'e', '-', 'b', 'e', 't', 'w', 'e', 'e', 'n'].len());
    }
    assert(seq!['n', 'o', 'r', 'm', 'a', 'l'] != seq!['s', 'p', 'a', 'c', 'e', '-', 'e', 'v', 'e', 'n', 'l', 'y']) by {
        assert(seq!['n', 'o', 'r', 'm', 'a', 'l'].len() != seq!['s', 'p', 'a', 'c', 'e', '-', 'e', 'v', 'e', 'n', 'l', 'y'].len());
    }
    assert(seq!['s', 't', 'a', 'r', 't'] != seq!['s', 'p', 'a', 'c', 'e', '-', 'e', 'v', 'e', 'n', 'l', 'y']) by {
        assert(seq!['s', 't', 'a', 'r', 't'].len() != seq!['s', 'p', 'a', 'c', 'e', '-', 'e', 'v', 'e', 'n', 'l', 'y'].len());
    }
    assert(seq!['e', 'n', 'd'] != seq!['s', 'p', 'a', 'c', 'e', '-', 'e', 'v', 'e', 'n', 'l', 'y']) by {
        assert(seq!['e', 'n', 'd'].len() != seq!['s', 'p', 'a', 'c', 'e', '-', 'e', 'v', 'e', 'n', 'l', 'y'].len());
    }
    assert(seq!['f', 'l', 'e', 'x', '-', 's', 't', 'a', 'r', 't'] != seq!['s', 'p', 'a', 'c', 'e', '-', 'e', 'v', 'e', 'n', 'l', 'y']) by {
        assert(seq!['f', 'l', 'e', 'x', '-', 's', 't', 'a', 'r', 't'].len() != seq!['s', 'p', 'a', 'c', 'e', '-', 'e', 'v', 'e', 'n', 'l', 'y'].len());
    }
    assert(seq!['f', 'l', 'e', 'x', '-', 'e', 'n', 'd'] != seq!['s', 'p', 'a', 'c', 'e', '-', 'e', 'v', 'e', 'n', 'l', 'y']) by {
        assert(seq!['f', 'l', 'e', 'x', '-', 'e', 'n', 'd'].len() != seq!['s', 'p', 'a', 'c', 'e', '-', 'e', 'v', 'e', 'n', 'l', 'y'].len());
    }
    assert(seq!['c', 'e', 'n', 't', 'e', 'r'] != seq!['s', 'p', 'a', 'c', 'e', '-', 'e', 'v', 'e', 'n', 'l', 'y']) by {
        assert(seq!['c', 'e', 'n', 't', 'e', 'r'].len() != seq!['s', 'p', 'a', 'c', 'e', '-', 'e', 'v', 'e', 'n', 'l', 'y'].len());
    }
    assert(seq!['s', 't', 'r', 'e', 't', 'c', 'h'] != seq!['s', 'p', 'a', 'c', 'e', '-', 'e', 'v', 'e', 'n', 'l', 'y']) by {
        assert(seq!['s', 't', 'r', 'e', 't', 'c', 'h'].len() != seq!['s', 'p', 'a', 'c', 'e', '-', 'e', 'v', 'e', 'n', 'l', 'y'].len());
    }
    assert(seq!['s', 'p', 'a', 'c', 'e', '-', 'b', 'e', 't', 'w', 'e', 'e', 'n'] != seq!['s', 'p', 'a', 'c', 'e', '-', 'e', 'v', 'e', 'n', 'l', 'y']) by {
        assert(seq!['s', 'p', 'a', 'c', 'e', '-', 'b', 'e', 't', 'w', 'e', 'e', 'n'].len() != seq!['s', 'p', 'a', 'c', 'e', '-', 'e', 'v', 'e', 'n', 'l', 'y'].len());
    }
    assert(seq!['n', 'o', 'r', 'm', 'a', 'l'] != seq!['s', 'p', 'a', 'c', 'e', '-', 'a', 'r', 'o', 'u', 'n', 'd']) by {
        assert(seq!['n', 'o', 'r', 'm', 'a', 'l'].len() != seq!['s', 'p', 'a', 'c', 'e', '-', 'a', 'r', 'o', 'u', 'n', 'd'].len());
    }
    assert(seq!['s', 't', 'a', 'r', 't'] != seq!['s', 'p', 'a', 'c', 'e', '-', 'a', 'r', 'o', 'u', 'n', 'd']) by {
        assert(seq!['s', 't', 'a', 'r', 't'].len() != seq!['s', 'p', 'a', 'c', 'e', '-', 'a', 'r', 'o', 'u', 'n', 'd'].len());
    }
    assert(seq!['e', 'n', 'd'] != seq!['s', 'p', 'a', 'c', 'e', '-', 'a', 'r', 'o', 'u', 'n', 'd']) by {
        assert(seq!['e', 'n', 'd'].len() != seq!['s', 'p', 'a', 'c', 'e', '-', 'a', 'r', 'o', 'u', 'n', 'd'].len());
    }
    assert(seq!['f', 'l', 'e', 'x', '-', 's', 't', 'a', 'r', 't'] != seq!['s', 'p', 'a', 'c', 'e', '-', 'a', 'r', 'o', 'u', 'n', 'd']) by {
        assert(seq!['f', 'l', 'e', 'x', '-', 's', 't', 'a', 'r', 't'].len() != seq!['s', 'p', 'a', 'c', 'e', '-', 'a', 'r', 'o', 'u', 'n', 'd'].len());
    }
    assert(seq!['f', 'l', 'e', 'x', '-', 'e', 'n', 'd'] != seq!['s', 'p', 'a', 'c', 'e', '-', 'a', 'r', 'o', 'u', 'n', 'd']) by {
        assert(seq!['f', 'l', 'e', 'x', '-', 'e', 'n', 'd'].len() != seq!['s', 'p', 'a', 'c', 'e', '-', 'a', 'r', 'o', 'u', 'n', 'd'].len());
    }
    assert(seq!['c', 'e', 'n', 't', 'e', 'r'] != seq!['s', 'p', 'a', 'c', 'e', '-', 'a', 'r', 'o', 'u', 'n', 'd']) by {
        assert(seq!['c', 'e', 'n', 't', 'e', 'r'].len() != seq!['s', 'p', 'a', 'c', 'e', '-', 'a', 'r', 'o', 'u', 'n', 'd'].len());
    }
    assert(seq!['s', 't', 'r', 'e', 't', 'c', 'h'] != seq!['s', 'p', 'a', 'c', 'e', '-', 'a', 'r', 'o', 'u', 'n', 'd']) by {
        assert(seq!['s', 't', 'r', 'e', 't', 'c', 'h'].len() != seq!['s', 'p', 'a', 'c', 'e', '-', 'a', 'r', 'o', 'u', 'n', 'd'].len());
    }
    assert(seq!['s', 'p', 'a', 'c', 'e', '-', 'b', 'e', 't', 'w', 'e', 'e', 'n'] != seq!['s', 'p', 'a', 'c', 'e', '-', 'a', 'r', 'o', 'u', 'n', 'd']) by {
        assert(seq!['s', 'p', 'a', 'c', 'e', '-', 'b', 'e', 't', 'w', 'e', 'e', 'n'].len() != seq!['s', 'p', 'a', 'c', 'e', '-', 'a', 'r', 'o', 'u', 'n', 'd'].len());
    }
    assert(seq!['s', 'p', 'a', 'c', 'e', '-', 'e', 'v', 'e', 'n', 'l', 'y'] != seq!['s', 'p', 'a', 'c', 'e', '-', 'a', 'r', 'o', 'u', 'n', 'd']) by {
        assert(seq!['s', 'p', 'a', 'c', 'e', '-', 'e', 'v', 'e', 'n', 'l', 'y'][6] != seq!['s', 'p', 'a', 'c', 'e', '-', 'a', 'r', 'o', 'u', 'n', 'd'][6]);
    }
}


} // verus!
