//! The settings of animations that style sheets choose by keyword.
use vstd::prelude::*;
use crate::decimal::Decimal;

verus! {

/// Whether an animation plays forwards, backwards, or alternates.
#[derive(Clone, Copy, Debug, PartialEq, Eq)]
pub enum AnimationDirection {
    Normal,
    Reverse,
    Alternate,
    AlternateReverse,
}

/// Which values an animation applies before it starts and after it ends.
#[derive(Clone, Copy, Debug, PartialEq, Eq)]
pub enum AnimationFillMode {
    /// Applies no value outside the animation (`animation-fill-mode: none`).
    NoFill,
    Forwards,
    Backwards,
    Both,
}

/// How the progress of an animation or a transition follows time.
#[derive(Clone, Copy, Debug, PartialEq, Eq)]
pub enum TimingFunction {
    Ease,
    EaseIn,
    EaseOut,
    EaseInOut,
    Linear,
    StepStart,
    StepEnd,
    Steps(u8, Jump),
    CubicBezier(Decimal, Decimal, Decimal, Decimal),
}

/// How many times an animation plays.
#[derive(Clone, Copy, Debug, PartialEq, Eq)]
pub enum AnimationIterations {
    Number(Decimal),
    Infinite,
}

/// Where the jumps of a stepped timing function fall.
#[derive(Clone, Copy, Debug, PartialEq, Eq)]
pub enum Jump {
    /// `jump-none`
    JumpNone,
    /// `jump-start`
    JumpStart,
    /// `jump-end`
    JumpEnd,
    /// `jump-both`
    JumpBoth,
}

} // verus!
