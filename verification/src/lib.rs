use vstd::prelude::*;

pub mod models;
pub mod text;
pub mod lexer;
pub mod decimal;
pub mod input;
pub mod element;
pub mod animation;
pub mod styles;
pub mod apply;
pub mod component;
pub mod cascade;
pub mod variables;
pub mod layout;
pub mod view;
pub mod html;
pub mod css;
pub mod controls;

verus! {

} // verus!
