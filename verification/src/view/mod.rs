//! The decisions of the view that keep its tree in step with the view model.
pub mod reattach;
pub mod model;
pub mod input;
pub mod schema;
pub mod binding;
pub mod render;
pub mod form;
pub mod react;
pub mod parts;
pub mod emit;
