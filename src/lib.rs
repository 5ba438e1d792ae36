//! Dispatch synthesis for enums whose variants each name a handler function,
//! and the three execution traits that the synthesized code implements.
pub mod annotation;
pub mod dispatch;
pub mod generate;
pub mod laws;
pub mod model;
pub mod pipeline;
pub mod text;

pub use pipeline::{Execute, ExecuteWith, ExecuteWithMut};
