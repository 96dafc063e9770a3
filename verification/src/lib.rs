//! Code generation for techniques: a technique model, the contract every
//! backend meets, a backend that renders a technique as JSON text, and the
//! dispatch of one technique to several backends.

pub mod text;
pub mod value;
pub mod json_value;
pub mod condition;
pub mod format;
pub mod error;
pub mod ir;
pub mod technique;
pub mod command;
pub mod generator;
pub mod registry;
