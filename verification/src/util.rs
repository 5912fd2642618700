//! Small conversions for the values that come in from outside.

pub mod converter;
