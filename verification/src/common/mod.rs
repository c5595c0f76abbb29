//! Values shared by expressions and plans.

pub mod scalar;
