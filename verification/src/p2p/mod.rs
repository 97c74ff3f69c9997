//! What validators ask of each other, and what each of them will sign.

pub mod aggregation;
pub mod collector;
pub mod identity;
pub mod requests;
pub mod sweep_view;
