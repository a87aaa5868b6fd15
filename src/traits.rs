//! Basic traits for layouts and matrices.
pub mod layout;
pub mod random_access;
pub mod matrix;
