//! Dense matrices over a flat buffer: memory layouts, zero-copy block views
//! and the parameters handed to a strided matrix-multiply kernel.
pub mod types;
pub mod traits;
pub mod layouts;
pub mod data_container;
pub mod base_matrix;
pub mod matrix;
pub mod matrix_multiply;
pub mod matrix_ref;
