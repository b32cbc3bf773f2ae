//! Turns binary format descriptions into Rust code that reads them.
//!
//! [`de`] holds a description as it was read, [`hir`] its checked form and the code that is
//! generated for it. [`code`] and [`items`] are the fragments that the code is made of, over
//! [`tokens`]. [`laws`] states what holds of the library as a whole.
pub mod code;
pub mod de;
pub mod hir;
pub mod ident;
pub mod items;
pub mod laws;
pub mod text;
pub mod tokens;
