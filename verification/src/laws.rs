//! What holds of the library as a whole.
pub mod checking;
pub mod fields;
pub mod fragments;
pub mod models;
pub mod names;
pub mod order;
pub mod reads;
pub mod structs;
pub mod text;
pub mod types;
