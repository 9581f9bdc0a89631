//! Schema-driven generation of data-model source code, together with the
//! small verified helpers the command-line front end relies on.

pub mod eq;
pub mod fs_wrapper;
pub mod generator;
pub mod java;
pub mod model;
pub mod primitive;
pub mod result;
pub mod rust;
pub mod schema;
pub mod text;
pub mod utils;
