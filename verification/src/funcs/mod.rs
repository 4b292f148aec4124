//! The functions templates can call, and the function manager that offers them.
pub mod bools;
pub mod math;
pub mod strings;
pub mod registry;
pub mod lists;
pub mod maps;
pub mod svg;
pub mod bytes;
pub mod random;
pub mod table;
pub mod path;
pub mod formats;
pub mod sort;
pub mod filter;
pub mod folder;
