//! A templating language like handlebars or Go templates: templates take several parameters,
//! functions can run on the text of a block, and whitespace can be escaped. Parsing, building
//! the template tree, running it and the built-in functions are verified against the grammar
//! and the semantics stated in this crate.
use vstd::prelude::*;

pub mod boco;
pub mod convert;
pub mod date;
pub mod err;
pub mod eval;
pub mod expr;
pub mod num;
pub mod order;
pub mod pipeline;
pub mod scope;
pub mod semantics;
pub mod show;
pub mod strs;
pub mod tdata;
pub mod temp_man;
pub mod func_man;
pub mod funcs;
pub mod grammar;
pub mod impls;
pub mod laws;
pub mod parse;
pub mod template;
pub mod tparam;
pub mod tree;

pub use template::TreeTemplate;
pub use tdata::TData;
pub use tparam::TParam;

verus! {
} // verus!
