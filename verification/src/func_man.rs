//! Function managers: where templates find the functions they call by name.
use vstd::prelude::*;
use crate::err::Error;
use crate::tdata::{datas_v, TData, VData};

verus! {

/// A set of named functions that templates can call.
pub trait FuncManager {
    /// Whether `call_func` is held to `spec_call`. A manager states so by overriding this. For
    /// one that does not (such as one written outside verified code) the contracts of running
    /// templates speak only of what asks no manager anything.
    open spec fn spec_checked(&self) -> bool {
        false
    }

    /// What calling `k` on `args` gives, for a checked manager: `None` when there is no such
    /// function.
    open spec fn spec_call(&self, k: Seq<char>, args: Seq<VData>) -> Option<Result<VData, ()>> {
        None
    }

    /// Calls the function named `k` on `args`, if there is one.
    fn call_func(&self, k: &str, args: &[TData]) -> (r: Option<Result<TData, Error>>)
        ensures
            self.spec_checked() ==> match self.spec_call(k@, datas_v(args@)) {
                None => r is None,
                Some(Ok(x)) => r matches Some(Ok(y)) && y@ == x,
                Some(Err(())) => r matches Some(Err(_)),
            },
    ;

    /// The names of the functions with their descriptions.
    fn descriptions(&self) -> Vec<(String, String)>;
}

} // verus!
