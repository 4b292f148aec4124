//! Error values of the library.
use vstd::prelude::*;

verus! {

/// The library's error: a fixed message or a built one.
#[derive(Debug, PartialEq)]
pub enum Error {
    Str(&'static str),
    String(String),
}

impl Error {
    /// The message the error carries.
    pub open spec fn msg(&self) -> Seq<char> {
        match self {
            Error::Str(m) => m@,
            Error::String(m) => m@,
        }
    }

    /// The message carried by the error.
    pub fn to_string(&self) -> (s: String)
        ensures
            s@ == self.msg(),
    {
        match self {
            Error::Str(m) => String::from_str(m),
            Error::String(m) => m.clone(),
        }
    }
}

/// An error built from a fixed message.
pub fn ea_str(s: &'static str) -> (e: Error)
    ensures
        e == Error::Str(s),
{
    Error::Str(s)
}

/// An error built from an owned message.
pub fn ea_string(s: String) -> (e: Error)
    ensures
        e == Error::String(s),
{
    Error::String(s)
}

/// Keeps the success value, and wraps a failure's error in a [`WrapErr`] with an empty note.
pub fn ea_res<O, E>(r: Result<O, E>) -> (res: Result<O, WrapErr<E>>)
    ensures
        r is Ok <==> res is Ok,
        r matches Ok(o) ==> res == Ok::<O, WrapErr<E>>(o),
        r matches Err(e) ==> (res matches Err(w) && w.e == Some(e) && w.s@ == Seq::<char>::empty()),
{
    match r {
        Ok(o) => Ok(o),
        Err(e) => Err(WrapErr { e: Some(e), s: String::new() }),
    }
}

/// The value of an option, or an error with the given message when it is empty.
pub fn ea_op<O>(o: Option<O>, s: &'static str) -> (res: Result<O, Error>)
    ensures
        o matches Some(v) ==> res == Ok::<O, Error>(v),
        o is None ==> res == Err::<O, Error>(Error::Str(s)),
{
    match o {
        Some(v) => Ok(v),
        None => Err(Error::Str(s)),
    }
}

/// An optional underlying error together with a note.
#[derive(Debug)]
pub struct WrapErr<E> {
    pub e: Option<E>,
    pub s: String,
}

/// Turning an empty value into an [`Error`] with a fixed message.
pub trait OpError: Sized {
    type Res;

    spec fn spec_e_str(self, s: &'static str) -> Result<Self::Res, Error>;

    fn e_str(self, s: &'static str) -> (r: Result<Self::Res, Error>)
        ensures
            r == self.spec_e_str(s),
    ;
}

impl<A> OpError for Option<A> {
    type Res = A;

    open spec fn spec_e_str(self, s: &'static str) -> Result<A, Error> {
        match self {
            Some(a) => Ok(a),
            None => Err(Error::Str(s)),
        }
    }

    fn e_str(self, s: &'static str) -> (r: Result<A, Error>) {
        match self {
            Some(a) => Ok(a),
            None => Err(Error::Str(s)),
        }
    }
}

} // verus!
