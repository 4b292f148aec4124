//! Borrow or concrete: a value that is either lent or owned.
use vstd::prelude::*;

verus! {

/// An optional borrowed-or-owned value.
pub type Bop<'a, T> = Option<Boco<'a, T>>;

/// Either a borrow of a value or the value itself.
pub enum Boco<'a, T> {
    Bo(&'a T),
    Co(T),
}

impl<'a, T> Boco<'a, T> {
    /// The value, whichever way it is held.
    pub open spec fn value(&self) -> T {
        match self {
            Boco::Bo(b) => **b,
            Boco::Co(c) => *c,
        }
    }

    /// A reference to the value, whichever way it is held.
    pub fn get(&self) -> (r: &T)
        ensures
            *r == self.value(),
    {
        match self {
            Boco::Co(c) => c,
            Boco::Bo(b) => *b,
        }
    }
}

impl<'a, T: Clone> Boco<'a, T> {
    /// An owned value: the held one, or a clone of the borrowed one.
    pub fn concrete(self) -> (r: T)
        ensures
            match self {
                Boco::Bo(b) => cloned::<T>(*b, r),
                Boco::Co(c) => r == c,
            },
    {
        match self {
            Boco::Bo(b) => b.clone(),
            Boco::Co(c) => c,
        }
    }
}

/// An owned value, as an option.
pub fn boco_c<'a, T>(t: T) -> (r: Bop<'a, T>)
    ensures
        r matches Some(Boco::Co(c)) && c == t,
{
    Some(Boco::Co(t))
}

/// A borrowed value, as an option.
pub fn boco_b<'a, T>(t: &'a T) -> (r: Bop<'a, T>)
    ensures
        r matches Some(Boco::Bo(b)) && *b == *t,
{
    Some(Boco::Bo(t))
}

/// An owned value, as a success.
pub fn b_ok<'a, T, E>(t: T) -> (r: Result<Boco<'a, T>, E>)
    ensures
        r matches Ok(Boco::Co(c)) && c == t,
{
    Ok(Boco::Co(t))
}

} // verus!
