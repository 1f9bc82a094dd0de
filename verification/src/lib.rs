use vstd::prelude::*;

pub mod text;
pub mod ids;
pub mod game;
pub mod sock;

verus! {

/// Parsing a value of type `Out` out of a `T`, failing with a message.
pub trait ParseFrom<T, Out = Self> {
    fn parse(from: T) -> Result<Out, String>;
}

} // verus!
