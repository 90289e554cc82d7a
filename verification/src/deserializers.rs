//! The deserialization interface.
//!
//! A type implements [`Deserializer`] to be readable from the text of
//! an api response. The decoding layer that actually touches the wire
//! lives outside this crate; implementations there turn the text into
//! the plain raw records this crate resolves.

use vstd::prelude::*;

verus! {

/// Implemented to allow a type to be read from an api response text.
pub trait Deserializer: Sized {
    type Error;

    /// Convert the text of an api response into the type.
    fn deserialize(data: &str) -> Result<Self, Self::Error>;
}

} // verus!
