use vstd::prelude::*;
use crate::value::Magnitude;

verus! {

/// The marker that closes the conversion traits: only the listed numeric
/// types and the crate's own magnitude type can implement them.
pub trait Sealed {

}

impl Sealed for u8 {

}

impl Sealed for u16 {

}

impl Sealed for u32 {

}

impl Sealed for u64 {

}

impl Sealed for u128 {

}

impl Sealed for usize {

}

impl Sealed for i8 {

}

impl Sealed for i16 {

}

impl Sealed for i32 {

}

impl Sealed for i64 {

}

impl Sealed for i128 {

}

impl Sealed for isize {

}

impl Sealed for Magnitude {

}

} // verus!
