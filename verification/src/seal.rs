use crate::write_to_json::UnescapedStr;
use vstd::prelude::*;

verus! {

/// Marks the types that may be keys. The module is private, so the set of
/// keys is closed.
pub trait Sealed {

}

impl Sealed for UnescapedStr<'_> {

}

impl Sealed for &str {

}

impl Sealed for String {

}

impl Sealed for &String {

}

} // verus!
