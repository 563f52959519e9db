//! References to objects that live in the virtual machine.
//!
//! An object of which nothing more is known than that it is one crosses the
//! boundary as it is: as the reference that the machine handed out.

use vstd::prelude::*;
use vstd::std_specs::cmp::PartialEqSpecImpl;
use jni::objects::JObject;

verus! {

/// `JObject::into_raw` of both references and `==` of the two pointers: two
/// references are the same value when they wrap the same pointer, which is
/// all that a `JObject` holds.
#[verifier::external_body]
fn same_handle<'env>(a: JObject<'env>, b: JObject<'env>) -> (r: bool)
    ensures
        r == (a == b),
{
    a.into_raw() == b.into_raw()
}

/// A reference to an object in the virtual machine, carried as an opaque
/// value.
#[derive(Clone, Copy, Debug)]
pub struct Reference<'env> {
    pub handle: JObject<'env>,
}

impl<'env> PartialEq for Reference<'env> {
    fn eq(&self, other: &Self) -> (r: bool) {
        same_handle(self.handle, other.handle)
    }
}

impl<'env> PartialEqSpecImpl for Reference<'env> {
    open spec fn obeys_eq_spec() -> bool {
        true
    }

    open spec fn eq_spec(&self, other: &Self) -> bool {
        self.handle == other.handle
    }
}

impl<'env> Eq for Reference<'env> {

}

} // verus!
