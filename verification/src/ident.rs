//! Where user ids come from.
use vstd::prelude::*;

verus! {

/// Trusted: `uuid::Uuid::new_v4`, written out with `to_string`. The id is
/// drawn at random, so nothing is claimed about it. `new_v4` panics if the
/// operating system hands out no random bytes.
#[verifier::external_body]
pub(crate) fn new_user_id() -> String {
    uuid::Uuid::new_v4().to_string()
}

} // verus!
