//! The caller's own identity.

use crate::auth::middleware::CurrentUser;
use vstd::prelude::*;

verus! {
/// The authenticated identity of the caller, as it is reported back.
pub fn get_me(user: &CurrentUser) -> (r: CurrentUser)
    ensures
        r@ == user@,
{
    user.clone()
}
} // verus!
