//! The account mapping: which source account corresponds to which
//! destination account.

use vstd::prelude::*;

verus! {

/// One configured pair of a source account and its destination account.
pub struct AccountMap {
    pub up_account_id: String,
    pub fire_fly_account_id: String,
}

impl AccountMap {
    pub fn create(up_account_id: String, fire_fly_account_id: String) -> (r: Self)
        ensures
            r.up_account_id == up_account_id,
            r.fire_fly_account_id == fire_fly_account_id,
    {
        Self { up_account_id, fire_fly_account_id }
    }
}

/// The destination account mapped to `id`: the first pair whose source side
/// is `id`, if any.
pub open spec fn resolve(map: Seq<AccountMap>, id: Seq<char>) -> Option<Seq<char>>
    decreases map.len(),
{
    if map.len() == 0 {
        None
    } else if map[0].up_account_id@ == id {
        Some(map[0].fire_fly_account_id@)
    } else {
        resolve(map.drop_first(), id)
    }
}

} // verus!
