//! Runtime configuration: the two ledgers' credentials, the import
//! schedule, and the pairing step that turns discovered accounts into the
//! account mapping.

use vstd::prelude::*;
use crate::errors::ConfigurationError;
use crate::migrator::account_map::AccountMap;

verus! {

/// The import interval used when the configuration names none, in hours.
pub fn default_time_between_imports() -> (r: i64)
    ensures
        r == 12,
{
    12
}

/// The settings the process starts from.
pub struct Config {
    pub up_pan_token: String,
    pub fire_fly_pan_token: String,
    pub fire_fly_base_url: String,
    /// In hours.
    pub time_between_imports: i64,
}

impl Config {
    /// Checks the credentials before any migration work: an empty token or
    /// base url is a fatal configuration error.
    pub fn validate(&self) -> (r: Result<(), ConfigurationError>)
        ensures
            match r {
                Ok(()) => self.up_pan_token@.len() > 0 && self.fire_fly_pan_token@.len() > 0
                    && self.fire_fly_base_url@.len() > 0,
                Err(e) => match e {
                    ConfigurationError::MissingUpBankToken => self.up_pan_token@.len() == 0,
                    ConfigurationError::MissingFireFlyToken => self.up_pan_token@.len() > 0
                        && self.fire_fly_pan_token@.len() == 0,
                    ConfigurationError::MissingFireFlyUrl => self.up_pan_token@.len() > 0
                        && self.fire_fly_pan_token@.len() > 0 && self.fire_fly_base_url@.len()
                        == 0,
                    _ => false,
                },
            },
    {
        if self.up_pan_token.as_str().is_empty() {
            Err(ConfigurationError::MissingUpBankToken)
        } else if self.fire_fly_pan_token.as_str().is_empty() {
            Err(ConfigurationError::MissingFireFlyToken)
        } else if self.fire_fly_base_url.as_str().is_empty() {
            Err(ConfigurationError::MissingFireFlyUrl)
        } else {
            Ok(())
        }
    }
}

/// The pairs that make it into the account mapping: every source account
/// the destination ledger answered for, in discovery order.
pub open spec fn matched_pairs(s: Seq<(String, Option<String>)>) -> Seq<(Seq<char>, Seq<char>)>
    decreases s.len(),
{
    if s.len() == 0 {
        Seq::empty()
    } else {
        let p = matched_pairs(s.drop_last());
        match s.last().1 {
            Some(f) => p.push((s.last().0@, f@)),
            None => p,
        }
    }
}

/// The views of an account mapping.
pub open spec fn account_map_views(s: Seq<AccountMap>) -> Seq<(Seq<char>, Seq<char>)> {
    s.map_values(|a: AccountMap| (a.up_account_id@, a.fire_fly_account_id@))
}

/// The pairing step of account discovery: each source account that the
/// destination ledger matched becomes one entry of the account mapping;
/// the unmatched ones are left out.
pub fn account_map_from_matches(pairs: Vec<(String, Option<String>)>) -> (r: Vec<AccountMap>)
    ensures
        account_map_views(r@) == matched_pairs(pairs@),
{
    let mut input = pairs;
    let mut out: Vec<AccountMap> = Vec::new();
    let ghost orig = input@;
    let ghost mut k: int = 0;
    proof {
        assert(input@ =~= orig.skip(0));
        assert(orig.subrange(0, 0) =~= Seq::<(String, Option<String>)>::empty());
        assert(account_map_views(out@) =~= matched_pairs(orig.subrange(0, 0)));
    }
    while input.len() > 0
        invariant
            0 <= k <= orig.len(),
            input@ == orig.skip(k),
            account_map_views(out@) == matched_pairs(orig.subrange(0, k)),
        decreases input@.len(),
    {
        let pair = input.remove(0);
        proof {
            assert(pair == orig[k]);
            assert(orig.skip(k).remove(0) =~= orig.skip(k + 1));
            assert(orig.subrange(0, k + 1) =~= orig.subrange(0, k).push(orig[k]));
            assert(orig.subrange(0, k + 1).drop_last() =~= orig.subrange(0, k));
        }
        match pair.1 {
            Some(fire_fly_id) => {
                out.push(AccountMap::create(pair.0, fire_fly_id));
                proof {
                    assert(account_map_views(out@) =~= matched_pairs(orig.subrange(0, k + 1)));
                }
            }
            None => {
                proof {
                    assert(account_map_views(out@) =~= matched_pairs(orig.subrange(0, k + 1)));
                }
            }
        }
        proof {
            k = k + 1;
        }
    }
    proof {
        assert(orig.subrange(0, orig.len() as int) =~= orig);
    }
    out
}

} // verus!
