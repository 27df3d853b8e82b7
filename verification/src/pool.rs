//! How the connections to Postgres are set up.

use crate::outside::parse_usize;
use crate::text::{all_digits, decimal_text, decimal_text_value, parsed_usize};
use vstd::prelude::*;

verus! {

/// The most connections that one store keeps open, unless another number is asked for. Each
/// of the three stores has connections of its own, and managed Postgres has few to share.
pub const DEFAULT_POOL_MAX_SIZE: usize = 5;

/// The number of connections for a setting: a positive number counts, anything else does
/// not.
pub open spec fn max_size_for(setting: Option<Seq<char>>) -> usize {
    match setting {
        Some(text) => match parsed_usize(text) {
            Some(n) => if n > 0 {
                n
            } else {
                DEFAULT_POOL_MAX_SIZE
            },
            None => DEFAULT_POOL_MAX_SIZE,
        },
        None => DEFAULT_POOL_MAX_SIZE,
    }
}

/// The most connections that one store keeps open, given the setting for it.
pub fn pool_max_size(setting: Option<&str>) -> (max_size: usize)
    ensures
        max_size == match setting {
            Some(text) => max_size_for(Some(text@)),
            None => max_size_for(None),
        },
        max_size > 0,
{
    match setting {
        Some(text) => match parse_usize(text) {
            Some(n) => {
                if n > 0 {
                    n
                } else {
                    DEFAULT_POOL_MAX_SIZE
                }
            },
            None => DEFAULT_POOL_MAX_SIZE,
        },
        None => DEFAULT_POOL_MAX_SIZE,
    }
}

/// Server certificates are always verified, so without any root certificate there is no
/// connecting. `loaded` is the number of roots found, `errors` what went wrong on the way.
pub fn roots_loaded(loaded: usize, errors: &str) -> (result: Result<(), String>)
    ensures
        result is Ok <==> loaded > 0,
        result matches Err(message) ==> message@
            == "no native root certificates could be loaded (errors: "@ + errors@ + ")"@,
{
    if loaded == 0 {
        let mut message = "no native root certificates could be loaded (errors: ".to_owned();
        message.append(errors);
        message.append(")");
        Err(message)
    } else {
        Ok(())
    }
}

/// A positive number that is written down in decimal is the number of connections.
pub proof fn pool_size_as_written(n: usize, setting: &str, max_size: usize)
    requires
        n > 0,
        setting@ == decimal_text(n as nat),
        call_ensures(pool_max_size, (Some(setting),), max_size),
    ensures
        max_size == n,
{
    decimal_text_value(n as nat);
    assert(all_digits(setting@));
    assert('0' <= setting@[0] <= '9');
}

/// Without a setting, with one that is no number, and with zero, there are five connections.
pub proof fn pool_size_otherwise(setting: Option<&str>, max_size: usize)
    requires
        setting matches Some(text) ==> parsed_usize(text@) is None || parsed_usize(text@)
            == Some(0usize),
        call_ensures(pool_max_size, (setting,), max_size),
    ensures
        max_size == 5,
{
}

/// Without root certificates there is no connecting, and what went wrong is told; with a single
/// one there is.
pub proof fn roots_needed(loaded: usize, errors: &str, result: Result<(), String>)
    requires
        call_ensures(roots_loaded, (loaded, errors), result),
    ensures
        loaded > 0 ==> result is Ok,
        loaded == 0 ==> (result matches Err(message) && message@
            == "no native root certificates could be loaded (errors: "@ + errors@ + ")"@),
{
}

} // verus!
