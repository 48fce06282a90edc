//! Connecting to a relay, and what to do when that fails or ends.

use crate::address::{parse_address, url_of, Address};
use crate::text::same_text;
use vstd::prelude::*;

verus! {

/// How long a publisher waits before it tries again, in seconds.
pub const PUBLISHER_RETRY_SECS: u64 = 5;

/// How long a subscriber waits before it tries again, in seconds.
pub const SUBSCRIBER_RETRY_SECS: u64 = 1;

/// What a publisher does once its session has ended.
#[derive(Debug)]
pub enum PublisherNext {
    /// It is to move on to this address.
    Moved(Address),
    /// It was told to move on, but to no address.
    BadUrl(String),
    /// It tries the same address again.
    Retry { secs: u64 },
}

/// What a publisher does once its session has ended: well, with the address that
/// it was told to move on to; or with an error.
pub fn publisher_next(ended_well: bool, url: &str) -> (r: PublisherNext)
    ensures
        if !ended_well {
            r == (PublisherNext::Retry { secs: PUBLISHER_RETRY_SECS })
        } else {
            match url_of(url@) {
                Ok(v) => r matches PublisherNext::Moved(a) && a@ == v,
                Err(e) => r matches PublisherNext::BadUrl(x) && x@ == e,
            }
        },
{
    if !ended_well {
        return PublisherNext::Retry { secs: PUBLISHER_RETRY_SECS };
    }
    match parse_address(url) {
        Ok(a) => PublisherNext::Moved(a),
        Err(e) => PublisherNext::BadUrl(e),
    }
}

/// Whether a publisher asks for a session with a rate limit and statistics: where
/// either is at hand.
pub fn with_stats_and_rate_limit(rate_limit: Option<u32>, has_stats: bool) -> (r: bool)
    ensures
        r == (rate_limit is Some || has_stats),
{
    rate_limit.is_some() || has_stats
}

/// The address that a subscriber goes to next, by what it was told: the new one,
/// where it was told one; else the present one.
pub fn choose_next(present: Address, told: Result<Address, String>) -> (r: Address)
    ensures
        r@ == (match told {
            Ok(a) => if a@.text == present@.text {
                present@
            } else {
                a@
            },
            Err(_) => present@,
        }),
{
    match told {
        Ok(a) => if same_text(a.text.as_str(), present.text.as_str()) {
            present
        } else {
            a
        },
        Err(_) => present,
    }
}

/// The address that a subscriber goes to next once its session has failed, given
/// the URL that it was told.
pub fn subscriber_next(present: Address, url: &str) -> (r: Address)
    ensures
        r@ == (match url_of(url@) {
            Ok(a) => if a.text == present@.text {
                present@
            } else {
                a
            },
            Err(_) => present@,
        }),
{
    choose_next(present, parse_address(url))
}

/// A publisher whose session failed tries the same address again after five seconds. One
/// whose session ended well moves on to where it was told, if that is an address.
pub proof fn a_publisher_moves_on_or_tries_again(
    ended_well: bool,
    url: &str,
    read: Result<Address, String>,
    r: PublisherNext,
)
    requires
        call_ensures(publisher_next, (ended_well, url), r),
        call_ensures(parse_address, (url,), read),
    ensures
        !ended_well ==> r == (PublisherNext::Retry { secs: 5 }),
        ended_well ==> (read matches Ok(a) ==> (r matches PublisherNext::Moved(b) && b@ == a@)),
        ended_well ==> (read matches Err(e) ==> (r matches PublisherNext::BadUrl(x) && x@ == e@)),
{
}

/// A subscriber goes to the address that it was told, if it is one; else it stays with
/// the present one.
pub proof fn a_subscriber_goes_where_it_is_told(
    present: Address,
    url: &str,
    read: Result<Address, String>,
    r: Address,
    s: Address,
)
    requires
        call_ensures(subscriber_next, (present, url), r),
        call_ensures(parse_address, (url,), read),
        call_ensures(choose_next, (present, read), s),
    ensures
        read matches Ok(a) ==> r@.text == a@.text && s@.text == a@.text,
        read matches Ok(a) ==> (a@.text != present@.text ==> r@ == a@ && s@ == a@),
        read matches Ok(a) ==> (a@.text == present@.text ==> r@ == present@ && s@ == present@),
        read is Err ==> r@ == present@ && s@ == present@,
{
}

/// Either a rate limit or statistics is enough for a session that has both.
pub proof fn a_limit_or_statistics_is_enough(rate: Option<u32>, stats: bool, r: bool)
    requires
        call_ensures(with_stats_and_rate_limit, (rate, stats), r),
    ensures
        rate is Some ==> r,
        stats ==> r,
        rate is None && !stats ==> !r,
{
}

} // verus!
