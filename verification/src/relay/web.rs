//! What the operator of a relay can ask of it over HTTP.

use crate::address::{parse_address, url_of, Address, AddressView};
use crate::session::shared::{DeadlineMode, DeadlineSchedulerConfig, SharedState, SharedView};
use crate::text::same_text;
use vstd::prelude::*;
use vstd::string::StringExecFns;

verus! {

/// The protocols of the web server, the preferred one first.
pub const WEB_ALPN_H2: &'static str = "h2";

/// The second protocol of the web server.
pub const WEB_ALPN_HTTP1: &'static str = "http/1.1";

/// The safety margin of the scheduler, in milliseconds, where none is given.
pub const DEFAULT_GUARD_MS: u64 = 10;

/// The bits of the packet rate factor of the scheduler, nine tenths, where none is
/// given.
pub const DEFAULT_BETA_BITS: u64 = 0x3fec_cccc_cccc_cccd;

/// What is answered, and whether those who wait for a change are to be woken.
#[derive(Debug)]
pub struct Reply {
    pub text: String,
    pub wake: bool,
}

/// The first fingerprint of the certificates.
pub fn first_fingerprint(fingerprints: &Vec<String>) -> (r: String)
    requires
        fingerprints@.len() > 0,
    ensures
        r@ == fingerprints@[0]@,
{
    fingerprints[0].clone()
}

/// What is answered to a request to send the sessions away, by what the address in
/// it says.
pub open spec fn goaway_text(url: Result<AddressView, Seq<char>>) -> Seq<char> {
    match url {
        Ok(_) => "URL updated. "@ + "Integer value updated."@,
        Err(e) => "Invalid URL parameter: "@ + e + ". "@ + "Integer value updated."@,
    }
}

/// The state after a request to send the sessions away: the address counts where it
/// is one, the time counts in any case.
pub open spec fn after_goaway(
    s: SharedView,
    url: Result<AddressView, Seq<char>>,
    timeout: u64,
) -> SharedView {
    SharedView {
        changed: true,
        url: match url {
            Ok(a) => Some(a),
            Err(_) => s.url,
        },
        elapsed_time: Some(timeout),
        ..s
    }
}

/// Sends the sessions away to the address that was read.
pub fn goaway_to(state: &mut SharedState, url: Result<Address, String>, timeout: u64) -> (r: Reply)
    ensures
        ({
            let u = match url {
                Ok(a) => Ok(a@),
                Err(e) => Err(e@),
            };
            &&& r.text@ == goaway_text(u)
            &&& final(state)@ == after_goaway(old(state)@, u, timeout)
            &&& r.wake
        }),
{
    let ghost before = state@;
    let mut text: String = String::new();
    match url {
        Ok(a) => {
            let _ = state.update_with_url(a);
            text.append("URL updated. ");
            assert(text@ == "URL updated. "@);
        },
        Err(e) => {
            text.append("Invalid URL parameter: ");
            text.append(e.as_str());
            text.append(". ");
            assert(text@ == "Invalid URL parameter: "@ + e@ + ". "@);
        },
    }
    let wake: bool = state.update_with_int(timeout);
    text.append("Integer value updated.");
    Reply { text, wake }
}

/// Sends the sessions away to the address that a text stands for.
pub fn goaway(state: &mut SharedState, url: &str, timeout: u64) -> (r: Reply)
    ensures
        r.text@ == goaway_text(url_of(url@)),
        final(state)@ == after_goaway(old(state)@, url_of(url@), timeout),
        r.wake,
{
    goaway_to(state, parse_address(url), timeout)
}

/// The rate that is asked for: what is given in bits per second, else what is given
/// in megabits.
pub open spec fn asked_rate(bps: Option<u64>, mbps_in_bps: Option<u64>) -> Option<u64> {
    match bps {
        Some(b) => Some(b),
        None => mbps_in_bps,
    }
}

/// Sets the rate at which sessions send. The rate and whether those who wait are to
/// be woken; where no rate is given, what is answered.
pub fn rate_limit(state: &mut SharedState, bps: Option<u64>, mbps_in_bps: Option<u64>) -> (r:
    Result<(u64, bool), String>)
    ensures
        match asked_rate(bps, mbps_in_bps) {
            Some(rate) => {
                &&& r == Ok::<(u64, bool), String>((rate, true))
                &&& final(state)@ == (SharedView {
                    changed: true,
                    rate_limit_bps: Some(rate),
                    ..old(state)@
                })
            },
            None => {
                &&& r matches Err(e)
                &&& e@ == "Missing 'bps' or 'mbps'"@
                &&& final(state)@ == old(state)@
            },
        },
{
    let rate: u64 = match bps {
        Some(b) => b,
        None => match mbps_in_bps {
            Some(m) => m,
            None => {
                return Err(String::from_str("Missing 'bps' or 'mbps'"));
            },
        },
    };
    let wake: bool = state.update_with_rate_limit_bps(rate);
    Ok((rate, wake))
}

/// The way of scheduling that a request asks for.
pub open spec fn asked_mode(mode: Option<Seq<char>>) -> DeadlineMode {
    if mode == Some("edf"@) {
        DeadlineMode::Edf
    } else {
        DeadlineMode::Lstf
    }
}

/// The scheduler that a request asks for, with what it leaves out filled in.
pub fn deadline_config(
    enable: Option<bool>,
    mode: Option<&str>,
    guard_ms: Option<u64>,
    beta_bits: Option<u64>,
) -> (r: DeadlineSchedulerConfig)
    ensures
        r.enabled == (match enable {
            Some(e) => e,
            None => true,
        }),
        r.mode == asked_mode(
            match mode {
                Some(m) => Some(m@),
                None => None,
            },
        ),
        r.guard_ms == (match guard_ms {
            Some(g) => g,
            None => DEFAULT_GUARD_MS,
        }),
        r.beta_bits == (match beta_bits {
            Some(b) => b,
            None => DEFAULT_BETA_BITS,
        }),
{
    let mode: DeadlineMode = match mode {
        Some(m) => if same_text(m, "edf") {
            DeadlineMode::Edf
        } else {
            DeadlineMode::Lstf
        },
        None => DeadlineMode::Lstf,
    };
    DeadlineSchedulerConfig {
        enabled: match enable {
            Some(e) => e,
            None => true,
        },
        mode,
        guard_ms: match guard_ms {
            Some(g) => g,
            None => DEFAULT_GUARD_MS,
        },
        beta_bits: match beta_bits {
            Some(b) => b,
            None => DEFAULT_BETA_BITS,
        },
    }
}

/// An address that is one becomes the address to go to, and any other leaves the address
/// as it was and is answered with what is wrong; the time counts in any case. Everyone
/// who waits is woken, and nothing else changes.
pub proof fn sessions_are_sent_to_the_address(
    state: &mut SharedState,
    url: &str,
    timeout: u64,
    read: Result<Address, String>,
    r: Reply,
)
    requires
        call_ensures(goaway, (state, url, timeout), r),
        call_ensures(parse_address, (url,), read),
    ensures
        r.wake && final(state)@.changed,
        final(state)@.elapsed_time == Some(timeout),
        read matches Ok(a) ==> final(state)@.url == Some(a@) && r.text@
            == "URL updated. "@ + "Integer value updated."@,
        read matches Err(e) ==> final(state)@.url == old(state)@.url && r.text@
            == "Invalid URL parameter: "@ + e@ + ". "@ + "Integer value updated."@,
        final(state)@.rate_limit_bps == old(state)@.rate_limit_bps && final(state)@.deadline_cfg
            == old(state)@.deadline_cfg,
{
}

/// A rate in bits counts before one in megabits. Either is kept and answered, and
/// everyone who waits is woken; without any, nothing changes and that is answered.
pub proof fn a_rate_in_bits_counts_first(
    state: &mut SharedState,
    bps: Option<u64>,
    mbps_in_bps: Option<u64>,
    r: Result<(u64, bool), String>,
)
    requires
        call_ensures(rate_limit, (state, bps, mbps_in_bps), r),
    ensures
        r is Ok == (bps is Some || mbps_in_bps is Some),
        r matches Ok((rate, wake)) ==> wake && final(state)@.rate_limit_bps == Some(rate) && (
        bps matches Some(b) ==> rate == b) && (bps is None ==> Some(rate) == mbps_in_bps)
            && final(state)@.changed,
        r matches Err(e) ==> e@ == "Missing 'bps' or 'mbps'"@ && final(state)@ == old(state)@,
        final(state)@.url == old(state)@.url && final(state)@.elapsed_time
            == old(state)@.elapsed_time && final(state)@.deadline_cfg == old(state)@.deadline_cfg,
{
}

/// What a request for a scheduler gives counts; else it is enabled, by least slack, with
/// ten milliseconds and nine tenths. Only `edf` asks for the earliest deadline.
pub proof fn a_scheduler_is_what_is_asked_for(
    enable: Option<bool>,
    mode: Option<&str>,
    guard_ms: Option<u64>,
    beta_bits: Option<u64>,
    r: DeadlineSchedulerConfig,
)
    requires
        call_ensures(deadline_config, (enable, mode, guard_ms, beta_bits), r),
    ensures
        enable matches Some(e) ==> r.enabled == e,
        enable is None ==> r.enabled,
        (r.mode == DeadlineMode::Edf) == (mode matches Some(m) && m@ == "edf"@),
        guard_ms matches Some(g) ==> r.guard_ms == g,
        guard_ms is None ==> r.guard_ms == 10,
        beta_bits matches Some(b) ==> r.beta_bits == b,
        beta_bits is None ==> r.beta_bits == 0x3fec_cccc_cccc_cccd,
{
}

/// Of several certificates the first is shown.
pub proof fn the_first_certificate_is_shown(f: Vec<String>, r: String)
    requires
        f@.len() > 0,
        call_ensures(first_fingerprint, (&f,), r),
    ensures
        r@ == f@[0]@,
{
}


/// A request to send the sessions away sets the time in any case, and the address where it
/// is one; what is answered names the error where it is none, and whoever waits is woken.
pub proof fn the_time_counts_in_any_case(
    state: &mut SharedState,
    url: Result<Address, String>,
    timeout: u64,
    r: Reply,
)
    requires
        call_ensures(goaway_to, (state, url, timeout), r),
    ensures
        final(state)@.elapsed_time == Some(timeout),
        final(state)@.changed,
        r.wake,
        url matches Ok(a) ==> final(state)@.url == Some(a@) && r.text@ == "URL updated. "@
            + "Integer value updated."@,
        url matches Err(e) ==> final(state)@.url == old(state)@.url && r.text@
            == "Invalid URL parameter: "@ + e@ + ". "@ + "Integer value updated."@,
        final(state)@ == (SharedView {
            changed: true,
            url: final(state)@.url,
            elapsed_time: Some(timeout),
            ..old(state)@
        }),
{
}

} // verus!
