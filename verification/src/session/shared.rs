//! What the operator of a relay tells its sessions.

use crate::address::{Address, AddressView};
use crate::message::control::{GoAway, Message};
use crate::message::fix_bandwidth::FixBandwidth;
use vstd::prelude::*;

verus! {

/// How long a session may go on after it was asked to leave, in seconds, where
/// nothing else is said.
pub const DEFAULT_GOAWAY_TIMEOUT: u64 = 100_000;

/// By what objects are ordered.
#[derive(Clone, Copy, Debug, PartialEq, Eq, Structural)]
pub enum DeadlineMode {
    /// Earliest deadline first.
    Edf,
    /// Least slack time first.
    Lstf,
}

/// How objects are scheduled by their deadlines.
#[derive(Clone, Copy, Debug, PartialEq, Eq, Structural)]
pub struct DeadlineSchedulerConfig {
    pub enabled: bool,
    pub mode: DeadlineMode,
    /// The safety margin in milliseconds.
    pub guard_ms: u64,
    /// The bits of the factor by which the packet rate is scaled.
    pub beta_bits: u64,
}

/// What the operator has said so far.
#[derive(Debug)]
pub struct SharedState {
    pub changed: bool,
    pub url: Option<Address>,
    pub elapsed_time: Option<u64>,
    pub rate_limit_bps: Option<u64>,
    pub deadline_cfg: Option<DeadlineSchedulerConfig>,
}

/// What a [`SharedState`] holds.
#[verifier::ext_equal]
pub struct SharedView {
    pub changed: bool,
    pub url: Option<AddressView>,
    pub elapsed_time: Option<u64>,
    pub rate_limit_bps: Option<u64>,
    pub deadline_cfg: Option<DeadlineSchedulerConfig>,
}

impl View for SharedState {
    type V = SharedView;

    open spec fn view(&self) -> SharedView {
        SharedView {
            changed: self.changed,
            url: match self.url {
                Some(u) => Some(u@),
                None => None,
            },
            elapsed_time: self.elapsed_time,
            rate_limit_bps: self.rate_limit_bps,
            deadline_cfg: self.deadline_cfg,
        }
    }
}

impl SharedState {
    /// Nothing has been said.
    pub fn new() -> (r: SharedState)
        ensures
            r@ == (SharedView {
                changed: false,
                url: None,
                elapsed_time: None,
                rate_limit_bps: None,
                deadline_cfg: None,
            }),
    {
        SharedState {
            changed: false,
            url: None,
            elapsed_time: None,
            rate_limit_bps: None,
            deadline_cfg: None,
        }
    }

    /// Something has been said. Whether those who wait are to be woken: every time,
    /// since one who waits for an address goes on waiting through other changes.
    pub fn update(&mut self) -> (r: bool)
        ensures
            r,
            final(self)@ == (SharedView { changed: true, ..old(self)@ }),
    {
        self.changed = true;
        true
    }

    /// Sessions are to move to this address. Whether those who wait are to be woken.
    pub fn update_with_url(&mut self, url: Address) -> (r: bool)
        ensures
            r,
            final(self)@ == (SharedView { changed: true, url: Some(url@), ..old(self)@ }),
    {
        self.url = Some(url);
        self.update()
    }

    /// Sessions have so many seconds. Whether those who wait are to be woken.
    pub fn update_with_int(&mut self, new_value: u64) -> (r: bool)
        ensures
            r,
            final(self)@ == (SharedView {
                changed: true,
                elapsed_time: Some(new_value),
                ..old(self)@
            }),
    {
        self.elapsed_time = Some(new_value);
        self.update()
    }

    /// Sessions send at this rate. Whether those who wait are to be woken.
    pub fn update_with_rate_limit_bps(&mut self, bps: u64) -> (r: bool)
        ensures
            r,
            final(self)@ == (SharedView { changed: true, rate_limit_bps: Some(bps), ..old(self)@ }),
    {
        self.rate_limit_bps = Some(bps);
        self.update()
    }

    /// Objects are scheduled in this way. Whether those who wait are to be woken.
    pub fn update_deadline_scheduler(&mut self, cfg: DeadlineSchedulerConfig) -> (r: bool)
        ensures
            r,
            final(self)@ == (SharedView { changed: true, deadline_cfg: Some(cfg), ..old(self)@ }),
    {
        self.deadline_cfg = Some(cfg);
        self.update()
    }

    /// Whether anything has been said.
    pub fn get(&self) -> (r: bool)
        ensures
            r == self@.changed,
    {
        self.changed
    }

    /// The text of the address to move to.
    pub fn get_url(&self) -> (r: Option<String>)
        ensures
            (match r {
                Some(t) => Some(t@),
                None => None,
            }) == (match self@.url {
                Some(u) => Some(u.text),
                None => None,
            }),
    {
        match &self.url {
            Some(u) => Some(u.text.clone()),
            None => None,
        }
    }

    /// How many seconds sessions have.
    pub fn get_value(&self) -> (r: Option<u64>)
        ensures
            r == self@.elapsed_time,
    {
        self.elapsed_time
    }

    /// The rate at which sessions send.
    pub fn get_rate_limit_bps(&self) -> (r: Option<u64>)
        ensures
            r == self@.rate_limit_bps,
    {
        self.rate_limit_bps
    }

    /// How objects are scheduled.
    pub fn get_deadline_scheduler(&self) -> (r: Option<DeadlineSchedulerConfig>)
        ensures
            r == self@.deadline_cfg,
    {
        self.deadline_cfg
    }

    /// How long to wait, in seconds, before a session that was asked to leave is
    /// ended.
    pub fn goaway_timeout(&self) -> (r: u64)
        ensures
            r == (match self@.elapsed_time {
                Some(t) => t,
                None => DEFAULT_GOAWAY_TIMEOUT,
            }),
    {
        match self.elapsed_time {
            Some(t) => t,
            None => DEFAULT_GOAWAY_TIMEOUT,
        }
    }

    /// The message that asks a peer to leave; none before there is an address.
    pub fn goaway_message(&self) -> (r: Option<Message>)
        ensures
            match self@.url {
                Some(u) => r matches Some(Message::GoAway(m)) && m.url@ == u.text,
                None => r is None,
            },
    {
        match self.get_url() {
            Some(url) => Some(Message::GoAway(GoAway { url })),
            None => None,
        }
    }

    /// The message that tells a peer at which rate to send: zero where there is no
    /// limit.
    pub fn bandwidth_message(&self) -> (r: FixBandwidth)
        ensures
            r.bandwidth == (match self@.rate_limit_bps {
                Some(bps) => bps,
                None => 0,
            }),
    {
        FixBandwidth {
            bandwidth: match self.rate_limit_bps {
                Some(bps) => bps,
                None => 0,
            },
        }
    }
}

impl Default for SharedState {
    fn default() -> (r: SharedState)
        ensures
            r@ == (SharedView {
                changed: false,
                url: None,
                elapsed_time: None,
                rate_limit_bps: None,
                deadline_cfg: None,
            }),
    {
        SharedState::new()
    }
}

/// What the operator says is kept, each thing by itself, and read back; nothing else is
/// forgotten, and everyone who waits is woken each time.
pub proof fn what_is_said_is_kept(
    s: &mut SharedState,
    url: Address,
    a: bool,
    t: &mut SharedState,
    secs: u64,
    b: bool,
    u: &mut SharedState,
    bps: u64,
    c: bool,
    v: &mut SharedState,
    cfg: DeadlineSchedulerConfig,
    d: bool,
    w: &mut SharedState,
    e: bool,
)
    requires
        call_ensures(SharedState::update_with_url, (s, url), a),
        call_ensures(SharedState::update_with_int, (t, secs), b),
        call_ensures(SharedState::update_with_rate_limit_bps, (u, bps), c),
        call_ensures(SharedState::update_deadline_scheduler, (v, cfg), d),
        call_ensures(SharedState::update, (w,), e),
    ensures
        a && b && c && d && e,
        final(s)@.changed && final(t)@.changed && final(u)@.changed && final(v)@.changed
            && final(w)@.changed,
        final(s)@.url == Some(url@) && final(s)@.elapsed_time == old(s)@.elapsed_time
            && final(s)@.rate_limit_bps == old(s)@.rate_limit_bps && final(s)@.deadline_cfg
            == old(s)@.deadline_cfg,
        final(t)@.elapsed_time == Some(secs) && final(t)@.url == old(t)@.url
            && final(t)@.rate_limit_bps == old(t)@.rate_limit_bps && final(t)@.deadline_cfg
            == old(t)@.deadline_cfg,
        final(u)@.rate_limit_bps == Some(bps) && final(u)@.url == old(u)@.url
            && final(u)@.elapsed_time == old(u)@.elapsed_time && final(u)@.deadline_cfg
            == old(u)@.deadline_cfg,
        final(v)@.deadline_cfg == Some(cfg) && final(v)@.url == old(v)@.url
            && final(v)@.elapsed_time == old(v)@.elapsed_time && final(v)@.rate_limit_bps
            == old(v)@.rate_limit_bps,
        final(w)@.url == old(w)@.url && final(w)@.elapsed_time == old(w)@.elapsed_time
            && final(w)@.rate_limit_bps == old(w)@.rate_limit_bps && final(w)@.deadline_cfg
            == old(w)@.deadline_cfg,
{
}

/// What was said is read as it was said. A session that is asked to leave has the time
/// that was said for it, else a hundred thousand seconds; a peer is told the address
/// once there is one, and the rate, where zero is none.
pub proof fn what_was_said_is_read(
    s: SharedState,
    changed: bool,
    url: Option<String>,
    secs: Option<u64>,
    bps: Option<u64>,
    cfg: Option<DeadlineSchedulerConfig>,
    timeout: u64,
    leave: Option<Message>,
    rate: FixBandwidth,
)
    requires
        call_ensures(SharedState::get, (&s,), changed),
        call_ensures(SharedState::get_url, (&s,), url),
        call_ensures(SharedState::get_value, (&s,), secs),
        call_ensures(SharedState::get_rate_limit_bps, (&s,), bps),
        call_ensures(SharedState::get_deadline_scheduler, (&s,), cfg),
        call_ensures(SharedState::goaway_timeout, (&s,), timeout),
        call_ensures(SharedState::goaway_message, (&s,), leave),
        call_ensures(SharedState::bandwidth_message, (&s,), rate),
    ensures
        changed == s.changed && secs == s.elapsed_time && bps == s.rate_limit_bps && cfg
            == s.deadline_cfg,
        url is Some == s.url is Some,
        url matches Some(x) ==> x@ == s.url->Some_0.text@,
        secs matches Some(x) ==> timeout == x,
        secs is None ==> timeout == 100_000,
        leave is Some == s.url is Some,
        leave matches Some(m) ==> (m matches Message::GoAway(g) && g.url@ == s.url->Some_0.text@),
        bps matches Some(x) ==> rate.bandwidth == x,
        bps is None ==> rate.bandwidth == 0,
{
}

/// At first nothing has been said.
pub proof fn nothing_is_said_at_first(s: SharedState)
    requires
        call_ensures(SharedState::new, (), s),
    ensures
        !s.changed && s.url is None && s.elapsed_time is None && s.rate_limit_bps is None
            && s.deadline_cfg is None,
{
}

/// By default, too, nothing is set and nobody is to be woken.
pub proof fn nothing_is_said_by_default(s: SharedState)
    requires
        call_ensures(<SharedState as Default>::default, (), s),
    ensures
        !s@.changed,
        s@.url is None && s@.elapsed_time is None && s@.rate_limit_bps is None,
        s@.deadline_cfg is None,
{
}

} // verus!
