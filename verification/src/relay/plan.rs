//! What a relay does with a connection and with a subscription.

use crate::session::error::ServeError;
use vstd::prelude::*;

verus! {

/// Whether other relays are looked up: only with both the address of the service
/// that knows them and a name of one's own.
pub fn uses_api(api: bool, node: bool) -> (r: bool)
    ensures
        r == (api && node),
{
    api && node
}

/// How announcements are forwarded.
#[derive(Clone, Copy, Debug, PartialEq, Eq, Structural)]
pub enum Forward {
    /// Not at all.
    Off,
    /// Over a session without a rate limit.
    Unlimited,
    /// Over a session that sends at no more than so many bits per second.
    Limited(u32),
}

/// How announcements are forwarded, given whether there is an address to forward
/// them to and the rate limit.
pub fn forward_plan(announce: bool, rate_limit_bps: Option<u32>) -> (r: Forward)
    ensures
        r == (if !announce {
            Forward::Off
        } else {
            match rate_limit_bps {
                Some(rate) => Forward::Limited(rate),
                None => Forward::Unlimited,
            }
        }),
{
    if !announce {
        return Forward::Off;
    }
    match rate_limit_bps {
        Some(rate) => Forward::Limited(rate),
        None => Forward::Unlimited,
    }
}

/// How a session is run.
#[derive(Clone, Copy, Debug, PartialEq, Eq, Structural)]
pub enum SessionRun {
    Plain,
    /// With its bandwidth reported every so many seconds, against a rate limit of
    /// so many bits per second; zero is no limit.
    Monitored { interval_secs: u64, rate_bps: u32 },
}

/// What is done with a session that has been accepted.
#[derive(Clone, Copy, Debug, PartialEq, Eq, Structural)]
pub struct SessionPlan {
    /// The rate limit that the session is given.
    pub rate_limit_bps: Option<u32>,
    pub run: SessionRun,
}

/// What is done with a session that has been accepted.
pub fn session_plan(rate_limit_bps: Option<u32>, monitoring: Option<u64>) -> (r: SessionPlan)
    ensures
        r.rate_limit_bps == rate_limit_bps,
        r.run == (match monitoring {
            None => SessionRun::Plain,
            Some(interval_secs) => SessionRun::Monitored {
                interval_secs,
                rate_bps: match rate_limit_bps {
                    Some(rate) => rate,
                    None => 0,
                },
            },
        }),
{
    let run: SessionRun = match monitoring {
        None => SessionRun::Plain,
        Some(interval_secs) => SessionRun::Monitored {
            interval_secs,
            rate_bps: match rate_limit_bps {
                Some(rate) => rate,
                None => 0,
            },
        },
    };
    SessionPlan { rate_limit_bps, run }
}

/// How the loop of a relay goes on.
#[derive(Clone, Copy, Debug, PartialEq, Eq, Structural)]
pub enum RelayEvent {
    /// A connection has been accepted.
    Accepted,
    /// No connection can be accepted any longer.
    AcceptFailed,
    /// A task has come to an end.
    TaskDone,
    /// A task has failed.
    TaskFailed,
}

/// The loop of a relay.
#[derive(Clone, Copy, Debug, PartialEq, Eq, Structural)]
pub struct RelayLoop {
    /// How many tasks are running.
    pub tasks: usize,
}

impl RelayLoop {
    /// The start of the loop: a task for the other relays and one for the forward
    /// session, where there are such.
    pub fn new(remotes: bool, forward: Forward) -> (r: RelayLoop)
        ensures
            r.tasks == (if remotes {
                1int
            } else {
                0
            }) + (if forward == Forward::Off {
                0int
            } else {
                1
            }),
    {
        let a: usize = if remotes {
            1
        } else {
            0
        };
        let b: usize = match forward {
            Forward::Off => 0,
            _ => 1,
        };
        RelayLoop { tasks: a + b }
    }

    /// Whether the end of a task is waited for.
    pub fn waits_for_tasks(&self) -> (r: bool)
        ensures
            r == (self.tasks > 0),
    {
        self.tasks > 0
    }

    /// Takes in what happened. Whether the loop goes on: it ends with the first
    /// failure to accept a connection and with the first task that fails.
    pub fn event(&mut self, e: RelayEvent) -> (r: bool)
        requires
            e is TaskDone || e is TaskFailed ==> old(self).tasks > 0,
            e is Accepted ==> old(self).tasks < usize::MAX,
        ensures
            r == (e is Accepted || e is TaskDone),
            final(self).tasks == (match e {
                RelayEvent::Accepted => old(self).tasks + 1,
                RelayEvent::AcceptFailed => old(self).tasks as int,
                _ => old(self).tasks - 1,
            }),
    {
        match e {
            RelayEvent::Accepted => {
                self.tasks = self.tasks + 1;
                true
            },
            RelayEvent::AcceptFailed => false,
            RelayEvent::TaskDone => {
                self.tasks = self.tasks - 1;
                true
            },
            RelayEvent::TaskFailed => {
                self.tasks = self.tasks - 1;
                false
            },
        }
    }
}

/// What was found in one place that may have a track.
#[derive(Clone, Copy, Debug, PartialEq, Eq, Structural)]
pub enum Lookup {
    /// The namespace is not there.
    NoNamespace,
    /// The namespace is there, the track is not.
    NoTrack,
    /// The track is there.
    Track,
}

/// Where a subscription is served from.
#[derive(Clone, Copy, Debug, PartialEq, Eq, Structural)]
pub enum Source {
    Local,
    Remote,
}

/// What is to be done for a subscription after the relay's own tracks have been
/// looked at.
#[derive(Clone, Copy, Debug, PartialEq, Eq, Structural)]
pub enum AfterLocal {
    /// Serve it from there.
    Serve,
    /// Look at the other relays.
    AskRemotes,
    /// There is nowhere else to look.
    NotFound,
}

/// What is to be done for a subscription after the relay's own tracks have been
/// looked at.
pub fn after_local(local: Lookup, remotes: bool) -> (r: AfterLocal)
    ensures
        r == (if local == Lookup::Track {
            AfterLocal::Serve
        } else if remotes {
            AfterLocal::AskRemotes
        } else {
            AfterLocal::NotFound
        }),
{
    match local {
        Lookup::Track => AfterLocal::Serve,
        _ => if remotes {
            AfterLocal::AskRemotes
        } else {
            AfterLocal::NotFound
        },
    }
}

/// Where a subscription is served from: the relay's own tracks, else another relay.
/// `remote` is what was found there, where other relays were asked.
pub fn choose_source(local: Lookup, remote: Option<Lookup>) -> (r: Result<Source, ServeError>)
    ensures
        r == (if local == Lookup::Track {
            Ok::<Source, ServeError>(Source::Local)
        } else if remote == Some(Lookup::Track) {
            Ok::<Source, ServeError>(Source::Remote)
        } else {
            Err::<Source, ServeError>(ServeError::NotFound)
        }),
{
    match local {
        Lookup::Track => Ok(Source::Local),
        _ => match remote {
            Some(Lookup::Track) => Ok(Source::Remote),
            _ => Err(ServeError::NotFound),
        },
    }
}

/// The tasks of a session of the relay: the session itself, and its producer and
/// consumer, where there are such.
#[derive(Clone, Copy, Debug, PartialEq, Eq, Structural)]
pub struct SessionTasks {
    /// How many tasks are running.
    pub left: usize,
    /// Whether none has come to an end yet.
    pub all: bool,
}

impl SessionTasks {
    /// The tasks of a session that has just begun.
    pub fn new(producer: bool, consumer: bool) -> (r: SessionTasks)
        ensures
            r.left == 1 + (if producer {
                1int
            } else {
                0
            }) + (if consumer {
                1int
            } else {
                0
            }),
            r.all,
    {
        let p: usize = if producer {
            1
        } else {
            0
        };
        let c: usize = if consumer {
            1
        } else {
            0
        };
        SessionTasks { left: 1 + p + c, all: true }
    }

    /// A task has come to an end, well or not. Whether there is something to warn of:
    /// a failure, but not of the task that ends first.
    pub fn task_done(&mut self, failed: bool) -> (r: bool)
        requires
            old(self).left > 0,
        ensures
            r == (failed && !old(self).all),
            *final(self) == (SessionTasks { left: (old(self).left - 1) as usize, all: false }),
    {
        let warn: bool = failed && !self.all;
        self.left = self.left - 1;
        self.all = false;
        warn
    }

    /// Whether the session is over. It ends well, whatever its tasks did.
    pub fn finished(&self) -> (r: bool)
        ensures
            r == (self.left == 0),
    {
        self.left == 0
    }
}

/// The loop of a producer: it serves subscriptions, each as a task of its own.
#[derive(Clone, Copy, Debug, PartialEq, Eq, Structural)]
pub struct ProducerLoop {
    /// Whether no more subscriptions come.
    pub ended: bool,
    /// How many subscriptions are being served.
    pub tasks: usize,
}

impl ProducerLoop {
    /// The start of the loop.
    pub fn new() -> (r: ProducerLoop)
        ensures
            r == (ProducerLoop { ended: false, tasks: 0 }),
    {
        ProducerLoop { ended: false, tasks: 0 }
    }

    /// A subscription has come, or none will come any longer.
    pub fn subscribed(&mut self, some: bool)
        requires
            old(self).tasks < usize::MAX,
        ensures
            *final(self) == (if some {
                ProducerLoop { tasks: (old(self).tasks + 1) as usize, ..*old(self) }
            } else {
                ProducerLoop { ended: true, ..*old(self) }
            }),
    {
        if some {
            self.tasks = self.tasks + 1;
        } else {
            self.ended = true;
        }
    }

    /// A subscription has been served.
    pub fn task_done(&mut self)
        requires
            old(self).tasks > 0,
        ensures
            *final(self) == (ProducerLoop { tasks: (old(self).tasks - 1) as usize, ..*old(self) }),
    {
        self.tasks = self.tasks - 1;
    }

    /// Whether there is nothing left to wait for.
    pub fn finished(&self) -> (r: bool)
        ensures
            r == (self.ended && self.tasks == 0),
    {
        self.ended && self.tasks == 0
    }
}

/// Other relays are asked only where there are both an address and a name. Announcements
/// are forwarded where there is an address for that, within the rate limit where there
/// is one.
pub proof fn relays_work_together_where_they_can(
    api: bool,
    node: bool,
    uses: bool,
    announce: bool,
    rate: Option<u32>,
    f: Forward,
)
    requires
        call_ensures(uses_api, (api, node), uses),
        call_ensures(forward_plan, (announce, rate), f),
    ensures
        uses ==> api && node,
        api && node ==> uses,
        (f == Forward::Off) == !announce,
        announce ==> (rate matches Some(x) ==> f == Forward::Limited(x)),
        announce && rate is None ==> f == Forward::Unlimited,
{
}

/// An accepted session has the rate limit of the relay. It is watched exactly where a
/// time is given for that, against that limit or none.
pub proof fn a_session_is_limited_and_watched(
    rate: Option<u32>,
    monitoring: Option<u64>,
    r: SessionPlan,
)
    requires
        call_ensures(session_plan, (rate, monitoring), r),
    ensures
        r.rate_limit_bps == rate,
        (r.run == SessionRun::Plain) == monitoring is None,
        monitoring matches Some(secs) ==> (r.run matches SessionRun::Monitored {
            interval_secs,
            rate_bps,
        } && interval_secs == secs && (rate matches Some(x) ==> rate_bps == x) && (rate is None
            ==> rate_bps == 0)),
{
}

/// A relay goes on while it can accept connections and its tasks end well. It waits for
/// as many tasks as were started and have not ended.
pub proof fn a_relay_goes_on_until_something_fails(
    remotes: bool,
    f: Forward,
    n: RelayLoop,
    l: &mut RelayLoop,
    e: RelayEvent,
    r: bool,
    waits: bool,
)
    requires
        call_ensures(RelayLoop::new, (remotes, f), n),
        e is TaskDone || e is TaskFailed ==> old(l).tasks > 0,
        e is Accepted ==> old(l).tasks < usize::MAX,
        call_ensures(RelayLoop::event, (l, e), r),
        call_ensures(RelayLoop::waits_for_tasks, (final(l),), waits),
    ensures
        n.tasks <= 2,
        n.tasks == 0 <==> !remotes && f == Forward::Off,
        n.tasks == 2 <==> remotes && f != Forward::Off,
        r <==> e == RelayEvent::Accepted || e == RelayEvent::TaskDone,
        e == RelayEvent::Accepted ==> final(l).tasks == old(l).tasks + 1,
        e == RelayEvent::TaskDone || e == RelayEvent::TaskFailed ==> final(l).tasks + 1
            == old(l).tasks,
        e == RelayEvent::AcceptFailed ==> final(l).tasks == old(l).tasks,
        waits == (final(l).tasks != 0),
{
}

/// The relay's own track is served wherever there is one; else that of another relay,
/// where others can be asked and have it; else the track is not found.
pub proof fn own_tracks_come_first(
    local: Lookup,
    remotes: bool,
    a: AfterLocal,
    remote: Option<Lookup>,
    s: Result<Source, ServeError>,
)
    requires
        call_ensures(after_local, (local, remotes), a),
        call_ensures(choose_source, (local, remote), s),
    ensures
        local == Lookup::Track ==> a == AfterLocal::Serve && s == Ok::<Source, ServeError>(
            Source::Local,
        ),
        local != Lookup::Track && remotes ==> a == AfterLocal::AskRemotes,
        local != Lookup::Track && !remotes ==> a == AfterLocal::NotFound,
        local != Lookup::Track && remote == Some(Lookup::Track) ==> s == Ok::<Source, ServeError>(
            Source::Remote,
        ),
        local != Lookup::Track && remote != Some(Lookup::Track) ==> s == Err::<Source, ServeError>(
            ServeError::NotFound,
        ),
{
}

/// A session of the relay is over once all its tasks have ended: itself, and its
/// producer and consumer, where it has them. Only a failure behind the first end is
/// warned of.
pub proof fn a_session_is_over_with_its_last_task(
    producer: bool,
    consumer: bool,
    n: SessionTasks,
    t: &mut SessionTasks,
    failed: bool,
    warn: bool,
    u: &mut SessionTasks,
    second: bool,
    warned: bool,
    over: bool,
)
    requires
        call_ensures(SessionTasks::new, (producer, consumer), n),
        *old(t) == n,
        call_ensures(SessionTasks::task_done, (t, failed), warn),
        *old(u) == *final(t),
        old(u).left > 0,
        call_ensures(SessionTasks::task_done, (u, second), warned),
        call_ensures(SessionTasks::finished, (final(u),), over),
    ensures
        !warn,
        warned == second,
        n.left == 3 <==> producer && consumer,
        n.left == 1 <==> !producer && !consumer,
        1 <= n.left <= 3,
        final(u).left == n.left - 2,
        over == (n.left == 2),
{
}

/// A producer serves until no more subscriptions come and all that came have been
/// served.
pub proof fn a_producer_serves_to_the_last(
    n: ProducerLoop,
    l: &mut ProducerLoop,
    some: bool,
    m: &mut ProducerLoop,
    p: ProducerLoop,
    over: bool,
)
    requires
        call_ensures(ProducerLoop::new, (), n),
        old(l).tasks < usize::MAX,
        call_ensures(ProducerLoop::subscribed, (l, some), ()),
        old(m).tasks > 0,
        call_ensures(ProducerLoop::task_done, (m,), ()),
        call_ensures(ProducerLoop::finished, (&p,), over),
    ensures
        !n.ended && n.tasks == 0,
        some ==> final(l).tasks == old(l).tasks + 1 && final(l).ended == old(l).ended,
        !some ==> final(l).tasks == old(l).tasks && final(l).ended,
        final(m).tasks + 1 == old(m).tasks && final(m).ended == old(m).ended,
        over <==> p.ended && p.tasks == 0,
{
}

} // verus!
