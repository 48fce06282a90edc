//! How a subscription is served: the stream of one subgroup, and the loops around
//! it.
//!
//! The machines here decide. Whoever runs them does the reading and writing and
//! reports how it went.

use crate::buffer::{buffered, chunk, freeze, frozen, new_buffer};
use crate::coding::error::EncodeError;
use crate::coding::wire::Encode;
use crate::data::header::{header_is_short, write_header, Header, SubgroupHeader};
use crate::data::object::{object_is_short, write_object, ObjectStatus, SubgroupObject};
use crate::session::error::{ServeError, SessionError};
use crate::session::subscribed::{latest_of, SubscribedState};
use vstd::prelude::*;

verus! {

/// What the transport is told about bytes that are to be dropped when they are
/// late: how many there are, after how many milliseconds, counted from when.
#[derive(Clone, Copy, Debug, PartialEq, Eq, Structural)]
pub struct Account {
    pub size: u64,
    pub timeout: Option<u64>,
    pub time: u64,
}

/// Bytes to be written, and what the transport is told about them before.
#[derive(Debug)]
pub struct HeaderPlan {
    pub account: Option<Account>,
    pub bytes: Result<bytes::Bytes, EncodeError>,
}

/// What to do before the first object of a subgroup.
#[derive(Debug)]
pub struct StartPlan {
    /// Whether the transport is told the rate limit.
    pub set_bandwidth: bool,
    /// The priority of the stream.
    pub priority: i32,
    pub header: HeaderPlan,
}

/// An object that is about to be sent.
#[derive(Clone, Copy, Debug, PartialEq, Eq, Structural)]
pub struct ObjectInfo {
    pub object_id: u64,
    pub size: usize,
    pub status: ObjectStatus,
}

/// What comes next in a subgroup.
#[derive(Clone, Copy, Debug, PartialEq, Eq, Structural)]
pub enum NextObject {
    Object(ObjectInfo),
    /// There are no more objects.
    End,
    /// The subgroup fails.
    Failed(ServeError),
}

/// What to do with the stream of a subgroup.
#[derive(Debug)]
pub enum ServeAction {
    /// Wait for the next object.
    Next,
    /// Write the header of an object.
    WriteHeader(HeaderPlan),
    /// Collect the payload of the object.
    ReadPayload,
    /// Write the payload.
    WritePayload,
    /// Finish the stream. The work is done.
    Finish,
    /// Report a missing frame and finish the stream. The work is done.
    Lost,
    /// Report a missing frame and a dropped one. The work is done.
    Truncated,
    /// Give up.
    Fail(ServeError),
}

/// Where the serving of a subgroup stands.
#[derive(Clone, Copy, Debug, PartialEq, Eq, Structural)]
pub enum ServePhase {
    /// The header of the stream is being written.
    Header,
    /// The next object is waited for.
    Waiting,
    /// The header of an object is being written.
    ObjectHeader(ObjectInfo),
    /// The payload of an object is being collected.
    Payload(ObjectInfo),
    /// The payload of an object is being written.
    Writing(ObjectInfo),
    /// It is over.
    Over,
}

/// The serving of one subgroup.
#[derive(Clone, Copy, Debug, PartialEq, Eq, Structural)]
pub struct SubgroupServer {
    pub group_id: u64,
    /// Whether the transport drops what is late.
    pub relay_side_drop: bool,
    /// After how many milliseconds an object is late.
    pub timeout: Option<u64>,
    pub phase: ServePhase,
}

/// What the transport is told about `size` bytes.
pub open spec fn account_of(drop: bool, size: u64, timeout: Option<u64>, time: u64) -> Option<
    Account,
> {
    if drop {
        Some(Account { size, timeout, time })
    } else {
        None
    }
}

/// Whether `r` is what an encoding says.
pub open spec fn is_encoded(
    r: Result<bytes::Bytes, EncodeError>,
    e: (Seq<u8>, Option<EncodeError>),
) -> bool {
    match e.1 {
        None => r matches Ok(b) && frozen(b) == e.0,
        Some(err) => r == Err::<bytes::Bytes, EncodeError>(err),
    }
}

/// The header of an object that is sent at `time`.
pub open spec fn object_header(o: ObjectInfo, time: u64) -> SubgroupObject {
    SubgroupObject { object_id: o.object_id, size: o.size, status: o.status, deadline: time }
}

impl SubgroupServer {
    /// Starts the stream of a subgroup at `time`, in milliseconds of Unix time.
    pub fn start(
        header: SubgroupHeader,
        priority: u8,
        timeout: Option<u64>,
        relay_side_drop: bool,
        link_capacity_information: bool,
        time: u64,
    ) -> (r: (SubgroupServer, StartPlan))
        ensures
            r.0 == (SubgroupServer {
                group_id: header.group_id,
                relay_side_drop,
                timeout,
                phase: ServePhase::Header,
            }),
            r.1.set_bandwidth == link_capacity_information,
            r.1.priority == priority,
            r.1.header.account == account_of(
                relay_side_drop,
                write_header(Header::Subgroup(header)).0.len() as u64,
                timeout,
                time,
            ),
            is_encoded(r.1.header.bytes, write_header(Header::Subgroup(header))),
    {
        let msg: Header = Header::Subgroup(header);
        let mut w: bytes::BytesMut = new_buffer();
        proof {
            header_is_short(msg);
        }
        let res: Result<(), EncodeError> = msg.encode(&mut w);
        assert(buffered(w) == write_header(msg).0);
        let size: u64 = chunk(&w).len() as u64;
        let account: Option<Account> = if relay_side_drop {
            Some(Account { size, timeout, time })
        } else {
            None
        };
        let bytes: Result<bytes::Bytes, EncodeError> = match res {
            Ok(()) => Ok(freeze(w)),
            Err(e) => Err(e),
        };
        (
            SubgroupServer {
                group_id: header.group_id,
                relay_side_drop,
                timeout,
                phase: ServePhase::Header,
            },
            StartPlan {
                set_bandwidth: link_capacity_information,
                priority: priority as i32,
                header: HeaderPlan { account, bytes },
            },
        )
    }

    /// The header of the stream has been written, or not. A stream that does not
    /// take its header is dropped softly.
    pub fn header_written(&mut self, ok: bool) -> (r: ServeAction)
        requires
            old(self).phase == ServePhase::Header,
        ensures
            r == (if ok {
                ServeAction::Next
            } else {
                ServeAction::Finish
            }),
            *final(self) == (SubgroupServer {
                phase: if ok {
                    ServePhase::Waiting
                } else {
                    ServePhase::Over
                },
                ..*old(self)
            }),
    {
        if ok {
            self.phase = ServePhase::Waiting;
            ServeAction::Next
        } else {
            self.phase = ServePhase::Over;
            ServeAction::Finish
        }
    }

    /// The next object has come, at `time`; or there is none.
    pub fn next(&mut self, next: NextObject, time: u64) -> (r: ServeAction)
        requires
            old(self).phase == ServePhase::Waiting,
        ensures
            match next {
                NextObject::Object(o) => {
                    &&& r matches ServeAction::WriteHeader(plan)
                    &&& plan.account == account_of(
                        old(self).relay_side_drop,
                        o.size as u64,
                        old(self).timeout,
                        time,
                    )
                    &&& is_encoded(plan.bytes, write_object(object_header(o, time)))
                    &&& *final(self) == (SubgroupServer {
                        phase: ServePhase::ObjectHeader(o),
                        ..*old(self)
                    })
                },
                NextObject::End => {
                    &&& r == ServeAction::Finish
                    &&& *final(self) == (SubgroupServer { phase: ServePhase::Over, ..*old(self) })
                },
                NextObject::Failed(e) => {
                    &&& r == ServeAction::Fail(e)
                    &&& *final(self) == (SubgroupServer { phase: ServePhase::Over, ..*old(self) })
                },
            },
    {
        match next {
            NextObject::Object(o) => {
                let header = SubgroupObject {
                    object_id: o.object_id,
                    size: o.size,
                    status: o.status,
                    deadline: time,
                };
                let mut w: bytes::BytesMut = new_buffer();
                proof {
                    object_is_short(header);
                }
                let res: Result<(), EncodeError> = header.encode(&mut w);
                assert(buffered(w) == write_object(header).0);
                let account: Option<Account> = if self.relay_side_drop {
                    Some(Account { size: o.size as u64, timeout: self.timeout, time })
                } else {
                    None
                };
                let bytes: Result<bytes::Bytes, EncodeError> = match res {
                    Ok(()) => Ok(freeze(w)),
                    Err(e) => Err(e),
                };
                self.phase = ServePhase::ObjectHeader(o);
                ServeAction::WriteHeader(HeaderPlan { account, bytes })
            },
            NextObject::End => {
                self.phase = ServePhase::Over;
                ServeAction::Finish
            },
            NextObject::Failed(e) => {
                self.phase = ServePhase::Over;
                ServeAction::Fail(e)
            },
        }
    }

    /// The header of the object has been written, or not. Once it has, the object
    /// counts as sent, if the subscription is still there.
    pub fn object_header_written(
        &mut self,
        ok: bool,
        state: &mut SubscribedState,
        receiving: bool,
    ) -> (r: ServeAction)
        requires
            old(self).phase is ObjectHeader,
        ensures
            ({
                let o = old(self).phase->ObjectHeader_0;
                if !ok {
                    &&& r == ServeAction::Finish
                    &&& *final(self) == (SubgroupServer { phase: ServePhase::Over, ..*old(self) })
                    &&& *final(state) == *old(state)
                } else if !receiving {
                    &&& r == ServeAction::Fail(ServeError::Done)
                    &&& *final(self) == (SubgroupServer { phase: ServePhase::Over, ..*old(self) })
                    &&& *final(state) == *old(state)
                } else {
                    &&& r == ServeAction::ReadPayload
                    &&& *final(self) == (SubgroupServer {
                        phase: ServePhase::Payload(o),
                        ..*old(self)
                    })
                    &&& *final(state) == (SubscribedState {
                        max_group_id: latest_of(
                            old(state).max_group_id,
                            (old(self).group_id, o.object_id),
                        ),
                        ..*old(state)
                    })
                }
            }),
    {
        let o: ObjectInfo = match self.phase {
            ServePhase::ObjectHeader(o) => o,
            _ => {
                return ServeAction::Finish;
            },
        };
        if !ok {
            self.phase = ServePhase::Over;
            return ServeAction::Finish;
        }
        if !receiving {
            self.phase = ServePhase::Over;
            return ServeAction::Fail(ServeError::Done);
        }
        let _ = state.update_max_group_id(self.group_id, o.object_id);
        self.phase = ServePhase::Payload(o);
        ServeAction::ReadPayload
    }

    /// The payload of the object has been collected: so many bytes of it, or an
    /// error. A payload of another size than declared is not sent.
    pub fn payload(&mut self, len: Result<usize, ServeError>) -> (r: ServeAction)
        requires
            old(self).phase is Payload,
        ensures
            ({
                let o = old(self).phase->Payload_0;
                match len {
                    Err(e) => {
                        &&& r == ServeAction::Fail(e)
                        &&& *final(self) == (SubgroupServer {
                            phase: ServePhase::Over,
                            ..*old(self)
                        })
                    },
                    Ok(n) => if n != o.size {
                        &&& r == ServeAction::Truncated
                        &&& *final(self) == (SubgroupServer {
                            phase: ServePhase::Over,
                            ..*old(self)
                        })
                    } else {
                        &&& r == ServeAction::WritePayload
                        &&& *final(self) == (SubgroupServer {
                            phase: ServePhase::Writing(o),
                            ..*old(self)
                        })
                    },
                }
            }),
    {
        let o: ObjectInfo = match self.phase {
            ServePhase::Payload(o) => o,
            _ => {
                return ServeAction::Finish;
            },
        };
        match len {
            Err(e) => {
                self.phase = ServePhase::Over;
                ServeAction::Fail(e)
            },
            Ok(n) => if n != o.size {
                self.phase = ServePhase::Over;
                ServeAction::Truncated
            } else {
                self.phase = ServePhase::Writing(o);
                ServeAction::WritePayload
            },
        }
    }

    /// The payload has been written, or not.
    pub fn payload_written(&mut self, ok: bool) -> (r: ServeAction)
        requires
            old(self).phase is Writing,
        ensures
            r == (if ok {
                ServeAction::Next
            } else {
                ServeAction::Lost
            }),
            *final(self) == (SubgroupServer {
                phase: if ok {
                    ServePhase::Waiting
                } else {
                    ServePhase::Over
                },
                ..*old(self)
            }),
    {
        if ok {
            self.phase = ServePhase::Waiting;
            ServeAction::Next
        } else {
            self.phase = ServePhase::Over;
            ServeAction::Lost
        }
    }
}

/// The loop that serves the subgroups of a track, each as a task of its own.
#[derive(Clone, Copy, Debug, PartialEq, Eq)]
pub struct ServeLoop {
    /// Whether no more subgroups are taken, and why.
    pub done: Option<Result<(), ServeError>>,
    /// How many tasks are running.
    pub tasks: usize,
}

/// What the track gives next.
#[derive(Clone, Copy, Debug, PartialEq, Eq)]
pub enum NextSubgroup {
    Subgroup,
    End,
    Failed(ServeError),
}

impl ServeLoop {
    /// The start of the loop.
    pub fn new() -> (r: ServeLoop)
        ensures
            r == (ServeLoop { done: None, tasks: 0 }),
    {
        ServeLoop { done: None, tasks: 0 }
    }

    /// Whether subgroups are still taken and the end of the subscription is waited
    /// for.
    pub fn taking(&self) -> (r: bool)
        ensures
            r == (self.done is None),
    {
        self.done.is_none()
    }

    /// The track gives something. A subgroup starts a task; anything else ends the
    /// taking. Whether a task is to be started.
    pub fn next(&mut self, next: NextSubgroup) -> (r: bool)
        requires
            old(self).done is None,
            old(self).tasks < usize::MAX,
        ensures
            r == (next is Subgroup),
            *final(self) == (match next {
                NextSubgroup::Subgroup => ServeLoop {
                    done: None,
                    tasks: (old(self).tasks + 1) as usize,
                },
                NextSubgroup::End => ServeLoop { done: Some(Ok(())), ..*old(self) },
                NextSubgroup::Failed(e) => ServeLoop { done: Some(Err(e)), ..*old(self) },
            }),
    {
        match next {
            NextSubgroup::Subgroup => {
                self.tasks = self.tasks + 1;
                true
            },
            NextSubgroup::End => {
                self.done = Some(Ok(()));
                false
            },
            NextSubgroup::Failed(e) => {
                self.done = Some(Err(e));
                false
            },
        }
    }

    /// The subscription is over.
    pub fn closed(&mut self, res: Result<(), ServeError>)
        requires
            old(self).done is None,
        ensures
            *final(self) == (ServeLoop { done: Some(res), ..*old(self) }),
    {
        self.done = Some(res);
    }

    /// A task has come to an end.
    pub fn task_done(&mut self)
        requires
            old(self).tasks > 0,
        ensures
            *final(self) == (ServeLoop { tasks: (old(self).tasks - 1) as usize, ..*old(self) }),
    {
        self.tasks = self.tasks - 1;
    }

    /// How the loop ends, once nothing is taken any longer and no task runs.
    pub fn finished(&self) -> (r: Option<Result<(), SessionError>>)
        ensures
            r is Some == (self.done is Some && self.tasks == 0),
            r matches Some(res) ==> match self.done->Some_0 {
                Ok(_) => res is Ok,
                Err(e) => res == Err::<(), SessionError>(SessionError::Serve(e)),
            },
    {
        if self.tasks > 0 {
            return None;
        }
        match self.done {
            None => None,
            Some(Ok(())) => Some(Ok(())),
            Some(Err(e)) => Some(Err(SessionError::Serve(e))),
        }
    }
}

/// The loop that serves an announced namespace.
#[derive(Clone, Copy, Debug, PartialEq, Eq, Structural)]
pub struct AnnounceLoop {
    /// Whether no more subscriptions come.
    pub subscribe_done: bool,
    /// Whether no more status requests come.
    pub status_done: bool,
    /// How many subscriptions are being served.
    pub subscribe_tasks: usize,
    /// How many status requests are being answered.
    pub status_tasks: usize,
}

impl AnnounceLoop {
    /// The start of the loop.
    pub fn new() -> (r: AnnounceLoop)
        ensures
            r == (AnnounceLoop {
                subscribe_done: false,
                status_done: false,
                subscribe_tasks: 0,
                status_tasks: 0,
            }),
    {
        AnnounceLoop { subscribe_done: false, status_done: false, subscribe_tasks: 0, status_tasks: 0 }
    }

    /// A subscription has come, or none will come any longer; or waiting for one
    /// failed, which ends the loop. Whether it is to be served.
    pub fn subscribed(&mut self, res: Result<bool, ServeError>) -> (r: Result<bool, SessionError>)
        requires
            !old(self).subscribe_done,
            old(self).subscribe_tasks < usize::MAX,
        ensures
            r == (match res {
                Ok(some) => Ok::<bool, SessionError>(some),
                Err(e) => Err::<bool, SessionError>(SessionError::Serve(e)),
            }),
            *final(self) == (match res {
                Ok(true) => AnnounceLoop {
                    subscribe_tasks: (old(self).subscribe_tasks + 1) as usize,
                    ..*old(self)
                },
                Ok(false) => AnnounceLoop { subscribe_done: true, ..*old(self) },
                Err(_) => *old(self),
            }),
    {
        match res {
            Ok(true) => {
                self.subscribe_tasks = self.subscribe_tasks + 1;
                Ok(true)
            },
            Ok(false) => {
                self.subscribe_done = true;
                Ok(false)
            },
            Err(e) => Err(SessionError::Serve(e)),
        }
    }

    /// A status request has come, or none will come any longer; or waiting for one
    /// failed, which ends the loop. Whether it is to be answered.
    pub fn status_requested(&mut self, res: Result<bool, ServeError>) -> (r: Result<
        bool,
        SessionError,
    >)
        requires
            !old(self).status_done,
            old(self).status_tasks < usize::MAX,
        ensures
            r == (match res {
                Ok(some) => Ok::<bool, SessionError>(some),
                Err(e) => Err::<bool, SessionError>(SessionError::Serve(e)),
            }),
            *final(self) == (match res {
                Ok(true) => AnnounceLoop {
                    status_tasks: (old(self).status_tasks + 1) as usize,
                    ..*old(self)
                },
                Ok(false) => AnnounceLoop { status_done: true, ..*old(self) },
                Err(_) => *old(self),
            }),
    {
        match res {
            Ok(true) => {
                self.status_tasks = self.status_tasks + 1;
                Ok(true)
            },
            Ok(false) => {
                self.status_done = true;
                Ok(false)
            },
            Err(e) => Err(SessionError::Serve(e)),
        }
    }

    /// A subscription has been served.
    pub fn subscribe_task_done(&mut self)
        requires
            old(self).subscribe_tasks > 0,
        ensures
            *final(self) == (AnnounceLoop {
                subscribe_tasks: (old(self).subscribe_tasks - 1) as usize,
                ..*old(self)
            }),
    {
        self.subscribe_tasks = self.subscribe_tasks - 1;
    }

    /// A status request has been answered.
    pub fn status_task_done(&mut self)
        requires
            old(self).status_tasks > 0,
        ensures
            *final(self) == (AnnounceLoop {
                status_tasks: (old(self).status_tasks - 1) as usize,
                ..*old(self)
            }),
    {
        self.status_tasks = self.status_tasks - 1;
    }

    /// Whether there is nothing left to wait for.
    pub fn finished(&self) -> (r: bool)
        ensures
            r == (self.subscribe_done && self.status_done && self.subscribe_tasks == 0
                && self.status_tasks == 0),
    {
        self.subscribe_done && self.status_done && self.subscribe_tasks == 0 && self.status_tasks == 0
    }
}

/// The stream of a subgroup starts with its header. Its priority is that of the group.
/// The transport is told of the header, its length and the timeout, exactly where it is
/// to drop what is late, and of the rate exactly where that is asked for.
pub proof fn a_subgroup_starts_with_its_header(
    header: SubgroupHeader,
    priority: u8,
    timeout: Option<u64>,
    relay_side_drop: bool,
    link_capacity_information: bool,
    time: u64,
    r: (SubgroupServer, StartPlan),
)
    requires
        call_ensures(
            SubgroupServer::start,
            (header, priority, timeout, relay_side_drop, link_capacity_information, time),
            r,
        ),
    ensures
        r.0.group_id == header.group_id && r.0.timeout == timeout && r.0.relay_side_drop
            == relay_side_drop,
        r.1.priority == priority,
        r.1.set_bandwidth == link_capacity_information,
        r.1.header.account is Some == relay_side_drop,
        r.1.header.account matches Some(a) ==> a.timeout == timeout && a.time == time,
        r.1.header.bytes matches Ok(b) ==> frozen(b) == write_header(Header::Subgroup(header)).0
            && (r.1.header.account matches Some(a) ==> a.size == frozen(b).len()),
        r.1.header.bytes is Ok == (write_header(Header::Subgroup(header)).1 is None),
{
    header_is_short(Header::Subgroup(header));
}

/// An object is announced by its number, its size, its status and the time; the
/// transport is told of its size and of when it is late, exactly where it is to drop
/// what is late.
pub proof fn an_object_is_announced_before_it_is_sent(
    s: &mut SubgroupServer,
    o: ObjectInfo,
    time: u64,
    r: ServeAction,
)
    requires
        call_ensures(SubgroupServer::next, (s, NextObject::Object(o), time), r),
        old(s).phase == ServePhase::Waiting,
    ensures
        r matches ServeAction::WriteHeader(plan) && {
            let said = SubgroupObject {
                object_id: o.object_id,
                size: o.size,
                status: o.status,
                deadline: time,
            };
            &&& plan.account is Some == old(s).relay_side_drop
            &&& plan.account matches Some(a) ==> a.size == o.size && a.timeout == old(s).timeout
                && a.time == time
            &&& plan.bytes is Ok == (write_object(said).1 is None)
            &&& plan.bytes matches Ok(b) ==> frozen(b) == write_object(said).0
        },
        final(s).group_id == old(s).group_id && final(s).timeout == old(s).timeout
            && final(s).relay_side_drop == old(s).relay_side_drop,
{
}

/// What is announced is sent, and then the next is waited for: header, payload, next.
/// Every object that is announced counts as sent while the subscription is there.
pub proof fn an_object_goes_out_in_order(
    s: &mut SubgroupServer,
    o: ObjectInfo,
    time: u64,
    r: ServeAction,
    s2: &mut SubgroupServer,
    state: &mut SubscribedState,
    r2: ServeAction,
    s3: &mut SubgroupServer,
    r3: ServeAction,
    s4: &mut SubgroupServer,
    r4: ServeAction,
)
    requires
        old(s).phase == ServePhase::Waiting,
        call_ensures(SubgroupServer::next, (s, NextObject::Object(o), time), r),
        *old(s2) == *final(s),
        call_ensures(SubgroupServer::object_header_written, (s2, true, state, true), r2),
        *old(s3) == *final(s2),
        call_ensures(SubgroupServer::payload, (s3, Ok(o.size)), r3),
        *old(s4) == *final(s3),
        call_ensures(SubgroupServer::payload_written, (s4, true), r4),
    ensures
        r is WriteHeader && r2 == ServeAction::ReadPayload && r3 == ServeAction::WritePayload && r4
            == ServeAction::Next,
        final(s4).phase == ServePhase::Waiting,
        final(s4).group_id == old(s).group_id && final(s4).timeout == old(s).timeout
            && final(s4).relay_side_drop == old(s).relay_side_drop,
        final(state).closed == old(state).closed,
        final(state).max_group_id matches Some(m) && (m == (old(s).group_id, o.object_id) || Some(m)
            == old(state).max_group_id) && (m.0 > old(s).group_id || (m.0 == old(s).group_id && m.1
            >= o.object_id)),
{
}

/// A stream that does not take a header is finished; a payload that it does not take is
/// lost. One of another size than was announced is not sent at all. No object counts as
/// sent without its header, or once the subscription is gone.
pub proof fn what_cannot_be_sent_ends_the_stream(
    s: &mut SubgroupServer,
    state: &mut SubscribedState,
    receiving: bool,
    r: ServeAction,
    t: &mut SubgroupServer,
    kept: &mut SubscribedState,
    rt: ServeAction,
    u: &mut SubgroupServer,
    len: Result<usize, ServeError>,
    o: ObjectInfo,
    ru: ServeAction,
    v: &mut SubgroupServer,
    rv: ServeAction,
    w: &mut SubgroupServer,
    rw: ServeAction,
)
    requires
        old(s).phase is ObjectHeader,
        call_ensures(SubgroupServer::object_header_written, (s, false, state, receiving), r),
        old(t).phase is ObjectHeader,
        call_ensures(SubgroupServer::object_header_written, (t, true, kept, false), rt),
        old(u).phase == ServePhase::Payload(o),
        len != Ok::<usize, ServeError>(o.size),
        call_ensures(SubgroupServer::payload, (u, len), ru),
        old(v).phase is Writing,
        call_ensures(SubgroupServer::payload_written, (v, false), rv),
        old(w).phase is Header,
        call_ensures(SubgroupServer::header_written, (w, false), rw),
    ensures
        r == ServeAction::Finish && *final(state) == *old(state),
        rt == ServeAction::Fail(ServeError::Done) && *final(kept) == *old(kept),
        ru == (match len {
            Ok(_) => ServeAction::Truncated,
            Err(e) => ServeAction::Fail(e),
        }),
        rv == ServeAction::Lost,
        rw == ServeAction::Finish,
        final(s).phase == ServePhase::Over && final(t).phase == ServePhase::Over && final(u).phase
            == ServePhase::Over && final(v).phase == ServePhase::Over && final(w).phase
            == ServePhase::Over,
{
}

/// Without another object the stream is finished; a subgroup that fails ends it with
/// its error. Once its header is out, the first object is waited for.
pub proof fn a_stream_ends_with_its_subgroup(
    s: &mut SubgroupServer,
    time: u64,
    r: ServeAction,
    t: &mut SubgroupServer,
    e: ServeError,
    rt: ServeAction,
    w: &mut SubgroupServer,
    rw: ServeAction,
)
    requires
        old(s).phase == ServePhase::Waiting,
        call_ensures(SubgroupServer::next, (s, NextObject::End, time), r),
        old(t).phase == ServePhase::Waiting,
        call_ensures(SubgroupServer::next, (t, NextObject::Failed(e), time), rt),
        old(w).phase == ServePhase::Header,
        call_ensures(SubgroupServer::header_written, (w, true), rw),
    ensures
        r == ServeAction::Finish && final(s).phase == ServePhase::Over,
        rt == ServeAction::Fail(e) && final(t).phase == ServePhase::Over,
        rw == ServeAction::Next && final(w).phase == ServePhase::Waiting,
{
}

/// A track is served until it ends, fails or is called off, and then until every task
/// that was started has ended. The first end is how it ends.
pub proof fn a_track_is_served_to_its_end(
    l: &mut ServeLoop,
    next: NextSubgroup,
    started: bool,
    m: &mut ServeLoop,
    res: Result<(), ServeError>,
    n: &mut ServeLoop,
    taking: bool,
    after: bool,
    end: Option<Result<(), SessionError>>,
)
    requires
        old(l).done is None,
        old(l).tasks < usize::MAX,
        call_ensures(ServeLoop::next, (l, next), started),
        call_ensures(ServeLoop::taking, (final(l),), taking),
        old(m).done is None,
        call_ensures(ServeLoop::closed, (m, res), ()),
        call_ensures(ServeLoop::taking, (final(m),), after),
        *old(n) == *final(m),
        old(n).tasks > 0,
        call_ensures(ServeLoop::task_done, (n,), ()),
        call_ensures(ServeLoop::finished, (final(n),), end),
    ensures
        started == (next is Subgroup) && taking == started,
        started ==> final(l).tasks == old(l).tasks + 1,
        !started ==> final(l).tasks == old(l).tasks,
        next matches NextSubgroup::Failed(e) ==> final(l).done == Some(Err::<(), ServeError>(e)),
        next is End ==> final(l).done == Some(Ok::<(), ServeError>(())),
        !after && final(m).tasks == old(m).tasks,
        final(n).tasks == old(m).tasks - 1,
        end is Some == (old(m).tasks == 1),
        end matches Some(r) ==> (match res {
            Ok(_) => r is Ok,
            Err(e) => r == Err::<(), SessionError>(SessionError::Serve(e)),
        }),
{
}

/// While groups can still come, or a task runs, the loop is not over.
pub proof fn a_loop_with_work_goes_on(l: ServeLoop, end: Option<Result<(), SessionError>>)
    requires
        call_ensures(ServeLoop::finished, (&l,), end),
    ensures
        end is None == (l.done is None || l.tasks > 0),
{
}

/// A namespace is served until neither subscriptions nor requests can come and all that
/// came have been dealt with. Each that comes is one task more, each that is dealt with
/// one fewer, and the two kinds do not mix.
pub proof fn a_namespace_is_served_to_its_end(
    l: &mut AnnounceLoop,
    a: Result<bool, ServeError>,
    ra: Result<bool, SessionError>,
    m: &mut AnnounceLoop,
    b: Result<bool, ServeError>,
    rb: Result<bool, SessionError>,
    n: &mut AnnounceLoop,
    o: &mut AnnounceLoop,
    over: bool,
    p: AnnounceLoop,
)
    requires
        !old(l).subscribe_done && old(l).subscribe_tasks < usize::MAX,
        call_ensures(AnnounceLoop::subscribed, (l, a), ra),
        !old(m).status_done && old(m).status_tasks < usize::MAX,
        call_ensures(AnnounceLoop::status_requested, (m, b), rb),
        old(n).subscribe_tasks > 0,
        call_ensures(AnnounceLoop::subscribe_task_done, (n,), ()),
        old(o).status_tasks > 0,
        call_ensures(AnnounceLoop::status_task_done, (o,), ()),
        call_ensures(AnnounceLoop::finished, (&p,), over),
    ensures
        ra == (match a {
            Ok(x) => Ok::<bool, SessionError>(x),
            Err(e) => Err::<bool, SessionError>(SessionError::Serve(e)),
        }),
        rb == (match b {
            Ok(x) => Ok::<bool, SessionError>(x),
            Err(e) => Err::<bool, SessionError>(SessionError::Serve(e)),
        }),
        final(l).subscribe_tasks == old(l).subscribe_tasks + (if a == Ok::<bool, ServeError>(true) {
            1int
        } else {
            0
        }),
        final(l).subscribe_done == (a == Ok::<bool, ServeError>(false)),
        final(l).status_tasks == old(l).status_tasks && final(l).status_done == old(l).status_done,
        final(m).status_tasks == old(m).status_tasks + (if b == Ok::<bool, ServeError>(true) {
            1int
        } else {
            0
        }),
        final(m).status_done == (b == Ok::<bool, ServeError>(false)),
        final(m).subscribe_tasks == old(m).subscribe_tasks && final(m).subscribe_done
            == old(m).subscribe_done,
        final(n).subscribe_tasks == old(n).subscribe_tasks - 1 && final(n).status_tasks
            == old(n).status_tasks && final(n).subscribe_done == old(n).subscribe_done
            && final(n).status_done == old(n).status_done,
        final(o).status_tasks == old(o).status_tasks - 1 && final(o).subscribe_tasks
            == old(o).subscribe_tasks && final(o).subscribe_done == old(o).subscribe_done
            && final(o).status_done == old(o).status_done,
        over == (p.subscribe_done && p.status_done && p.subscribe_tasks == 0 && p.status_tasks
            == 0),
{
}

/// The loops start with no task running and nothing at its end.
pub proof fn loops_start_with_no_task(s: ServeLoop, taking: bool, a: AnnounceLoop)
    requires
        call_ensures(ServeLoop::new, (), s),
        call_ensures(ServeLoop::taking, (&s,), taking),
        call_ensures(AnnounceLoop::new, (), a),
    ensures
        taking && s.tasks == 0,
        a.subscribe_tasks == 0 && a.status_tasks == 0,
        a.subscribe_done == false && a.status_done == false,
{
}

} // verus!
