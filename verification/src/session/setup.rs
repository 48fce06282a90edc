//! How two endpoints agree on a version and on their roles.

use vstd::prelude::*;

verus! {

/// A version of the protocol.
pub type Version = u32;

/// The one version that is spoken.
pub const DRAFT_07: u32 = 0xff00_0007;

/// What an endpoint does in a session.
#[derive(Clone, Copy, Debug, PartialEq, Eq, Structural)]
pub enum Role {
    Publisher,
    Subscriber,
    Both,
}

/// Why two endpoints do not come together.
#[derive(Debug)]
pub enum SetupError {
    /// None of the offered versions is supported.
    Version { offered: Vec<Version>, supported: Vec<Version> },
    /// Both want to be the same.
    RoleIncompatible { peer: Role, own: Role },
}

/// The role that an endpoint takes: its own where the peer does both; else the
/// one that the peer leaves to it, unless it insists on the same.
pub open spec fn negotiated(peer: Role, own: Role) -> Option<Role> {
    match peer {
        Role::Both => Some(own),
        Role::Publisher => if own == Role::Publisher {
            None
        } else {
            Some(Role::Subscriber)
        },
        Role::Subscriber => if own == Role::Subscriber {
            None
        } else {
            Some(Role::Publisher)
        },
    }
}

/// The role that an endpoint takes.
pub fn negotiate(peer: Role, own: Role) -> (r: Result<Role, SetupError>)
    ensures
        match negotiated(peer, own) {
            Some(role) => r == Ok::<Role, SetupError>(role),
            None => r == Err::<Role, SetupError>(SetupError::RoleIncompatible { peer, own }),
        },
{
    match peer {
        Role::Both => Ok(own),
        Role::Publisher => match own {
            Role::Publisher => Err(SetupError::RoleIncompatible { peer, own }),
            _ => Ok(Role::Subscriber),
        },
        Role::Subscriber => match own {
            Role::Subscriber => Err(SetupError::RoleIncompatible { peer, own }),
            _ => Ok(Role::Publisher),
        },
    }
}

/// The versions that a client offers: the one that is spoken.
pub fn offered_versions() -> (r: Vec<Version>)
    ensures
        r@ == seq![DRAFT_07],
{
    let mut v: Vec<Version> = Vec::new();
    v.push(DRAFT_07);
    assert(v@ == seq![DRAFT_07]);
    v
}

/// Whether a version is among those offered.
pub fn offers(versions: &Vec<Version>, version: Version) -> (r: bool)
    ensures
        r == versions@.contains(version),
{
    let mut i: usize = 0;
    while i < versions.len()
        invariant
            i <= versions@.len(),
            forall|j: int| 0 <= j < i ==> versions@[j] != version,
        decreases versions@.len() - i,
    {
        if versions[i] == version {
            assert(versions@[i as int] == version);
            return true;
        }
        i = i + 1;
    }
    false
}

/// What a server answers to a client: the role that it takes, in the one version
/// that is spoken, if the client offers that version.
pub fn accept_client(versions: Vec<Version>, client: Role, own: Role) -> (r: Result<
    Role,
    SetupError,
>)
    ensures
        if !versions@.contains(DRAFT_07) {
            r matches Err(SetupError::Version { offered, supported }) && offered@ == versions@
                && supported@ == seq![DRAFT_07]
        } else {
            match negotiated(client, own) {
                Some(role) => r == Ok::<Role, SetupError>(role),
                None => r == Err::<Role, SetupError>(
                    SetupError::RoleIncompatible { peer: client, own },
                ),
            }
        },
{
    if !offers(&versions, DRAFT_07) {
        return Err(SetupError::Version { offered: versions, supported: offered_versions() });
    }
    negotiate(client, own)
}

/// Two roles that fit together.
pub open spec fn compatible(a: Role, b: Role) -> bool {
    ||| a == Role::Publisher && b == Role::Subscriber
    ||| a == Role::Subscriber && b == Role::Publisher
    ||| a == Role::Both && b == Role::Both
}

/// Where the server takes a role, the client takes one that fits it: it never
/// refuses what the server answers.
pub proof fn client_and_server_agree(client: Role, server: Role)
    requires
        negotiated(client, server) is Some,
    ensures
        negotiated(negotiated(client, server)->Some_0, client) matches Some(c) && compatible(
            negotiated(client, server)->Some_0,
            c,
        ),
{
}

/// Two endpoints come together unless both insist on the same one role.
pub proof fn only_equal_roles_clash(client: Role, server: Role)
    ensures
        negotiated(client, server) is None <==> client == server && client != Role::Both,
{
}

/// An endpoint whose peer does both takes its own role. Any other peer leaves it the
/// role that fits, unless it insists on the same one; then both roles are told.
pub proof fn a_role_fits_that_of_the_peer(peer: Role, own: Role, r: Result<Role, SetupError>)
    requires
        call_ensures(negotiate, (peer, own), r),
    ensures
        r is Err == (peer == own && peer != Role::Both),
        r matches Err(e) ==> (e matches SetupError::RoleIncompatible { peer: p, own: o } && p == peer
            && o == own),
        r matches Ok(role) ==> {
            &&& peer == Role::Both ==> role == own
            &&& peer == Role::Publisher ==> role == Role::Subscriber
            &&& peer == Role::Subscriber ==> role == Role::Publisher
        },
{
}

/// A client is accepted only in the version that is spoken, wherever that stands among
/// those it offers, and then by its role. Otherwise it is told all versions.
pub proof fn a_client_is_accepted_by_version_and_role(
    versions: Vec<Version>,
    client: Role,
    own: Role,
    spoken: Vec<Version>,
    role: Result<Role, SetupError>,
    r: Result<Role, SetupError>,
)
    requires
        call_ensures(accept_client, (versions, client, own), r),
        call_ensures(offered_versions, (), spoken),
        call_ensures(negotiate, (client, own), role),
    ensures
        spoken@ == seq![0xff00_0007u32],
        (exists|i: int| 0 <= i < versions@.len() && #[trigger] versions@[i] == 0xff00_0007u32) ==> r
            == role,
        (forall|i: int| 0 <= i < versions@.len() ==> #[trigger] versions@[i] != 0xff00_0007u32)
            ==> (r matches Err(SetupError::Version { offered, supported }) && offered@ == versions@
            && supported@ == spoken@),
{
}

/// A version is offered where it stands among the versions.
pub proof fn offered_is_what_is_there(versions: Vec<Version>, version: Version, r: bool, i: int)
    requires
        call_ensures(offers, (&versions, version), r),
        0 <= i < versions@.len(),
    ensures
        versions@[i] == version ==> r,
        r ==> exists|j: int| 0 <= j < versions@.len() && versions@[j] == version,
{
}

} // verus!
