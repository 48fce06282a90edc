//! The files that the publisher and the subscriber leave behind.

use crate::text::{decimal, push_decimal};
use vstd::prelude::*;
use vstd::string::StringExecFns;

verus! {

/// The file of a published `moof`.
pub open spec fn pub_moof_path(group: u64, object: u64) -> Seq<char> {
    "tmp/pub_moof_g"@ + decimal(group as nat) + "_o"@ + decimal(object as nat) + ".bin"@
}

/// The file of a published `mdat`, under the group and object of its `moof`.
pub open spec fn pub_mdat_path(group: u64, object: u64, track: u32) -> Seq<char> {
    "tmp/pub_mdat_g"@ + decimal(group as nat) + "_o"@ + decimal(object as nat) + "_track"@ + decimal(
        track as nat,
    ) + ".bin"@
}

/// The list of what has been published on a track.
pub open spec fn pub_manifest_path(track: u32) -> Seq<char> {
    "tmp/pub_manifest_track"@ + decimal(track as nat) + ".txt"@
}

/// The file of a received `moof`.
pub open spec fn sub_moof_path(group: u64, object: u64) -> Seq<char> {
    "tmp/sub/sub_moof_g"@ + decimal(group as nat) + "_o"@ + decimal(object as nat) + ".bin"@
}

/// The file of a received `mdat`, under the group and object of its `moof`.
pub open spec fn sub_mdat_path(group: u64, object: u64, track: u32) -> Seq<char> {
    "tmp/sub/sub_mdat_g"@ + decimal(group as nat) + "_o"@ + decimal(object as nat) + "_track"@
        + decimal(track as nat) + ".bin"@
}

/// The list of what has been played of a track.
pub open spec fn sub_manifest_path(track: u32) -> Seq<char> {
    "tmp/sub/sub_manifest_track"@ + decimal(track as nat) + ".txt"@
}

/// The initialization segment saved for a track.
pub open spec fn init_path(track: u32) -> Seq<char> {
    "tmp/init_track"@ + decimal(track as nat) + ".mp4"@
}

fn object_path(prefix: &str, group: u64, object: u64) -> (r: String)
    ensures
        r@ == prefix@ + decimal(group as nat) + "_o"@ + decimal(object as nat),
{
    let mut s: String = String::from_str(prefix);
    push_decimal(&mut s, group);
    s.append("_o");
    push_decimal(&mut s, object);
    s
}

fn track_path(prefix: &str, track: u32, suffix: &str) -> (r: String)
    ensures
        r@ == prefix@ + decimal(track as nat) + suffix@,
{
    let mut s: String = String::from_str(prefix);
    push_decimal(&mut s, track as u64);
    s.append(suffix);
    s
}

/// The file of a published `moof`.
pub fn get_pub_moof_path(group: u64, object: u64) -> (r: String)
    ensures
        r@ == pub_moof_path(group, object),
{
    let mut s: String = object_path("tmp/pub_moof_g", group, object);
    s.append(".bin");
    s
}

/// The file of a published `mdat`, under the group and object of its `moof`.
pub fn get_pub_mdat_path(group: u64, object: u64, track: u32) -> (r: String)
    ensures
        r@ == pub_mdat_path(group, object, track),
{
    let mut s: String = object_path("tmp/pub_mdat_g", group, object);
    s.append("_track");
    push_decimal(&mut s, track as u64);
    s.append(".bin");
    s
}

/// The list of what has been published on a track.
pub fn get_pub_manifest_path(track: u32) -> (r: String)
    ensures
        r@ == pub_manifest_path(track),
{
    track_path("tmp/pub_manifest_track", track, ".txt")
}

/// The file of a received `moof`.
pub fn get_sub_moof_path(group: u64, object: u64) -> (r: String)
    ensures
        r@ == sub_moof_path(group, object),
{
    let mut s: String = object_path("tmp/sub/sub_moof_g", group, object);
    s.append(".bin");
    s
}

/// The file of a received `mdat`, under the group and object of its `moof`.
pub fn get_sub_mdat_path(group: u64, object: u64, track: u32) -> (r: String)
    ensures
        r@ == sub_mdat_path(group, object, track),
{
    let mut s: String = object_path("tmp/sub/sub_mdat_g", group, object);
    s.append("_track");
    push_decimal(&mut s, track as u64);
    s.append(".bin");
    s
}

/// The list of what has been played of a track.
pub fn get_sub_manifest_path(track: u32) -> (r: String)
    ensures
        r@ == sub_manifest_path(track),
{
    track_path("tmp/sub/sub_manifest_track", track, ".txt")
}

/// The initialization segment saved for a track.
pub fn get_init_path(track: u32) -> (r: String)
    ensures
        r@ == init_path(track),
{
    track_path("tmp/init_track", track, ".mp4")
}

/// Each file has a name of its own, by what it holds, where that stood and the number
/// of its track.
pub proof fn files_are_named_by_what_they_hold(
    group: u64,
    object: u64,
    track: u32,
    a: (String, String, String, String),
    b: (String, String, String),
)
    requires
        call_ensures(get_pub_moof_path, (group, object), a.0),
        call_ensures(get_pub_mdat_path, (group, object, track), a.1),
        call_ensures(get_sub_moof_path, (group, object), a.2),
        call_ensures(get_sub_mdat_path, (group, object, track), a.3),
        call_ensures(get_pub_manifest_path, (track,), b.0),
        call_ensures(get_sub_manifest_path, (track,), b.1),
        call_ensures(get_init_path, (track,), b.2),
    ensures
        ({
            let place = decimal(group as nat) + "_o"@ + decimal(object as nat);
            let number = decimal(track as nat);
            &&& a.0@ == "tmp/pub_moof_g"@ + place + ".bin"@
            &&& a.1@ == "tmp/pub_mdat_g"@ + place + "_track"@ + number + ".bin"@
            &&& a.2@ == "tmp/sub/sub_moof_g"@ + place + ".bin"@
            &&& a.3@ == "tmp/sub/sub_mdat_g"@ + place + "_track"@ + number + ".bin"@
            &&& b.0@ == "tmp/pub_manifest_track"@ + number + ".txt"@
            &&& b.1@ == "tmp/sub/sub_manifest_track"@ + number + ".txt"@
            &&& b.2@ == "tmp/init_track"@ + number + ".mp4"@
        }),
{
    let place = decimal(group as nat) + "_o"@ + decimal(object as nat);
    let number = decimal(track as nat);
    assert(a.0@ =~= "tmp/pub_moof_g"@ + place + ".bin"@);
    assert(a.1@ =~= "tmp/pub_mdat_g"@ + place + "_track"@ + number + ".bin"@);
    assert(a.2@ =~= "tmp/sub/sub_moof_g"@ + place + ".bin"@);
    assert(a.3@ =~= "tmp/sub/sub_mdat_g"@ + place + "_track"@ + number + ".bin"@);
}

} // verus!
