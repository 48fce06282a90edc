//! Asking for the objects of a track.

use crate::buffer::buffered;
use crate::coding::error::{DecodeError, EncodeError};
use crate::coding::field::{
    byte_is_steady, read_byte, read_text, text_is_steady, text_round_trip, write_text,
};
use crate::coding::params::{
    distinct, has_param, param_index, param_number, params_are_steady, params_fit,
    params_round_trip, read_params, set_keeps_distinct, set_keeps_fit, set_then_get, with_param,
    without_param, write_params, ParamView, Params,
};
use crate::coding::tuple::{
    fields_fit, read_tuple, tuple_is_steady, tuple_round_trip, write_tuple, Tuple,
};
use crate::coding::varint::{
    numbers_are_written_in_the_fewest_bytes, read_varint, varint, varint_is_steady, varint_len,
    varint_round_trip, VARINT_LIMIT,
};
use crate::coding::wire::{
    chain, chain_parts, front_waits, moved, moved_twice, next_part, skip_more, steady, waits,
    Cursor, Decode, Decoding, Encode, Encoding, SelfDelimited,
};
use vstd::prelude::*;
use vstd::utf8::encode_utf8;

verus! {

/// The parameter that holds the delivery timeout.
pub const PARAM_DELIVERY_TIMEOUT: u64 = 100;

/// In which order groups are sent.
#[derive(Clone, Copy, Debug, PartialEq, Eq, Structural)]
pub enum GroupOrder {
    Publisher,
    Ascending,
    Descending,
}

/// Which objects a subscription is for.
#[derive(Clone, Copy, Debug, PartialEq, Eq, Structural)]
pub enum FilterType {
    LatestGroup,
    LatestObject,
    AbsoluteStart,
    AbsoluteRange,
}

/// Where a subscription begins, relative to what there is.
#[derive(Clone, Copy, Debug, PartialEq, Eq, Structural)]
pub enum SubscribeLocation {
    Unset,
    Absolute(u64),
    Latest(u64),
    Future(u64),
}

/// A group and an object in it.
#[derive(Clone, Copy, Debug, PartialEq, Eq, Structural)]
pub struct SubscribePair {
    pub group: SubscribeLocation,
    pub object: SubscribeLocation,
}

impl View for GroupOrder {
    type V = GroupOrder;

    open spec fn view(&self) -> GroupOrder {
        *self
    }
}

impl View for FilterType {
    type V = FilterType;

    open spec fn view(&self) -> FilterType {
        *self
    }
}

impl View for SubscribeLocation {
    type V = SubscribeLocation;

    open spec fn view(&self) -> SubscribeLocation {
        *self
    }
}

impl View for SubscribePair {
    type V = SubscribePair;

    open spec fn view(&self) -> SubscribePair {
        *self
    }
}

/// The number of a group order.
pub open spec fn order_number(v: GroupOrder) -> u8 {
    match v {
        GroupOrder::Publisher => 0,
        GroupOrder::Ascending => 1,
        GroupOrder::Descending => 2,
    }
}

/// What reading a group order gives.
pub open spec fn read_order(b: Seq<u8>) -> Decoding<GroupOrder> {
    match read_byte(b) {
        Err(e) => Err(e),
        Ok((x, n)) => if x == 0 {
            Ok((GroupOrder::Publisher, n))
        } else if x == 1 {
            Ok((GroupOrder::Ascending, n))
        } else if x == 2 {
            Ok((GroupOrder::Descending, n))
        } else {
            Err(DecodeError::InvalidGroupOrder)
        },
    }
}

impl Decode for GroupOrder {
    open spec fn decoding(b: Seq<u8>) -> Decoding<GroupOrder> {
        read_order(b)
    }

    fn decode(c: &mut Cursor<'_>) -> (r: Result<Self, DecodeError>) {
        match u8::decode(c) {
            Err(e) => Err(e),
            Ok(0) => Ok(GroupOrder::Publisher),
            Ok(1) => Ok(GroupOrder::Ascending),
            Ok(2) => Ok(GroupOrder::Descending),
            Ok(_) => Err(DecodeError::InvalidGroupOrder),
        }
    }
}

impl Encode for GroupOrder {
    open spec fn encoding(v: GroupOrder) -> Encoding {
        (seq![order_number(v)], None)
    }

    fn encode(&self, w: &mut bytes::BytesMut) -> (r: Result<(), EncodeError>) {
        let x: u8 = match self {
            GroupOrder::Publisher => 0,
            GroupOrder::Ascending => 1,
            GroupOrder::Descending => 2,
        };
        x.encode(w)
    }
}

/// The number of a filter.
pub open spec fn filter_number(v: FilterType) -> u64 {
    match v {
        FilterType::LatestGroup => 1,
        FilterType::LatestObject => 2,
        FilterType::AbsoluteStart => 3,
        FilterType::AbsoluteRange => 4,
    }
}

/// What reading a filter gives.
pub open spec fn read_filter(b: Seq<u8>) -> Decoding<FilterType> {
    match read_varint(b) {
        Err(e) => Err(e),
        Ok((x, n)) => if x == 1 {
            Ok((FilterType::LatestGroup, n))
        } else if x == 2 {
            Ok((FilterType::LatestObject, n))
        } else if x == 3 {
            Ok((FilterType::AbsoluteStart, n))
        } else if x == 4 {
            Ok((FilterType::AbsoluteRange, n))
        } else {
            Err(DecodeError::InvalidFilterType)
        },
    }
}

impl Decode for FilterType {
    open spec fn decoding(b: Seq<u8>) -> Decoding<FilterType> {
        read_filter(b)
    }

    fn decode(c: &mut Cursor<'_>) -> (r: Result<Self, DecodeError>) {
        match u64::decode(c) {
            Err(e) => Err(e),
            Ok(1) => Ok(FilterType::LatestGroup),
            Ok(2) => Ok(FilterType::LatestObject),
            Ok(3) => Ok(FilterType::AbsoluteStart),
            Ok(4) => Ok(FilterType::AbsoluteRange),
            Ok(_) => Err(DecodeError::InvalidFilterType),
        }
    }
}

impl Encode for FilterType {
    open spec fn encoding(v: FilterType) -> Encoding {
        varint(filter_number(v))
    }

    fn encode(&self, w: &mut bytes::BytesMut) -> (r: Result<(), EncodeError>) {
        let x: u64 = match self {
            FilterType::LatestGroup => 1,
            FilterType::LatestObject => 2,
            FilterType::AbsoluteStart => 3,
            FilterType::AbsoluteRange => 4,
        };
        x.encode(w)
    }
}

/// The number of a kind of location.
pub open spec fn location_number(v: SubscribeLocation) -> u64 {
    match v {
        SubscribeLocation::Unset => 0,
        SubscribeLocation::Absolute(_) => 1,
        SubscribeLocation::Latest(_) => 2,
        SubscribeLocation::Future(_) => 3,
    }
}

/// What writing a location does: its kind, and its number where it has one.
pub open spec fn write_location(v: SubscribeLocation) -> Encoding {
    chain(
        varint(location_number(v)),
        match v {
            SubscribeLocation::Unset => (Seq::empty(), None),
            SubscribeLocation::Absolute(x) => varint(x),
            SubscribeLocation::Latest(x) => varint(x),
            SubscribeLocation::Future(x) => varint(x),
        },
    )
}

/// What reading a location gives.
pub open spec fn read_location(b: Seq<u8>) -> Decoding<SubscribeLocation> {
    match read_varint(b) {
        Err(e) => Err(e),
        Ok((kind, n)) => if kind == 0 {
            Ok((SubscribeLocation::Unset, n))
        } else if kind > 3 {
            Err(DecodeError::InvalidSubscribeLocation)
        } else {
            match read_varint(b.skip(n)) {
                Err(e) => Err(e),
                Ok((x, m)) => if kind == 1 {
                    Ok((SubscribeLocation::Absolute(x), n + m))
                } else if kind == 2 {
                    Ok((SubscribeLocation::Latest(x), n + m))
                } else {
                    Ok((SubscribeLocation::Future(x), n + m))
                },
            }
        },
    }
}

impl SubscribeLocation {
    /// The number of this kind of location.
    pub fn id(&self) -> (r: u64)
        ensures
            r == location_number(*self),
    {
        match self {
            SubscribeLocation::Unset => 0,
            SubscribeLocation::Absolute(_) => 1,
            SubscribeLocation::Latest(_) => 2,
            SubscribeLocation::Future(_) => 3,
        }
    }
}

impl Decode for SubscribeLocation {
    open spec fn decoding(b: Seq<u8>) -> Decoding<SubscribeLocation> {
        read_location(b)
    }

    fn decode(c: &mut Cursor<'_>) -> (r: Result<Self, DecodeError>) {
        let ghost b = c.rest();
        let kind: u64 = match u64::decode(c) {
            Ok(kind) => kind,
            Err(e) => {
                return Err(e);
            },
        };
        let ghost n = read_varint(b)->Ok_0.1;
        if kind == 0 {
            return Ok(SubscribeLocation::Unset);
        }
        if kind > 3 {
            return Err(DecodeError::InvalidSubscribeLocation);
        }
        match u64::decode(c) {
            Err(e) => Err(e),
            Ok(x) => {
                let ghost m = read_varint(b.skip(n))->Ok_0.1;
                assert(b.skip(n).skip(m) == b.skip(n + m));
                if kind == 1 {
                    Ok(SubscribeLocation::Absolute(x))
                } else if kind == 2 {
                    Ok(SubscribeLocation::Latest(x))
                } else {
                    Ok(SubscribeLocation::Future(x))
                }
            },
        }
    }
}

impl Encode for SubscribeLocation {
    open spec fn encoding(v: SubscribeLocation) -> Encoding {
        write_location(v)
    }

    fn encode(&self, w: &mut bytes::BytesMut) -> (r: Result<(), EncodeError>) {
        let ghost start = buffered(*w);
        let ghost head = varint(location_number(*self)).0;
        if let Err(e) = self.id().encode(w) {
            return Err(e);
        }
        let r: Result<(), EncodeError> = match self {
            SubscribeLocation::Unset => Ok(()),
            SubscribeLocation::Absolute(x) => x.encode(w),
            SubscribeLocation::Latest(x) => x.encode(w),
            SubscribeLocation::Future(x) => x.encode(w),
        };
        assert(buffered(*w) == start + write_location(*self).0);
        r
    }
}

/// What writing a pair of locations does.
pub open spec fn write_pair(v: SubscribePair) -> Encoding {
    chain(write_location(v.group), write_location(v.object))
}

/// What reading a pair of locations gives.
pub open spec fn read_pair(b: Seq<u8>) -> Decoding<SubscribePair> {
    match read_location(b) {
        Err(e) => Err(e),
        Ok((group, n)) => match read_location(b.skip(n)) {
            Err(e) => Err(e),
            Ok((object, m)) => Ok((SubscribePair { group, object }, n + m)),
        },
    }
}

impl Decode for SubscribePair {
    open spec fn decoding(b: Seq<u8>) -> Decoding<SubscribePair> {
        read_pair(b)
    }

    fn decode(c: &mut Cursor<'_>) -> (r: Result<Self, DecodeError>) {
        let ghost b = c.rest();
        let group: SubscribeLocation = match SubscribeLocation::decode(c) {
            Ok(group) => group,
            Err(e) => {
                return Err(e);
            },
        };
        let ghost n = read_location(b)->Ok_0.1;
        match SubscribeLocation::decode(c) {
            Err(e) => Err(e),
            Ok(object) => {
                let ghost m = read_location(b.skip(n))->Ok_0.1;
                assert(b.skip(n).skip(m) == b.skip(n + m));
                Ok(SubscribePair { group, object })
            },
        }
    }
}

impl Encode for SubscribePair {
    open spec fn encoding(v: SubscribePair) -> Encoding {
        write_pair(v)
    }

    fn encode(&self, w: &mut bytes::BytesMut) -> (r: Result<(), EncodeError>) {
        let ghost start = buffered(*w);
        if let Err(e) = self.group.encode(w) {
            return Err(e);
        }
        let r: Result<(), EncodeError> = self.object.encode(w);
        assert(buffered(*w) == start + write_pair(*self).0);
        r
    }
}

/// Whether the number in a location can be written.
pub open spec fn location_fits(v: SubscribeLocation) -> bool {
    match v {
        SubscribeLocation::Unset => true,
        SubscribeLocation::Absolute(x) => x < VARINT_LIMIT,
        SubscribeLocation::Latest(x) => x < VARINT_LIMIT,
        SubscribeLocation::Future(x) => x < VARINT_LIMIT,
    }
}

/// Whether the numbers in a pair of locations can be written.
pub open spec fn pair_fits(v: SubscribePair) -> bool {
    location_fits(v.group) && location_fits(v.object)
}

/// A location reads back, and takes its bytes and no more.
pub proof fn location_round_trip(v: SubscribeLocation, rest: Seq<u8>)
    requires
        location_fits(v),
    ensures
        write_location(v).1 is None,
        read_location(write_location(v).0 + rest) == Ok::<(SubscribeLocation, int), DecodeError>(
            (v, write_location(v).0.len() as int),
        ),
{
    let head = varint(location_number(v)).0;
    let x = match v {
        SubscribeLocation::Unset => 0,
        SubscribeLocation::Absolute(x) => x,
        SubscribeLocation::Latest(x) => x,
        SubscribeLocation::Future(x) => x,
    };
    let tail = if v is Unset {
        Seq::<u8>::empty()
    } else {
        varint(x).0
    };
    varint_round_trip(location_number(v), tail + rest);
    varint_round_trip(x, rest);
    let all = write_location(v).0 + rest;
    assert(all == head + (tail + rest));
    assert(all.skip(head.len() as int) == tail + rest);
}

/// A pair of locations reads back, and takes its bytes and no more.
pub proof fn pair_round_trip(v: SubscribePair, rest: Seq<u8>)
    requires
        pair_fits(v),
    ensures
        write_pair(v).1 is None,
        read_pair(write_pair(v).0 + rest) == Ok::<(SubscribePair, int), DecodeError>(
            (v, write_pair(v).0.len() as int),
        ),
{
    let first = write_location(v.group).0;
    let second = write_location(v.object).0;
    location_round_trip(v.group, second + rest);
    location_round_trip(v.object, rest);
    let all = write_pair(v).0 + rest;
    assert(all == first + (second + rest));
    assert(all.skip(first.len() as int) == second + rest);
}

/// Sent by the subscriber to ask for all future objects of a track.
///
/// Objects carry the number of the subscription in place of the full name of the
/// track.
#[derive(Debug)]
pub struct Subscribe {
    /// The number of the subscription.
    pub id: u64,
    pub track_alias: u64,
    pub track_namespace: Tuple,
    pub track_name: String,
    pub subscriber_priority: u8,
    pub group_order: GroupOrder,
    pub filter_type: FilterType,
    pub start: Option<SubscribePair>,
    pub end: Option<SubscribePair>,
    pub params: Params,
    /// The delivery timeout in milliseconds.
    pub delivery_timeout_ms: Option<u64>,
}

/// What a [`Subscribe`] holds.
#[verifier::ext_equal]
pub struct SubscribeView {
    pub id: u64,
    pub track_alias: u64,
    pub track_namespace: Seq<Seq<u8>>,
    pub track_name: Seq<char>,
    pub subscriber_priority: u8,
    pub group_order: GroupOrder,
    pub filter_type: FilterType,
    pub start: Option<SubscribePair>,
    pub end: Option<SubscribePair>,
    pub params: Seq<ParamView>,
    pub delivery_timeout_ms: Option<u64>,
}

impl View for Subscribe {
    type V = SubscribeView;

    open spec fn view(&self) -> SubscribeView {
        SubscribeView {
            id: self.id,
            track_alias: self.track_alias,
            track_namespace: self.track_namespace@,
            track_name: self.track_name@,
            subscriber_priority: self.subscriber_priority,
            group_order: self.group_order,
            filter_type: self.filter_type,
            start: self.start,
            end: self.end,
            params: self.params@,
            delivery_timeout_ms: self.delivery_timeout_ms,
        }
    }
}

/// What stands before the range: the identity of the track and how to send it.
#[verifier::ext_equal]
pub struct SubscribeHead {
    pub id: u64,
    pub track_alias: u64,
    pub track_namespace: Seq<Seq<u8>>,
    pub track_name: Seq<char>,
    pub subscriber_priority: u8,
    pub group_order: GroupOrder,
    pub filter_type: FilterType,
}

impl SubscribeView {
    /// What stands before the range.
    pub open spec fn head(self) -> SubscribeHead {
        SubscribeHead {
            id: self.id,
            track_alias: self.track_alias,
            track_namespace: self.track_namespace,
            track_name: self.track_name,
            subscriber_priority: self.subscriber_priority,
            group_order: self.group_order,
            filter_type: self.filter_type,
        }
    }
}

/// What writing the part before the range does.
#[verifier::opaque]
pub open spec fn write_head(v: SubscribeHead) -> Encoding {
    chain(
        chain(
            chain(
                chain(
                    chain(
                        chain(varint(v.id), varint(v.track_alias)),
                        write_tuple(v.track_namespace),
                    ),
                    write_text(v.track_name),
                ),
                (seq![v.subscriber_priority], None),
            ),
            (seq![order_number(v.group_order)], None),
        ),
        varint(filter_number(v.filter_type)),
    )
}

/// What reading the part before the range gives.
#[verifier::opaque]
pub open spec fn read_head(b: Seq<u8>) -> Decoding<SubscribeHead> {
    match read_varint(b) {
        Err(e) => Err(e),
        Ok((id, n1)) => match read_varint(b.skip(n1)) {
            Err(e) => Err(e),
            Ok((track_alias, n2)) => match read_tuple(b.skip(n1 + n2)) {
                Err(e) => Err(e),
                Ok((track_namespace, n3)) => match read_text(b.skip(n1 + n2 + n3)) {
                    Err(e) => Err(e),
                    Ok((track_name, n4)) => match read_byte(b.skip(n1 + n2 + n3 + n4)) {
                        Err(e) => Err(e),
                        Ok((subscriber_priority, n5)) => match read_order(
                            b.skip(n1 + n2 + n3 + n4 + n5),
                        ) {
                            Err(e) => Err(e),
                            Ok((group_order, n6)) => match read_filter(
                                b.skip(n1 + n2 + n3 + n4 + n5 + n6),
                            ) {
                                Err(e) => Err(e),
                                Ok((filter_type, n7)) => Ok(
                                    (
                                        SubscribeHead {
                                            id,
                                            track_alias,
                                            track_namespace,
                                            track_name,
                                            subscriber_priority,
                                            group_order,
                                            filter_type,
                                        },
                                        n1 + n2 + n3 + n4 + n5 + n6 + n7,
                                    ),
                                ),
                            },
                        },
                    },
                },
            },
        },
    }
}

/// What writing the range does: as many locations as the filter asks for. What it
/// does not ask for is not written.
#[verifier::opaque]
pub open spec fn write_range(
    filter: FilterType,
    start: Option<SubscribePair>,
    end: Option<SubscribePair>,
) -> Encoding {
    match filter {
        FilterType::AbsoluteStart => match start {
            Some(s) => write_pair(s),
            None => (Seq::empty(), Some(EncodeError::MissingField)),
        },
        FilterType::AbsoluteRange => match (start, end) {
            (Some(s), Some(e)) => chain(write_pair(s), write_pair(e)),
            _ => (Seq::empty(), Some(EncodeError::MissingField)),
        },
        _ => (Seq::empty(), None),
    }
}

/// What reading the range gives.
#[verifier::opaque]
pub open spec fn read_range(b: Seq<u8>, filter: FilterType) -> Decoding<
    (Option<SubscribePair>, Option<SubscribePair>),
> {
    match filter {
        FilterType::AbsoluteStart => match read_pair(b) {
            Err(e) => Err(e),
            Ok((s, n)) => Ok(((Some(s), None), n)),
        },
        FilterType::AbsoluteRange => match read_pair(b) {
            Err(e) => Err(e),
            Ok((s, n)) => match read_pair(b.skip(n)) {
                Err(e) => Err(e),
                Ok((t, m)) => Ok(((Some(s), Some(t)), n + m)),
            },
        },
        _ => Ok(((None, None), 0)),
    }
}

/// What writing the parameters does: with the delivery timeout among them, if
/// there is one.
#[verifier::opaque]
pub open spec fn write_options(params: Seq<ParamView>, timeout: Option<u64>) -> Encoding {
    match timeout {
        None => write_params(params),
        Some(t) => match varint(t) {
            (_, Some(e)) => (Seq::empty(), Some(e)),
            (value, None) => write_params(with_param(params, PARAM_DELIVERY_TIMEOUT, value)),
        },
    }
}

/// What reading the parameters gives: the delivery timeout is taken out of them.
#[verifier::opaque]
pub open spec fn read_options(b: Seq<u8>) -> Decoding<(Seq<ParamView>, Option<u64>)> {
    match read_params(b) {
        Err(e) => Err(e),
        Ok((params, n)) => match param_number(params, PARAM_DELIVERY_TIMEOUT) {
            Err(e) => Err(e),
            Ok(timeout) => Ok(((without_param(params, PARAM_DELIVERY_TIMEOUT), timeout), n)),
        },
    }
}

/// What writing the message does.
#[verifier::opaque]
pub open spec fn write_subscribe(v: SubscribeView) -> Encoding {
    chain(
        chain(write_head(v.head()), write_range(v.filter_type, v.start, v.end)),
        write_options(v.params, v.delivery_timeout_ms),
    )
}

/// What reading the message gives.
#[verifier::opaque]
pub open spec fn read_subscribe(b: Seq<u8>) -> Decoding<SubscribeView> {
    match read_head(b) {
        Err(e) => Err(e),
        Ok((h, n)) => match read_range(b.skip(n), h.filter_type) {
            Err(e) => Err(e),
            Ok(((start, end), m)) => match read_options(b.skip(n + m)) {
                Err(e) => Err(e),
                Ok(((params, timeout), k)) => Ok(
                    (
                        SubscribeView {
                            id: h.id,
                            track_alias: h.track_alias,
                            track_namespace: h.track_namespace,
                            track_name: h.track_name,
                            subscriber_priority: h.subscriber_priority,
                            group_order: h.group_order,
                            filter_type: h.filter_type,
                            start,
                            end,
                            params,
                            delivery_timeout_ms: timeout,
                        },
                        n + m + k,
                    ),
                ),
            },
        },
    }
}

/// The range of a subscription, as it is read.
type Range = (Option<SubscribePair>, Option<SubscribePair>);

fn decode_range(c: &mut Cursor<'_>, filter: FilterType) -> (r: Result<Range, DecodeError>)
    requires
        old(c).wf(),
    ensures
        match read_range(old(c).rest(), filter) {
            Ok((v, n)) => r == Ok::<Range, DecodeError>(v) && moved(*old(c), *final(c), n),
            Err(e) => r == Err::<Range, DecodeError>(e),
        },
        final(c).wf(),
        final(c).data() == old(c).data(),
{
    reveal(read_range);
    let ghost c0 = *c;
    match filter {
        FilterType::AbsoluteStart => match SubscribePair::decode(c) {
            Ok(s) => Ok((Some(s), None)),
            Err(e) => Err(e),
        },
        FilterType::AbsoluteRange => {
            let s: SubscribePair = match SubscribePair::decode(c) {
                Ok(s) => s,
                Err(e) => {
                    return Err(e);
                },
            };
            let ghost c1 = *c;
            match SubscribePair::decode(c) {
                Ok(t) => {
                    proof {
                        let n = read_pair(c0.rest())->Ok_0.1;
                        moved_twice(c0, c1, *c, n, read_pair(c1.rest())->Ok_0.1);
                    }
                    Ok((Some(s), Some(t)))
                },
                Err(e) => Err(e),
            }
        },
        _ => {
            assert(c.rest().skip(0) == c.rest());
            Ok((None, None))
        },
    }
}

impl Decode for Subscribe {
    open spec fn decoding(b: Seq<u8>) -> Decoding<SubscribeView> {
        read_subscribe(b)
    }

    fn decode(c: &mut Cursor<'_>) -> (r: Result<Self, DecodeError>) {
        reveal(read_subscribe);
        reveal(read_head);
        reveal(read_options);
        let ghost c0 = *c;
        let ghost b = c.rest();
        let id: u64 = match u64::decode(c) {
            Ok(x) => x,
            Err(e) => {
                return Err(e);
            },
        };
        let ghost n1 = read_varint(b)->Ok_0.1;
        let ghost c1 = *c;
        let track_alias: u64 = match u64::decode(c) {
            Ok(x) => x,
            Err(e) => {
                return Err(e);
            },
        };
        let ghost n2 = read_varint(c1.rest())->Ok_0.1;
        let ghost c2 = *c;
        proof {
            moved_twice(c0, c1, c2, n1, n2);
        }
        let track_namespace: Tuple = match Tuple::decode(c) {
            Ok(x) => x,
            Err(e) => {
                return Err(e);
            },
        };
        let ghost n3 = read_tuple(c2.rest())->Ok_0.1;
        let ghost c3 = *c;
        proof {
            moved_twice(c0, c2, c3, n1 + n2, n3);
        }
        let track_name: String = match String::decode(c) {
            Ok(x) => x,
            Err(e) => {
                return Err(e);
            },
        };
        let ghost n4 = read_text(c3.rest())->Ok_0.1;
        let ghost c4 = *c;
        proof {
            moved_twice(c0, c3, c4, n1 + n2 + n3, n4);
        }
        let subscriber_priority: u8 = match u8::decode(c) {
            Ok(x) => x,
            Err(e) => {
                return Err(e);
            },
        };
        let ghost n5 = read_byte(c4.rest())->Ok_0.1;
        let ghost c5 = *c;
        proof {
            moved_twice(c0, c4, c5, n1 + n2 + n3 + n4, n5);
        }
        let group_order: GroupOrder = match GroupOrder::decode(c) {
            Ok(x) => x,
            Err(e) => {
                return Err(e);
            },
        };
        let ghost n6 = read_order(c5.rest())->Ok_0.1;
        let ghost c6 = *c;
        proof {
            moved_twice(c0, c5, c6, n1 + n2 + n3 + n4 + n5, n6);
        }
        let filter_type: FilterType = match FilterType::decode(c) {
            Ok(x) => x,
            Err(e) => {
                return Err(e);
            },
        };
        let ghost n7 = read_filter(c6.rest())->Ok_0.1;
        let ghost c7 = *c;
        proof {
            moved_twice(c0, c6, c7, n1 + n2 + n3 + n4 + n5 + n6, n7);
        }
        let ghost n = n1 + n2 + n3 + n4 + n5 + n6 + n7;
        let (start, end): Range = match decode_range(c, filter_type) {
            Ok(x) => x,
            Err(e) => {
                return Err(e);
            },
        };
        let ghost m = read_range(c7.rest(), filter_type)->Ok_0.1;
        let ghost c8 = *c;
        proof {
            moved_twice(c0, c7, c8, n, m);
        }
        let mut params: Params = match Params::decode(c) {
            Ok(x) => x,
            Err(e) => {
                return Err(e);
            },
        };
        proof {
            moved_twice(c0, c8, *c, n + m, read_params(c8.rest())->Ok_0.1);
        }
        let delivery_timeout_ms: Option<u64> = match params.get(PARAM_DELIVERY_TIMEOUT) {
            Ok(x) => x,
            Err(e) => {
                return Err(e);
            },
        };
        Ok(
            Subscribe {
                id,
                track_alias,
                track_namespace,
                track_name,
                subscriber_priority,
                group_order,
                filter_type,
                start,
                end,
                params,
                delivery_timeout_ms,
            },
        )
    }
}

impl Subscribe {
    fn encode_head(&self, w: &mut bytes::BytesMut) -> (r: Result<(), EncodeError>)
        requires
            buffered(*old(w)).len() + write_head(self@.head()).0.len() <= isize::MAX,
        ensures
            buffered(*final(w)) == buffered(*old(w)) + write_head(self@.head()).0,
            r == (match write_head(self@.head()).1 {
                Some(e) => Err::<(), EncodeError>(e),
                None => Ok::<(), EncodeError>(()),
            }),
    {
        reveal(write_head);
        let ghost start = buffered(*w);
        let ghost h = self@.head();
        let ghost e1 = varint(h.id);
        let ghost e2 = chain(e1, varint(h.track_alias));
        let ghost e3 = chain(e2, write_tuple(h.track_namespace));
        let ghost e4 = chain(e3, write_text(h.track_name));
        let ghost e5 = chain(e4, (seq![h.subscriber_priority], None));
        let ghost e6 = chain(e5, (seq![order_number(h.group_order)], None));
        if let Err(e) = self.id.encode(w) {
            return Err(e);
        }
        assert(buffered(*w) == start + e1.0);
        let r: Result<(), EncodeError> = self.track_alias.encode(w);
        assert(buffered(*w) == start + e2.0);
        if let Err(e) = r {
            return Err(e);
        }
        let r: Result<(), EncodeError> = self.track_namespace.encode(w);
        assert(buffered(*w) == start + e3.0);
        if let Err(e) = r {
            return Err(e);
        }
        let r: Result<(), EncodeError> = self.track_name.encode(w);
        assert(buffered(*w) == start + e4.0);
        if let Err(e) = r {
            return Err(e);
        }
        let r: Result<(), EncodeError> = self.subscriber_priority.encode(w);
        assert(buffered(*w) == start + e5.0);
        if let Err(e) = r {
            return Err(e);
        }
        let r: Result<(), EncodeError> = self.group_order.encode(w);
        assert(buffered(*w) == start + e6.0);
        if let Err(e) = r {
            return Err(e);
        }
        let r: Result<(), EncodeError> = self.filter_type.encode(w);
        assert(buffered(*w) == start + write_head(h).0);
        r
    }

    fn encode_range(&self, w: &mut bytes::BytesMut) -> (r: Result<(), EncodeError>)
        requires
            buffered(*old(w)).len() + write_range(self.filter_type, self.start, self.end).0.len()
                <= isize::MAX,
        ensures
            buffered(*final(w)) == buffered(*old(w)) + write_range(
                self.filter_type,
                self.start,
                self.end,
            ).0,
            r == (match write_range(self.filter_type, self.start, self.end).1 {
                Some(e) => Err::<(), EncodeError>(e),
                None => Ok::<(), EncodeError>(()),
            }),
    {
        reveal(write_range);
        let ghost before = buffered(*w);
        assert(before + Seq::<u8>::empty() == before);
        match self.filter_type {
            FilterType::AbsoluteStart => match &self.start {
                Some(s) => s.encode(w),
                None => Err(EncodeError::MissingField),
            },
            FilterType::AbsoluteRange => match (&self.start, &self.end) {
                (Some(s), Some(t)) => {
                    if let Err(e) = s.encode(w) {
                        return Err(e);
                    }
                    let r: Result<(), EncodeError> = t.encode(w);
                    assert(buffered(*w) == before + chain(write_pair(*s), write_pair(*t)).0);
                    r
                },
                _ => Err(EncodeError::MissingField),
            },
            _ => Ok(()),
        }
    }

    fn encode_options(&self, w: &mut bytes::BytesMut) -> (r: Result<(), EncodeError>)
        requires
            buffered(*old(w)).len() + write_options(self.params@, self.delivery_timeout_ms).0.len()
                <= isize::MAX,
        ensures
            buffered(*final(w)) == buffered(*old(w)) + write_options(
                self.params@,
                self.delivery_timeout_ms,
            ).0,
            r == (match write_options(self.params@, self.delivery_timeout_ms).1 {
                Some(e) => Err::<(), EncodeError>(e),
                None => Ok::<(), EncodeError>(()),
            }),
    {
        reveal(write_options);
        let ghost before = buffered(*w);
        assert(before + Seq::<u8>::empty() == before);
        match self.delivery_timeout_ms {
            Some(timeout) => {
                let mut p: Params = self.params.copy();
                if let Err(e) = p.set(PARAM_DELIVERY_TIMEOUT, timeout) {
                    return Err(e);
                }
                p.encode(w)
            },
            None => self.params.encode(w),
        }
    }
}

impl Encode for Subscribe {
    open spec fn encoding(v: SubscribeView) -> Encoding {
        write_subscribe(v)
    }

    fn encode(&self, w: &mut bytes::BytesMut) -> (r: Result<(), EncodeError>) {
        reveal(write_subscribe);
        let ghost start = buffered(*w);
        let ghost e1 = write_head(self@.head());
        let ghost e2 = chain(e1, write_range(self.filter_type, self.start, self.end));
        if let Err(e) = self.encode_head(w) {
            return Err(e);
        }
        let r: Result<(), EncodeError> = self.encode_range(w);
        assert(buffered(*w) == start + e2.0);
        if let Err(e) = r {
            return Err(e);
        }
        let r: Result<(), EncodeError> = self.encode_options(w);
        assert(buffered(*w) == start + write_subscribe(self@).0);
        r
    }
}

/// Whether a message can be written in full: numbers below 62 bits, the locations
/// that its filter asks for, and no parameter twice. A delivery timeout among the
/// parameters counts where there is no other, and is a number.
pub open spec fn subscribe_written(v: SubscribeView) -> bool {
    &&& v.id < VARINT_LIMIT
    &&& v.track_alias < VARINT_LIMIT
    &&& v.track_namespace.len() < VARINT_LIMIT
    &&& fields_fit(v.track_namespace)
    &&& encode_utf8(v.track_name).len() < VARINT_LIMIT
    &&& encode_utf8(v.track_name).len() <= usize::MAX
    &&& match v.filter_type {
        FilterType::AbsoluteStart => v.start matches Some(s) && pair_fits(s),
        FilterType::AbsoluteRange => {
            &&& v.start matches Some(s) && pair_fits(s)
            &&& v.end matches Some(e) && pair_fits(e)
        },
        _ => true,
    }
    &&& v.params.len() + 1 < VARINT_LIMIT
    &&& params_fit(v.params)
    &&& distinct(v.params)
    &&& match v.delivery_timeout_ms {
        Some(t) => t < VARINT_LIMIT,
        None => param_number(v.params, PARAM_DELIVERY_TIMEOUT) is Ok,
    }
}

/// Whether a message can be written in full and carries nothing that is not
/// written: exactly the locations that its filter asks for, and no delivery timeout
/// hidden among the other parameters.
pub open spec fn subscribe_fits(v: SubscribeView) -> bool {
    &&& subscribe_written(v)
    &&& match v.filter_type {
        FilterType::AbsoluteStart => v.end is None,
        FilterType::AbsoluteRange => true,
        _ => v.start is None && v.end is None,
    }
    &&& !has_param(v.params, PARAM_DELIVERY_TIMEOUT)
}

/// A message as it reads once it has been written: without locations that its filter
/// does not ask for, and with the delivery timeout out of the other parameters.
pub open spec fn as_read(v: SubscribeView) -> SubscribeView {
    SubscribeView {
        start: match v.filter_type {
            FilterType::AbsoluteStart | FilterType::AbsoluteRange => v.start,
            _ => None,
        },
        end: match v.filter_type {
            FilterType::AbsoluteRange => v.end,
            _ => None,
        },
        params: without_param(v.params, PARAM_DELIVERY_TIMEOUT),
        delivery_timeout_ms: match v.delivery_timeout_ms {
            Some(t) => Some(t),
            None => match param_number(v.params, PARAM_DELIVERY_TIMEOUT) {
                Ok(t) => t,
                Err(_) => None,
            },
        },
        ..v
    }
}

proof fn lemma_read_head(b: Seq<u8>, v: SubscribeHead, n: (int, int, int, int, int))
    requires
        read_varint(b) == Ok::<(u64, int), DecodeError>((v.id, n.0)),
        read_varint(b.skip(n.0)) == Ok::<(u64, int), DecodeError>((v.track_alias, n.1)),
        read_tuple(b.skip(n.0 + n.1)) == Ok::<(Seq<Seq<u8>>, int), DecodeError>(
            (v.track_namespace, n.2),
        ),
        read_text(b.skip(n.0 + n.1 + n.2)) == Ok::<(Seq<char>, int), DecodeError>(
            (v.track_name, n.3),
        ),
        read_byte(b.skip(n.0 + n.1 + n.2 + n.3)) == Ok::<(u8, int), DecodeError>(
            (v.subscriber_priority, 1),
        ),
        read_order(b.skip(n.0 + n.1 + n.2 + n.3 + 1)) == Ok::<(GroupOrder, int), DecodeError>(
            (v.group_order, 1),
        ),
        read_filter(b.skip(n.0 + n.1 + n.2 + n.3 + 1 + 1)) == Ok::<(FilterType, int), DecodeError>(
            (v.filter_type, n.4),
        ),
    ensures
        read_head(b) == Ok::<(SubscribeHead, int), DecodeError>(
            (v, n.0 + n.1 + n.2 + n.3 + 1 + 1 + n.4),
        ),
{
    reveal(read_head);
}

/// Where the parts of the head stand.
proof fn lemma_head_parts(v: SubscribeHead, rest: Seq<u8>)
    requires
        varint(v.id).1 is None,
        varint(v.track_alias).1 is None,
        write_tuple(v.track_namespace).1 is None,
        write_text(v.track_name).1 is None,
        varint(filter_number(v.filter_type)).1 is None,
    ensures
        write_head(v).1 is None,
        ({
            let e1 = varint(v.id);
            let e2 = varint(v.track_alias);
            let e3 = write_tuple(v.track_namespace);
            let e4 = write_text(v.track_name);
            let e7 = varint(filter_number(v.filter_type));
            let r7 = e7.0 + rest;
            let r6 = seq![order_number(v.group_order)] + r7;
            let r5 = seq![v.subscriber_priority] + r6;
            let r4 = e4.0 + r5;
            let r3 = e3.0 + r4;
            let r2 = e2.0 + r3;
            let all = write_head(v).0 + rest;
            let n1 = e1.0.len() as int;
            let n2 = e2.0.len() as int;
            let n3 = e3.0.len() as int;
            let n4 = e4.0.len() as int;
            &&& all == e1.0 + r2
            &&& all.skip(n1) == r2
            &&& all.skip(n1 + n2) == r3
            &&& all.skip(n1 + n2 + n3) == r4
            &&& all.skip(n1 + n2 + n3 + n4) == r5
            &&& all.skip(n1 + n2 + n3 + n4 + 1) == r6
            &&& all.skip(n1 + n2 + n3 + n4 + 1 + 1) == r7
            &&& write_head(v).0.len() == n1 + n2 + n3 + n4 + 1 + 1 + e7.0.len()
        }),
{
    reveal(write_head);
    let e1 = varint(v.id);
    let e2 = varint(v.track_alias);
    let e3 = write_tuple(v.track_namespace);
    let e4 = write_text(v.track_name);
    let e5: Encoding = (seq![v.subscriber_priority], None);
    let e6: Encoding = (seq![order_number(v.group_order)], None);
    let e7 = varint(filter_number(v.filter_type));
    lemma_seven_parts(e1, e2, e3, e4, e5, e6, e7, rest);
}

/// Where seven parts stand that are written one behind the other.
proof fn lemma_seven_parts(
    e1: Encoding,
    e2: Encoding,
    e3: Encoding,
    e4: Encoding,
    e5: Encoding,
    e6: Encoding,
    e7: Encoding,
    rest: Seq<u8>,
)
    requires
        e1.1 is None,
        e2.1 is None,
        e3.1 is None,
        e4.1 is None,
        e5.1 is None,
        e6.1 is None,
        e7.1 is None,
    ensures
        ({
            let e = chain(chain(chain(chain(chain(chain(e1, e2), e3), e4), e5), e6), e7);
            let r7 = e7.0 + rest;
            let r6 = e6.0 + r7;
            let r5 = e5.0 + r6;
            let r4 = e4.0 + r5;
            let r3 = e3.0 + r4;
            let r2 = e2.0 + r3;
            let all = e.0 + rest;
            let n1 = e1.0.len() as int;
            let n2 = n1 + e2.0.len();
            let n3 = n2 + e3.0.len();
            let n4 = n3 + e4.0.len();
            let n5 = n4 + e5.0.len();
            let n6 = n5 + e6.0.len();
            &&& e.1 is None
            &&& all == e1.0 + r2
            &&& all.skip(n1) == r2
            &&& all.skip(n2) == r3
            &&& all.skip(n3) == r4
            &&& all.skip(n4) == r5
            &&& all.skip(n5) == r6
            &&& all.skip(n6) == r7
            &&& e.0.len() == n6 + e7.0.len()
        }),
{
    let r7 = e7.0 + rest;
    let r6 = e6.0 + r7;
    let r5 = e5.0 + r6;
    let r4 = e4.0 + r5;
    let r3 = e3.0 + r4;
    let r2 = e2.0 + r3;
    let c2 = chain(e1, e2);
    let c3 = chain(c2, e3);
    let c4 = chain(c3, e4);
    let c5 = chain(c4, e5);
    let c6 = chain(c5, e6);
    let e = chain(c6, e7);
    chain_parts(e1, e2, r3);
    chain_parts(c2, e3, r4);
    chain_parts(c3, e4, r5);
    chain_parts(c4, e5, r6);
    chain_parts(c5, e6, r7);
    chain_parts(c6, e7, rest);
    let all = e.0 + rest;
    assert(all == e1.0 + r2);
    assert(all.skip(0) == all);
    next_part(all, 0, e1.0, r2);
    next_part(all, e1.0.len() as int, e2.0, r3);
    next_part(all, c2.0.len() as int, e3.0, r4);
    next_part(all, c3.0.len() as int, e4.0, r5);
    next_part(all, c4.0.len() as int, e5.0, r6);
    next_part(all, c5.0.len() as int, e6.0, r7);
}

proof fn lemma_head_round_trip(v: SubscribeHead, rest: Seq<u8>)
    requires
        v.id < VARINT_LIMIT,
        v.track_alias < VARINT_LIMIT,
        v.track_namespace.len() < VARINT_LIMIT,
        fields_fit(v.track_namespace),
        encode_utf8(v.track_name).len() < VARINT_LIMIT,
        encode_utf8(v.track_name).len() <= usize::MAX,
    ensures
        write_head(v).1 is None,
        read_head(write_head(v).0 + rest) == Ok::<(SubscribeHead, int), DecodeError>(
            (v, write_head(v).0.len() as int),
        ),
{
    let b1 = varint(v.id).0;
    let b2 = varint(v.track_alias).0;
    let b3 = write_tuple(v.track_namespace).0;
    let b4 = write_text(v.track_name).0;
    let b7 = varint(filter_number(v.filter_type)).0;
    let r7 = b7 + rest;
    let r6 = seq![order_number(v.group_order)] + r7;
    let r5 = seq![v.subscriber_priority] + r6;
    let r4 = b4 + r5;
    let r3 = b3 + r4;
    let r2 = b2 + r3;
    varint_round_trip(v.id, r2);
    varint_round_trip(v.track_alias, r3);
    tuple_round_trip(v.track_namespace, r4);
    text_round_trip(v.track_name, r5);
    varint_round_trip(filter_number(v.filter_type), rest);
    lemma_head_parts(v, rest);
    assert(read_byte(r5) == Ok::<(u8, int), DecodeError>((v.subscriber_priority, 1)));
    assert(read_order(r6) == Ok::<(GroupOrder, int), DecodeError>((v.group_order, 1)));
    assert(read_filter(r7) == Ok::<(FilterType, int), DecodeError>(
        (v.filter_type, b7.len() as int),
    ));
    lemma_read_head(
        write_head(v).0 + rest,
        v,
        (
            b1.len() as int,
            b2.len() as int,
            b3.len() as int,
            b4.len() as int,
            b7.len() as int,
        ),
    );
}

proof fn lemma_two_pairs(s: SubscribePair, t: SubscribePair, rest: Seq<u8>)
    requires
        pair_fits(s),
        pair_fits(t),
    ensures
        chain(write_pair(s), write_pair(t)).1 is None,
        read_range(chain(write_pair(s), write_pair(t)).0 + rest, FilterType::AbsoluteRange) == Ok::<
            (Range, int),
            DecodeError,
        >(((Some(s), Some(t)), chain(write_pair(s), write_pair(t)).0.len() as int)),
{
    let e1 = write_pair(s);
    let e2 = write_pair(t);
    let all = chain(e1, e2).0 + rest;
    pair_round_trip(s, e2.0 + rest);
    pair_round_trip(t, rest);
    chain_parts(e1, e2, rest);
    assert(all.skip(0) == all);
    next_part(all, 0, e1.0, e2.0 + rest);
    assert(read_pair(all) == Ok::<(SubscribePair, int), DecodeError>((s, e1.0.len() as int)));
    assert(read_pair(all.skip(e1.0.len() as int)) == Ok::<(SubscribePair, int), DecodeError>(
        (t, e2.0.len() as int),
    ));
    lemma_read_two_pairs(all, s, t, e1.0.len() as int, e2.0.len() as int);
}

proof fn lemma_read_two_pairs(b: Seq<u8>, s: SubscribePair, t: SubscribePair, n: int, m: int)
    requires
        read_pair(b) == Ok::<(SubscribePair, int), DecodeError>((s, n)),
        read_pair(b.skip(n)) == Ok::<(SubscribePair, int), DecodeError>((t, m)),
    ensures
        read_range(b, FilterType::AbsoluteRange) == Ok::<(Range, int), DecodeError>(
            ((Some(s), Some(t)), n + m),
        ),
{
    reveal(read_range);
}

proof fn lemma_range_round_trip(v: SubscribeView, rest: Seq<u8>)
    requires
        subscribe_written(v),
    ensures
        write_range(v.filter_type, v.start, v.end).1 is None,
        read_range(write_range(v.filter_type, v.start, v.end).0 + rest, v.filter_type) == Ok::<
            (Range, int),
            DecodeError,
        >(
            (
                (as_read(v).start, as_read(v).end),
                write_range(v.filter_type, v.start, v.end).0.len() as int,
            ),
        ),
{
    reveal(write_range);
    match v.filter_type {
        FilterType::AbsoluteStart => {
            reveal(read_range);
            pair_round_trip(v.start->Some_0, rest);
        },
        FilterType::AbsoluteRange => {
            lemma_two_pairs(v.start->Some_0, v.end->Some_0, rest);
        },
        _ => {
            reveal(read_range);
        },
    }
}

proof fn lemma_timeout_round_trip(params: Seq<ParamView>, t: u64, rest: Seq<u8>)
    requires
        params.len() + 1 < VARINT_LIMIT,
        params_fit(params),
        distinct(params),
        t < VARINT_LIMIT,
    ensures
        write_options(params, Some(t)).1 is None,
        read_options(write_options(params, Some(t)).0 + rest) == Ok::<
            ((Seq<ParamView>, Option<u64>), int),
            DecodeError,
        >(
            (
                (without_param(params, PARAM_DELIVERY_TIMEOUT), Some(t)),
                write_options(params, Some(t)).0.len() as int,
            ),
        ),
{
    varint_len(t);
    let value = varint(t).0;
    let p = with_param(params, PARAM_DELIVERY_TIMEOUT, value);
    assert(write_options(params, Some(t)) == write_params(p)) by {
        reveal(write_options);
    }
    set_keeps_distinct(params, PARAM_DELIVERY_TIMEOUT, value);
    set_keeps_fit(params, PARAM_DELIVERY_TIMEOUT, value);
    set_then_get(params, PARAM_DELIVERY_TIMEOUT, t);
    params_round_trip(p, rest);
    lemma_read_options(write_params(p).0 + rest, p, write_params(p).0.len() as int);
}

proof fn lemma_read_options(b: Seq<u8>, p: Seq<ParamView>, n: int)
    requires
        read_params(b) == Ok::<(Seq<ParamView>, int), DecodeError>((p, n)),
        param_number(p, PARAM_DELIVERY_TIMEOUT) is Ok,
    ensures
        read_options(b) == Ok::<((Seq<ParamView>, Option<u64>), int), DecodeError>(
            (
                (
                    without_param(p, PARAM_DELIVERY_TIMEOUT),
                    param_number(p, PARAM_DELIVERY_TIMEOUT)->Ok_0,
                ),
                n,
            ),
        ),
{
    reveal(read_options);
}

proof fn lemma_options_round_trip(v: SubscribeView, rest: Seq<u8>)
    requires
        subscribe_written(v),
    ensures
        write_options(v.params, v.delivery_timeout_ms).1 is None,
        read_options(write_options(v.params, v.delivery_timeout_ms).0 + rest) == Ok::<
            ((Seq<ParamView>, Option<u64>), int),
            DecodeError,
        >(
            (
                (as_read(v).params, as_read(v).delivery_timeout_ms),
                write_options(v.params, v.delivery_timeout_ms).0.len() as int,
            ),
        ),
{
    match v.delivery_timeout_ms {
        Some(t) => {
            lemma_timeout_round_trip(v.params, t, rest);
        },
        None => {
            assert(write_options(v.params, None) == write_params(v.params)) by {
                reveal(write_options);
            }
            params_round_trip(v.params, rest);
            let e = write_params(v.params).0;
            lemma_read_options(e + rest, v.params, e.len() as int);
        },
    }
}

/// A subscription that can be written reads back, and takes its bytes and no more.
/// Locations that its filter does not ask for are gone, and the delivery timeout
/// stands apart from the other parameters.
pub proof fn subscribe_reads_back(v: SubscribeView, rest: Seq<u8>)
    requires
        subscribe_written(v),
    ensures
        write_subscribe(v).1 is None,
        read_subscribe(write_subscribe(v).0 + rest) == Ok::<(SubscribeView, int), DecodeError>(
            (as_read(v), write_subscribe(v).0.len() as int),
        ),
{
    reveal(write_subscribe);
    reveal(read_subscribe);
    let e1 = write_head(v.head());
    let e2 = write_range(v.filter_type, v.start, v.end);
    let e3 = write_options(v.params, v.delivery_timeout_ms);
    let r3 = e3.0 + rest;
    let r2 = e2.0 + r3;
    lemma_head_round_trip(v.head(), r2);
    lemma_range_round_trip(v, r3);
    lemma_options_round_trip(v, rest);
    let c2 = chain(e1, e2);
    chain_parts(e1, e2, r3);
    chain_parts(c2, e3, rest);
    let all = write_subscribe(v).0 + rest;
    assert(all.skip(0) == all);
    next_part(all, 0, e1.0, r2);
    next_part(all, e1.0.len() as int, e2.0, r3);
}

/// A subscription that carries nothing that is not written reads back as it was
/// written, delivery timeout included, and takes its bytes and no more.
pub proof fn subscribe_round_trip(v: SubscribeView, rest: Seq<u8>)
    requires
        subscribe_fits(v),
    ensures
        write_subscribe(v).1 is None,
        read_subscribe(write_subscribe(v).0 + rest) == Ok::<(SubscribeView, int), DecodeError>(
            (v, write_subscribe(v).0.len() as int),
        ),
{
    subscribe_reads_back(v, rest);
}

proof fn lemma_order_is_steady(b: Seq<u8>, more: Seq<u8>)
    ensures
        steady(read_order(b), read_order(b + more), b.len() as int, more.len() as int),
{
    byte_is_steady(b, more);
}

proof fn lemma_filter_is_steady(b: Seq<u8>, more: Seq<u8>)
    ensures
        steady(read_filter(b), read_filter(b + more), b.len() as int, more.len() as int),
{
    varint_is_steady(b, more);
}

proof fn lemma_location_is_steady(b: Seq<u8>, more: Seq<u8>)
    ensures
        steady(read_location(b), read_location(b + more), b.len() as int, more.len() as int),
{
    varint_is_steady(b, more);
    match read_varint(b) {
        Ok((_, n)) => {
            skip_more(b, more, n);
            varint_is_steady(b.skip(n), more);
        },
        Err(_) => {},
    }
}

proof fn lemma_pair_is_steady(b: Seq<u8>, more: Seq<u8>)
    ensures
        steady(read_pair(b), read_pair(b + more), b.len() as int, more.len() as int),
{
    lemma_location_is_steady(b, more);
    match read_location(b) {
        Ok((_, n)) => {
            skip_more(b, more, n);
            lemma_location_is_steady(b.skip(n), more);
        },
        Err(_) => {},
    }
}

proof fn lemma_head_is_steady(b: Seq<u8>, more: Seq<u8>)
    ensures
        steady(read_head(b), read_head(b + more), b.len() as int, more.len() as int),
{
    reveal(read_head);
    varint_is_steady(b, more);
    if let Ok((_, n1)) = read_varint(b) {
        skip_more(b, more, n1);
        varint_is_steady(b.skip(n1), more);
        if let Ok((_, n2)) = read_varint(b.skip(n1)) {
            skip_more(b, more, n1 + n2);
            tuple_is_steady(b.skip(n1 + n2), more);
            if let Ok((_, n3)) = read_tuple(b.skip(n1 + n2)) {
                skip_more(b, more, n1 + n2 + n3);
                text_is_steady(b.skip(n1 + n2 + n3), more);
                if let Ok((_, n4)) = read_text(b.skip(n1 + n2 + n3)) {
                    let n = n1 + n2 + n3 + n4;
                    skip_more(b, more, n);
                    byte_is_steady(b.skip(n), more);
                    if let Ok((_, n5)) = read_byte(b.skip(n)) {
                        skip_more(b, more, n + n5);
                        lemma_order_is_steady(b.skip(n + n5), more);
                        if let Ok((_, n6)) = read_order(b.skip(n + n5)) {
                            skip_more(b, more, n + n5 + n6);
                            lemma_filter_is_steady(b.skip(n + n5 + n6), more);
                        }
                    }
                }
            }
        }
    }
}

proof fn lemma_range_is_steady(b: Seq<u8>, more: Seq<u8>, filter: FilterType)
    ensures
        steady(
            read_range(b, filter),
            read_range(b + more, filter),
            b.len() as int,
            more.len() as int,
        ),
{
    reveal(read_range);
    lemma_pair_is_steady(b, more);
    match read_pair(b) {
        Ok((_, n)) => {
            skip_more(b, more, n);
            lemma_pair_is_steady(b.skip(n), more);
        },
        Err(_) => {},
    }
}

proof fn lemma_options_are_steady(b: Seq<u8>, more: Seq<u8>)
    ensures
        steady(read_options(b), read_options(b + more), b.len() as int, more.len() as int),
{
    reveal(read_options);
    params_are_steady(b, more);
    if let Ok((params, _)) = read_params(b) {
        let value = params[param_index(params, PARAM_DELIVERY_TIMEOUT, 0)].1;
        varint_is_steady(value, Seq::empty());
    }
}

/// What has been read of a subscription stands, whatever follows.
pub proof fn subscribe_is_steady(b: Seq<u8>, more: Seq<u8>)
    ensures
        steady(read_subscribe(b), read_subscribe(b + more), b.len() as int, more.len() as int),
{
    reveal(read_subscribe);
    lemma_head_is_steady(b, more);
    if let Ok((h, n)) = read_head(b) {
        skip_more(b, more, n);
        lemma_range_is_steady(b.skip(n), more, h.filter_type);
        if let Ok((_, m)) = read_range(b.skip(n), h.filter_type) {
            skip_more(b, more, n + m);
            lemma_options_are_steady(b.skip(n + m), more);
        }
    }
}

/// A subscription that has arrived in part is never taken for another: it is waited
/// for, and for no more than is to come.
pub proof fn subscribe_waits(v: SubscribeView, k: int)
    requires
        subscribe_written(v),
        0 <= k < write_subscribe(v).0.len(),
    ensures
        waits(read_subscribe(write_subscribe(v).0.take(k)), write_subscribe(v).0.len() - k),
{
    let all = write_subscribe(v).0;
    subscribe_reads_back(v, Seq::empty());
    assert(all + Seq::<u8>::empty() == all);
    assert(all.take(k) + all.skip(k) == all);
    subscribe_is_steady(all.take(k), all.skip(k));
    front_waits(read_subscribe(all.take(k)), read_subscribe(all), k, all.len() - k);
}

impl SelfDelimited for GroupOrder {
    proof fn reading_is_steady(b: Seq<u8>, more: Seq<u8>) {
        lemma_order_is_steady(b, more);
    }
}

impl SelfDelimited for FilterType {
    proof fn reading_is_steady(b: Seq<u8>, more: Seq<u8>) {
        lemma_filter_is_steady(b, more);
    }
}

impl SelfDelimited for SubscribeLocation {
    proof fn reading_is_steady(b: Seq<u8>, more: Seq<u8>) {
        lemma_location_is_steady(b, more);
    }
}

impl SelfDelimited for SubscribePair {
    proof fn reading_is_steady(b: Seq<u8>, more: Seq<u8>) {
        lemma_pair_is_steady(b, more);
    }
}

impl SelfDelimited for Subscribe {
    proof fn reading_is_steady(b: Seq<u8>, more: Seq<u8>) {
        subscribe_is_steady(b, more);
    }
}

/// Group orders have the numbers 0 to 2, written and read as one byte; another is none.
pub proof fn orders_have_their_numbers(b: Seq<u8>)
    requires
        b.len() > 0,
    ensures
        GroupOrder::encoding(GroupOrder::Publisher) == (seq![0u8], None::<EncodeError>),
        GroupOrder::encoding(GroupOrder::Ascending) == (seq![1u8], None::<EncodeError>),
        GroupOrder::encoding(GroupOrder::Descending) == (seq![2u8], None::<EncodeError>),
        b[0] == 0 ==> GroupOrder::decoding(b) == Ok::<_, DecodeError>((GroupOrder::Publisher, 1int)),
        b[0] == 1 ==> GroupOrder::decoding(b) == Ok::<_, DecodeError>((GroupOrder::Ascending, 1int)),
        b[0] == 2 ==> GroupOrder::decoding(b) == Ok::<_, DecodeError>(
            (GroupOrder::Descending, 1int),
        ),
        b[0] > 2 ==> GroupOrder::decoding(b) == Err::<(GroupOrder, int), DecodeError>(
            DecodeError::InvalidGroupOrder,
        ),
{
}

/// Filters have the numbers 1 to 4, written and read; another number is none.
pub proof fn filters_have_their_numbers(b: Seq<u8>, number: u64, n: int)
    requires
        u64::decoding(b) == Ok::<(u64, int), DecodeError>((number, n)),
    ensures
        FilterType::encoding(FilterType::LatestGroup) == u64::encoding(1),
        FilterType::encoding(FilterType::LatestObject) == u64::encoding(2),
        FilterType::encoding(FilterType::AbsoluteStart) == u64::encoding(3),
        FilterType::encoding(FilterType::AbsoluteRange) == u64::encoding(4),
        ({
            let r = FilterType::decoding(b);
            &&& number == 1 ==> r == Ok::<_, DecodeError>((FilterType::LatestGroup, n))
            &&& number == 2 ==> r == Ok::<_, DecodeError>((FilterType::LatestObject, n))
            &&& number == 3 ==> r == Ok::<_, DecodeError>((FilterType::AbsoluteStart, n))
            &&& number == 4 ==> r == Ok::<_, DecodeError>((FilterType::AbsoluteRange, n))
            &&& number == 0 || number > 4 ==> r == Err::<(FilterType, int), DecodeError>(
                DecodeError::InvalidFilterType,
            )
        }),
{
}

/// Locations have the numbers 0 to 3; all but the first stand before a number of their
/// own, written and read. Another number is none.
pub proof fn locations_have_their_numbers(
    x: u64,
    b: Seq<u8>,
    number: u64,
    n: int,
    ids: (u64, u64, u64, u64),
)
    requires
        x < VARINT_LIMIT,
        u64::decoding(b) == Ok::<(u64, int), DecodeError>((number, n)),
        call_ensures(SubscribeLocation::id, (&SubscribeLocation::Unset,), ids.0),
        call_ensures(SubscribeLocation::id, (&SubscribeLocation::Absolute(x),), ids.1),
        call_ensures(SubscribeLocation::id, (&SubscribeLocation::Latest(x),), ids.2),
        call_ensures(SubscribeLocation::id, (&SubscribeLocation::Future(x),), ids.3),
    ensures
        ids == (0u64, 1u64, 2u64, 3u64),
        SubscribeLocation::encoding(SubscribeLocation::Unset) == (seq![0u8], None::<EncodeError>),
        SubscribeLocation::encoding(SubscribeLocation::Absolute(x)) == (
            seq![1u8] + u64::encoding(x).0,
            None::<EncodeError>,
        ),
        SubscribeLocation::encoding(SubscribeLocation::Latest(x)) == (
            seq![2u8] + u64::encoding(x).0,
            None::<EncodeError>,
        ),
        SubscribeLocation::encoding(SubscribeLocation::Future(x)) == (
            seq![3u8] + u64::encoding(x).0,
            None::<EncodeError>,
        ),
        number == 0 ==> SubscribeLocation::decoding(b) == Ok::<_, DecodeError>(
            (SubscribeLocation::Unset, n),
        ),
        number > 3 ==> SubscribeLocation::decoding(b) == Err::<
            (SubscribeLocation, int),
            DecodeError,
        >(DecodeError::InvalidSubscribeLocation),
        1 <= number <= 3 ==> (match u64::decoding(b.skip(n)) {
            Ok((y, m)) => SubscribeLocation::decoding(b) == Ok::<_, DecodeError>(
                (
                    if number == 1 {
                        SubscribeLocation::Absolute(y)
                    } else if number == 2 {
                        SubscribeLocation::Latest(y)
                    } else {
                        SubscribeLocation::Future(y)
                    },
                    n + m,
                ),
            ),
            Err(e) => SubscribeLocation::decoding(b) == Err::<
                (SubscribeLocation, int),
                DecodeError,
            >(e),
        }),
{
    varint_len(x);
    numbers_are_written_in_the_fewest_bytes(0);
    numbers_are_written_in_the_fewest_bytes(1);
    numbers_are_written_in_the_fewest_bytes(2);
    numbers_are_written_in_the_fewest_bytes(3);
    assert(seq![0u8] + Seq::<u8>::empty() =~= seq![0u8]);
}

/// What stands before the range and the parameters: the number, the alias, the namespace,
/// the name, the priority, the order and the filter, one behind the other.
pub open spec fn front(v: SubscribeView) -> Seq<u8> {
    u64::encoding(v.id).0 + u64::encoding(v.track_alias).0 + Tuple::encoding(v.track_namespace).0
        + String::encoding(v.track_name).0 + seq![v.subscriber_priority] + GroupOrder::encoding(
        v.group_order,
    ).0 + FilterType::encoding(v.filter_type).0
}

/// The message is its front, then the start where the filter asks for one, then the end
/// where it asks for a range, and then the parameters, of which the one with the number 100
/// tells the timeout, if there is one.
pub proof fn the_filter_tells_what_follows(v: SubscribeView, s: SubscribePair, e: SubscribePair)
    requires
        v.id < VARINT_LIMIT,
        v.track_alias < VARINT_LIMIT,
        v.track_namespace.len() < VARINT_LIMIT,
        fields_fit(v.track_namespace),
        encode_utf8(v.track_name).len() < VARINT_LIMIT,
        encode_utf8(v.track_name).len() <= usize::MAX,
        v.params.len() + 1 < VARINT_LIMIT,
        params_fit(v.params),
        distinct(v.params),
        v.start == Some(s),
        v.end == Some(e),
        pair_fits(s),
        pair_fits(e),
        forall|i: int| 0 <= i < v.params.len() ==> (#[trigger] v.params[i]).0 != 100,
        v.delivery_timeout_ms matches Some(t) ==> t < VARINT_LIMIT,
    ensures
        ({
            let range = if v.filter_type == FilterType::AbsoluteStart {
                SubscribePair::encoding(s).0
            } else if v.filter_type == FilterType::AbsoluteRange {
                SubscribePair::encoding(s).0 + SubscribePair::encoding(e).0
            } else {
                Seq::<u8>::empty()
            };
            let params = match v.delivery_timeout_ms {
                None => v.params,
                Some(t) => v.params.push((100u64, u64::encoding(t).0)),
            };
            Subscribe::encoding(v) == (
                front(v) + range + Params::encoding(params).0,
                None::<EncodeError>,
            )
        }),
        SubscribePair::encoding(s) == (
            SubscribeLocation::encoding(s.group).0 + SubscribeLocation::encoding(s.object).0,
            None::<EncodeError>,
        ),
{
    reveal(write_subscribe);
    reveal(write_head);
    reveal(write_range);
    reveal(write_options);
    let none = Seq::<u8>::empty();
    varint_len(v.id);
    varint_len(v.track_alias);
    varint_len(filter_number(v.filter_type));
    tuple_round_trip(v.track_namespace, none);
    text_round_trip(v.track_name, none);
    pair_round_trip(s, none);
    pair_round_trip(e, none);
    location_round_trip(s.group, none);
    location_round_trip(s.object, none);
    params_round_trip(v.params, none);
    assert(write_head(v.head()) == (front(v), None::<EncodeError>));
    lemma_no_timeout(v.params);
    if let Some(t) = v.delivery_timeout_ms {
        varint_len(t);
        let value = varint(t).0;
        set_keeps_distinct(v.params, PARAM_DELIVERY_TIMEOUT, value);
        set_keeps_fit(v.params, PARAM_DELIVERY_TIMEOUT, value);
        params_round_trip(with_param(v.params, PARAM_DELIVERY_TIMEOUT, value), none);
    }
}

/// Parameters none of which is the timeout do not have it.
proof fn lemma_no_timeout(v: Seq<ParamView>)
    requires
        forall|i: int| 0 <= i < v.len() ==> (#[trigger] v[i]).0 != 100,
    ensures
        !has_param(v, PARAM_DELIVERY_TIMEOUT),
{
    lemma_no_param(v, PARAM_DELIVERY_TIMEOUT, 0);
}

proof fn lemma_no_param(v: Seq<ParamView>, kind: u64, from: int)
    requires
        0 <= from <= v.len(),
        forall|i: int| 0 <= i < v.len() ==> (#[trigger] v[i]).0 != kind,
    ensures
        param_index(v, kind, from) == v.len(),
    decreases v.len() - from,
{
    if from < v.len() {
        lemma_no_param(v, kind, from + 1);
    }
}

/// A message that lacks a location that its filter asks for is not written, though its
/// front is; one that the filter does not ask for may lack.
pub proof fn a_missing_location_is_an_error(v: SubscribeView)
    requires
        v.id < VARINT_LIMIT,
        v.track_alias < VARINT_LIMIT,
        v.track_namespace.len() < VARINT_LIMIT,
        fields_fit(v.track_namespace),
        encode_utf8(v.track_name).len() < VARINT_LIMIT,
        encode_utf8(v.track_name).len() <= usize::MAX,
        v.filter_type == FilterType::AbsoluteStart && v.start is None || v.filter_type
            == FilterType::AbsoluteRange && (v.start is None || v.end is None),
    ensures
        Subscribe::encoding(v) == (front(v), Some(EncodeError::MissingField)),
{
    reveal(write_subscribe);
    reveal(write_head);
    reveal(write_range);
    let none = Seq::<u8>::empty();
    varint_len(v.id);
    varint_len(v.track_alias);
    varint_len(filter_number(v.filter_type));
    tuple_round_trip(v.track_namespace, none);
    text_round_trip(v.track_name, none);
    assert(write_head(v.head()) == (front(v), None::<EncodeError>));
    assert(front(v) + none =~= front(v));
}

} // verus!
