//! The UNSUBSCRIBE packet: a list of topic filters that the client no longer
//! wants.
use crate::buffer::{
    bytes_as_slice, bytes_clone, bytes_get_u16, bytes_len, bytes_mut_freeze, bytes_mut_len,
    bytes_mut_put_slice, bytes_mut_put_u16, bytes_mut_put_u8, bytes_mut_view,
    bytes_mut_with_capacity, bytes_view,
};
use crate::err::{DecodeError, DecodeErrorKind, EncodeError, EncodeErrorKind};
use crate::io::{
    encode_packet_length, encode_utf8, lemma_encode_length_len, spec_encode_string,
    spec_length_size, spec_u16_at_front, spec_u16_be, MAX_ENCODED_PACKET_LEN, MAX_FIELD_LEN,
};
use crate::topic::{
    join_levels, lemma_topic_filter_round_trip, spec_decode_topic_filter, valid_filter_levels,
    TopicFilter,
};
use crate::v4::header::{
    lemma_fixed_header_round_trip, spec_decode_fixed_header, spec_encode_fixed_header,
    FixedHeaderView, PacketType,
};
use bytes::Bytes;
use vstd::prelude::*;

verus! {

/// What an UNSUBSCRIBE says.
pub struct UnsubscribeView {
    pub packet_id: u16,
    /// The levels of each filter, in the order of the packet.
    pub filters: Seq<Seq<Seq<char>>>,
}

/// The levels of each filter of a list, in order.
pub open spec fn filter_views(filters: Seq<TopicFilter>) -> Seq<Seq<Seq<char>>> {
    Seq::new(filters.len(), |i: int| filters[i]@)
}

/// The filters on the wire: one text field after the other.
pub open spec fn spec_encode_filters(filters: Seq<Seq<Seq<char>>>) -> Seq<u8>
    decreases filters.len(),
{
    if filters.len() == 0 {
        Seq::<u8>::empty()
    } else {
        spec_encode_filters(filters.drop_last()) + spec_encode_string(join_levels(filters.last()))
    }
}

/// Whether a filter fits a text field.
pub open spec fn encodable_filter(levels: Seq<Seq<char>>) -> bool {
    vstd::utf8::encode_utf8(join_levels(levels)).len() <= MAX_FIELD_LEN
}

impl UnsubscribeView {
    /// The body: the packet id, then the filters.
    pub open spec fn body(self) -> Seq<u8> {
        spec_u16_be(self.packet_id) + spec_encode_filters(self.filters)
    }

    /// Whether every filter and the body fit their length fields.
    pub open spec fn encodable(self) -> bool {
        &&& forall|i: int|
            0 <= i < self.filters.len() ==> encodable_filter(#[trigger] self.filters[i])
        &&& self.body().len() <= MAX_ENCODED_PACKET_LEN
    }

    /// An UNSUBSCRIBE that may go on the wire: it has at least one filter,
    /// every filter is valid, and everything fits its length field.
    pub open spec fn legal(self) -> bool {
        &&& self.filters.len() >= 1
        &&& forall|i: int|
            0 <= i < self.filters.len() ==> valid_filter_levels(#[trigger] self.filters[i])
        &&& self.encodable()
    }
}

/// The whole UNSUBSCRIBE on the wire.
pub open spec fn spec_encode_unsubscribe(v: UnsubscribeView) -> Seq<u8> {
    spec_encode_fixed_header(PacketType::UNSUBSCRIBE, 2, v.body().len()) + v.body()
}

/// Reads the filters of an UNSUBSCRIBE, which run to the end of the packet
/// and are at least one. Each fails as a topic filter field does.
pub open spec fn spec_decode_filters(b: Seq<u8>) -> Result<
    Seq<Seq<Seq<char>>>,
    DecodeErrorKind,
>
    decreases b.len(),
{
    match spec_decode_topic_filter(b) {
        Err(k) => Err(k),
        Ok((levels, rest)) => if rest.len() == 0 || rest.len() >= b.len() {
            Ok(seq![levels])
        } else {
            match spec_decode_filters(rest) {
                Err(k) => Err(k),
                Ok(more) => Ok(seq![levels] + more),
            }
        },
    }
}

/// Reads an UNSUBSCRIBE body: the packet id, which must be there
/// (`MalformedLength`), then the filters.
#[verifier::opaque]
pub open spec fn spec_decode_unsubscribe_body(body: Seq<u8>) -> Result<
    UnsubscribeView,
    DecodeErrorKind,
> {
    if body.len() < 2 {
        Err(DecodeErrorKind::MalformedLength)
    } else {
        match spec_decode_filters(body.skip(2)) {
            Err(k) => Err(k),
            Ok(filters) => Ok(UnsubscribeView { packet_id: spec_u16_at_front(body), filters }),
        }
    }
}

/// An UNSUBSCRIBE packet.
#[derive(PartialEq, Eq, Debug)]
pub struct UnsubscribePacket {
    packet_id: u16,
    filters: Vec<TopicFilter>,
}

impl View for UnsubscribePacket {
    type V = UnsubscribeView;

    closed spec fn view(&self) -> UnsubscribeView {
        UnsubscribeView { packet_id: self.packet_id, filters: filter_views(self.filters@) }
    }
}

impl Clone for UnsubscribePacket {
    fn clone(&self) -> (r: Self)
        ensures
            r@ == self@,
    {
        let mut filters: Vec<TopicFilter> = Vec::new();
        let mut i: usize = 0;
        while i < self.filters.len()
            invariant
                i <= self.filters@.len(),
                filters@.len() == i,
                forall|k: int| 0 <= k < i ==> (#[trigger] filters@[k])@ == self.filters@[k]@,
            decreases self.filters@.len() - i,
        {
            filters.push(self.filters[i].clone());
            i = i + 1;
        }
        assert(filter_views(filters@) =~= filter_views(self.filters@));
        Self { packet_id: self.packet_id, filters }
    }
}

impl UnsubscribePacket {
    pub fn new(packet_id: u16, filters: Vec<TopicFilter>) -> (p: Self)
        ensures
            p@ == (UnsubscribeView { packet_id, filters: filter_views(filters@) }),
    {
        Self { packet_id, filters }
    }

    pub fn id(&self) -> (id: u16)
        ensures
            id == self@.packet_id,
    {
        self.packet_id
    }

    /// Reads the body of an UNSUBSCRIBE and consumes the whole buffer, which
    /// must hold the body and nothing else. On failure the buffer is left
    /// as it was.
    #[verifier::loop_isolation(false)]
    pub fn decode(bytes: &mut Bytes) -> (r: Result<Self, DecodeError>)
        ensures
            match r {
                Ok(p) => spec_decode_unsubscribe_body(bytes_view(*old(bytes))) == Ok::<
                    UnsubscribeView,
                    DecodeErrorKind,
                >(p@) && bytes_view(*final(bytes)) == Seq::<u8>::empty(),
                Err(e) => spec_decode_unsubscribe_body(bytes_view(*old(bytes))) == Err::<
                    UnsubscribeView,
                    DecodeErrorKind,
                >(e.spec_kind()) && *final(bytes) == *old(bytes),
            },
    {
        proof {
            reveal(spec_decode_unsubscribe_body);
        }
        let mut cursor = bytes_clone(bytes);
        if bytes_len(&cursor) < 2 {
            return Err(
                DecodeError::of(
                    DecodeErrorKind::MalformedLength,
                    "UNSUBSCRIBE is cut off inside its packet id",
                ),
            );
        }
        let packet_id: u16 = bytes_get_u16(&mut cursor);
        let ghost start = bytes_view(cursor);
        let mut filters: Vec<TopicFilter> = Vec::new();
        let mut finished: bool = false;
        while !finished
            invariant
                !finished ==> (match spec_decode_filters(bytes_view(cursor)) {
                    Ok(more) => spec_decode_filters(start) == Ok::<
                        Seq<Seq<Seq<char>>>,
                        DecodeErrorKind,
                    >(filter_views(filters@) + more),
                    Err(k) => spec_decode_filters(start) == Err::<
                        Seq<Seq<Seq<char>>>,
                        DecodeErrorKind,
                    >(k),
                }),
                finished ==> spec_decode_filters(start) == Ok::<
                    Seq<Seq<Seq<char>>>,
                    DecodeErrorKind,
                >(filter_views(filters@)) && bytes_view(cursor).len() == 0,
            decreases
                    bytes_view(cursor).len() + (if finished {
                        0int
                    } else {
                        1int
                    }),
        {
            let ghost here = bytes_view(cursor);
            let filter = match TopicFilter::decode(&mut cursor) {
                Ok(filter) => filter,
                Err(e) => {
                    return Err(e);
                },
            };
            proof {
                assert(bytes_view(cursor).len() < here.len());
                assert(filter_views(filters@.push(filter)) =~= filter_views(filters@) + seq![
                    filter@,
                ]);
                if bytes_view(cursor).len() != 0 {
                    let tail = spec_decode_filters(bytes_view(cursor));
                    if tail is Ok {
                        assert(filter_views(filters@) + (seq![filter@] + tail.unwrap())
                            =~= filter_views(filters@.push(filter)) + tail.unwrap());
                    }
                }
            }
            filters.push(filter);
            if bytes_len(&cursor) == 0 {
                finished = true;
            }
        }
        assert(bytes_view(cursor) =~= Seq::<u8>::empty());
        *bytes = cursor;
        Ok(Self { packet_id, filters })
    }

    /// The whole packet, fixed header included. A filter longer than
    /// `MAX_FIELD_LEN` bytes or a body longer than `MAX_ENCODED_PACKET_LEN`
    /// bytes gives `OversizedPayload`.
    #[verifier::loop_isolation(false)]
    pub fn encode(&self) -> (r: Result<Bytes, EncodeError>)
        ensures
            match r {
                Ok(b) => self@.encodable() && bytes_view(b) == spec_encode_unsubscribe(self@),
                Err(e) => !self@.encodable() && e.spec_kind()
                    == EncodeErrorKind::OversizedPayload,
            },
    {
        let ghost filters = self@.filters;
        let mut body = bytes_mut_with_capacity(2);
        bytes_mut_put_u16(&mut body, self.packet_id);
        assert(bytes_mut_view(body) =~= spec_u16_be(self.packet_id) + spec_encode_filters(
            filters.take(0),
        ));
        let mut i: usize = 0;
        while i < self.filters.len()
            invariant
                i <= self.filters@.len(),
                filters == filter_views(self.filters@),
                bytes_mut_view(body) == spec_u16_be(self.packet_id) + spec_encode_filters(
                    filters.take(i as int),
                ),
                forall|k: int| 0 <= k < i ==> encodable_filter(#[trigger] filters[k]),
            decreases self.filters@.len() - i,
        {
            proof {
                lemma_filters_prefix_len(filters, i as int);
                assert(filters.take(i + 1).drop_last() =~= filters.take(i as int));
                assert(filters.take(i + 1).last() == filters[i as int]);
                assert(filters[i as int] == self.filters@[i as int]@);
            }
            if bytes_mut_len(&body) > MAX_ENCODED_PACKET_LEN {
                return Err(
                    EncodeError::new(
                        EncodeErrorKind::OversizedPayload,
                        "UNSUBSCRIBE does not fit its length field".to_owned(),
                    ),
                );
            }
            let text: String = self.filters[i].clone().to_string();
            match encode_utf8(&mut body, text.as_str()) {
                Ok(_) => {},
                Err(e) => {
                    assert(!encodable_filter(filters[i as int]));
                    return Err(e);
                },
            }
            assert(bytes_mut_view(body) =~= spec_u16_be(self.packet_id) + spec_encode_filters(
                filters.take(i + 1),
            ));
            i = i + 1;
        }
        assert(filters.take(i as int) =~= filters);
        let body = bytes_mut_freeze(body);
        let len: usize = bytes_len(&body);
        if len > MAX_ENCODED_PACKET_LEN {
            return Err(
                EncodeError::new(
                    EncodeErrorKind::OversizedPayload,
                    "UNSUBSCRIBE does not fit its length field".to_owned(),
                ),
            );
        }
        let mut bytes = bytes_mut_with_capacity(len + 5);
        bytes_mut_put_u8(&mut bytes, PacketType::UNSUBSCRIBE.as_u8() + 2);
        match encode_packet_length(&mut bytes, len) {
            Ok(_) => {},
            Err(e) => {
                return Err(e);
            },
        }
        proof {
            lemma_encode_length_len(len as nat);
        }
        bytes_mut_put_slice(&mut bytes, bytes_as_slice(&body));
        assert(bytes_mut_view(bytes) =~= spec_encode_unsubscribe(self@));
        Ok(bytes_mut_freeze(bytes))
    }

    /// The filters, in the order of the packet.
    pub fn filters(&self) -> (filters: &Vec<TopicFilter>)
        ensures
            filter_views(filters@) == self@.filters,
    {
        &self.filters
    }
}

/// The first filters of a list take no more bytes than the whole list.
pub proof fn lemma_filters_prefix_len(filters: Seq<Seq<Seq<char>>>, i: int)
    requires
        0 <= i <= filters.len(),
    ensures
        spec_encode_filters(filters.take(i)).len() <= spec_encode_filters(filters).len(),
    decreases filters.len(),
{
    if i == filters.len() {
        assert(filters.take(i) =~= filters);
    } else {
        assert(filters.drop_last().take(i) =~= filters.take(i));
        lemma_filters_prefix_len(filters.drop_last(), i);
    }
}

/// A list of filters on the wire begins with its first filter.
pub proof fn lemma_filters_unfold_front(filters: Seq<Seq<Seq<char>>>)
    requires
        filters.len() >= 1,
    ensures
        spec_encode_filters(filters) == spec_encode_string(join_levels(filters[0]))
            + spec_encode_filters(filters.drop_first()),
    decreases filters.len(),
{
    if filters.len() == 1 {
        assert(filters.drop_last() =~= Seq::<Seq<Seq<char>>>::empty());
        assert(filters.drop_first() =~= Seq::<Seq<Seq<char>>>::empty());
        assert(spec_encode_filters(filters) =~= spec_encode_string(join_levels(filters[0]))
            + spec_encode_filters(filters.drop_first()));
    } else {
        let init = filters.drop_last();
        lemma_filters_unfold_front(init);
        assert(init.drop_first() =~= filters.drop_first().drop_last());
        assert(filters.drop_first().last() == filters.last());
        assert(spec_encode_filters(filters) =~= spec_encode_string(join_levels(filters[0]))
            + spec_encode_filters(filters.drop_first()));
    }
}

/// Valid filters that fit their length prefixes are read back as written,
/// provided that there is at least one.
pub proof fn lemma_filters_round_trip(filters: Seq<Seq<Seq<char>>>)
    requires
        filters.len() >= 1,
        forall|i: int|
            0 <= i < filters.len() ==> valid_filter_levels(#[trigger] filters[i])
                && encodable_filter(filters[i]),
    ensures
        spec_decode_filters(spec_encode_filters(filters)) == Ok::<
            Seq<Seq<Seq<char>>>,
            DecodeErrorKind,
        >(filters),
    decreases filters.len(),
{
    let first = filters[0];
    let rest = filters.drop_first();
    let tail = spec_encode_filters(rest);
    lemma_filters_unfold_front(filters);
    assert(valid_filter_levels(first) && encodable_filter(first));
    lemma_topic_filter_round_trip(first, tail);
    if rest.len() == 0 {
        assert(tail =~= Seq::<u8>::empty());
        assert(seq![first] =~= filters);
    } else {
        assert forall|i: int| 0 <= i < rest.len() implies valid_filter_levels(#[trigger] rest[i])
            && encodable_filter(rest[i]) by {
            assert(rest[i] == filters[i + 1]);
        }
        lemma_filters_round_trip(rest);
        lemma_filters_unfold_front(rest);
        assert(tail.len() > 0);
        assert(seq![first] + rest =~= filters);
    }
}

/// Every legal UNSUBSCRIBE is read back as written.
pub proof fn lemma_unsubscribe_round_trip(v: UnsubscribeView)
    requires
        v.legal(),
    ensures
        spec_decode_fixed_header(spec_encode_unsubscribe(v)) == Ok::<
            (FixedHeaderView, Seq<u8>),
            DecodeErrorKind,
        >(
            (
                FixedHeaderView {
                    type_: PacketType::UNSUBSCRIBE,
                    flags: 2,
                    rest_len: v.body().len(),
                    header_len: 1 + spec_length_size(v.body().len()),
                },
                v.body(),
            ),
        ),
        spec_decode_unsubscribe_body(v.body()) == Ok::<UnsubscribeView, DecodeErrorKind>(v),
{
    reveal(spec_decode_unsubscribe_body);
    lemma_fixed_header_round_trip(PacketType::UNSUBSCRIBE, 2, v.body().len(), v.body());
    let body = v.body();
    assert(body.skip(2) =~= spec_encode_filters(v.filters));
    assert(body[0] == (v.packet_id / 256) as u8);
    assert(body[1] == (v.packet_id % 256) as u8);
    lemma_filters_round_trip(v.filters);
}

} // verus!
