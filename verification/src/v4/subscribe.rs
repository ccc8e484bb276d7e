//! The SUBSCRIBE packet: a list of topic filters, each with the QoS that the
//! client asks for.
use crate::buffer::{
    bytes_as_slice, bytes_clone, bytes_get_u16, bytes_get_u8, bytes_len, bytes_mut_freeze,
    bytes_mut_len, bytes_mut_put_slice, bytes_mut_put_u16, bytes_mut_put_u8, bytes_mut_view,
    bytes_mut_with_capacity, bytes_view,
};
use crate::err::{DecodeError, DecodeErrorKind, EncodeError, EncodeErrorKind};
use crate::io::{
    decode_utf8, encode_packet_length, encode_utf8, lemma_encode_length_len,
    lemma_string_round_trip, spec_decode_string, spec_encode_string, spec_length_size,
    spec_u16_at_front, spec_u16_be, MAX_ENCODED_PACKET_LEN, MAX_FIELD_LEN,
};
use crate::qos::{lemma_qos_round_trip, QosLevel, SubAckQoS};
use crate::topic::{
    join_levels, lemma_split_join, split_levels, valid_filter_levels, TopicFilter,
    TopicFilterResult, TopicSubscription,
};
use crate::v4::header::{
    lemma_fixed_header_round_trip, spec_decode_fixed_header, spec_encode_fixed_header,
    FixedHeaderView, PacketType,
};
use bytes::Bytes;
use vstd::prelude::*;

verus! {

/// One entry of a SUBSCRIBE as a value: the levels of the filter and the QoS
/// asked for, or nothing where the filter did not parse.
pub type SubscriptionView = Option<(Seq<Seq<char>>, QosLevel)>;

/// What a SUBSCRIBE says.
pub struct SubscribeView {
    pub packet_id: u16,
    pub entries: Seq<SubscriptionView>,
}

/// The views of a list of entries, in order.
pub open spec fn entry_views(entries: Seq<TopicFilterResult>) -> Seq<SubscriptionView> {
    Seq::new(entries.len(), |i: int| entries[i]@)
}

/// One entry on the wire: the filter as a text field, then the QoS byte. An
/// entry whose filter did not parse has no wire form.
pub open spec fn spec_encode_subscription(entry: SubscriptionView) -> Seq<u8> {
    match entry {
        Some((levels, qos)) => spec_encode_string(join_levels(levels)) + seq![qos.spec_as_u8()],
        None => Seq::<u8>::empty(),
    }
}

/// The entries on the wire, one after the other.
pub open spec fn spec_encode_subscriptions(entries: Seq<SubscriptionView>) -> Seq<u8>
    decreases entries.len(),
{
    if entries.len() == 0 {
        Seq::<u8>::empty()
    } else {
        spec_encode_subscriptions(entries.drop_last()) + spec_encode_subscription(entries.last())
    }
}

/// Whether an entry has a filter, and one that fits a text field.
pub open spec fn encodable_subscription(entry: SubscriptionView) -> bool {
    match entry {
        Some((levels, qos)) => vstd::utf8::encode_utf8(join_levels(levels)).len()
            <= MAX_FIELD_LEN,
        None => false,
    }
}

impl SubscribeView {
    /// The body: the packet id, then the entries.
    pub open spec fn body(self) -> Seq<u8> {
        spec_u16_be(self.packet_id) + spec_encode_subscriptions(self.entries)
    }

    /// Whether every filter and the body fit their length fields.
    pub open spec fn encodable(self) -> bool {
        &&& forall|i: int|
            0 <= i < self.entries.len() ==> encodable_subscription(#[trigger] self.entries[i])
        &&& self.body().len() <= MAX_ENCODED_PACKET_LEN
    }

    /// A SUBSCRIBE that may go on the wire: it has at least one entry, every
    /// entry has a valid filter, and everything fits its length field.
    pub open spec fn legal(self) -> bool {
        &&& self.entries.len() >= 1
        &&& forall|i: int|
            0 <= i < self.entries.len() ==> (#[trigger] self.entries[i]) is Some
                && valid_filter_levels(self.entries[i].unwrap().0)
        &&& self.encodable()
    }
}

/// The whole SUBSCRIBE on the wire.
pub open spec fn spec_encode_subscribe(v: SubscribeView) -> Seq<u8> {
    spec_encode_fixed_header(PacketType::SUBSCRIBE, 2, v.body().len()) + v.body()
}

/// Reads the entries of a SUBSCRIBE, which run to the end of the packet and
/// are at least one.
///
/// Each entry is a text field and a QoS byte. The text field fails as text
/// fields do; a missing QoS byte gives `MalformedLength` and one above 2
/// gives `QoS`. A text that is no topic filter does not fail the packet: its
/// entry is read as nothing.
pub open spec fn spec_decode_subscriptions(b: Seq<u8>) -> Result<
    Seq<SubscriptionView>,
    DecodeErrorKind,
>
    decreases b.len(),
{
    match spec_decode_string(b) {
        Err(k) => Err(k),
        Ok((text, rest)) => if rest.len() < 1 {
            Err(DecodeErrorKind::MalformedLength)
        } else {
            match QosLevel::spec_from_u8(rest[0]) {
                None => Err(DecodeErrorKind::QoS),
                Some(qos) => {
                    let entry: SubscriptionView = if valid_filter_levels(split_levels(text)) {
                        Some((split_levels(text), qos))
                    } else {
                        None
                    };
                    if rest.len() == 1 || rest.len() > b.len() {
                        Ok(seq![entry])
                    } else {
                        match spec_decode_subscriptions(rest.skip(1)) {
                            Err(k) => Err(k),
                            Ok(more) => Ok(seq![entry] + more),
                        }
                    }
                },
            }
        },
    }
}

/// Reads a SUBSCRIBE body: the packet id, which must be there
/// (`MalformedLength`), then the entries.
#[verifier::opaque]
pub open spec fn spec_decode_subscribe_body(body: Seq<u8>) -> Result<
    SubscribeView,
    DecodeErrorKind,
> {
    if body.len() < 2 {
        Err(DecodeErrorKind::MalformedLength)
    } else {
        match spec_decode_subscriptions(body.skip(2)) {
            Err(k) => Err(k),
            Ok(entries) => Ok(SubscribeView { packet_id: spec_u16_at_front(body), entries }),
        }
    }
}

/// A SUBSCRIBE packet.
#[derive(PartialEq, Eq, Debug)]
pub struct SubscribePacket {
    packet_id: u16,
    payload: Vec<TopicFilterResult>,
}

impl View for SubscribePacket {
    type V = SubscribeView;

    closed spec fn view(&self) -> SubscribeView {
        SubscribeView { packet_id: self.packet_id, entries: entry_views(self.payload@) }
    }
}

/// A copy of a list of entries.
fn clone_entries(entries: &Vec<TopicFilterResult>) -> (r: Vec<TopicFilterResult>)
    ensures
        entry_views(r@) == entry_views(entries@),
{
    let mut out: Vec<TopicFilterResult> = Vec::new();
    let mut i: usize = 0;
    while i < entries.len()
        invariant
            i <= entries@.len(),
            out@.len() == i,
            forall|k: int| 0 <= k < i ==> (#[trigger] out@[k])@ == entries@[k]@,
        decreases entries@.len() - i,
    {
        out.push(entries[i].clone());
        i = i + 1;
    }
    assert(entry_views(out@) =~= entry_views(entries@));
    out
}

impl Clone for SubscribePacket {
    fn clone(&self) -> (r: Self)
        ensures
            r@ == self@,
    {
        Self { packet_id: self.packet_id, payload: clone_entries(&self.payload) }
    }
}

impl SubscribePacket {
    /// A SUBSCRIBE for the given subscriptions.
    pub fn new(packet_id: u16, payload: Vec<TopicSubscription>) -> (p: Self)
        ensures
            p@.packet_id == packet_id,
            p@.entries == Seq::new(payload@.len(), |i: int| Some(payload@[i]@)),
    {
        let mut entries: Vec<TopicFilterResult> = Vec::new();
        let mut i: usize = 0;
        while i < payload.len()
            invariant
                i <= payload@.len(),
                entries@.len() == i,
                forall|k: int| 0 <= k < i ==> (#[trigger] entries@[k])@ == Some(payload@[k]@),
            decreases payload@.len() - i,
        {
            entries.push(TopicFilterResult::Valid(payload[i].clone()));
            i = i + 1;
        }
        let p = Self { packet_id, payload: entries };
        assert(p@.entries =~= Seq::new(payload@.len(), |i: int| Some(payload@[i]@)));
        p
    }

    /// Reads the body of a SUBSCRIBE and consumes the whole buffer, which
    /// must hold the body and nothing else. On failure the buffer is left
    /// as it was.
    #[verifier::loop_isolation(false)]
    pub fn decode(bytes: &mut Bytes) -> (r: Result<Self, DecodeError>)
        ensures
            match r {
                Ok(p) => spec_decode_subscribe_body(bytes_view(*old(bytes))) == Ok::<
                    SubscribeView,
                    DecodeErrorKind,
                >(p@) && bytes_view(*final(bytes)) == Seq::<u8>::empty(),
                Err(e) => spec_decode_subscribe_body(bytes_view(*old(bytes))) == Err::<
                    SubscribeView,
                    DecodeErrorKind,
                >(e.spec_kind()) && *final(bytes) == *old(bytes),
            },
    {
        proof {
            reveal(spec_decode_subscribe_body);
        }
        let mut cursor = bytes_clone(bytes);
        if bytes_len(&cursor) < 2 {
            return Err(
                DecodeError::of(
                    DecodeErrorKind::MalformedLength,
                    "SUBSCRIBE is cut off inside its packet id",
                ),
            );
        }
        let packet_id: u16 = bytes_get_u16(&mut cursor);
        let ghost start = bytes_view(cursor);
        let mut payload: Vec<TopicFilterResult> = Vec::new();
        let mut finished: bool = false;
        assert(entry_views(payload@) + seq![None::<(Seq<Seq<char>>, QosLevel)>] =~= seq![
            None::<(Seq<Seq<char>>, QosLevel)>,
        ]);
        while !finished
            invariant
                !finished ==> (match spec_decode_subscriptions(bytes_view(cursor)) {
                    Ok(more) => spec_decode_subscriptions(start) == Ok::<
                        Seq<SubscriptionView>,
                        DecodeErrorKind,
                    >(entry_views(payload@) + more),
                    Err(k) => spec_decode_subscriptions(start) == Err::<
                        Seq<SubscriptionView>,
                        DecodeErrorKind,
                    >(k),
                }),
                finished ==> spec_decode_subscriptions(start) == Ok::<
                    Seq<SubscriptionView>,
                    DecodeErrorKind,
                >(entry_views(payload@)) && bytes_view(cursor).len() == 0,
            decreases
                    bytes_view(cursor).len() + (if finished {
                        0int
                    } else {
                        1int
                    }),
        {
            let ghost here = bytes_view(cursor);
            let text = match decode_utf8(&mut cursor) {
                Ok(text) => text,
                Err(e) => {
                    return Err(e);
                },
            };
            if bytes_len(&cursor) < 1 {
                return Err(
                    DecodeError::of(
                        DecodeErrorKind::MalformedLength,
                        "SUBSCRIBE is cut off before a QoS byte",
                    ),
                );
            }
            let qos_byte: u8 = bytes_get_u8(&mut cursor);
            let qos = match QosLevel::try_from(qos_byte) {
                Ok(qos) => qos,
                Err(e) => {
                    return Err(e);
                },
            };
            let entry = match TopicFilter::from_str(text.as_str()) {
                Ok(filter) => TopicFilterResult::Valid(TopicSubscription::new(filter, qos)),
                Err(_) => TopicFilterResult::Invalid,
            };
            proof {
                let more = spec_decode_subscriptions(here);
                assert(entry_views(payload@.push(entry)) =~= entry_views(payload@) + seq![entry@]);
                if bytes_view(cursor).len() != 0 {
                    let tail = spec_decode_subscriptions(bytes_view(cursor));
                    if tail is Ok {
                        assert(entry_views(payload@) + (seq![entry@] + tail.unwrap())
                            =~= entry_views(payload@.push(entry)) + tail.unwrap());
                    }
                }
            }
            payload.push(entry);
            if bytes_len(&cursor) == 0 {
                finished = true;
            }
        }
        assert(bytes_view(cursor) =~= Seq::<u8>::empty());
        *bytes = cursor;
        Ok(Self { packet_id, payload })
    }

    /// The whole packet, fixed header included. Every entry must hold a
    /// filter. A filter longer than `MAX_FIELD_LEN` bytes or a body longer
    /// than `MAX_ENCODED_PACKET_LEN` bytes gives `OversizedPayload`.
    #[verifier::loop_isolation(false)]
    pub fn encode(&self) -> (r: Result<Bytes, EncodeError>)
        requires
            forall|i: int| 0 <= i < self@.entries.len() ==> (#[trigger] self@.entries[i]) is Some,
        ensures
            match r {
                Ok(b) => self@.encodable() && bytes_view(b) == spec_encode_subscribe(self@),
                Err(e) => !self@.encodable() && e.spec_kind()
                    == EncodeErrorKind::OversizedPayload,
            },
    {
        let ghost entries = self@.entries;
        let mut body = bytes_mut_with_capacity(2);
        bytes_mut_put_u16(&mut body, self.packet_id);
        assert(bytes_mut_view(body) =~= spec_u16_be(self.packet_id) + spec_encode_subscriptions(
            entries.take(0),
        ));
        let mut i: usize = 0;
        while i < self.payload.len()
            invariant
                i <= self.payload@.len(),
                entries == entry_views(self.payload@),
                bytes_mut_view(body) == spec_u16_be(self.packet_id) + spec_encode_subscriptions(
                    entries.take(i as int),
                ),
                forall|k: int| 0 <= k < i ==> encodable_subscription(#[trigger] entries[k]),
            decreases self.payload@.len() - i,
        {
            proof {
                lemma_subscriptions_prefix_len(entries, i as int);
                assert(entries.take(i + 1).drop_last() =~= entries.take(i as int));
                assert(entries.take(i + 1).last() == entries[i as int]);
                assert(entries[i as int] == self.payload@[i as int]@);
            }
            if bytes_mut_len(&body) > MAX_ENCODED_PACKET_LEN {
                return Err(
                    EncodeError::new(
                        EncodeErrorKind::OversizedPayload,
                        "SUBSCRIBE does not fit its length field".to_owned(),
                    ),
                );
            }
            match &self.payload[i] {
                TopicFilterResult::Valid(sub) => {
                    let text: String = sub.filter().clone().to_string();
                    match encode_utf8(&mut body, text.as_str()) {
                        Ok(_) => {},
                        Err(e) => {
                            assert(!encodable_subscription(entries[i as int]));
                            return Err(e);
                        },
                    }
                    bytes_mut_put_u8(&mut body, sub.qos().as_u8());
                    assert(bytes_mut_view(body) =~= spec_u16_be(self.packet_id)
                        + spec_encode_subscriptions(entries.take(i + 1)));
                },
                TopicFilterResult::Invalid => {
                    assert(false);
                },
            }
            i = i + 1;
        }
        assert(entries.take(i as int) =~= entries);
        let body = bytes_mut_freeze(body);
        let len: usize = bytes_len(&body);
        if len > MAX_ENCODED_PACKET_LEN {
            return Err(
                EncodeError::new(
                    EncodeErrorKind::OversizedPayload,
                    "SUBSCRIBE does not fit its length field".to_owned(),
                ),
            );
        }
        let mut bytes = bytes_mut_with_capacity(len + 5);
        bytes_mut_put_u8(&mut bytes, PacketType::SUBSCRIBE.as_u8() + 2);
        match encode_packet_length(&mut bytes, len) {
            Ok(_) => {},
            Err(e) => {
                return Err(e);
            },
        }
        proof {
            lemma_encode_length_len(len as nat);
        }
        bytes_mut_put_slice(&mut bytes, bytes_as_slice(&body));
        assert(bytes_mut_view(bytes) =~= spec_encode_subscribe(self@));
        Ok(bytes_mut_freeze(bytes))
    }

    pub fn id(&self) -> (id: u16)
        ensures
            id == self@.packet_id,
    {
        self.packet_id
    }

    /// A copy of the entries, in the order of the packet.
    pub fn topic_filters(&self) -> (entries: Vec<TopicFilterResult>)
        ensures
            entry_views(entries@) == self@.entries,
    {
        clone_entries(&self.payload)
    }
}

/// The first entries of a list take no more bytes than the whole list.
pub proof fn lemma_subscriptions_prefix_len(entries: Seq<SubscriptionView>, i: int)
    requires
        0 <= i <= entries.len(),
    ensures
        spec_encode_subscriptions(entries.take(i)).len() <= spec_encode_subscriptions(
            entries,
        ).len(),
    decreases entries.len(),
{
    if i == entries.len() {
        assert(entries.take(i) =~= entries);
    } else {
        assert(entries.drop_last().take(i) =~= entries.take(i));
        lemma_subscriptions_prefix_len(entries.drop_last(), i);
    }
}

/// A list of entries on the wire begins with its first entry.
pub proof fn lemma_subscriptions_unfold_front(entries: Seq<SubscriptionView>)
    requires
        entries.len() >= 1,
    ensures
        spec_encode_subscriptions(entries) == spec_encode_subscription(entries[0])
            + spec_encode_subscriptions(entries.drop_first()),
    decreases entries.len(),
{
    if entries.len() == 1 {
        assert(entries.drop_last() =~= Seq::<SubscriptionView>::empty());
        assert(entries.drop_first() =~= Seq::<SubscriptionView>::empty());
        assert(spec_encode_subscriptions(entries) =~= spec_encode_subscription(entries[0])
            + spec_encode_subscriptions(entries.drop_first()));
    } else {
        let init = entries.drop_last();
        lemma_subscriptions_unfold_front(init);
        assert(init.drop_first() =~= entries.drop_first().drop_last());
        assert(entries.drop_first().last() == entries.last());
        assert(spec_encode_subscriptions(entries) =~= spec_encode_subscription(entries[0])
            + spec_encode_subscriptions(entries.drop_first()));
    }
}

/// Entries with valid filters that fit their length prefixes are read back
/// as written, provided that there is at least one.
pub proof fn lemma_subscriptions_round_trip(entries: Seq<SubscriptionView>)
    requires
        entries.len() >= 1,
        forall|i: int|
            0 <= i < entries.len() ==> (#[trigger] entries[i]) is Some && valid_filter_levels(
                entries[i].unwrap().0,
            ) && encodable_subscription(entries[i]),
    ensures
        spec_decode_subscriptions(spec_encode_subscriptions(entries)) == Ok::<
            Seq<SubscriptionView>,
            DecodeErrorKind,
        >(entries),
    decreases entries.len(),
{
    let first = entries[0];
    let (levels, qos) = first.unwrap();
    let rest = entries.drop_first();
    let tail = seq![qos.spec_as_u8()] + spec_encode_subscriptions(rest);
    lemma_subscriptions_unfold_front(entries);
    let wire = spec_encode_subscriptions(entries);
    assert(wire =~= spec_encode_string(join_levels(levels)) + tail);
    lemma_string_round_trip(join_levels(levels), tail);
    assert(valid_filter_levels(levels));
    lemma_split_join(levels);
    lemma_qos_round_trip(qos, SubAckQoS::Failure);
    assert(tail[0] == qos.spec_as_u8());
    assert(tail.skip(1) =~= spec_encode_subscriptions(rest));
    assert(tail.len() <= wire.len());
    if rest.len() == 0 {
        assert(spec_encode_subscriptions(rest) =~= Seq::<u8>::empty());
        assert(seq![first] =~= entries);
    } else {
        assert forall|i: int| 0 <= i < rest.len() implies (#[trigger] rest[i]) is Some
            && valid_filter_levels(rest[i].unwrap().0) && encodable_subscription(rest[i]) by {
            assert(rest[i] == entries[i + 1]);
        }
        lemma_subscriptions_round_trip(rest);
        lemma_subscriptions_unfold_front(rest);
        assert(spec_encode_subscriptions(rest).len() > 0);
        assert(seq![first] + rest =~= entries);
    }
}

/// Every legal SUBSCRIBE is read back as written.
pub proof fn lemma_subscribe_round_trip(v: SubscribeView)
    requires
        v.legal(),
    ensures
        spec_decode_fixed_header(spec_encode_subscribe(v)) == Ok::<
            (FixedHeaderView, Seq<u8>),
            DecodeErrorKind,
        >(
            (
                FixedHeaderView {
                    type_: PacketType::SUBSCRIBE,
                    flags: 2,
                    rest_len: v.body().len(),
                    header_len: 1 + spec_length_size(v.body().len()),
                },
                v.body(),
            ),
        ),
        spec_decode_subscribe_body(v.body()) == Ok::<SubscribeView, DecodeErrorKind>(v),
{
    reveal(spec_decode_subscribe_body);
    lemma_fixed_header_round_trip(PacketType::SUBSCRIBE, 2, v.body().len(), v.body());
    let body = v.body();
    assert(body.skip(2) =~= spec_encode_subscriptions(v.entries));
    assert(body[0] == (v.packet_id / 256) as u8);
    assert(body[1] == (v.packet_id % 256) as u8);
    lemma_subscriptions_round_trip(v.entries);
}

} // verus!
