//! The mailbox of a connection: one slot for every topic that the client is
//! subscribed to, each with the receiving end of the topic's channel.
use crate::channel::{channel_try_recv, MailFault};
use crate::err::{ServerError, ServerErrorKind};
use crate::qos::QosLevel;
use crate::topic::{levels_match, valid_name_levels, TopicFilter, TopicName};
use crate::v4::publish::PublishPacket;
use std::sync::Arc;
use tokio::sync::broadcast::Receiver;
use vstd::prelude::*;

verus! {

/// What a slot says, but for its channel.
pub struct MailView {
    /// The levels of the topic that the slot receives from.
    pub topic: Seq<Seq<char>>,
    /// The QoS granted to the subscription.
    pub qos: QosLevel,
}

/// One slot of a mailbox.
#[derive(Debug)]
pub struct Mail {
    topic: TopicName,
    receiver: Receiver<Arc<PublishPacket>>,
    qos_level: QosLevel,
}

impl View for Mail {
    type V = MailView;

    closed spec fn view(&self) -> MailView {
        MailView { topic: self.topic@, qos: self.qos_level }
    }
}

/// The failure that a fault of a channel amounts to: a closed channel is a
/// `BroadcastError`, a lag of `n` messages a `FullMailbox(n)`.
pub open spec fn spec_fault_kind(fault: MailFault) -> ServerErrorKind {
    match fault {
        MailFault::Closed => ServerErrorKind::BroadcastError,
        MailFault::Lagged(n) => ServerErrorKind::FullMailbox(n),
    }
}

/// The failure that a fault of a channel amounts to.
pub fn fault_error(fault: MailFault) -> (e: ServerError)
    ensures
        e.spec_kind() == spec_fault_kind(fault),
{
    match fault {
        MailFault::Closed => ServerError::of(
            ServerErrorKind::BroadcastError,
            "Server Broadcast closed.",
        ),
        MailFault::Lagged(val) => ServerError::of(
            ServerErrorKind::FullMailbox(val),
            "Server could not forward broadcast messages in time, dropping messages.",
        ),
    }
}

impl Mail {
    pub fn new(topic: TopicName, receiver: Receiver<Arc<PublishPacket>>, qos_level: QosLevel) -> (m:
        Self)
        ensures
            m@ == (MailView { topic: topic@, qos: qos_level }),
    {
        Self { topic, receiver, qos_level }
    }

    /// Takes the next message that waits in the slot, if there is one. A
    /// closed channel gives `BroadcastError`; a slot that fell behind gives
    /// `FullMailbox` with the number of messages lost, once, and goes on
    /// with the oldest message that is still there.
    pub fn recv(&mut self) -> (r: Result<Option<Arc<PublishPacket>>, ServerError>)
        ensures
            final(self)@ == old(self)@,
            match r {
                Ok(_) => true,
                Err(e) => e.spec_kind() == ServerErrorKind::BroadcastError || e.spec_kind()
                    is FullMailbox,
            },
    {
        mail_outcome(channel_try_recv(&mut self.receiver))
    }

    pub fn qos(&self) -> (q: QosLevel)
        ensures
            q == self@.qos,
    {
        self.qos_level
    }

    pub fn topic(&self) -> (t: &TopicName)
        ensures
            t@ == self@.topic,
            valid_name_levels(t@),
    {
        proof {
            use_type_invariant(&self.topic);
            self.topic.lemma_valid();
        }
        &self.topic
    }
}

/// Whether a mailbox has a slot for the topic.
pub open spec fn has_slot(slots: Seq<MailView>, topic: Seq<Seq<char>>) -> bool {
    exists|i: int| 0 <= i < slots.len() && (#[trigger] slots[i]).topic == topic
}

/// Whether no two slots of a mailbox receive from the same topic.
pub open spec fn distinct_slots(slots: Seq<MailView>) -> bool {
    forall|i: int, j: int|
        0 <= i < j < slots.len() ==> (#[trigger] slots[i]).topic != (#[trigger] slots[j]).topic
}

/// The slots that stay when `filter` is unsubscribed: those whose topic the
/// filter does not match, in their order.
pub open spec fn slots_kept(slots: Seq<MailView>, filter: Seq<Seq<char>>) -> Seq<MailView>
    decreases slots.len(),
{
    if slots.len() == 0 {
        slots
    } else if levels_match(filter, slots.last().topic) {
        slots_kept(slots.drop_last(), filter)
    } else {
        slots_kept(slots.drop_last(), filter).push(slots.last())
    }
}

/// Every slot that stays was there before.
pub proof fn lemma_slots_kept_subset(slots: Seq<MailView>, filter: Seq<Seq<char>>)
    ensures
        forall|i: int|
            0 <= i < slots_kept(slots, filter).len() ==> has_slot(
                slots,
                (#[trigger] slots_kept(slots, filter)[i]).topic,
            ) && !levels_match(filter, slots_kept(slots, filter)[i].topic),
        distinct_slots(slots) ==> distinct_slots(slots_kept(slots, filter)),
    decreases slots.len(),
{
    if slots.len() > 0 {
        let init = slots.drop_last();
        lemma_slots_kept_subset(init, filter);
        let kept = slots_kept(slots, filter);
        let kept_init = slots_kept(init, filter);
        assert forall|i: int| 0 <= i < kept.len() implies has_slot(slots, (#[trigger] kept[i]).topic)
            && !levels_match(filter, kept[i].topic) by {
            if i < kept_init.len() {
                assert(kept[i] == kept_init[i]);
                assert(has_slot(init, kept_init[i].topic));
                let w = choose|w: int| 0 <= w < init.len() && (#[trigger] init[w]).topic == kept_init[i].topic;
                assert(slots[w].topic == kept[i].topic);
            } else {
                assert(slots[slots.len() - 1].topic == kept[i].topic);
            }
        }
        if distinct_slots(slots) {
            assert forall|i: int, j: int| 0 <= i < j < init.len() implies (#[trigger] init[i]).topic
                != (#[trigger] init[j]).topic by {
                assert(slots[i].topic != slots[j].topic);
            }
            assert forall|i: int, j: int| 0 <= i < j < kept.len() implies (#[trigger] kept[i]).topic
                != (#[trigger] kept[j]).topic by {
                if j < kept_init.len() {
                    assert(kept_init[i].topic != kept_init[j].topic);
                } else {
                    assert(has_slot(init, kept_init[i].topic));
                    let w = choose|w: int| 0 <= w < init.len() && (#[trigger] init[w]).topic == kept_init[i].topic;
                    assert(slots[w].topic != slots[slots.len() - 1].topic);
                }
            }
        }
    }
}

/// The mailbox of a connection.
#[derive(Debug)]
pub struct Mailbox(Vec<Mail>);

impl View for Mailbox {
    type V = Seq<MailView>;

    closed spec fn view(&self) -> Seq<MailView> {
        Seq::new(self.0@.len(), |i: int| self.0@[i]@)
    }
}

impl Mailbox {
    #[verifier::type_invariant]
    pub closed spec fn inv(&self) -> bool {
        distinct_slots(self@)
    }

    /// A mailbox that meets the invariant of its type has no two slots for
    /// one topic.
    pub proof fn lemma_valid(&self)
        requires
            self.inv(),
        ensures
            distinct_slots(self@),
    {
    }

    /// A mailbox without slots.
    pub fn new() -> (m: Self)
        ensures
            m@ == Seq::<MailView>::empty(),
    {
        let m = Self(Vec::new());
        assert(m@ =~= Seq::<MailView>::empty());
        m
    }

    /// The number of slots.
    pub fn len(&self) -> (n: usize)
        ensures
            n == self@.len(),
    {
        self.0.len()
    }

    /// The QoS granted to the slot at place `i`.
    pub fn qos_at(&self, i: usize) -> (q: QosLevel)
        requires
            i < self@.len(),
        ensures
            q == self@[i as int].qos,
    {
        self.0[i].qos()
    }

    /// Adds a slot unless there is one for its topic.
    pub fn add_slot(&mut self, mail: Mail)
        ensures
            final(self)@ == (if has_slot(old(self)@, mail@.topic) {
                old(self)@
            } else {
                old(self)@.push(mail@)
            }),
    {
        proof {
            use_type_invariant(&*self);
        }
        let ghost before = self@;
        let mut i: usize = 0;
        while i < self.0.len()
            invariant
                i <= self.0@.len(),
                before == self@,
                before.len() == self.0@.len(),
                forall|j: int| 0 <= j < i ==> (#[trigger] before[j]).topic != mail@.topic,
            decreases self.0@.len() - i,
        {
            assert(before[i as int] == self.0@[i as int]@);
            if *self.0[i].topic() == *mail.topic() {
                assert(before[i as int].topic == mail@.topic);
                return ;
            }
            i = i + 1;
        }
        let mut slots: Vec<Mail> = Vec::new();
        std::mem::swap(&mut slots, &mut self.0);
        slots.push(mail);
        proof {
            let after = Seq::new(slots@.len(), |k: int| slots@[k]@);
            assert(after =~= before.push(mail@));
            assert forall|a: int, b: int| 0 <= a < b < after.len() implies (#[trigger] after[a]).topic
                != (#[trigger] after[b]).topic by {
                if b < before.len() {
                    assert(before[a].topic != before[b].topic);
                } else {
                    assert(before[a].topic != mail@.topic);
                }
            }
        }
        std::mem::swap(&mut slots, &mut self.0);
        assert(self@ =~= before.push(mail@));
    }

    /// Removes every slot whose topic `filter` matches.
    pub fn remove_slot(&mut self, filter: &TopicFilter)
        ensures
            final(self)@ == slots_kept(old(self)@, filter@),
    {
        proof {
            use_type_invariant(&*self);
        }
        let ghost before = self@;
        let mut slots: Vec<Mail> = Vec::new();
        std::mem::swap(&mut slots, &mut self.0);
        let mut kept: Vec<Mail> = Vec::new();
        assert(before.take(0) =~= Seq::<MailView>::empty());
        while slots.len() > 0
            invariant
                slots@.len() <= before.len(),
                forall|k: int| 0 <= k < slots@.len() ==> (#[trigger] slots@[k])@ == before[k],
                Seq::new(kept@.len(), |k: int| kept@[k]@) == slots_kept_back(
                    before,
                    filter@,
                    slots@.len() as int,
                ),
            decreases slots@.len(),
        {
            let ghost n = slots@.len() as int;
            let mail = slots.pop().unwrap();
            assert(mail@ == before[n - 1]);
            let ghost shown = Seq::new(kept@.len(), |k: int| kept@[k]@);
            if !filter.matches(mail.topic()) {
                kept.push(mail);
                assert(Seq::new(kept@.len(), |k: int| kept@[k]@) =~= shown.push(mail@));
            }
        }
        reverse_mails(&mut kept);
        proof {
            lemma_slots_kept_back(before, filter@);
            lemma_slots_kept_subset(before, filter@);
            let after = Seq::new(kept@.len(), |k: int| kept@[k]@);
            assert(after =~= slots_kept(before, filter@));
        }
        std::mem::swap(&mut kept, &mut self.0);
        assert(self@ =~= slots_kept(before, filter@));
    }

    /// Takes the next message that waits in the slot at place `i`, if there
    /// is one. The slots stay as they are.
    pub fn recv_at(&mut self, i: usize) -> (r: Result<Option<Arc<PublishPacket>>, ServerError>)
        requires
            i < old(self)@.len(),
        ensures
            final(self)@ == old(self)@,
            match r {
                Ok(_) => true,
                Err(e) => e.spec_kind() == ServerErrorKind::BroadcastError || e.spec_kind()
                    is FullMailbox,
            },
    {
        proof {
            use_type_invariant(&*self);
        }
        let ghost before = self@;
        let mut slots: Vec<Mail> = Vec::new();
        std::mem::swap(&mut slots, &mut self.0);
        assert(before[i as int] == slots@[i as int]@);
        let r = slots[i].recv();
        proof {
            let after = Seq::new(slots@.len(), |k: int| slots@[k]@);
            assert(after =~= before);
        }
        std::mem::swap(&mut slots, &mut self.0);
        assert(self@ =~= before);
        r
    }
}

/// The slots among the last of `slots`, from place `from` on, that stay
/// when `filter` is unsubscribed, last first.
pub open spec fn slots_kept_back(slots: Seq<MailView>, filter: Seq<Seq<char>>, from: int) -> Seq<
    MailView,
>
    decreases slots.len() - from,
{
    if from < 0 || from >= slots.len() {
        Seq::<MailView>::empty()
    } else if levels_match(filter, slots[from].topic) {
        slots_kept_back(slots, filter, from + 1)
    } else {
        slots_kept_back(slots, filter, from + 1).push(slots[from])
    }
}

/// The slots that stay, taken from the back, are the slots that stay in
/// reverse.
pub proof fn lemma_slots_kept_back(slots: Seq<MailView>, filter: Seq<Seq<char>>)
    ensures
        slots_kept_back(slots, filter, 0).reverse() == slots_kept(slots, filter),
{
    lemma_slots_kept_split(slots, filter, 0);
    assert(slots.skip(0) =~= slots);
}

proof fn lemma_slots_kept_split(slots: Seq<MailView>, filter: Seq<Seq<char>>, from: int)
    requires
        0 <= from <= slots.len(),
    ensures
        slots_kept_back(slots, filter, from).reverse() == slots_kept(slots.skip(from), filter),
    decreases slots.len() - from,
{
    let tail = slots.skip(from);
    if from == slots.len() {
        assert(slots_kept_back(slots, filter, from).reverse() =~= Seq::<MailView>::empty());
    } else {
        lemma_slots_kept_split(slots, filter, from + 1);
        lemma_slots_kept_front(tail, filter);
        assert(tail.drop_first() =~= slots.skip(from + 1));
        assert(tail[0] == slots[from]);
        let rest = slots_kept_back(slots, filter, from + 1);
        if levels_match(filter, slots[from].topic) {
        } else {
            assert(rest.push(slots[from]).reverse() =~= seq![slots[from]] + rest.reverse());
        }
    }
}

/// The slots that stay begin with the first slot, if it stays.
pub proof fn lemma_slots_kept_front(slots: Seq<MailView>, filter: Seq<Seq<char>>)
    requires
        slots.len() >= 1,
    ensures
        slots_kept(slots, filter) == (if levels_match(filter, slots[0].topic) {
            slots_kept(slots.drop_first(), filter)
        } else {
            seq![slots[0]] + slots_kept(slots.drop_first(), filter)
        }),
    decreases slots.len(),
{
    if slots.len() == 1 {
        assert(slots.drop_last() =~= Seq::<MailView>::empty());
        assert(slots.drop_first() =~= Seq::<MailView>::empty());
        assert(slots_kept(slots, filter) =~= (if levels_match(filter, slots[0].topic) {
            slots_kept(slots.drop_first(), filter)
        } else {
            seq![slots[0]] + slots_kept(slots.drop_first(), filter)
        }));
    } else {
        let init = slots.drop_last();
        lemma_slots_kept_front(init, filter);
        assert(init.drop_first() =~= slots.drop_first().drop_last());
        assert(slots.drop_first().last() == slots.last());
        assert(init[0] == slots[0]);
        assert(slots_kept(slots, filter) =~= (if levels_match(filter, slots[0].topic) {
            slots_kept(slots.drop_first(), filter)
        } else {
            seq![slots[0]] + slots_kept(slots.drop_first(), filter)
        }));
    }
}

/// Turns a list of slots around.
fn reverse_mails(mails: &mut Vec<Mail>)
    ensures
        Seq::new(final(mails)@.len(), |k: int| final(mails)@[k]@) == Seq::new(
            old(mails)@.len(),
            |k: int| old(mails)@[k]@,
        ).reverse(),
{
    let ghost before = Seq::new(mails@.len(), |k: int| mails@[k]@);
    let mut out: Vec<Mail> = Vec::new();
    while mails.len() > 0
        invariant
            mails@.len() <= before.len(),
            out@.len() + mails@.len() == before.len(),
            forall|k: int| 0 <= k < mails@.len() ==> (#[trigger] mails@[k])@ == before[k],
            forall|k: int|
                0 <= k < out@.len() ==> (#[trigger] out@[k])@ == before[before.len() - 1 - k],
        decreases mails@.len(),
    {
        let mail = mails.pop().unwrap();
        out.push(mail);
    }
    std::mem::swap(&mut out, mails);
    assert(Seq::new(mails@.len(), |k: int| mails@[k]@) =~= before.reverse());
}

/// What a slot hands out for what its channel gave: the message, or nothing
/// where none was waiting, as the channel gave it; for a fault of the
/// channel, the failure that the fault amounts to.
pub fn mail_outcome(received: Result<Option<Arc<PublishPacket>>, MailFault>) -> (r: Result<
    Option<Arc<PublishPacket>>,
    ServerError,
>)
    ensures
        match received {
            Ok(packet) => r == Ok::<Option<Arc<PublishPacket>>, ServerError>(packet),
            Err(fault) => r is Err && r->Err_0.spec_kind() == spec_fault_kind(fault),
        },
{
    match received {
        Ok(packet) => Ok(packet),
        Err(fault) => Err(fault_error(fault)),
    }
}

} // verus!
