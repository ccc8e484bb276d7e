//! The topic registry: for every topic that the broker knows, its fan-out
//! channel, its retained message and the highest QoS it grants.
use crate::buffer::bytes_len;
use crate::channel::{channel_new, channel_send, channel_subscribe, MAX_QUEUE};
use crate::qos::QosLevel;
use crate::topic::{valid_name_levels, TopicName};
use crate::v4::publish::{PublishPacket, PublishView};
use std::sync::Arc;
use tokio::sync::broadcast::{Receiver, Sender};
use vstd::prelude::*;

verus! {

/// What the registry holds for one topic, but for its channel.
pub struct ServerTopicView {
    /// The levels of the topic name.
    pub name: Seq<Seq<char>>,
    /// The retained message, if there is one.
    pub retained: Option<PublishView>,
    /// The highest QoS that a subscription to the topic is granted.
    pub max_qos: QosLevel,
}

/// One topic of the registry.
#[derive(Debug)]
pub struct ServerTopic {
    name: TopicName,
    channel: Sender<Arc<PublishPacket>>,
    retained_message: Option<PublishPacket>,
    max_qos: QosLevel,
}

/// The view of a message that may be absent.
pub open spec fn publish_view(packet: Option<PublishPacket>) -> Option<PublishView> {
    match packet {
        Some(p) => Some(p@),
        None => None,
    }
}

/// The retained slot after `message` was handed in for retaining: a message
/// with a payload takes the slot, one without clears it.
pub open spec fn spec_retain(message: PublishView) -> Option<PublishView> {
    if message.payload.len() == 0 {
        None
    } else {
        Some(message)
    }
}

impl View for ServerTopic {
    type V = ServerTopicView;

    closed spec fn view(&self) -> ServerTopicView {
        ServerTopicView {
            name: self.name@,
            retained: publish_view(self.retained_message),
            max_qos: self.max_qos,
        }
    }
}

impl ServerTopic {
    /// A topic without a retained message, whose channel holds up to `size`
    /// messages for a subscriber that falls behind.
    pub fn new(name: TopicName, size: usize, max_qos: QosLevel) -> (t: Self)
        requires
            0 < size <= MAX_QUEUE,
        ensures
            t@ == (ServerTopicView { name: name@, retained: None, max_qos }),
    {
        Self { name, channel: channel_new(size), retained_message: None, max_qos }
    }

    pub fn name(&self) -> (n: &TopicName)
        ensures
            n@ == self@.name,
            valid_name_levels(n@),
    {
        proof {
            use_type_invariant(&self.name);
            self.name.lemma_valid();
        }
        &self.name
    }

    pub fn get_retained_message(&self) -> (m: Option<&PublishPacket>)
        ensures
            match m {
                Some(p) => self@.retained == Some(p@),
                None => self@.retained is None,
            },
    {
        self.retained_message.as_ref()
    }

    /// Hands in a message for retaining: one with a payload replaces the
    /// retained message, one without a payload clears it.
    pub fn retain_message(&mut self, message: PublishPacket)
        ensures
            final(self)@ == (ServerTopicView { retained: spec_retain(message@), ..old(self)@ }),
            final(self).spec_channel() == old(self).spec_channel(),
    {
        if bytes_len(message.payload()) == 0 {
            self.retained_message = None;
        } else {
            self.retained_message = Some(message);
        }
    }

    /// The sending end of the topic's channel.
    pub fn channel(&self) -> (c: &Sender<Arc<PublishPacket>>)
        ensures
            *c == self.spec_channel(),
    {
        &self.channel
    }

    /// A new receiving end of the topic's channel.
    pub fn subscribe(&self) -> (r: Receiver<Arc<PublishPacket>>) {
        channel_subscribe(&self.channel)
    }

    pub fn max_qos(&self) -> (q: QosLevel)
        ensures
            q == self@.max_qos,
    {
        self.max_qos
    }

    /// Sends a message to everyone who is subscribed to the topic at this
    /// moment, and says whether there was anyone.
    pub fn send(&self, packet: Arc<PublishPacket>) -> (delivered: bool) {
        channel_send(&self.channel, packet).is_some()
    }

    /// The sending end of the channel that the topic was made with. It stays
    /// the same for as long as the topic lives.
    pub closed spec fn spec_channel(&self) -> Sender<Arc<PublishPacket>> {
        self.channel
    }
}

/// The place of the topic named `name` in a registry, or the number of
/// topics if there is none of that name.
pub open spec fn spec_topic_position(topics: Seq<ServerTopicView>, name: Seq<Seq<char>>) -> int
    decreases topics.len(),
{
    if topics.len() == 0 || topics[0].name == name {
        0
    } else {
        1 + spec_topic_position(topics.drop_first(), name)
    }
}

/// Whether the registry has a topic named `name`.
pub open spec fn has_topic(topics: Seq<ServerTopicView>, name: Seq<Seq<char>>) -> bool {
    exists|i: int| 0 <= i < topics.len() && (#[trigger] topics[i]).name == name
}

/// Whether no two topics of a registry have the same name.
pub open spec fn distinct_names(topics: Seq<ServerTopicView>) -> bool {
    forall|i: int, j: int|
        0 <= i < j < topics.len() ==> (#[trigger] topics[i]).name != (#[trigger] topics[j]).name
}

/// The retained message of the topic named `name`, if there is such a topic
/// and it has one.
pub open spec fn retained_of(topics: Seq<ServerTopicView>, name: Seq<Seq<char>>) -> Option<
    PublishView,
> {
    let k = spec_topic_position(topics, name);
    if 0 <= k < topics.len() {
        topics[k].retained
    } else {
        None
    }
}

/// The registry with the retained slot of the topic named `name` set to
/// `retained`; where there is no such topic, one is made first.
pub open spec fn with_retained(
    topics: Seq<ServerTopicView>,
    name: Seq<Seq<char>>,
    retained: Option<PublishView>,
    max_qos: QosLevel,
) -> Seq<ServerTopicView> {
    let k = spec_topic_position(topics, name);
    if 0 <= k < topics.len() {
        topics.update(k, ServerTopicView { retained, ..topics[k] })
    } else {
        topics.push(ServerTopicView { name, retained, max_qos })
    }
}

/// The registry with a topic named `name`: as it is where it has one, with a
/// fresh topic at its end where it has none.
pub open spec fn with_topic(topics: Seq<ServerTopicView>, name: Seq<Seq<char>>, max_qos: QosLevel)
    -> Seq<ServerTopicView> {
    if has_topic(topics, name) {
        topics
    } else {
        topics.push(ServerTopicView { name, retained: None, max_qos })
    }
}

/// Where the names of the first `k` topics differ from `name` and the next
/// one, if there is one, has it, `k` is the place of `name`.
pub proof fn lemma_topic_position(topics: Seq<ServerTopicView>, name: Seq<Seq<char>>, k: int)
    requires
        0 <= k <= topics.len(),
        forall|j: int| 0 <= j < k ==> (#[trigger] topics[j]).name != name,
        k < topics.len() ==> topics[k].name == name,
    ensures
        spec_topic_position(topics, name) == k,
        k < topics.len() <==> has_topic(topics, name),
    decreases topics.len(),
{
    if k > 0 {
        let rest = topics.drop_first();
        assert forall|j: int| 0 <= j < k - 1 implies (#[trigger] rest[j]).name != name by {
            assert(rest[j] == topics[j + 1]);
        }
        lemma_topic_position(rest, name, k - 1);
    }
    if k < topics.len() {
        assert(topics[k].name == name);
    }
}

/// The topics of the broker, in the order in which they were made.
#[derive(Debug)]
pub struct ServerTopics {
    topics: Vec<ServerTopic>,
    max_qos: QosLevel,
    max_queued_messages: usize,
}

impl View for ServerTopics {
    type V = Seq<ServerTopicView>;

    closed spec fn view(&self) -> Seq<ServerTopicView> {
        Seq::new(self.topics@.len(), |i: int| self.topics@[i]@)
    }
}

impl ServerTopics {
    #[verifier::type_invariant]
    pub closed spec fn inv(&self) -> bool {
        &&& 0 < self.max_queued_messages <= MAX_QUEUE
        &&& distinct_names(self@)
        &&& forall|i: int| 0 <= i < self@.len() ==> (#[trigger] self@[i]).max_qos == self.max_qos
    }

    /// The highest QoS that the registry grants.
    pub closed spec fn spec_max_qos(&self) -> QosLevel {
        self.max_qos
    }

    /// A registry that meets the invariant of its type has no two topics of
    /// one name, and every topic grants the QoS that the registry grants.
    pub proof fn lemma_valid(&self)
        requires
            self.inv(),
        ensures
            distinct_names(self@),
            forall|i: int|
                0 <= i < self@.len() ==> (#[trigger] self@[i]).max_qos == self.spec_max_qos(),
    {
    }

    /// An empty registry. `max_queued_messages` bounds the messages that a
    /// topic holds for a subscriber that falls behind; beyond it the oldest
    /// are lost to that subscriber.
    pub fn new(max_queued_messages: usize, max_qos: QosLevel) -> (t: Self)
        requires
            0 < max_queued_messages <= MAX_QUEUE,
        ensures
            t@ == Seq::<ServerTopicView>::empty(),
            t.spec_max_qos() == max_qos,
    {
        let t = Self { topics: Vec::new(), max_queued_messages, max_qos };
        assert(t@ =~= Seq::<ServerTopicView>::empty());
        t
    }

    /// The highest QoS that the registry grants.
    pub fn max_qos(&self) -> (q: QosLevel)
        ensures
            q == self.spec_max_qos(),
    {
        self.max_qos
    }

    /// The number of topics.
    pub fn len(&self) -> (n: usize)
        ensures
            n == self@.len(),
    {
        self.topics.len()
    }

    /// The topic at place `i`.
    pub fn get(&self, i: usize) -> (t: &ServerTopic)
        requires
            i < self@.len(),
        ensures
            t@ == self@[i as int],
    {
        &self.topics[i]
    }

    /// The place of the topic named `topic_name`, or the number of topics.
    pub fn position(&self, topic_name: &TopicName) -> (k: usize)
        ensures
            k == spec_topic_position(self@, topic_name@),
            k <= self@.len(),
            k < self@.len() <==> has_topic(self@, topic_name@),
            k < self@.len() ==> self@[k as int].name == topic_name@,
    {
        let mut i: usize = 0;
        while i < self.topics.len()
            invariant
                i <= self.topics@.len(),
                self@.len() == self.topics@.len(),
                forall|j: int| 0 <= j < i ==> (#[trigger] self@[j]).name != topic_name@,
            decreases self.topics@.len() - i,
        {
            assert(self@[i as int] == self.topics@[i as int]@);
            if *self.topics[i].name() == *topic_name {
                proof {
                    lemma_topic_position(self@, topic_name@, i as int);
                }
                return i;
            }
            i = i + 1;
        }
        proof {
            lemma_topic_position(self@, topic_name@, i as int);
        }
        i
    }

    /// Makes a topic named `topic_name` unless there is one.
    pub fn create_topic(&mut self, topic_name: TopicName)
        ensures
            final(self)@ == with_topic(old(self)@, topic_name@, old(self).spec_max_qos()),
            final(self).spec_max_qos() == old(self).spec_max_qos(),
    {
        proof {
            use_type_invariant(&*self);
        }
        let k: usize = self.position(&topic_name);
        if k < self.topics.len() {
            return ;
        }
        let ghost before = self@;
        let topic = ServerTopic::new(topic_name, self.max_queued_messages, self.max_qos);
        let mut topics: Vec<ServerTopic> = Vec::new();
        std::mem::swap(&mut topics, &mut self.topics);
        topics.push(topic);
        proof {
            let after = Seq::new(topics@.len(), |i: int| topics@[i]@);
            assert(after =~= before.push(topic@));
            assert forall|i: int, j: int| 0 <= i < j < after.len() implies (#[trigger] after[i]).name
                != (#[trigger] after[j]).name by {
                if j == before.len() {
                    assert(before[i].name != topic_name@);
                }
            }
        }
        std::mem::swap(&mut topics, &mut self.topics);
        assert(self@ =~= before.push(topic@));
    }

    /// Hands in a message for retaining under its topic: one with a payload
    /// becomes the retained message of the topic, one without a payload
    /// clears it. A topic that the registry does not know yet is made first.
    pub fn retain_message(&mut self, packet: PublishPacket)
        ensures
            final(self)@ == with_retained(
                old(self)@,
                packet@.topic,
                spec_retain(packet@),
                old(self).spec_max_qos(),
            ),
            final(self).spec_max_qos() == old(self).spec_max_qos(),
    {
        proof {
            use_type_invariant(&*self);
        }
        let ghost before = self@;
        let topic_name = packet.topic().clone();
        let k: usize = self.position(&topic_name);
        let mut topics: Vec<ServerTopic> = Vec::new();
        std::mem::swap(&mut topics, &mut self.topics);
        let ghost wanted = with_retained(
            before,
            packet@.topic,
            spec_retain(packet@),
            self.max_qos,
        );
        if k < topics.len() {
            assert(before[k as int] == topics@[k as int]@);
            topics[k].retain_message(packet);
        } else {
            let mut topic = ServerTopic::new(topic_name, self.max_queued_messages, self.max_qos);
            topic.retain_message(packet);
            topics.push(topic);
        }
        proof {
            let after = Seq::new(topics@.len(), |i: int| topics@[i]@);
            assert(after =~= wanted);
            assert forall|i: int, j: int| 0 <= i < j < after.len() implies (#[trigger] after[i]).name
                != (#[trigger] after[j]).name by {
                if j < before.len() {
                    assert(before[i].name != before[j].name);
                } else {
                    assert(before[i].name != packet@.topic);
                }
            }
        }
        std::mem::swap(&mut topics, &mut self.topics);
        assert(self@ =~= wanted);
    }

    /// Routes a message to the subscribers of `topic`, of whom there may be
    /// none. A topic that the registry does not know yet is made, and the
    /// message, which nobody can be waiting for, is dropped.
    pub fn publish(&mut self, topic: &TopicName, packet: Arc<PublishPacket>)
        ensures
            final(self)@ == with_topic(old(self)@, topic@, old(self).spec_max_qos()),
            final(self).spec_max_qos() == old(self).spec_max_qos(),
    {
        let k: usize = self.position(topic);
        if k < self.topics.len() {
            let _ = self.topics[k].send(packet);
        } else {
            self.create_topic(topic.clone());
        }
    }
}

} // verus!
