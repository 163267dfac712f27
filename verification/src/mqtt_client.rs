//! The connection manager: it owns the broker session (the client handle and
//! its event-polling handle, both opaque capabilities of the broker client
//! library) and the dispatch table that routes inbound publishes to
//! topic-specific handlers.

use vstd::prelude::*;
use vstd::string::*;

verus! {

#[verifier::external_type_specification]
#[verifier::external_body]
pub struct ExMqttOptions(rumqttc::MqttOptions);

#[verifier::external_type_specification]
#[verifier::external_body]
pub struct ExAsyncClient(rumqttc::AsyncClient);

#[verifier::external_type_specification]
#[verifier::external_body]
pub struct ExEventLoop(rumqttc::EventLoop);

/// Relies on rumqttc::MqttOptions::new: builds the session options for
/// `host:port` under the given client identifier.
#[verifier::external_body]
fn make_options(id: &str, host: &str, port: u16) -> rumqttc::MqttOptions {
    rumqttc::MqttOptions::new(id, host, port)
}

/// Relies on rumqttc::MqttOptions::set_keep_alive, which panics on a nonzero
/// duration under one second; whole seconds are always accepted.
#[verifier::external_body]
fn set_keep_alive_secs(opts: &mut rumqttc::MqttOptions, secs: u64)
    requires
        secs >= 1,
{
    opts.set_keep_alive(std::time::Duration::from_secs(secs));
}

/// Relies on rumqttc::AsyncClient::new: yields the client handle and the
/// event loop of a fresh session; no network activity happens until the
/// event loop is polled.
#[verifier::external_body]
fn open_session(opts: rumqttc::MqttOptions, cap: usize) -> (rumqttc::AsyncClient, rumqttc::EventLoop) {
    rumqttc::AsyncClient::new(opts, cap)
}

/// Relies on rumqttc::AsyncClient::try_subscribe: queues an at-most-once
/// subscribe request, or fails when the topic filter is invalid or the
/// request queue is full.
#[verifier::external_body]
fn send_subscribe(client: &rumqttc::AsyncClient, topic: &String) -> Result<(), String> {
    match client.try_subscribe(topic.as_str(), rumqttc::QoS::AtMostOnce) {
        Ok(()) => Ok(()),
        Err(e) => Err(format!("{e}")),
    }
}

/// Relies on rumqttc::AsyncClient::try_publish: queues an at-least-once
/// publish with an empty payload, or fails when the topic is invalid or the
/// request queue is full.
#[verifier::external_body]
fn send_empty_publish(client: &rumqttc::AsyncClient, topic: &String) -> Result<(), String> {
    match client.try_publish(topic.as_str(), rumqttc::QoS::AtLeastOnce, false, "") {
        Ok(()) => Ok(()),
        Err(e) => Err(format!("{e}")),
    }
}

/// A character of the alphabet that the random client-id suffix draws from.
pub open spec fn is_alphanumeric_char(c: char) -> bool {
    ('0' <= c && c <= '9') || ('a' <= c && c <= 'z') || ('A' <= c && c <= 'Z')
}

/// Relies on rand's Alphanumeric distribution: a fresh random string of
/// exactly `n` ASCII alphanumeric characters.
#[verifier::external_body]
fn random_string(n: usize) -> (r: String)
    ensures
        r@.len() == n as nat,
        forall|i: int| 0 <= i < r@.len() ==> is_alphanumeric_char(#[trigger] r@[i]),
{
    rand::distr::SampleString::sample_string(&rand::distr::Alphanumeric, &mut rand::rng(), n)
}

/// An inbound publish, reduced to the plain values the dispatch logic reads.
pub struct Message {
    pub topic: String,
    pub payload: Vec<u8>,
}

/// A broker event as the dispatch logic distinguishes them: an inbound
/// publish is routed; every other protocol event is ignored.
pub enum Event {
    IncomingPublish(Message),
    Other,
}

/// A topic-specific callback. The dispatcher hands it the message and a
/// read-only reference to the connection manager.
pub trait Handler: Sized {
    fn handle(&self, msg: &Message, client: &MQTTClient<Self>);
}

/// What dispatching one broker event came to. An unmatched topic is an
/// informational condition carrying its log entry, never an error.
pub enum DispatchOutcome {
    Delivered,
    NoHandler(String),
    Ignored,
}

/// The broker client refused to queue a request.
#[derive(Debug)]
pub struct SendError {
    pub message: String,
}

/// The log entry for an inbound publish whose topic has no handler.
pub open spec fn no_handler_line(topic: Seq<char>) -> Seq<char> {
    "Cannot find notification for topic "@ + topic
}

/// The dispatch table as a sequence of subscriptions, later ones shadowing
/// earlier ones for the same topic.
spec fn assoc_map<H>(s: Seq<(String, H)>) -> Map<Seq<char>, H>
    decreases s.len(),
{
    if s.len() == 0 {
        Map::empty()
    } else {
        assoc_map(s.drop_last()).insert(s.last().0@, s.last().1)
    }
}

proof fn lemma_assoc_map_found<H>(s: Seq<(String, H)>, i: int, t: Seq<char>)
    requires
        0 <= i < s.len(),
        s[i].0@ == t,
        forall|j: int| i < j < s.len() ==> (#[trigger] s[j].0)@ != t,
    ensures
        assoc_map(s).contains_key(t),
        assoc_map(s)[t] == s[i].1,
    decreases s.len(),
{
    if i == s.len() - 1 {
    } else {
        lemma_assoc_map_found(s.drop_last(), i, t);
    }
}

proof fn lemma_assoc_map_absent<H>(s: Seq<(String, H)>, t: Seq<char>)
    requires
        forall|j: int| 0 <= j < s.len() ==> (#[trigger] s[j].0)@ != t,
    ensures
        !assoc_map(s).contains_key(t),
    decreases s.len(),
{
    if s.len() > 0 {
        lemma_assoc_map_absent(s.drop_last(), t);
    }
}

/// The connection manager. It holds exactly one broker session for its
/// lifetime, and owns the dispatch table from topic to handler.
pub struct MQTTClient<H> {
    client: rumqttc::AsyncClient,
    pub eventloop: rumqttc::EventLoop,
    pub host: String,
    pub client_id: String,
    subscriptions: Vec<(String, H)>,
}

impl<H: Handler> MQTTClient<H> {
    /// The dispatch table: at most one handler per topic, a later
    /// subscription replacing the earlier one.
    pub closed spec fn table(&self) -> Map<Seq<char>, H> {
        assoc_map(self.subscriptions@)
    }

    /// The host the session was opened against.
    pub closed spec fn spec_host(&self) -> Seq<char> {
        self.host@
    }

    /// The generated client identity of the session.
    pub closed spec fn spec_client_id(&self) -> Seq<char> {
        self.client_id@
    }

    /// The broker session and identity, which no operation ever exchanges.
    pub closed spec fn same_session(&self, other: &Self) -> bool {
        &&& self.client == other.client
        &&& self.eventloop == other.eventloop
        &&& self.host == other.host
        &&& self.client_id == other.client_id
    }

    /// Opens a session to `address:1883` with a five-second keep-alive, under
    /// a client identity made unique per process instance by a randomized
    /// five-character suffix. The network handshake is asynchronous: it is
    /// observed only through later polls of the event loop.
    pub fn new(address: &str) -> (r: MQTTClient<H>)
        ensures
            r.table() == Map::<Seq<char>, H>::empty(),
            r.spec_host() == address@,
            r.spec_client_id().len() == "pyros_"@.len() + 5,
            r.spec_client_id().take("pyros_"@.len() as int) == "pyros_"@,
            forall|i: int|
                "pyros_"@.len() <= i < r.spec_client_id().len() ==> is_alphanumeric_char(
                    #[trigger] r.spec_client_id()[i],
                ),
    {
        let random_part = random_string(5);
        let client_id = String::from_str("pyros_").concat(random_part.as_str());
        let mut opts = make_options(client_id.as_str(), address, 1883);
        set_keep_alive_secs(&mut opts, 5);
        let (client, eventloop) = open_session(opts, 10);
        let r = MQTTClient {
            client,
            eventloop,
            host: String::from_str(address),
            client_id,
            subscriptions: Vec::new(),
        };
        proof {
            assert(r.client_id@.take("pyros_"@.len() as int) =~= "pyros_"@);
            assert(r.table() =~= Map::<Seq<char>, H>::empty());
        }
        r
    }

    /// Requests an at-most-once subscription to `topic` and records the
    /// handler in the dispatch table, replacing any handler the topic had.
    /// When the broker client refuses the request, the error is surfaced and
    /// the table is left as it was.
    pub fn subscribe(&mut self, topic: &str, handler: H) -> (r: Result<(), SendError>)
        ensures
            old(self).same_session(final(self)),
            r is Ok ==> final(self).table() == old(self).table().insert(topic@, handler),
            r is Err ==> final(self).table() == old(self).table(),
    {
        let t = String::from_str(topic);
        match send_subscribe(&self.client, &t) {
            Ok(()) => {
                self.subscriptions.push((t, handler));
                proof {
                    assert(self.subscriptions@.drop_last() =~= old(self).subscriptions@);
                }
                Ok(())
            },
            Err(message) => Err(SendError { message }),
        }
    }

    /// Requests an at-most-once subscription to the write side of a storage
    /// topic, probes its read side with an empty at-least-once publish (the
    /// probe is best-effort: its outcome is ignored), and records the handler
    /// under the write topic.
    pub fn subscribe_storage(&mut self, topic: &str, handler: H) -> (r: Result<(), SendError>)
        ensures
            old(self).same_session(final(self)),
            r is Ok ==> final(self).table() == old(self).table().insert(
                "storage/write/"@ + topic@,
                handler,
            ),
            r is Err ==> final(self).table() == old(self).table(),
    {
        let write_topic = String::from_str("storage/write/").concat(topic);
        let read_topic = String::from_str("storage/read/").concat(topic);
        match send_subscribe(&self.client, &write_topic) {
            Ok(()) => {
                let _probe = send_empty_publish(&self.client, &read_topic);
                self.subscriptions.push((write_topic, handler));
                proof {
                    assert(self.subscriptions@.drop_last() =~= old(self).subscriptions@);
                }
                Ok(())
            },
            Err(message) => Err(SendError { message }),
        }
    }

    /// The handler registered for a topic, if any.
    pub fn lookup(&self, topic: &String) -> (r: Option<&H>)
        ensures
            match r {
                Some(h) => self.table().contains_key(topic@) && *h == self.table()[topic@],
                None => !self.table().contains_key(topic@),
            },
    {
        let n = self.subscriptions.len();
        let mut i = n;
        while i > 0
            invariant
                i <= n,
                n == self.subscriptions.len(),
                forall|j: int|
                    i <= j < n ==> (#[trigger] self.subscriptions@[j].0)@ != topic@,
            decreases i,
        {
            i = i - 1;
            if self.subscriptions[i].0 == *topic {
                proof {
                    lemma_assoc_map_found(self.subscriptions@, i as int, topic@);
                }
                return Some(&self.subscriptions[i].1);
            }
        }
        proof {
            lemma_assoc_map_absent(self.subscriptions@, topic@);
        }
        None
    }

    /// Routes one broker event. An inbound publish is handed to the handler
    /// of its topic, which runs to completion before this returns; a publish
    /// on a topic with no handler yields its informational log entry; every
    /// other event kind is ignored.
    pub fn process_event(&self, event: Event) -> (r: DispatchOutcome)
        ensures
            match event {
                Event::IncomingPublish(m) => {
                    if self.table().contains_key(m.topic@) {
                        r is Delivered
                    } else {
                        r matches DispatchOutcome::NoHandler(line) && line@ == no_handler_line(
                            m.topic@,
                        )
                    }
                },
                Event::Other => r is Ignored,
            },
    {
        match event {
            Event::IncomingPublish(m) => {
                match self.lookup(&m.topic) {
                    Some(h) => {
                        h.handle(&m, self);
                        DispatchOutcome::Delivered
                    },
                    None => DispatchOutcome::NoHandler(
                        String::from_str("Cannot find notification for topic ").concat(
                            m.topic.as_str(),
                        ),
                    ),
                }
            },
            Event::Other => DispatchOutcome::Ignored,
        }
    }
}


/// Re-subscribing to a topic leaves exactly the later handler registered:
/// recording `h1` and then `h2` under one topic reads back `h2`, and the
/// whole table is the one that recording `h2` alone would have made.
pub proof fn lemma_resubscribe_replaces<H>(
    table: Map<Seq<char>, H>,
    topic: Seq<char>,
    h1: H,
    h2: H,
)
    ensures
        table.insert(topic, h1).insert(topic, h2)[topic] == h2,
        table.insert(topic, h1).insert(topic, h2) == table.insert(topic, h2),
{
    assert(table.insert(topic, h1).insert(topic, h2) =~= table.insert(topic, h2));
}

} // verus!
