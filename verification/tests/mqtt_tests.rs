use std::cell::RefCell;
use std::rc::Rc;

use pyros::mqtt_client::{DispatchOutcome, Event, Handler, MQTTClient, Message};

struct RecordingHandler {
    name: &'static str,
    seen: Rc<RefCell<Vec<(String, String)>>>,
}

impl Handler for RecordingHandler {
    fn handle(&self, msg: &Message, _client: &MQTTClient<RecordingHandler>) {
        self.seen
            .borrow_mut()
            .push((self.name.to_string(), msg.topic.clone()));
    }
}

fn recorder() -> Rc<RefCell<Vec<(String, String)>>> {
    Rc::new(RefCell::new(Vec::new()))
}

fn publish(topic: &str) -> Event {
    Event::IncomingPublish(Message {
        topic: topic.to_string(),
        payload: b"hi".to_vec(),
    })
}

#[test]
fn client_id_has_fixed_prefix_and_random_suffix() {
    let client: MQTTClient<RecordingHandler> = MQTTClient::new("localhost");
    assert_eq!(client.client_id.len(), 11);
    assert!(client.client_id.starts_with("pyros_"));
    assert_eq!(client.host, "localhost");
}

#[test]
fn unmatched_topic_yields_one_log_entry_and_no_delivery() {
    let seen = recorder();
    let mut client = MQTTClient::new("localhost");
    client
        .subscribe(
            "hello",
            RecordingHandler {
                name: "h",
                seen: seen.clone(),
            },
        )
        .unwrap();
    let out = client.process_event(publish("somewhere/else"));
    match out {
        DispatchOutcome::NoHandler(line) => {
            assert_eq!(line, "Cannot find notification for topic somewhere/else")
        }
        _ => panic!("expected the no-handler log entry"),
    }
    assert!(seen.borrow().is_empty());
}

#[test]
fn delivered_event_reaches_its_handler() {
    let seen = recorder();
    let mut client = MQTTClient::new("localhost");
    client
        .subscribe(
            "hello",
            RecordingHandler {
                name: "h",
                seen: seen.clone(),
            },
        )
        .unwrap();
    let out = client.process_event(publish("hello"));
    assert!(matches!(out, DispatchOutcome::Delivered));
    assert_eq!(
        &*seen.borrow(),
        &vec![("h".to_string(), "hello".to_string())]
    );
}

#[test]
fn second_subscription_replaces_first() {
    let seen = recorder();
    let mut client = MQTTClient::new("localhost");
    client
        .subscribe(
            "hello",
            RecordingHandler {
                name: "first",
                seen: seen.clone(),
            },
        )
        .unwrap();
    client
        .subscribe(
            "hello",
            RecordingHandler {
                name: "second",
                seen: seen.clone(),
            },
        )
        .unwrap();
    let out = client.process_event(publish("hello"));
    assert!(matches!(out, DispatchOutcome::Delivered));
    assert_eq!(
        &*seen.borrow(),
        &vec![("second".to_string(), "hello".to_string())]
    );
}

#[test]
fn other_events_are_ignored() {
    let seen = recorder();
    let mut client = MQTTClient::new("localhost");
    client
        .subscribe(
            "hello",
            RecordingHandler {
                name: "h",
                seen: seen.clone(),
            },
        )
        .unwrap();
    let out = client.process_event(Event::Other);
    assert!(matches!(out, DispatchOutcome::Ignored));
    assert!(seen.borrow().is_empty());
}

#[test]
fn subscribe_storage_registers_the_write_topic() {
    let seen = recorder();
    let mut client = MQTTClient::new("localhost");
    client
        .subscribe_storage(
            "journal",
            RecordingHandler {
                name: "s",
                seen: seen.clone(),
            },
        )
        .unwrap();
    let out = client.process_event(publish("storage/write/journal"));
    assert!(matches!(out, DispatchOutcome::Delivered));
    assert_eq!(
        &*seen.borrow(),
        &vec![("s".to_string(), "storage/write/journal".to_string())]
    );
    let miss = client.process_event(publish("journal"));
    assert!(matches!(miss, DispatchOutcome::NoHandler(_)));
}

#[test]
fn refused_subscription_leaves_the_table_unchanged() {
    let seen = recorder();
    let mut client = MQTTClient::new("localhost");
    // an empty topic filter is invalid, so the broker client refuses it
    let r = client.subscribe(
        "",
        RecordingHandler {
            name: "h",
            seen: seen.clone(),
        },
    );
    assert!(r.is_err());
    let out = client.process_event(publish(""));
    assert!(matches!(out, DispatchOutcome::NoHandler(_)));
    assert!(seen.borrow().is_empty());
}
