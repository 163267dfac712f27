use pyros::daemon::{EventLoopState, Phase, ReadyEvent};
use pyros::mqtt_client::{Handler, MQTTClient, Message};
use pyros::supervisor::{OutputTask, ReadEvent};

struct QuietHandler;

impl Handler for QuietHandler {
    fn handle(&self, _msg: &Message, _client: &MQTTClient<QuietHandler>) {}
}

#[test]
fn three_lines_then_eof_emit_in_order_and_retire_the_task() {
    let mut task = OutputTask::new();
    let mut logs: Vec<String> = Vec::new();
    for l in ["a", "b", "c"] {
        match task.on_read(ReadEvent::Line(l.to_string())) {
            Some(entry) => logs.push(entry),
            None => panic!("a line must be emitted"),
        }
    }
    assert_eq!(
        logs,
        vec![
            "Stdout line: a".to_string(),
            "Stdout line: b".to_string(),
            "Stdout line: c".to_string(),
        ]
    );
    assert!(task.finished.is_none());
    assert_eq!(task.lines_emitted, 3);
    let end = task.on_read(ReadEvent::Eof);
    assert!(end.is_none());
    assert_eq!(task.finished, Some(Ok(())));

    let client: MQTTClient<QuietHandler> = MQTTClient::new("localhost");
    let mut st = EventLoopState::new();
    st.task_started();
    let loop_logs = st.step(&client, ReadyEvent::TaskDone(task.finished.clone().unwrap()));
    assert_eq!(
        loop_logs,
        vec!["Future's result arrived... Ok(())".to_string()]
    );
    assert_eq!(st.live_tasks, 0);
    assert!(st.last_error.is_none());
    assert!(matches!(st.phase, Phase::Running));
}

#[test]
fn failed_read_finishes_the_task_with_its_error() {
    let mut task = OutputTask::new();
    assert!(task.on_read(ReadEvent::Line("x".to_string())).is_some());
    let end = task.on_read(ReadEvent::Failed("broken pipe".to_string()));
    assert!(end.is_none());
    assert_eq!(task.finished, Some(Err("broken pipe".to_string())));
    assert_eq!(task.lines_emitted, 1);
}

#[test]
fn immediate_eof_emits_nothing() {
    let mut task = OutputTask::new();
    let end = task.on_read(ReadEvent::Eof);
    assert!(end.is_none());
    assert_eq!(task.finished, Some(Ok(())));
    assert_eq!(task.lines_emitted, 0);
}
