//! Supervision of one spawned child process's standard output: a one-shot
//! task consumes the stream line by line, emits each line to the log, and
//! yields a single terminal result when the stream ends or a read fails.

use vstd::prelude::*;

verus! {

/// One observation made on the output stream of a supervised process.
pub enum ReadEvent {
    /// A full line arrived.
    Line(String),
    /// The stream ended; the task finishes successfully.
    Eof,
    /// A read failed with the given message; the task finishes with it.
    Failed(String),
}

/// The log entry emitted for one line of supervised output.
pub open spec fn stdout_line(l: Seq<char>) -> Seq<char> {
    "Stdout line: "@ + l
}

/// The line-reading task of one supervised process. It is live until the
/// stream ends or errs, and emits one log entry per line read while live.
pub struct OutputTask {
    pub finished: Option<Result<(), String>>,
    pub lines_emitted: usize,
}

impl OutputTask {
    /// A task over a freshly opened output stream: live, nothing emitted.
    pub fn new() -> (r: OutputTask)
        ensures
            r.finished is None,
            r.lines_emitted == 0,
    {
        OutputTask { finished: None, lines_emitted: 0 }
    }

    /// Reacts to one observation on the stream. A line is emitted to the log
    /// and the task stays live; end-of-stream or a failed read makes the
    /// task's terminal result, with nothing further emitted.
    pub fn on_read(&mut self, ev: ReadEvent) -> (log: Option<String>)
        requires
            old(self).finished is None,
            old(self).lines_emitted < usize::MAX,
        ensures
            match ev {
                ReadEvent::Line(l) => {
                    &&& final(self).finished is None
                    &&& final(self).lines_emitted == old(self).lines_emitted + 1
                    &&& log matches Some(entry) && entry@ == stdout_line(l@)
                },
                ReadEvent::Eof => {
                    &&& final(self).finished == Some(Result::<(), String>::Ok(()))
                    &&& final(self).lines_emitted == old(self).lines_emitted
                    &&& log is None
                },
                ReadEvent::Failed(m) => {
                    &&& final(self).finished matches Some(r) && r == Result::<(), String>::Err(m)
                    &&& final(self).lines_emitted == old(self).lines_emitted
                    &&& log is None
                },
            },
    {
        match ev {
            ReadEvent::Line(l) => {
                self.lines_emitted = self.lines_emitted + 1;
                Some(String::from_str("Stdout line: ").concat(l.as_str()))
            },
            ReadEvent::Eof => {
                self.finished = Some(Ok(()));
                None
            },
            ReadEvent::Failed(m) => {
                self.finished = Some(Err(m));
                None
            },
        }
    }
}

} // verus!
