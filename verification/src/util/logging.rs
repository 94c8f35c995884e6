//! Logging capability used by the runtime for non-fatal failures.
//!
//! The runtime only ever talks to the `Logger` trait; `ChildLogger` is the
//! concrete logger the world carries, and forwards every message over a
//! channel whose receiving end (console, files) lives outside this crate.

use vstd::prelude::*;

verus! {

/// A message on its way to the logging backend.
pub enum LogMessage {
    Trace(String),
    Debug(String),
    Info(String),
    Warn(String),
    Error(String),
    Stop,
}

/// Logging capability: one method per severity.
pub trait Logger {
    fn trace(&self, msg: String);

    fn debug(&self, msg: String);

    fn info(&self, msg: String);

    fn warn(&self, msg: String);

    fn error(&self, msg: String);
}

/// A logger that can hand out further loggers writing to the same sink.
pub trait SpawnableLogger<C: Logger>: Logger {
    fn spawn(&self) -> C;
}

/// Declares std's channel sender so a logger can hold one.
#[verifier::external_type_specification]
#[verifier::external_body]
#[verifier::reject_recursive_types(T)]
pub struct ExSender<T>(std::sync::mpsc::Sender<T>);

/// Relies on std::sync::mpsc::Sender::send: queues the message for the
/// receiving end; the error case only reports a disconnected channel and
/// is deliberately ignored, as the original sink does.
#[verifier::external_body]
fn send_message(sender: &std::sync::mpsc::Sender<LogMessage>, msg: LogMessage) {
    let _ = sender.send(msg);
}

/// Relies on std::sync::mpsc::Sender::clone: yields a sender feeding the
/// same channel.
pub assume_specification<T>[ <std::sync::mpsc::Sender<T> as Clone>::clone ](
    s: &std::sync::mpsc::Sender<T>,
) -> std::sync::mpsc::Sender<T>;

/// A lightweight logger handed to subsystems; every message goes to the
/// channel the logger was created over.
pub struct ChildLogger {
    sender: std::sync::mpsc::Sender<LogMessage>,
}

impl ChildLogger {
    /// A logger writing to the given channel.
    pub fn new(sender: std::sync::mpsc::Sender<LogMessage>) -> Self {
        ChildLogger { sender }
    }
}

impl Logger for ChildLogger {
    fn trace(&self, msg: String) {
        send_message(&self.sender, LogMessage::Trace(msg));
    }

    fn debug(&self, msg: String) {
        send_message(&self.sender, LogMessage::Debug(msg));
    }

    fn info(&self, msg: String) {
        send_message(&self.sender, LogMessage::Info(msg));
    }

    fn warn(&self, msg: String) {
        send_message(&self.sender, LogMessage::Warn(msg));
    }

    fn error(&self, msg: String) {
        send_message(&self.sender, LogMessage::Error(msg));
    }
}

impl SpawnableLogger<ChildLogger> for ChildLogger {
    fn spawn(&self) -> ChildLogger {
        ChildLogger { sender: self.sender.clone() }
    }
}

/// The character of one decimal digit.
pub open spec fn spec_digit(v: int) -> char {
    if v == 0 { '0' }
    else if v == 1 { '1' }
    else if v == 2 { '2' }
    else if v == 3 { '3' }
    else if v == 4 { '4' }
    else if v == 5 { '5' }
    else if v == 6 { '6' }
    else if v == 7 { '7' }
    else if v == 8 { '8' }
    else { '9' }
}

/// Decimal rendering of a non-negative number, no leading zeros.
pub open spec fn spec_decimal(v: int) -> Seq<char>
    decreases v when v >= 0
{
    if v <= 9 {
        seq![spec_digit(v)]
    } else {
        spec_decimal(v / 10).push(spec_digit(v % 10))
    }
}

/// One decimal digit as text.
fn digit_str(v: u64) -> (r: &'static str)
    requires
        v <= 9,
    ensures
        r@ == seq![spec_digit(v as int)],
{
    proof {
        reveal_strlit("0");
        reveal_strlit("1");
        reveal_strlit("2");
        reveal_strlit("3");
        reveal_strlit("4");
        reveal_strlit("5");
        reveal_strlit("6");
        reveal_strlit("7");
        reveal_strlit("8");
        reveal_strlit("9");
    }
    let r = if v == 0 { "0" }
    else if v == 1 { "1" }
    else if v == 2 { "2" }
    else if v == 3 { "3" }
    else if v == 4 { "4" }
    else if v == 5 { "5" }
    else if v == 6 { "6" }
    else if v == 7 { "7" }
    else if v == 8 { "8" }
    else { "9" };
    proof {
        assert(r@ =~= seq![spec_digit(v as int)]);
    }
    r
}

/// Renders a number in decimal.
pub fn u64_to_decimal(v: u64) -> (r: String)
    ensures
        r@ == spec_decimal(v as int),
    decreases v,
{
    if v <= 9 {
        String::from_str(digit_str(v))
    } else {
        let prefix = u64_to_decimal(v / 10);
        let r = prefix.concat(digit_str(v % 10));
        proof {
            assert(r@ =~= spec_decimal(v as int));
        }
        r
    }
}

/// The rotation file name of slot `x`.
pub open spec fn spec_log_filename(x: int) -> Seq<char> {
    "game_"@ + spec_decimal(x) + ".log"@
}

/// Whether some recorded log carries this file name.
pub open spec fn spec_has_log(logs: Seq<(String, u64)>, name: Seq<char>) -> bool {
    exists|j: int| 0 <= j < logs.len() && logs[j].0@ == name
}

/// The first rotation slot in `[x, limit)` whose file name no recorded
/// log carries; `limit` when every slot is taken.
pub open spec fn spec_first_free(logs: Seq<(String, u64)>, limit: int, x: int) -> int
    decreases limit - x when x <= limit
{
    if x >= limit {
        limit
    } else if !spec_has_log(logs, spec_log_filename(x)) {
        x
    } else {
        spec_first_free(logs, limit, x + 1)
    }
}

/// Position of the oldest recorded log at or after `i`, given the oldest
/// seen so far; the earliest position wins a tie.
pub open spec fn spec_oldest_from(logs: Seq<(String, u64)>, i: int, best: int) -> int
    decreases logs.len() - i when i >= 0
{
    if i >= logs.len() {
        best
    } else if 0 <= best < logs.len() && logs[i].1 < logs[best].1 {
        spec_oldest_from(logs, i + 1, i)
    } else {
        spec_oldest_from(logs, i + 1, best)
    }
}

/// Whether some recorded log is named `name`.
fn has_log(logs: &Vec<(String, u64)>, name: &str) -> (r: bool)
    ensures
        r == spec_has_log(logs@, name@),
{
    let wanted: String = name.to_owned();
    let n = logs.len();
    let mut i: usize = 0;
    while i < n
        invariant
            n == logs@.len(),
            i <= n,
            wanted@ == name@,
            forall|j: int| 0 <= j < i ==> logs@[j].0@ != name@,
        decreases n - i,
    {
        if logs[i].0 == wanted {
            assert(logs@[i as int].0@ == name@);
            return true;
        }
        i += 1;
    }
    false
}

/// Picks the log file the next run writes: the first rotation slot below
/// `limit` whose name no existing log uses; when every slot is used, the
/// oldest existing log is overwritten; with no slots and no logs, the log
/// directory itself comes back.
pub fn next_log_rotation(existing_logs: Vec<(String, u64)>, limit: usize) -> (r: String)
    ensures
        ({
            let free = spec_first_free(existing_logs@, limit as int, 0);
            if free < limit {
                r@ == "logs"@ + "/"@ + spec_log_filename(free)
            } else if existing_logs@.len() > 0 {
                r@ == "logs"@ + "/"@
                    + existing_logs@[spec_oldest_from(existing_logs@, 1, 0)].0@
            } else {
                r@ == "logs"@
            }
        }),
{
    let mut x: usize = 0;
    while x < limit
        invariant
            x <= limit,
            spec_first_free(existing_logs@, limit as int, 0)
                == spec_first_free(existing_logs@, limit as int, x as int),
        decreases limit - x,
    {
        let filename = String::from_str("game_")
            .concat(u64_to_decimal(x as u64).as_str())
            .concat(".log");
        proof {
            assert(filename@ == spec_log_filename(x as int));
        }
        if !has_log(&existing_logs, filename.as_str()) {
            return crate::util::dir::path_join("logs", filename.as_str());
        }
        x += 1;
    }

    if existing_logs.len() == 0 {
        return String::from_str("logs");
    }

    let n = existing_logs.len();
    let mut best: usize = 0;
    let mut i: usize = 1;
    while i < n
        invariant
            n == existing_logs@.len(),
            n > 0,
            1 <= i,
            best < n,
            spec_oldest_from(existing_logs@, 1, 0)
                == spec_oldest_from(existing_logs@, i as int, best as int),
        decreases n - i,
    {
        if existing_logs[i].1 < existing_logs[best].1 {
            best = i;
        }
        i += 1;
    }
    crate::util::dir::path_join("logs", existing_logs[best].0.as_str())
}

} // verus!
