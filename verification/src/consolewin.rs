//! The state behind the in-game console: the log it shows, the commands
//! entered, and walking back and forth through them.
//!
//! Drawing the console is left to the caller, which hands the entered text
//! and the history keys to these functions and applies what they return.
use vstd::prelude::*;
use crate::text::concat;

verus! {

/// What a log line records.
#[derive(Debug, Clone, Copy, PartialEq, Eq, Structural)]
pub enum LogItemType {
    Info,
    Warn,
    Error,
    /// A command that was entered.
    Command,
}

/// One line of the console log.
pub struct LogItem {
    pub item_type: LogItemType,
    pub item: String,
}

impl LogItem {
    pub fn new(item_type: LogItemType, item: String) -> (r: LogItem)
        ensures
            r.item_type == item_type,
            r.item == item,
    {
        LogItem { item_type, item }
    }
}

/// The severity of a log message, most severe first.
#[derive(Debug, Clone, Copy, PartialEq, Eq, Structural)]
pub enum LogLevel {
    Error,
    Warn,
    Info,
    Debug,
    Trace,
}

/// Whether the console records messages of `level`: those of level `Info`
/// and more severe.
pub open spec fn spec_log_enabled(level: LogLevel) -> bool {
    level == LogLevel::Error || level == LogLevel::Warn || level == LogLevel::Info
}

/// The kind of log line of a message of `level`.
pub open spec fn spec_log_type(level: LogLevel) -> LogItemType {
    match level {
        LogLevel::Error => LogItemType::Error,
        LogLevel::Warn => LogItemType::Warn,
        _ => LogItemType::Info,
    }
}

/// The logger that feeds the console: it records messages of level `Info`
/// and more severe.
pub struct ConsoleWindowLogger {}

impl ConsoleWindowLogger {
    /// Whether the console records messages of `level`.
    pub fn enabled(&self, level: LogLevel) -> (r: bool)
        ensures
            r == spec_log_enabled(level),
    {
        match level {
            LogLevel::Error | LogLevel::Warn | LogLevel::Info => true,
            _ => false,
        }
    }

    /// Records `message` in `log` if the console records messages of `level`.
    pub fn log(&self, log: &mut Vec<LogItem>, level: LogLevel, message: String)
        ensures
            spec_log_enabled(level) ==> final(log)@.len() == old(log)@.len() + 1
                && final(log)@.take(old(log)@.len() as int) == old(log)@
                && final(log)@.last().item_type == spec_log_type(level)
                && final(log)@.last().item == message,
            !spec_log_enabled(level) ==> final(log)@ == old(log)@,
    {
        if self.enabled(level) {
            let item_type = match level {
                LogLevel::Error => LogItemType::Error,
                LogLevel::Warn => LogItemType::Warn,
                _ => LogItemType::Info,
            };
            log.push(LogItem::new(item_type, message));
            assert(log@.take(old(log)@.len() as int) =~= old(log)@);
        }
    }
}

/// A key press that walks through the command history.
#[derive(Debug, Clone, Copy, PartialEq, Eq, Structural)]
pub enum HistoryDirection {
    Up,
    Down,
}

/// What a history key does to the command line.
pub enum HistoryEdit {
    /// Nothing changes.
    Keep,
    /// The line is emptied.
    Clear,
    /// The line is replaced by this earlier command.
    Replace(String),
}

/// The history position after a history key: -1 is "not in the history".
/// Up from outside the history goes to the last command, and otherwise
/// stops at the first; Down moves toward the end and leaves the history
/// after the last command. With no history nothing moves.
pub open spec fn spec_history_step(len: int, pos: int, dir: HistoryDirection) -> int {
    if len == 0 {
        pos
    } else {
        match dir {
            HistoryDirection::Up => if pos == -1 { len - 1 } else if pos > 0 { pos - 1 } else { pos },
            HistoryDirection::Down => if pos == -1 { -1 } else if pos + 1 == len { -1 } else { pos + 1 },
        }
    }
}

/// The console's command line state: the commands entered, where the
/// history keys point, and the commands waiting to run.
pub struct ConsoleState {
    history: Vec<String>,
    history_pos: i32,
    exec_queue: Vec<String>,
}

impl ConsoleState {
    #[verifier::type_invariant]
    spec fn pos_in_range(&self) -> bool {
        &&& self.history@.len() < i32::MAX
        &&& -1 <= self.history_pos < self.history@.len()
    }

    /// The commands entered, oldest first.
    pub closed spec fn spec_history(&self) -> Seq<Seq<char>> {
        self.history@.map_values(|s: String| s@)
    }

    /// The history position; -1 when not in the history.
    pub closed spec fn spec_pos(&self) -> int {
        self.history_pos as int
    }

    /// The commands waiting to run, oldest first.
    pub closed spec fn spec_queue(&self) -> Seq<Seq<char>> {
        self.exec_queue@.map_values(|s: String| s@)
    }

    /// An empty console.
    pub fn new() -> (r: ConsoleState)
        ensures
            r.spec_history() == Seq::<Seq<char>>::empty(),
            r.spec_pos() == -1,
            r.spec_queue() == Seq::<Seq<char>>::empty(),
    {
        let r = ConsoleState { history: Vec::new(), history_pos: -1, exec_queue: Vec::new() };
        assert(r.spec_history() =~= Seq::<Seq<char>>::empty());
        assert(r.spec_queue() =~= Seq::<Seq<char>>::empty());
        r
    }

    /// Moves through the history for a history key and says what becomes of
    /// the command line: if the position moved, the line is cleared, and
    /// then, when the new position is in the history, filled with that
    /// command.
    pub fn on_history(&mut self, dir: HistoryDirection) -> (r: HistoryEdit)
        ensures
            final(self).spec_history() == old(self).spec_history(),
            final(self).spec_queue() == old(self).spec_queue(),
            final(self).spec_pos() == spec_history_step(old(self).spec_history().len() as int, old(self).spec_pos(), dir),
            final(self).spec_pos() == old(self).spec_pos() ==> r is Keep,
            final(self).spec_pos() != old(self).spec_pos() && final(self).spec_pos() == -1 ==> r is Clear,
            final(self).spec_pos() != old(self).spec_pos() && final(self).spec_pos() != -1 ==>
                (r matches HistoryEdit::Replace(s) && s@ == final(self).spec_history()[final(self).spec_pos()]),
    {
        proof { use_type_invariant(&*self); }
        let len = self.history.len();
        if len == 0 {
            return HistoryEdit::Keep;
        }
        let prev = self.history_pos;
        let next: i32 = match dir {
            HistoryDirection::Up => if prev == -1 {
                (len - 1) as i32
            } else if prev > 0 {
                prev - 1
            } else {
                prev
            },
            HistoryDirection::Down => if prev == -1 {
                -1
            } else if prev + 1 == len as i32 {
                -1
            } else {
                prev + 1
            },
        };
        self.history_pos = next;
        if next == prev {
            HistoryEdit::Keep
        } else if next == -1 {
            HistoryEdit::Clear
        } else {
            HistoryEdit::Replace(self.history[next as usize].clone())
        }
    }

    /// Whether one more command fits in the history.
    pub fn can_submit(&self) -> (r: bool)
        ensures
            r == (self.spec_history().len() + 1 < i32::MAX),
    {
        self.history.len() < (i32::MAX - 1) as usize
    }

    /// Enters the command `cmd`: it joins the history and the queue of
    /// commands to run, the log records it as `>> cmd`, and the history
    /// position resets.
    pub fn submit(&mut self, cmd: &str, log: &mut Vec<LogItem>)
        requires
            old(self).spec_history().len() + 1 < i32::MAX,
        ensures
            final(self).spec_history() == old(self).spec_history().push(cmd@),
            final(self).spec_queue() == old(self).spec_queue().push(cmd@),
            final(self).spec_pos() == -1,
            final(log)@.len() == old(log)@.len() + 1,
            final(log)@.take(old(log)@.len() as int) == old(log)@,
            final(log)@.last().item_type == LogItemType::Command,
            final(log)@.last().item@ == ">> "@ + cmd@,
    {
        proof { use_type_invariant(&*self); }
        self.history_pos = -1;
        let mut history: Vec<String> = Vec::new();
        std::mem::swap(&mut history, &mut self.history);
        let mut queue: Vec<String> = Vec::new();
        std::mem::swap(&mut queue, &mut self.exec_queue);
        history.push(cmd.to_string());
        queue.push(cmd.to_string());
        *self = ConsoleState { history, history_pos: -1, exec_queue: queue };
        proof {
            assert(self.spec_history() =~= old(self).spec_history().push(cmd@));
            assert(self.spec_queue() =~= old(self).spec_queue().push(cmd@));
        }
        log.push(LogItem::new(LogItemType::Command, concat(">> ", cmd)));
        assert(log@.take(old(log)@.len() as int) =~= old(log)@);
    }

    /// Takes the commands waiting to run, oldest first, leaving none.
    pub fn drain_commands(&mut self) -> (r: Vec<String>)
        ensures
            r@.map_values(|s: String| s@) == old(self).spec_queue(),
            final(self).spec_queue() == Seq::<Seq<char>>::empty(),
            final(self).spec_history() == old(self).spec_history(),
            final(self).spec_pos() == old(self).spec_pos(),
    {
        proof { use_type_invariant(&*self); }
        let mut queue: Vec<String> = Vec::new();
        std::mem::swap(&mut queue, &mut self.exec_queue);
        assert(self.spec_queue() =~= Seq::<Seq<char>>::empty());
        queue
    }
}

/// Pressing Up and then Down returns to where the history position was,
/// when it was outside the history or past the first command.
pub proof fn law_history_up_then_down(len: int, pos: int)
    requires
        len > 0,
        pos == -1 || 0 < pos < len,
    ensures
        spec_history_step(len, spec_history_step(len, pos, HistoryDirection::Up), HistoryDirection::Down) == pos,
{
}

/// The history position stays outside the history or on one of its
/// commands.
pub proof fn law_history_step_in_range(len: int, pos: int, dir: HistoryDirection)
    requires
        len >= 0,
        -1 <= pos < len,
    ensures
        -1 <= spec_history_step(len, pos, dir) < len,
        len > 0 && dir == HistoryDirection::Up ==> spec_history_step(len, pos, dir) != -1,
{
}

/// The console records a message exactly when it is of level `Info` or more
/// severe, so a level that is recorded makes every more severe level
/// recorded; errors and warnings are recorded as such, and every other
/// recorded message as information.
pub proof fn law_log_levels(level: LogLevel)
    ensures
        spec_log_enabled(LogLevel::Error),
        spec_log_enabled(LogLevel::Warn),
        spec_log_enabled(LogLevel::Info),
        !spec_log_enabled(LogLevel::Debug),
        !spec_log_enabled(LogLevel::Trace),
        spec_log_enabled(level) ==> (level == LogLevel::Error || level == LogLevel::Warn || level == LogLevel::Info),
        spec_log_type(LogLevel::Error) == LogItemType::Error,
        spec_log_type(LogLevel::Warn) == LogItemType::Warn,
        spec_log_type(LogLevel::Info) == LogItemType::Info,
        spec_log_type(level) != LogItemType::Command,
{
}

} // verus!
