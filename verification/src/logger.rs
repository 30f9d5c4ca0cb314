//! The session log: lines with a time stamp, buffered until they are
//! flushed or streamed at once, and the choice of old log files to remove.
//!
//! The logger writes nothing itself. It hands the lines that are due to its
//! caller, who owns the file.

use vstd::prelude::*;
use vstd::utf8::encode_utf8;

verus! {

/// The format of the time stamp in the name of a log file.
pub open spec fn file_stamp_format() -> Seq<char> {
    "%Y%m%d_%H%M%S"@
}

/// The format of the time stamp at the start of a line.
pub open spec fn line_stamp_format() -> Seq<char> {
    "%Y-%m-%d %H:%M:%S%.3f"@
}

/// Calls `chrono::Local::now` and `DateTime::format`, and renders the local
/// time in the given format. Nothing is claimed of the text: it depends on
/// the clock and the time zone. Only the two formats of this module are
/// admitted, both made of specifiers that chrono documents.
#[verifier::external_body]
fn local_time_stamp(format: &str) -> (stamp: String)
    requires
        format@ == file_stamp_format() || format@ == line_stamp_format(),
{
    chrono::Local::now().format(format).to_string()
}

/// A line of the log: the time stamp in brackets, a space, the message.
pub open spec fn log_line(stamp: Seq<char>, message: Seq<char>) -> Seq<char> {
    "["@ + stamp + "] "@ + message
}

/// The message of an error.
pub open spec fn error_text(message: Seq<char>) -> Seq<char> {
    "ERROR: "@ + message
}

/// The message of a warning.
pub open spec fn warn_text(message: Seq<char>) -> Seq<char> {
    "WARN: "@ + message
}

/// The message that opens the session of `app_name`.
pub open spec fn session_started_text(app_name: Seq<char>) -> Seq<char> {
    "=== "@ + app_name + " Session Started ==="@
}

/// The message that closes the session of `app_name`.
pub open spec fn session_ended_text(app_name: Seq<char>) -> Seq<char> {
    "=== "@ + app_name + " Session Ended ==="@
}

/// The name of the log file of `app_name` that was begun at `stamp`.
pub open spec fn log_file_name(app_name: Seq<char>, stamp: Seq<char>) -> Seq<char> {
    app_name + "_"@ + stamp + ".log"@
}

/// The path of a file in a directory: both joined by a forward slash.
pub open spec fn path_in(dir: Seq<char>, file: Seq<char>) -> Seq<char> {
    dir + "/"@ + file
}

/// Why the logger could not be set up.
#[derive(Clone, Copy, Debug, PartialEq, Eq, Structural)]
pub enum LoggerError {
    /// A logger is installed already.
    AlreadyInitialized,
}

/// The mathematical value of a logger.
pub struct LoggerView {
    pub buffer: Seq<Seq<char>>,
    pub log_path: Seq<char>,
    pub log_dir: Seq<char>,
    pub retention_count: usize,
    pub app_name: Seq<char>,
    pub stream_to_stdout: bool,
}

/// The views of a sequence of strings.
pub open spec fn line_views(lines: Seq<String>) -> Seq<Seq<char>> {
    lines.map_values(|s: String| s@)
}

/// The logger after the line `line`: a streaming logger keeps nothing, a
/// buffering one appends the line to its buffer.
pub open spec fn after_line(v: LoggerView, line: Seq<char>) -> LoggerView {
    if v.stream_to_stdout {
        v
    } else {
        LoggerView { buffer: v.buffer.push(line), ..v }
    }
}

/// Whether a call that logged `line` handed out the right thing: the line
/// itself from a streaming logger, nothing from a buffering one.
pub open spec fn is_streamed(v: LoggerView, line: Seq<char>, out: Option<String>) -> bool {
    if v.stream_to_stdout {
        out matches Some(s) && s@ == line
    } else {
        out is None
    }
}

/// The logger of one session.
pub struct SessionLogger {
    log_buffer: Vec<String>,
    log_path: String,
    log_dir: String,
    retention_count: usize,
    app_name: String,
    stream_to_stdout: bool,
}

impl View for SessionLogger {
    type V = LoggerView;

    closed spec fn view(&self) -> LoggerView {
        LoggerView {
            buffer: line_views(self.log_buffer@),
            log_path: self.log_path@,
            log_dir: self.log_dir@,
            retention_count: self.retention_count,
            app_name: self.app_name@,
            stream_to_stdout: self.stream_to_stdout,
        }
    }
}

/// The logger of a session that was begun at
/// `file_stamp`, after the line that opens it with the stamp `line_stamp`.
pub open spec fn installed_logger(
    log_dir: Seq<char>,
    app_name: Seq<char>,
    retention_count: usize,
    stream_to_stdout: bool,
    file_stamp: Seq<char>,
    line_stamp: Seq<char>,
) -> LoggerView {
    after_line(
        LoggerView {
            buffer: Seq::<Seq<char>>::empty(),
            log_path: path_in(log_dir, log_file_name(app_name, file_stamp)),
            log_dir,
            retention_count,
            app_name,
            stream_to_stdout,
        },
        log_line(line_stamp, session_started_text(app_name)),
    )
}

/// Builds the line that `log_line` states.
pub fn make_log_line(stamp: &str, message: &str) -> (line: String)
    ensures
        line@ == log_line(stamp@, message@),
{
    let mut line = String::from_str("[");
    line.append(stamp);
    line.append("] ");
    line.append(message);
    line
}

impl SessionLogger {
    /// A logger for the session of `app_name` that was begun at
    /// `file_stamp`. Its file lies in `log_dir` and is named after the
    /// application and the stamp. Nothing is logged yet.
    pub fn new_at(
        log_dir: &str,
        app_name: &str,
        retention_count: usize,
        stream_to_stdout: bool,
        file_stamp: &str,
    ) -> (logger: Self)
        ensures
            logger@ == (LoggerView {
                buffer: Seq::<Seq<char>>::empty(),
                log_path: path_in(log_dir@, log_file_name(app_name@, file_stamp@)),
                log_dir: log_dir@,
                retention_count,
                app_name: app_name@,
                stream_to_stdout,
            }),
    {
        let mut log_path = String::from_str(log_dir);
        log_path.append("/");
        log_path.append(app_name);
        log_path.append("_");
        log_path.append(file_stamp);
        log_path.append(".log");
        let logger = SessionLogger {
            log_buffer: Vec::new(),
            log_path,
            log_dir: String::from_str(log_dir),
            retention_count,
            app_name: String::from_str(app_name),
            stream_to_stdout,
        };
        assert(logger@.log_path =~= path_in(log_dir@, log_file_name(app_name@, file_stamp@)));
        assert(logger@.buffer =~= Seq::<Seq<char>>::empty());
        logger
    }

    /// A logger for a session of `app_name` that begins now: the name of
    /// its file carries the local time, and the line that opens the session
    /// is logged. A streaming logger hands that line out.
    pub fn new(log_dir: &str, app_name: &str, retention_count: usize, stream_to_stdout: bool) -> (res: (
        Self,
        Option<String>,
    ))
        ensures
            exists|file_stamp: Seq<char>, line_stamp: Seq<char>|
                {
                    &&& res.0@ == #[trigger] installed_logger(
                        log_dir@,
                        app_name@,
                        retention_count,
                        stream_to_stdout,
                        file_stamp,
                        line_stamp,
                    )
                    &&& if stream_to_stdout {
                        res.1 matches Some(line) && line@ == log_line(
                            line_stamp,
                            session_started_text(app_name@),
                        )
                    } else {
                        res.1 is None
                    }
                },
    {
        let file_stamp = local_time_stamp("%Y%m%d_%H%M%S");
        let mut logger = Self::new_at(
            log_dir,
            app_name,
            retention_count,
            stream_to_stdout,
            file_stamp.as_str(),
        );
        let mut text = String::from_str("=== ");
        text.append(app_name);
        text.append(" Session Started ===");
        assert(text@ =~= session_started_text(app_name@));
        let line_stamp = local_time_stamp("%Y-%m-%d %H:%M:%S%.3f");
        let out = logger.log_at(line_stamp.as_str(), text.as_str());
        proof {
            assert(logger@ == installed_logger(
                log_dir@,
                app_name@,
                retention_count,
                stream_to_stdout,
                file_stamp@,
                line_stamp@,
            ));
        }
        (logger, out)
    }

    /// Whether lines are handed out at once instead of being buffered.
    pub fn stream_to_stdout(&self) -> (stream: bool)
        ensures
            stream == self@.stream_to_stdout,
    {
        self.stream_to_stdout
    }

    /// The path of the session's log file.
    pub fn log_path(&self) -> (path: &String)
        ensures
            path@ == self@.log_path,
    {
        &self.log_path
    }

    /// The directory of the log files.
    pub fn log_dir(&self) -> (dir: &String)
        ensures
            dir@ == self@.log_dir,
    {
        &self.log_dir
    }

    /// The number of old log files that are kept.
    pub fn retention_count(&self) -> (count: usize)
        ensures
            count == self@.retention_count,
    {
        self.retention_count
    }

    /// Number of lines in the buffer.
    pub fn buffered(&self) -> (count: usize)
        ensures
            count == self@.buffer.len(),
    {
        self.log_buffer.len()
    }

    /// Logs `message` with the time stamp `stamp`. A streaming logger hands
    /// the line out, to be written and shown at once; a buffering logger
    /// keeps it.
    pub fn log_at(&mut self, stamp: &str, message: &str) -> (out: Option<String>)
        ensures
            final(self)@ == after_line(old(self)@, log_line(stamp@, message@)),
            is_streamed(old(self)@, log_line(stamp@, message@), out),
    {
        let line = make_log_line(stamp, message);
        if self.stream_to_stdout {
            Some(line)
        } else {
            let ghost before = self.log_buffer@;
            self.log_buffer.push(line);
            proof {
                assert(line_views(self.log_buffer@) =~= line_views(before).push(line@));
            }
            None
        }
    }

    /// Logs `message` with the local time as its stamp.
    pub fn log(&mut self, message: &str) -> (out: Option<String>)
        ensures
            exists|stamp: Seq<char>|
                {
                    &&& final(self)@ == after_line(old(self)@, #[trigger] log_line(stamp, message@))
                    &&& is_streamed(old(self)@, log_line(stamp, message@), out)
                },
    {
        let stamp = local_time_stamp("%Y-%m-%d %H:%M:%S%.3f");
        let out = self.log_at(stamp.as_str(), message);
        proof {
            assert(self@ == after_line(old(self)@, log_line(stamp@, message@)));
        }
        out
    }

    /// Logs `message` as an error.
    pub fn error(&mut self, message: &str) -> (out: Option<String>)
        ensures
            exists|stamp: Seq<char>|
                {
                    &&& final(self)@ == after_line(
                        old(self)@,
                        #[trigger] log_line(stamp, error_text(message@)),
                    )
                    &&& is_streamed(old(self)@, log_line(stamp, error_text(message@)), out)
                },
    {
        let mut text = String::from_str("ERROR: ");
        text.append(message);
        assert(text@ =~= error_text(message@));
        self.log(text.as_str())
    }

    /// Logs `message` as a warning.
    pub fn warn(&mut self, message: &str) -> (out: Option<String>)
        ensures
            exists|stamp: Seq<char>|
                {
                    &&& final(self)@ == after_line(
                        old(self)@,
                        #[trigger] log_line(stamp, warn_text(message@)),
                    )
                    &&& is_streamed(old(self)@, log_line(stamp, warn_text(message@)), out)
                },
    {
        let mut text = String::from_str("WARN: ");
        text.append(message);
        assert(text@ =~= warn_text(message@));
        self.log(text.as_str())
    }

    /// Logs `message` as it stands.
    pub fn info(&mut self, message: &str) -> (out: Option<String>)
        ensures
            exists|stamp: Seq<char>|
                {
                    &&& final(self)@ == after_line(old(self)@, #[trigger] log_line(stamp, message@))
                    &&& is_streamed(old(self)@, log_line(stamp, message@), out)
                },
    {
        self.log(message)
    }

    /// Hands out the buffered lines, oldest first, to be appended to the
    /// log file, and leaves the buffer empty.
    pub fn flush_to_disk(&mut self) -> (lines: Vec<String>)
        ensures
            line_views(lines@) == old(self)@.buffer,
            final(self)@ == (LoggerView { buffer: Seq::<Seq<char>>::empty(), ..old(self)@ }),
    {
        let mut lines: Vec<String> = Vec::new();
        let ghost before = self.log_buffer@;
        lines.append(&mut self.log_buffer);
        proof {
            assert(lines@ =~= before);
            assert(line_views(self.log_buffer@) =~= Seq::<Seq<char>>::empty());
        }
        lines
    }

    /// Puts lines that could not be written back in front of the buffer.
    pub fn restore(&mut self, lines: Vec<String>)
        ensures
            final(self)@ == (LoggerView {
                buffer: line_views(lines@) + old(self)@.buffer,
                ..old(self)@
            }),
    {
        let mut lines = lines;
        let ghost first = lines@;
        let ghost second = self.log_buffer@;
        lines.append(&mut self.log_buffer);
        self.log_buffer = lines;
        proof {
            assert(self.log_buffer@ =~= first + second);
            assert(line_views(first + second) =~= line_views(first) + line_views(second));
        }
    }

    /// Ends the session: hands out every line that is still to be written,
    /// the buffered ones and then the line that closes the session. The
    /// buffer is empty afterwards.
    pub fn finalize(&mut self) -> (lines: Vec<String>)
        ensures
            final(self)@ == (LoggerView { buffer: Seq::<Seq<char>>::empty(), ..old(self)@ }),
            exists|stamp: Seq<char>|
                line_views(lines@) == old(self)@.buffer.push(
                    #[trigger] log_line(stamp, session_ended_text(old(self)@.app_name)),
                ),
    {
        let mut text = String::from_str("=== ");
        text.append(self.app_name.as_str());
        text.append(" Session Ended ===");
        assert(text@ =~= session_ended_text(self@.app_name));
        let stamp = local_time_stamp("%Y-%m-%d %H:%M:%S%.3f");
        let line = make_log_line(stamp.as_str(), text.as_str());
        let mut lines = self.flush_to_disk();
        let ghost flushed = lines@;
        lines.push(line);
        proof {
            let closing = log_line(stamp@, session_ended_text(old(self)@.app_name));
            assert(line_views(lines@) =~= line_views(flushed).push(closing));
        }
        lines
    }
}

/// Installs the logger of the process in `slot` and logs the line that
/// opens the session; a streaming logger hands that line out. Fails, and
/// changes nothing, if a logger is installed already.
pub fn init_logger(
    slot: &mut Option<SessionLogger>,
    log_dir: &str,
    app_name: &str,
    retention_count: usize,
    stream_to_stdout: bool,
) -> (res: Result<Option<String>, LoggerError>)
    ensures
        *old(slot) is Some ==> res == Err::<Option<String>, LoggerError>(
            LoggerError::AlreadyInitialized,
        ) && *final(slot) == *old(slot),
        *old(slot) is None ==> (res matches Ok(out) && *final(slot) matches Some(logger)
            && exists|file_stamp: Seq<char>, line_stamp: Seq<char>|
            {
                &&& logger@ == #[trigger] installed_logger(
                    log_dir@,
                    app_name@,
                    retention_count,
                    stream_to_stdout,
                    file_stamp,
                    line_stamp,
                )
                &&& if stream_to_stdout {
                    out matches Some(line) && line@ == log_line(
                        line_stamp,
                        session_started_text(app_name@),
                    )
                } else {
                    out is None
                }
            }),
{
    if slot.is_some() {
        return Err(LoggerError::AlreadyInitialized);
    }
    let (logger, out) = SessionLogger::new(log_dir, app_name, retention_count, stream_to_stdout);
    *slot = Some(logger);
    Ok(out)
}

/// Logs `message` with the installed logger; without one nothing happens.
pub fn log(slot: &mut Option<SessionLogger>, message: &str) -> (out: Option<String>)
    ensures
        *old(slot) is None ==> *final(slot) is None && out is None,
        *old(slot) matches Some(before) ==> *final(slot) matches Some(after) && exists|
            stamp: Seq<char>,
        |
            {
                &&& after@ == after_line(before@, #[trigger] log_line(stamp, message@))
                &&& is_streamed(before@, log_line(stamp, message@), out)
            },
{
    match slot {
        Some(logger) => logger.log(message),
        None => None,
    }
}

/// Logs `message` as an error with the installed logger.
pub fn log_error(slot: &mut Option<SessionLogger>, message: &str) -> (out: Option<String>)
    ensures
        *old(slot) is None ==> *final(slot) is None && out is None,
        *old(slot) matches Some(before) ==> *final(slot) matches Some(after) && exists|
            stamp: Seq<char>,
        |
            {
                &&& after@ == after_line(before@, #[trigger] log_line(stamp, error_text(message@)))
                &&& is_streamed(before@, log_line(stamp, error_text(message@)), out)
            },
{
    match slot {
        Some(logger) => logger.error(message),
        None => None,
    }
}

/// Logs `message` as a warning with the installed logger.
pub fn log_warn(slot: &mut Option<SessionLogger>, message: &str) -> (out: Option<String>)
    ensures
        *old(slot) is None ==> *final(slot) is None && out is None,
        *old(slot) matches Some(before) ==> *final(slot) matches Some(after) && exists|
            stamp: Seq<char>,
        |
            {
                &&& after@ == after_line(before@, #[trigger] log_line(stamp, warn_text(message@)))
                &&& is_streamed(before@, log_line(stamp, warn_text(message@)), out)
            },
{
    match slot {
        Some(logger) => logger.warn(message),
        None => None,
    }
}

/// Logs `message` as it stands with the installed logger.
pub fn log_info(slot: &mut Option<SessionLogger>, message: &str) -> (out: Option<String>)
    ensures
        *old(slot) is None ==> *final(slot) is None && out is None,
        *old(slot) matches Some(before) ==> *final(slot) matches Some(after) && exists|
            stamp: Seq<char>,
        |
            {
                &&& after@ == after_line(before@, #[trigger] log_line(stamp, message@))
                &&& is_streamed(before@, log_line(stamp, message@), out)
            },
{
    match slot {
        Some(logger) => logger.info(message),
        None => None,
    }
}

/// Ends the session of the installed logger and hands out the lines that
/// are still to be written: the buffered ones, then the line that closes
/// the session. Without a logger there are none.
pub fn finalize_logs(slot: &mut Option<SessionLogger>) -> (lines: Vec<String>)
    ensures
        *old(slot) is None ==> *final(slot) is None && lines@.len() == 0,
        *old(slot) matches Some(before) ==> *final(slot) matches Some(after) && after@ == (LoggerView {
            buffer: Seq::<Seq<char>>::empty(),
            ..before@
        }) && exists|stamp: Seq<char>|
            line_views(lines@) == before@.buffer.push(
                #[trigger] log_line(stamp, session_ended_text(before@.app_name)),
            ),
{
    match slot {
        Some(logger) => logger.finalize(),
        None => Vec::new(),
    }
}

/// The path of the installed logger's file.
pub fn get_log_path(slot: &Option<SessionLogger>) -> (path: Option<String>)
    ensures
        match *slot {
            Some(logger) => path matches Some(p) && p@ == logger@.log_path,
            None => path is None,
        },
{
    match slot {
        Some(logger) => Some(logger.log_path().clone()),
        None => None,
    }
}

/// A file of the log directory: its name and the time of its last
/// modification, on any scale that grows with time.
#[derive(Clone, Debug)]
pub struct LogFile {
    pub name: String,
    pub modified: u64,
}

/// Whether the bytes `s` begin with the bytes `p`.
pub open spec fn has_prefix(s: Seq<u8>, p: Seq<u8>) -> bool {
    p.len() <= s.len() && s.subrange(0, p.len() as int) == p
}

/// Whether the bytes `s` end with the bytes `p`.
pub open spec fn has_suffix(s: Seq<u8>, p: Seq<u8>) -> bool {
    p.len() <= s.len() && s.subrange(s.len() - p.len(), s.len() as int) == p
}

/// Whether a file name is that of a session log of `app_name`: the
/// application's name and an underscore in front, `.log` at the end.
pub open spec fn is_session_log(name: Seq<char>, app_name: Seq<char>) -> bool {
    has_prefix(encode_utf8(name), encode_utf8(app_name + "_"@)) && has_suffix(
        encode_utf8(name),
        encode_utf8(".log"@),
    )
}

/// Whether the file `j` is a session log that comes before the file `i`
/// when the newest goes first: it is newer, or as old and listed earlier.
pub open spec fn precedes(files: Seq<LogFile>, app_name: Seq<char>, j: int, i: int) -> bool {
    is_session_log(files[j].name@, app_name) && (files[j].modified > files[i].modified || (
    files[j].modified == files[i].modified && j < i))
}

/// The number of files among the first `n` that precede the file `i`.
pub open spec fn rank_among(files: Seq<LogFile>, app_name: Seq<char>, i: int, n: int) -> int
    decreases n,
{
    if n <= 0 {
        0
    } else {
        rank_among(files, app_name, i, n - 1) + if precedes(files, app_name, n - 1, i) {
            1int
        } else {
            0int
        }
    }
}

/// Whether the file `i` is a session log beyond the `retention` newest.
pub open spec fn is_expired(files: Seq<LogFile>, app_name: Seq<char>, retention: int, i: int)
    -> bool {
    is_session_log(files[i].name@, app_name) && rank_among(
        files,
        app_name,
        i,
        files.len() as int,
    ) >= retention
}

/// Whether the bytes `s` begin with the bytes `p`.
pub fn starts_with_bytes(s: &[u8], p: &[u8]) -> (yes: bool)
    ensures
        yes == has_prefix(s@, p@),
{
    let n: usize = p.len();
    if n > s.len() {
        return false;
    }
    let mut i: usize = 0;
    while i < n
        invariant
            i <= n,
            n == p@.len(),
            n <= s@.len(),
            forall|j: int| 0 <= j < i ==> s@[j] == p@[j],
        decreases n - i,
    {
        if s[i] != p[i] {
            proof {
                assert(s@.subrange(0, n as int)[i as int] == s@[i as int]);
            }
            return false;
        }
        i = i + 1;
    }
    proof {
        assert(s@.subrange(0, n as int) =~= p@);
    }
    true
}

/// Whether the bytes `s` end with the bytes `p`.
pub fn ends_with_bytes(s: &[u8], p: &[u8]) -> (yes: bool)
    ensures
        yes == has_suffix(s@, p@),
{
    let n: usize = p.len();
    let m: usize = s.len();
    if n > m {
        return false;
    }
    let start: usize = m - n;
    let mut i: usize = 0;
    while i < n
        invariant
            i <= n,
            n == p@.len(),
            m == s@.len(),
            start == m - n,
            forall|j: int| 0 <= j < i ==> s@[start + j] == p@[j],
        decreases n - i,
    {
        if s[start + i] != p[i] {
            proof {
                assert(s@.subrange(start as int, m as int)[i as int] == s@[start + i]);
            }
            return false;
        }
        i = i + 1;
    }
    proof {
        assert(s@.subrange(start as int, m as int) =~= p@);
    }
    true
}

impl SessionLogger {
    /// Chooses the old log files to remove: of the session logs of this
    /// application in `files`, all but the newest `retention_count`. Files
    /// of one age count in the order of the listing. The result holds the
    /// indices of the chosen files, in ascending order.
    pub fn clean_old_logs(&self, files: &Vec<LogFile>) -> (expired: Vec<usize>)
        ensures
            forall|k: int|
                0 <= k < expired@.len() ==> 0 <= #[trigger] expired@[k] < files@.len()
                    && is_expired(
                    files@,
                    self@.app_name,
                    self@.retention_count as int,
                    expired@[k] as int,
                ),
            forall|k: int, l: int| 0 <= k < l < expired@.len() ==> expired@[k] < expired@[l],
            forall|i: int|
                0 <= i < files@.len() && is_expired(
                    files@,
                    self@.app_name,
                    self@.retention_count as int,
                    i,
                ) ==> expired@.contains(i as usize),
    {
        let mut prefix = String::from_str(self.app_name.as_str());
        prefix.append("_");
        let ghost app = self@.app_name;
        let ghost keep = self@.retention_count as int;
        let n: usize = files.len();
        let mut is_log: Vec<bool> = Vec::new();
        let mut i: usize = 0;
        while i < n
            invariant
                i <= n,
                n == files@.len(),
                prefix@ == app + "_"@,
                is_log@.len() == i,
                forall|j: int| 0 <= j < i ==> is_log@[j] == is_session_log(files@[j].name@, app),
            decreases n - i,
        {
            let name = files[i].name.as_str().as_bytes();
            is_log.push(
                starts_with_bytes(name, prefix.as_str().as_bytes()) && ends_with_bytes(
                    name,
                    ".log".as_bytes(),
                ),
            );
            i = i + 1;
        }
        let mut expired: Vec<usize> = Vec::new();
        let mut i: usize = 0;
        while i < n
            invariant
                i <= n,
                n == files@.len(),
                is_log@.len() == n,
                app == self@.app_name,
                keep == self@.retention_count,
                forall|j: int| 0 <= j < n ==> is_log@[j] == is_session_log(files@[j].name@, app),
                forall|k: int|
                    0 <= k < expired@.len() ==> 0 <= #[trigger] expired@[k] < i && is_expired(
                        files@,
                        app,
                        keep,
                        expired@[k] as int,
                    ),
                forall|k: int, l: int| 0 <= k < l < expired@.len() ==> expired@[k] < expired@[l],
                forall|j: int|
                    0 <= j < i && is_expired(files@, app, keep, j) ==> expired@.contains(j as usize),
            decreases n - i,
        {
            if is_log[i] {
                let modified: u64 = files[i].modified;
                let mut rank: usize = 0;
                let mut j: usize = 0;
                while j < n
                    invariant
                        j <= n,
                        i < n,
                        n == files@.len(),
                        is_log@.len() == n,
                        modified == files@[i as int].modified,
                        forall|q: int|
                            0 <= q < n ==> is_log@[q] == is_session_log(files@[q].name@, app),
                        rank == rank_among(files@, app, i as int, j as int),
                        rank <= j,
                    decreases n - j,
                {
                    if is_log[j] && (files[j].modified > modified || (files[j].modified == modified
                        && j < i)) {
                        rank = rank + 1;
                    }
                    j = j + 1;
                }
                if rank >= self.retention_count {
                    let ghost before = expired@;
                    expired.push(i);
                    proof {
                        assert forall|q: int|
                            0 <= q < i && is_expired(files@, app, keep, q) implies expired@.contains(
                            q as usize,
                        ) by {
                            let k = choose|k: int| 0 <= k < before.len() && before[k] == q as usize;
                            assert(expired@[k] == q as usize);
                        }
                        assert(expired@[before.len() as int] == i);
                    }
                }
            }
            i = i + 1;
        }
        expired
    }
}

} // verus!
