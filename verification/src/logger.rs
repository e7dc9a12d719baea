//! In-process log: a bounded buffer of the most recent lines, mirrored line
//! by line to the console and to a log file that is rotated daily (when the
//! first line of a new day is written, the file holding the previous day's
//! lines is moved aside under a name ending in that day's date).
use vstd::prelude::*;
use std::collections::VecDeque;

use crate::calendar::{day_number, day_of_secs, format_date, format_iso, iso_date, iso_timestamp};
use crate::text::{push_char, push_str, to_owned_string};

verus! {

/// How many lines the buffer keeps.
pub const BUFFER_CAPACITY: usize = 5000;

/// One log line.
pub struct LogLine {
    /// Milliseconds since the Unix epoch.
    pub ts_ms: u128,
    /// `info`, `warn` or `error`.
    pub level: String,
    /// The component that wrote the line (`app`, `xray`, `tun`, ...).
    pub source: String,
    pub message: String,
}

pub struct LogLineView {
    pub ts_ms: u128,
    pub level: Seq<char>,
    pub source: Seq<char>,
    pub message: Seq<char>,
}

impl View for LogLine {
    type V = LogLineView;

    open spec fn view(&self) -> LogLineView {
        LogLineView {
            ts_ms: self.ts_ms,
            level: self.level@,
            source: self.source@,
            message: self.message@,
        }
    }
}

impl LogLine {
    /// A copy of this line.
    pub fn duplicate(&self) -> (r: LogLine)
        ensures
            r@ == self@,
    {
        LogLine {
            ts_ms: self.ts_ms,
            level: self.level.clone(),
            source: self.source.clone(),
            message: self.message.clone(),
        }
    }
}

/// A line to append to the log file.
pub struct FileAppend {
    pub path: String,
    /// The line, without its terminating newline.
    pub line: String,
    /// Where to move the file at `path` before appending: set when the file
    /// holds lines of an earlier day than this line's.
    pub rotate_to: Option<String>,
}

pub struct FileAppendView {
    pub path: Seq<char>,
    pub line: Seq<char>,
    pub rotate_to: Option<Seq<char>>,
}

/// What the caller has to emit after a line was logged: the console line,
/// and the file line where a log file is configured.
pub struct LogOutput {
    pub console_line: String,
    pub file_append: Option<FileAppend>,
}

pub struct LogOutputView {
    pub console_line: Seq<char>,
    pub file_append: Option<FileAppendView>,
}

impl View for LogOutput {
    type V = LogOutputView;

    open spec fn view(&self) -> LogOutputView {
        LogOutputView {
            console_line: self.console_line@,
            file_append: match self.file_append {
                Some(f) => Some(
                    FileAppendView { path: f.path@, line: f.line@, rotate_to: f.rotate_to.deep_view() },
                ),
                None => None,
            },
        }
    }
}

/// The logger's buffer (oldest line first), its log file path, and the day
/// of the lines that the log file holds, where known.
pub struct LoggerState {
    buffer: VecDeque<LogLine>,
    log_file_path: Option<String>,
    file_day: Option<i64>,
}

pub struct LoggerView {
    pub lines: Seq<LogLineView>,
    pub file_path: Option<Seq<char>>,
    pub file_day: Option<int>,
}

impl View for LoggerState {
    type V = LoggerView;

    closed spec fn view(&self) -> LoggerView {
        LoggerView {
            lines: self.buffer@.map_values(|l: LogLine| l@),
            file_path: self.log_file_path.deep_view(),
            file_day: match self.file_day {
                Some(d) => Some(d as int),
                None => None,
            },
        }
    }
}

/// The day (days since 1970-01-01, UTC) of a line logged at `ts_ms`: the day
/// its timestamp text shows.
pub open spec fn line_day(ts_ms: u128) -> int {
    day_of_secs((ts_ms / 1000) as int)
}

/// Where the file holding the lines of `day` is moved: `path.YYYY-MM-DD`.
pub open spec fn rotated_path(path: Seq<char>, day: int) -> Seq<char> {
    path + seq!['.'] + iso_date(day)
}

/// The line that `log` records.
pub open spec fn log_line(ts_ms: u128, level: Seq<char>, source: Seq<char>, message: Seq<char>) -> LogLineView {
    LogLineView { ts_ms, level, source, message }
}

/// What logging `l` in state `s` emits: the console line and, with a log
/// file, the file line, after moving the file aside when it holds another
/// day's lines.
pub open spec fn log_output(s: LoggerView, l: LogLineView) -> LogOutputView {
    LogOutputView {
        console_line: console_text(l.level, l.source, l.message),
        file_append: match s.file_path {
            None => None,
            Some(p) => Some(
                FileAppendView {
                    path: p,
                    line: line_text(l),
                    rotate_to: match s.file_day {
                        Some(d) => if d != line_day(l.ts_ms) {
                            Some(rotated_path(p, d))
                        } else {
                            None
                        },
                        None => None,
                    },
                },
            ),
        },
    }
}

/// The state after logging `l`: the line is in the buffer and, with a log
/// file, the file holds lines of `l`'s day.
pub open spec fn after_log(s: LoggerView, l: LogLineView) -> LoggerView {
    LoggerView {
        lines: ring_push(s.lines, l),
        file_path: s.file_path,
        file_day: if s.file_path is Some {
            Some(line_day(l.ts_ms))
        } else {
            s.file_day
        },
    }
}

/// Appends `l` to the buffered lines, dropping the oldest line first when the
/// buffer is full.
pub open spec fn ring_push(lines: Seq<LogLineView>, l: LogLineView) -> Seq<LogLineView> {
    if lines.len() >= BUFFER_CAPACITY {
        lines.drop_first().push(l)
    } else {
        lines.push(l)
    }
}

/// The console form of a line: `[source][level] message`.
pub open spec fn console_text(level: Seq<char>, source: Seq<char>, message: Seq<char>) -> Seq<char> {
    seq!['['] + source + seq![']', '['] + level + seq![']', ' '] + message
}

/// The file and export form of a line:
/// `YYYY-MM-DDThh:mm:ssZ [level] [source] message`.
pub open spec fn line_text(l: LogLineView) -> Seq<char> {
    iso_timestamp((l.ts_ms / 1000) as int) + seq![' ', '['] + l.level + seq![']', ' ', '['] + l.source
        + seq![']', ' '] + l.message
}

/// Lines of the export, each ended by a newline.
pub open spec fn lines_text(lines: Seq<LogLineView>) -> Seq<char>
    decreases lines.len(),
{
    if lines.len() == 0 {
        Seq::empty()
    } else {
        lines_text(lines.drop_last()) + line_text(lines.last()) + seq!['\n']
    }
}

/// The diagnostic header of an export.
pub open spec fn report_header(
    now_ms: u128,
    app_version: Seq<char>,
    os_arch: Seq<char>,
    os_family: Seq<char>,
) -> Seq<char> {
    "=== ProxysVPN Diagnostic Report ===\n"@ + "Generated: "@ + iso_timestamp((now_ms / 1000) as int)
        + "\n"@ + "App version: "@ + app_version + "\n"@ + "OS arch: "@ + os_arch + "\n"@
        + "OS family: "@ + os_family + "\n"@ + "\n=== Log Lines ===\n"@
}

/// Well-formed: the buffer holds at most `BUFFER_CAPACITY` lines, and the
/// file's day is one that a timestamp shows.
pub open spec fn logger_wf(s: LoggerView) -> bool {
    &&& s.lines.len() <= BUFFER_CAPACITY
    &&& s.file_day matches Some(d) ==> d <= i64::MAX - 719468
}

/// The day of the log file's lines for a file last written at
/// `written_ms`, if it exists.
pub open spec fn file_day_of(written_ms: Option<u128>) -> Option<int> {
    match written_ms {
        Some(ms) => Some(line_day(ms)),
        None => None,
    }
}

impl LoggerState {
    /// An empty logger that mirrors lines to `log_file_path` where given;
    /// `file_written_ms` is when an existing log file was last written.
    pub fn new(log_file_path: Option<String>, file_written_ms: Option<u128>) -> (r: LoggerState)
        ensures
            r@.lines == Seq::<LogLineView>::empty(),
            r@.file_path == log_file_path.deep_view(),
            r@.file_day == file_day_of(file_written_ms),
            logger_wf(r@),
    {
        let file_day = match file_written_ms {
            Some(ms) => Some(day_number(ms / 1000)),
            None => None,
        };
        let r = LoggerState {
            buffer: VecDeque::with_capacity(BUFFER_CAPACITY),
            log_file_path,
            file_day,
        };
        assert(r@.lines =~= Seq::<LogLineView>::empty());
        r
    }
}

fn line_string(l: &LogLine) -> (r: String)
    ensures
        r@ == line_text(l@),
{
    let mut out = format_iso(l.ts_ms / 1000);
    push_str(&mut out, " [");
    push_str(&mut out, l.level.as_str());
    push_str(&mut out, "] [");
    push_str(&mut out, l.source.as_str());
    push_str(&mut out, "] ");
    push_str(&mut out, l.message.as_str());
    proof {
        reveal_strlit(" [");
        reveal_strlit("] [");
        reveal_strlit("] ");
    }
    assert(out@ =~= line_text(l@));
    out
}

/// Records a line at time `ts_ms` and says what to print and to write.
pub fn log(state: &mut LoggerState, ts_ms: u128, level: &str, source: &str, message: &str) -> (r:
    LogOutput)
    requires
        logger_wf(old(state)@),
    ensures
        logger_wf(final(state)@),
        final(state)@ == after_log(old(state)@, log_line(ts_ms, level@, source@, message@)),
        r@ == log_output(old(state)@, log_line(ts_ms, level@, source@, message@)),
{
    let ghost l = log_line(ts_ms, level@, source@, message@);
    let ghost old_state = state@;
    let line = LogLine {
        ts_ms,
        level: to_owned_string(level),
        source: to_owned_string(source),
        message: to_owned_string(message),
    };
    let mut console = String::new();
    push_char(&mut console, '[');
    push_str(&mut console, source);
    push_char(&mut console, ']');
    push_char(&mut console, '[');
    push_str(&mut console, level);
    push_char(&mut console, ']');
    push_char(&mut console, ' ');
    push_str(&mut console, message);
    assert(console@ =~= console_text(level@, source@, message@));
    let ghost old_lines = state@.lines;
    if state.buffer.len() >= BUFFER_CAPACITY {
        let _ = state.buffer.pop_front();
    }
    let text = line_string(&line);
    state.buffer.push_back(line);
    assert(state@.lines =~= ring_push(old_lines, l));
    let day = day_number(ts_ms / 1000);
    let file_append = match &state.log_file_path {
        Some(p) => {
            let rotate_to = match state.file_day {
                Some(d) => if d != day {
                    let mut to = p.clone();
                    push_char(&mut to, '.');
                    let date = format_date(d);
                    push_str(&mut to, date.as_str());
                    assert(to@ =~= rotated_path(p@, d as int));
                    Some(to)
                } else {
                    None
                },
                None => None,
            };
            state.file_day = Some(day);
            Some(FileAppend { path: p.clone(), line: text, rotate_to })
        },
        None => None,
    };
    let r = LogOutput { console_line: console, file_append };
    assert(state@.lines =~= after_log(old_state, l).lines);
    r
}

/// Records that the logger started.
pub fn init(state: &mut LoggerState, ts_ms: u128) -> (r: LogOutput)
    requires
        logger_wf(old(state)@),
    ensures
        logger_wf(final(state)@),
        final(state)@ == after_log(
            old(state)@,
            log_line(ts_ms, "info"@, "app"@, "logger initialized"@),
        ),
        r@ == log_output(old(state)@, log_line(ts_ms, "info"@, "app"@, "logger initialized"@)),
{
    log(state, ts_ms, "info", "app", "logger initialized")
}

/// The most recent `limit` lines (all lines without a limit), oldest first.
pub open spec fn snapshot_of(lines: Seq<LogLineView>, limit: Option<usize>) -> Seq<LogLineView> {
    let take: int = match limit {
        Some(k) => k as int,
        None => usize::MAX as int,
    };
    let start = if lines.len() > take {
        lines.len() - take
    } else {
        0
    };
    lines.skip(start)
}

/// A copy of the most recent `limit` lines (see `snapshot_of`).
pub fn snapshot(state: &LoggerState, limit: Option<usize>) -> (r: Vec<LogLine>)
    ensures
        r@.map_values(|l: LogLine| l@) == snapshot_of(state@.lines, limit),
{
    let take = match limit {
        Some(k) => k,
        None => usize::MAX,
    };
    let len = state.buffer.len();
    let start = if len > take {
        len - take
    } else {
        0
    };
    let mut out: Vec<LogLine> = Vec::new();
    let mut i = start;
    let ghost lines = state@.lines;
    assert(lines.len() == len);
    while i < len
        invariant
            start <= i <= len,
            len == state.buffer@.len(),
            lines == state.buffer@.map_values(|l: LogLine| l@),
            out@.map_values(|l: LogLine| l@) == lines.subrange(start as int, i as int),
        decreases len - i,
    {
        let l = state.buffer[i].duplicate();
        let ghost prev = out@;
        out.push(l);
        assert(out@.map_values(|l: LogLine| l@) =~= prev.map_values(|l: LogLine| l@).push(
            lines[i as int],
        ));
        assert(lines.subrange(start as int, i + 1) =~= lines.subrange(start as int, i as int).push(
            lines[i as int],
        ));
        i = i + 1;
    }
    assert(lines.subrange(start as int, len as int) =~= snapshot_of(lines, limit));
    out
}

/// Empties the buffer, then records that the user did so. The log file is
/// kept: the line is appended to it.
pub fn clear(state: &mut LoggerState, ts_ms: u128) -> (r: LogOutput)
    requires
        logger_wf(old(state)@),
    ensures
        logger_wf(final(state)@),
        final(state)@ == after_log(
            LoggerView { lines: Seq::empty(), ..old(state)@ },
            log_line(ts_ms, "info"@, "app"@, "logs cleared by user"@),
        ),
        final(state)@.lines == seq![log_line(ts_ms, "info"@, "app"@, "logs cleared by user"@)],
        r@ == log_output(old(state)@, log_line(ts_ms, "info"@, "app"@, "logs cleared by user"@)),
{
    state.buffer.clear();
    assert(state@.lines =~= Seq::<LogLineView>::empty());
    let r = log(state, ts_ms, "info", "app", "logs cleared by user");
    assert(state@.lines =~= seq![log_line(ts_ms, "info"@, "app"@, "logs cleared by user"@)]);
    r
}

/// `rel` joined to the directory `base` as a path: with a `/` between them
/// unless `base` is empty or already ends with one.
pub open spec fn path_join(base: Seq<char>, rel: Seq<char>) -> Seq<char> {
    if base.len() == 0 || base.last() == '/' {
        base + rel
    } else {
        base + seq!['/'] + rel
    }
}

/// The log file of the user whose home directory is `home`:
/// `~/Library/Logs/ProxysVPN/app.log`; none without a home directory.
pub open spec fn log_path_for(home: Option<Seq<char>>) -> Option<Seq<char>> {
    match home {
        Some(h) => Some(path_join(h, "Library/Logs/ProxysVPN/app.log"@)),
        None => None,
    }
}

/// The log file path for the home directory `home` (see `log_path_for`).
pub fn compute_log_path(home: Option<String>) -> (r: Option<String>)
    ensures
        r.deep_view() == log_path_for(home.deep_view()),
{
    match home {
        None => None,
        Some(h) => {
            let mut p = h;
            let n = p.as_str().unicode_len();
            if n > 0 && p.as_str().get_char(n - 1) != '/' {
                push_char(&mut p, '/');
            }
            push_str(&mut p, "Library/Logs/ProxysVPN/app.log");
            Some(p)
        },
    }
}

/// The path of the log file, if one is configured.
pub fn log_file_path(state: &LoggerState) -> (r: Option<String>)
    ensures
        r.deep_view() == state@.file_path,
{
    match &state.log_file_path {
        Some(p) => Some(p.clone()),
        None => None,
    }
}

/// The buffer as plain text, optionally after a diagnostic header.
pub fn export_text(
    state: &LoggerState,
    include_system_info: bool,
    now_ms: u128,
    app_version: &str,
    os_arch: &str,
    os_family: &str,
) -> (r: String)
    ensures
        r@ == (if include_system_info {
            report_header(now_ms, app_version@, os_arch@, os_family@)
        } else {
            Seq::empty()
        }) + lines_text(state@.lines),
{
    let mut out = String::new();
    if include_system_info {
        push_str(&mut out, "=== ProxysVPN Diagnostic Report ===\n");
        push_str(&mut out, "Generated: ");
        let generated = format_iso(now_ms / 1000);
        push_str(&mut out, generated.as_str());
        push_str(&mut out, "\n");
        push_str(&mut out, "App version: ");
        push_str(&mut out, app_version);
        push_str(&mut out, "\n");
        push_str(&mut out, "OS arch: ");
        push_str(&mut out, os_arch);
        push_str(&mut out, "\n");
        push_str(&mut out, "OS family: ");
        push_str(&mut out, os_family);
        push_str(&mut out, "\n");
        push_str(&mut out, "\n=== Log Lines ===\n");
        assert(out@ =~= report_header(now_ms, app_version@, os_arch@, os_family@));
    }
    let ghost head = out@;
    let ghost lines = state@.lines;
    let len = state.buffer.len();
    let mut i: usize = 0;
    assert(lines.take(0) =~= Seq::<LogLineView>::empty());
    while i < len
        invariant
            i <= len,
            len == state.buffer@.len(),
            lines == state.buffer@.map_values(|l: LogLine| l@),
            out@ == head + lines_text(lines.take(i as int)),
        decreases len - i,
    {
        let text = line_string(&state.buffer[i]);
        push_str(&mut out, text.as_str());
        push_char(&mut out, '\n');
        assert(lines.take(i + 1).drop_last() =~= lines.take(i as int));
        assert(out@ =~= head + lines_text(lines.take(i + 1)));
        i = i + 1;
    }
    assert(lines.take(len as int) =~= lines);
    out
}

/// Logging keeps the buffer bounded and holds the most recent lines: the
/// buffer after a log is the tail of the old lines followed by the new
/// line, as long as the capacity allows, and ends with the new line.
pub proof fn lemma_log_keeps_recent_lines(lines: Seq<LogLineView>, l: LogLineView)
    requires
        lines.len() <= BUFFER_CAPACITY,
    ensures
        ring_push(lines, l).len() <= BUFFER_CAPACITY,
        ring_push(lines, l).len() == if lines.len() < BUFFER_CAPACITY {
            lines.len() + 1int
        } else {
            BUFFER_CAPACITY as int
        },
        ring_push(lines, l) == lines.push(l).skip(lines.push(l).len() - ring_push(lines, l).len()),
        ring_push(lines, l).last() == l,
{
    if lines.len() >= BUFFER_CAPACITY {
        assert(lines.drop_first().push(l) =~= lines.push(l).skip(1));
    } else {
        assert(lines.push(l).skip(0) =~= lines.push(l));
    }
}

/// A one-line snapshot taken right after a log gives back the line logged.
pub proof fn lemma_snapshot_after_log(lines: Seq<LogLineView>, l: LogLineView)
    requires
        lines.len() <= BUFFER_CAPACITY,
    ensures
        snapshot_of(ring_push(lines, l), Some(1)) == seq![l],
{
    lemma_log_keeps_recent_lines(lines, l);
    let r = ring_push(lines, l);
    assert(r.skip(r.len() - 1) =~= seq![l]);
}

/// A snapshot without a limit is the whole buffer; with a limit it is the
/// last `min(limit, len)` lines.
pub proof fn lemma_snapshot_is_suffix(lines: Seq<LogLineView>, limit: usize)
    requires
        lines.len() <= BUFFER_CAPACITY,
    ensures
        snapshot_of(lines, None) == lines,
        snapshot_of(lines, Some(limit)).len() == if lines.len() < limit {
            lines.len() as int
        } else {
            limit as int
        },
        snapshot_of(lines, Some(limit)) == lines.skip(lines.len() - snapshot_of(lines, Some(limit)).len()),
{
    assert(lines.skip(0) =~= lines);
}

/// What the current log file holds after the caller emitted what logging
/// `l` in state `s` asked for: only `l` where the file was moved aside,
/// else the old lines followed by `l`.
pub open spec fn file_after_log(file: Seq<LogLineView>, s: LoggerView, l: LogLineView) -> Seq<LogLineView> {
    match log_output(s, l).file_append {
        Some(f) => if f.rotate_to is Some {
            seq![l]
        } else {
            file.push(l)
        },
        None => file,
    }
}

/// Every line of `file` is of day `day`; a file with lines has a known day.
pub open spec fn file_of_day(file: Seq<LogLineView>, day: Option<int>) -> bool {
    &&& file.len() > 0 ==> day is Some
    &&& forall|i: int| 0 <= i < file.len() ==> line_day(#[trigger] file[i].ts_ms) == day->0
}

/// The log file is rotated daily: after a line is logged, the current file
/// holds lines of that line's day only, ending with it; where the file held
/// another day's lines, they were moved aside, whole, under a name ending in
/// their day's date, and otherwise the line was appended to them.
pub proof fn lemma_log_file_rotates_daily(s: LoggerView, file: Seq<LogLineView>, l: LogLineView)
    requires
        s.file_path is Some,
        file_of_day(file, s.file_day),
    ensures
        ({
            let after = file_after_log(file, s, l);
            let f = log_output(s, l).file_append->0;
            &&& forall|i: int| 0 <= i < after.len() ==> line_day(#[trigger] after[i].ts_ms) == line_day(l.ts_ms)
            &&& after.last() == l
            &&& file_of_day(after, after_log(s, l).file_day)
            &&& f.rotate_to is None ==> after == file.push(l)
            &&& f.rotate_to matches Some(t) ==> {
                &&& s.file_day matches Some(d) && d != line_day(l.ts_ms)
                &&& t == rotated_path(s.file_path->0, s.file_day->0)
                &&& forall|i: int| 0 <= i < file.len() ==> line_day(#[trigger] file[i].ts_ms) == s.file_day->0
            }
            &&& (exists|i: int| 0 <= i < file.len() && line_day(#[trigger] file[i].ts_ms) != line_day(l.ts_ms))
                ==> f.rotate_to is Some
        }),
{
    let after = file_after_log(file, s, l);
    let f = log_output(s, l).file_append->0;
    if f.rotate_to is None {
        assert forall|i: int| 0 <= i < after.len() implies line_day(#[trigger] after[i].ts_ms) == line_day(
            l.ts_ms,
        ) by {
            if i < file.len() {
                assert(after[i] == file[i]);
            }
        }
    }
}

/// The buffer after logging the lines `ls`, one after another, from `s`.
pub open spec fn log_all(s: LoggerView, ls: Seq<LogLineView>) -> LoggerView
    decreases ls.len(),
{
    if ls.len() == 0 {
        s
    } else {
        after_log(log_all(s, ls.drop_last()), ls.last())
    }
}

/// How many of `n` lines the buffer keeps.
pub open spec fn kept(n: int) -> int {
    if n < BUFFER_CAPACITY {
        n
    } else {
        BUFFER_CAPACITY as int
    }
}

/// A run of logs keeps the most recent lines: after logging `ls` the buffer
/// holds the last `min(total, 5000)` of the old lines followed by `ls`, in
/// order; after 5000 logs or more, exactly the last 5000 logged.
pub proof fn lemma_log_run_keeps_last_lines(s: LoggerView, ls: Seq<LogLineView>)
    requires
        s.lines.len() <= BUFFER_CAPACITY,
    ensures
        log_all(s, ls).lines == (s.lines + ls).skip((s.lines + ls).len() - kept(
            (s.lines + ls).len() as int,
        )),
        ls.len() >= BUFFER_CAPACITY ==> log_all(s, ls).lines == ls.skip(ls.len() - BUFFER_CAPACITY),
    decreases ls.len(),
{
    let all = s.lines + ls;
    if ls.len() == 0 {
        assert(all =~= s.lines);
        assert(all.skip(0) =~= s.lines);
    } else {
        let prev = ls.drop_last();
        let x = ls.last();
        lemma_log_run_keeps_last_lines(s, prev);
        let t = s.lines + prev;
        let k = t.len() - kept(t.len() as int);
        let lp = t.skip(k);
        assert(log_all(s, prev).lines == lp);
        lemma_log_keeps_recent_lines(lp, x);
        assert(t.push(x) =~= all);
        let r = ring_push(lp, x);
        assert(r == lp.push(x).skip(lp.push(x).len() - r.len()));
        let j = lp.push(x).len() - r.len();
        assert(lp.push(x) =~= all.skip(k));
        assert(all.skip(k).skip(j) =~= all.skip(k + j));
        assert(k + j == all.len() - kept(all.len() as int));
    }
    if ls.len() >= BUFFER_CAPACITY {
        assert(all.len() - kept(all.len() as int) == s.lines.len() + ls.len() - BUFFER_CAPACITY);
        assert(all.skip(all.len() - kept(all.len() as int)) =~= ls.skip(ls.len() - BUFFER_CAPACITY));
    }
}

} // verus!
