//! The scan: a single forward pass over the lines of a log that keeps the
//! device clock, the running device time and at most one backtrace under
//! construction, and emits each backtrace once it holds both a program
//! counter and at least one frame.
use vstd::prelude::*;
use crate::text::{chars_of, copy_range, value_or_zero, parse_or_zero, string_of};
use crate::pattern::{
    bt_capture, device_tag, find_backtrace, find_device_tag, find_pc, find_sync_value,
    is_sync_line, is_sync_line_exec, pc_capture, sync_value,
};
use crate::clock::{absolute_time, render_text, LogTimestamp};
use crate::frames::{decode_frames, entries_view, frames_of, StackEntry};

verus! {

/// A captured crash event.
#[derive(Debug)]
pub struct Backtrace {
    /// 1-based number of the line where the record began.
    pub location: usize,
    /// Wall-clock (or raw device) time at which the record began.
    pub timestamp: String,
    /// Faulting address; empty until a program-counter line is seen.
    pub pc: String,
    pub stack: Vec<StackEntry>,
}

pub struct BacktraceModel {
    pub location: nat,
    pub timestamp: Seq<char>,
    pub pc: Seq<char>,
    pub stack: Seq<(Seq<char>, Seq<char>)>,
}

impl View for Backtrace {
    type V = BacktraceModel;

    open spec fn view(&self) -> BacktraceModel {
        BacktraceModel {
            location: self.location as nat,
            timestamp: self.timestamp@,
            pc: self.pc@,
            stack: entries_view(self.stack@),
        }
    }
}

pub open spec fn backtraces_view(v: Seq<Backtrace>) -> Seq<BacktraceModel> {
    v.map_values(|b: Backtrace| b@)
}

/// The state of a scan: the clock's anchor pair, the running device time in
/// seconds, the record under construction and the records emitted so far.
pub struct ScanModel {
    pub utc: int,
    pub boot: int,
    pub running: int,
    pub current: Option<BacktraceModel>,
    pub done: Seq<BacktraceModel>,
}

pub open spec fn initial_scan() -> ScanModel {
    ScanModel { utc: 0, boot: 0, running: 0, current: None, done: seq![] }
}

/// Seconds of the line's device-time tag, or `prev` where it has none.
pub open spec fn tag_seconds(line: Seq<char>, prev: int) -> int {
    match device_tag(line) {
        Some(d) => value_or_zero(d) / 1000,
        None => prev,
    }
}

pub open spec fn is_complete(b: BacktraceModel) -> bool {
    b.pc.len() > 0 && b.stack.len() > 0
}

/// A record begun at line `n` (0-based), stamped with the device time
/// `running` through the clock of `m`.
pub open spec fn fresh_record(m: ScanModel, n: nat, running: int) -> BacktraceModel {
    BacktraceModel {
        location: n + 1,
        timestamp: render_text(absolute_time(m.utc, m.boot, running)),
        pc: seq![],
        stack: seq![],
    }
}

/// The record under construction after folding in line `n` (0-based) of a
/// line that is not a synchronization line; `running` is the device time
/// as of that line.
pub open spec fn fold_fragment(m: ScanModel, line: Seq<char>, n: nat, running: int) -> Option<
    BacktraceModel,
> {
    let base = match m.current {
        Some(b) => b,
        None => fresh_record(m, n, running),
    };
    match pc_capture(line) {
        Some(p) => Some(
            BacktraceModel { location: base.location, timestamp: base.timestamp, pc: p, stack: base.stack },
        ),
        None => match bt_capture(line) {
            Some(r) => Some(
                BacktraceModel {
                    location: base.location,
                    timestamp: base.timestamp,
                    pc: base.pc,
                    stack: base.stack + frames_of(r),
                },
            ),
            None => m.current,
        },
    }
}

/// One line (number `n`, 0-based) of the scan.
pub open spec fn step(m: ScanModel, line: Seq<char>, n: nat) -> ScanModel {
    let running = tag_seconds(line, m.running);
    if is_sync_line(line) {
        ScanModel {
            utc: match sync_value(line) {
                Some(d) => value_or_zero(d),
                None => m.utc,
            },
            boot: tag_seconds(line, m.boot),
            running: running,
            current: m.current,
            done: m.done,
        }
    } else {
        let cur = fold_fragment(m, line, n, running);
        if cur is Some && is_complete(cur->0) {
            ScanModel {
                utc: m.utc,
                boot: m.boot,
                running: running,
                current: None,
                done: m.done.push(cur->0),
            }
        } else {
            ScanModel { utc: m.utc, boot: m.boot, running: running, current: cur, done: m.done }
        }
    }
}

/// The state after scanning the lines `ls` in order.
pub open spec fn scan_lines(ls: Seq<Seq<char>>) -> ScanModel
    decreases ls.len(),
{
    if ls.len() == 0 {
        initial_scan()
    } else {
        step(scan_lines(ls.drop_last()), ls.last(), (ls.len() - 1) as nat)
    }
}

pub open spec fn strip_cr(l: Seq<char>) -> Seq<char> {
    if l.len() > 0 && l.last() == '\r' {
        l.drop_last()
    } else {
        l
    }
}

/// Splitting at line feeds, read left to right: the lines finished so far
/// (each without its `\n` or `\r\n`) and the line being read.
pub open spec fn line_state(s: Seq<char>) -> (Seq<Seq<char>>, Seq<char>)
    decreases s.len(),
{
    if s.len() == 0 {
        (seq![], seq![])
    } else {
        let (done, cur) = line_state(s.drop_last());
        if s.last() == '\n' {
            (done.push(strip_cr(cur)), seq![])
        } else {
            (done, cur.push(s.last()))
        }
    }
}

/// The lines of a text: a final line needs no terminator, and a text that
/// ends with one has no empty line after it.
pub open spec fn lines_of(s: Seq<char>) -> Seq<Seq<char>> {
    let (done, cur) = line_state(s);
    if cur.len() > 0 {
        done.push(cur)
    } else {
        done
    }
}

/// The backtraces of a log, in the order in which they were completed.
pub open spec fn extracted(log: Seq<char>) -> Seq<BacktraceModel> {
    scan_lines(lines_of(log)).done
}

pub open spec fn lines_view(v: Seq<Vec<char>>) -> Seq<Seq<char>> {
    v.map_values(|l: Vec<char>| l@)
}

/// Splits a text into its lines (see `lines_of`).
pub fn split_lines(text: &Vec<char>) -> (r: Vec<Vec<char>>)
    ensures
        lines_view(r@) == lines_of(text@),
{
    let mut out: Vec<Vec<char>> = Vec::new();
    let mut cur: Vec<char> = Vec::new();
    let mut i: usize = 0;
    assert(text@.take(0) =~= seq![]);
    assert(lines_view(out@) =~= seq![]);
    while i < text.len()
        invariant
            i <= text@.len(),
            lines_view(out@) == line_state(text@.take(i as int)).0,
            cur@ == line_state(text@.take(i as int)).1,
        decreases text@.len() - i,
    {
        assert(text@.take(i + 1).drop_last() =~= text@.take(i as int));
        let c = text[i];
        if c == '\n' {
            let ghost before = cur@;
            if cur.len() > 0 && cur[cur.len() - 1] == '\r' {
                cur.pop();
            }
            assert(cur@ =~= strip_cr(before));
            let line = cur;
            proof {
                assert(lines_view(out@.push(line)) =~= lines_view(out@).push(line@));
            }
            out.push(line);
            cur = Vec::new();
        } else {
            cur.push(c);
        }
        i = i + 1;
    }
    assert(text@.take(i as int) =~= text@);
    if cur.len() > 0 {
        proof {
            assert(lines_view(out@.push(cur)) =~= lines_view(out@).push(cur@));
        }
        out.push(cur);
    }
    out
}

/// The scan's state: the device clock, the running device time in seconds,
/// the record under construction and the completed records.
pub struct Scanner {
    pub clock: LogTimestamp,
    pub running: i64,
    pub current: Option<Backtrace>,
    pub done: Vec<Backtrace>,
}

impl View for Scanner {
    type V = ScanModel;

    open spec fn view(&self) -> ScanModel {
        ScanModel {
            utc: self.clock.time_utc as int,
            boot: self.clock.time_boot as int,
            running: self.running as int,
            current: match self.current {
                Some(b) => Some(b@),
                None => None,
            },
            done: backtraces_view(self.done@),
        }
    }
}

/// The record under construction, or a new one begun at line `n`.
fn record_or_fresh(current: Option<Backtrace>, clock: &LogTimestamp, running: i64, n: usize) -> (b:
    Backtrace)
    requires
        n < usize::MAX,
    ensures
        b@ == match current {
            Some(c) => c@,
            None => fresh_record(
                ScanModel {
                    utc: clock.time_utc as int,
                    boot: clock.time_boot as int,
                    running: 0,
                    current: None,
                    done: seq![],
                },
                n as nat,
                running as int,
            ),
        },
{
    match current {
        Some(bt) => bt,
        None => {
            let b = Backtrace {
                location: n + 1,
                timestamp: clock.to_string(running),
                pc: String::new(),
                stack: Vec::new(),
            };
            assert(entries_view(b.stack@) =~= seq![]);
            b
        },
    }
}

impl Scanner {
    /// The state before the first line.
    pub fn new() -> (r: Self)
        ensures
            r@ == initial_scan(),
    {
        let r = Scanner { clock: LogTimestamp::new(), running: 0, current: None, done: Vec::new() };
        assert(r@.done =~= seq![]);
        r
    }

    /// Takes line `n` (0-based) of the log into the scan.
    pub fn feed_line(self, line: &Vec<char>, n: usize) -> (r: Self)
        requires
            n < usize::MAX,
        ensures
            r@ == step(self@, line@, n as nat),
    {
        let Scanner { clock, running, current, done } = self;
        let ghost m = self@;
        let mut clock = clock;
        let mut running = running;
        let mut done = done;
        let tag_secs: Option<i64> = match find_device_tag(line) {
            Some((a, b)) => Some(parse_or_zero(line, a, b) / 1000),
            None => None,
        };
        match tag_secs {
            Some(t) => {
                running = t;
            },
            None => {},
        }
        assert(running == tag_seconds(line@, m.running));
        if is_sync_line_exec(line) {
            match tag_secs {
                Some(t) => {
                    clock.time_boot = t;
                },
                None => {},
            }
            match find_sync_value(line) {
                Some((a, b)) => {
                    clock.time_utc = parse_or_zero(line, a, b);
                },
                None => {},
            }
            return Scanner { clock, running, current, done };
        }
        let next: Option<Backtrace> = match find_pc(line) {
            Some((a, b)) => {
                let base = record_or_fresh(current, &clock, running, n);
                let pc = copy_range(line, a, b);
                Some(
                    Backtrace {
                        location: base.location,
                        timestamp: base.timestamp,
                        pc: string_of(&pc),
                        stack: base.stack,
                    },
                )
            },
            None => match find_backtrace(line) {
                Some(a) => {
                    let base = record_or_fresh(current, &clock, running, n);
                    let rest = copy_range(line, a, line.len());
                    let mut frames = decode_frames(&rest);
                    let mut stack = base.stack;
                    let ghost s0 = stack@;
                    let ghost f0 = frames@;
                    stack.append(&mut frames);
                    assert(entries_view(stack@) =~= entries_view(s0) + entries_view(f0));
                    Some(
                        Backtrace {
                            location: base.location,
                            timestamp: base.timestamp,
                            pc: base.pc,
                            stack,
                        },
                    )
                },
                None => current,
            },
        };
        proof {
            let want = fold_fragment(m, line@, n as nat, running as int);
            assert(match next {
                Some(b) => want == Some(b@),
                None => want is None,
            });
        }
        let complete = match &next {
            Some(bt) => bt.pc.as_str().is_empty() == false && bt.stack.len() > 0,
            None => false,
        };
        if complete {
            let bt = next.unwrap();
            proof {
                assert(backtraces_view(done@.push(bt)) =~= backtraces_view(done@).push(bt@));
            }
            done.push(bt);
            Scanner { clock, running, current: None, done }
        } else {
            Scanner { clock, running, current: next, done }
        }
    }
}

/// Extracts the completed backtraces of a log, in the order of completion.
pub fn extract_backtraces(log: &str) -> (r: Vec<Backtrace>)
    ensures
        backtraces_view(r@) == extracted(log@),
{
    let text = chars_of(log);
    let lines = split_lines(&text);
    let ghost ls = lines_view(lines@);
    let mut scanner = Scanner::new();
    let mut n: usize = 0;
    assert(ls.take(0) =~= seq![]);
    while n < lines.len()
        invariant
            n <= lines@.len(),
            ls == lines_view(lines@),
            ls == lines_of(text@),
            scanner@ == scan_lines(ls.take(n as int)),
        decreases lines@.len() - n,
    {
        assert(ls.take(n + 1).drop_last() =~= ls.take(n as int));
        scanner = scanner.feed_line(&lines[n], n);
        n = n + 1;
    }
    assert(ls.take(n as int) =~= ls);
    scanner.done
}

} // verus!
