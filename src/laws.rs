//! Laws of the scan, stated over its spec functions and proved.
use vstd::prelude::*;
use crate::pattern::{bt_capture, is_sync_line, hex_run, pc_at, pc_capture, pc_colon, pc_from, sync_value};
use crate::clock::absolute_time;
use crate::frames::frames_of;
use crate::extract::{extracted, lines_of, scan_lines, BacktraceModel};

verus! {

/// A line that is neither a program-counter line nor a backtrace line.
pub open spec fn unrelated(l: Seq<char>) -> bool {
    pc_capture(l) is None && bt_capture(l) is None
}

/// A program-counter line.
pub open spec fn pc_line(l: Seq<char>) -> bool {
    !is_sync_line(l) && pc_capture(l) is Some
}

/// A backtrace line that yields at least one frame.
pub open spec fn frame_line(l: Seq<char>) -> bool {
    !is_sync_line(l) && pc_capture(l) is None && bt_capture(l) is Some
        && frames_of(bt_capture(l)->0).len() > 0
}

/// The record made of program-counter line `a` and backtrace line `b`.
pub open spec fn pair_matches(r: BacktraceModel, a: Seq<char>, b: Seq<char>) -> bool {
    r.pc == pc_capture(a)->0 && r.stack == frames_of(bt_capture(b)->0)
}

/// Lines without fragments add no record and begin none.
pub proof fn lemma_unrelated_lines(ls: Seq<Seq<char>>, u: Seq<Seq<char>>)
    requires
        scan_lines(ls).current is None,
        forall|i: int| 0 <= i < u.len() ==> unrelated(#[trigger] u[i]),
    ensures
        scan_lines(ls + u).current is None,
        scan_lines(ls + u).done == scan_lines(ls).done,
    decreases u.len(),
{
    if u.len() == 0 {
        assert(ls + u =~= ls);
    } else {
        let v = u.drop_last();
        assert forall|i: int| 0 <= i < v.len() implies unrelated(#[trigger] v[i]) by {
            assert(v[i] == u[i]);
        }
        lemma_unrelated_lines(ls, v);
        assert((ls + u).drop_last() =~= ls + v);
        assert((ls + u).last() == u[u.len() - 1]);
    }
}

/// A log none of whose lines is a program-counter or backtrace line yields
/// no backtrace.
pub proof fn lemma_no_fragments_no_records(log: Seq<char>)
    requires
        forall|i: int| 0 <= i < lines_of(log).len() ==> unrelated(#[trigger] lines_of(log)[i]),
    ensures
        extracted(log).len() == 0,
{
    let ls = lines_of(log);
    lemma_unrelated_lines(seq![], ls);
    assert(seq![] + ls =~= ls);
}

proof fn lemma_hex_run_bound(s: Seq<char>, j: int)
    requires
        0 <= j <= s.len(),
    ensures
        j + hex_run(s, j) <= s.len(),
    decreases s.len() - j,
{
    if j < s.len() {
        lemma_hex_run_bound(s, j + 1);
    }
}

proof fn lemma_pc_from_nonempty(s: Seq<char>, i: int)
    requires
        pc_from(s, i) is Some,
    ensures
        pc_from(s, i)->0.len() > 0,
    decreases s.len() - i,
{
    if 0 <= i < s.len() && !pc_at(s, i) {
        lemma_pc_from_nonempty(s, i + 1);
    } else {
        lemma_hex_run_bound(s, pc_colon(s, i) + 6);
    }
}

/// From a state with no record under construction, a program-counter line
/// and then a backtrace line, or the two the other way round, complete one
/// record with that program counter and those frames.
pub proof fn lemma_fragment_order(ls: Seq<Seq<char>>, a: Seq<char>, b: Seq<char>)
    requires
        scan_lines(ls).current is None,
        pc_line(a),
        frame_line(b),
    ensures
        scan_lines(ls.push(a).push(b)).current is None,
        scan_lines(ls.push(b).push(a)).current is None,
        scan_lines(ls.push(a).push(b)).done.drop_last() == scan_lines(ls).done,
        scan_lines(ls.push(b).push(a)).done.drop_last() == scan_lines(ls).done,
        pair_matches(scan_lines(ls.push(a).push(b)).done.last(), a, b),
        pair_matches(scan_lines(ls.push(b).push(a)).done.last(), a, b),
{
    let m = scan_lines(ls);
    lemma_pc_from_nonempty(a, 0);
    assert(ls.push(a).drop_last() =~= ls);
    assert(ls.push(b).drop_last() =~= ls);
    assert(ls.push(a).push(b).drop_last() =~= ls.push(a));
    assert(ls.push(b).push(a).drop_last() =~= ls.push(b));
    let f = frames_of(bt_capture(b)->0);
    assert(seq![] + f =~= f);
    let xa = scan_lines(ls.push(a));
    assert(xa.done == m.done);
    assert(xa.current is Some);
    let xab = scan_lines(ls.push(a).push(b));
    assert(xab.done == m.done.push(xab.done.last()));
    assert(m.done.push(xab.done.last()).drop_last() =~= m.done);
    let xb = scan_lines(ls.push(b));
    assert(xb.done == m.done);
    assert(xb.current is Some);
    let xba = scan_lines(ls.push(b).push(a));
    assert(xba.done == m.done.push(xba.done.last()));
    assert(m.done.push(xba.done.last()).drop_last() =~= m.done);
}

/// Two crash events (program-counter line then backtrace line) separated by
/// unrelated lines give two records, in scan order, each with its own
/// program counter and frames.
pub proof fn lemma_two_events(
    ls: Seq<Seq<char>>,
    a1: Seq<char>,
    b1: Seq<char>,
    u: Seq<Seq<char>>,
    a2: Seq<char>,
    b2: Seq<char>,
)
    requires
        scan_lines(ls).current is None,
        pc_line(a1),
        frame_line(b1),
        forall|i: int| 0 <= i < u.len() ==> unrelated(#[trigger] u[i]),
        pc_line(a2),
        frame_line(b2),
    ensures
        ({
            let d = scan_lines((ls.push(a1).push(b1) + u).push(a2).push(b2)).done;
            let d0 = scan_lines(ls).done;
            d.len() == d0.len() + 2 && d.subrange(0, d0.len() as int) == d0
                && pair_matches(d[d0.len() as int], a1, b1)
                && pair_matches(d[(d0.len() + 1) as int], a2, b2)
        }),
{
    let d0 = scan_lines(ls).done;
    lemma_fragment_order(ls, a1, b1);
    let l1 = ls.push(a1).push(b1);
    let d1 = scan_lines(l1).done;
    lemma_unrelated_lines(l1, u);
    let l2 = l1 + u;
    lemma_fragment_order(l2, a2, b2);
    let d = scan_lines(l2.push(a2).push(b2)).done;
    assert(d1 =~= d0.push(d1.last()));
    assert(d =~= d1.push(d.last()));
    assert(d.subrange(0, d0.len() as int) =~= d0);
}

/// Before any synchronization line, absolute time is the device time itself.
pub proof fn lemma_unsynchronized_passthrough(ls: Seq<Seq<char>>, t: int)
    requires
        forall|i: int| 0 <= i < ls.len() ==> !is_sync_line(#[trigger] ls[i]),
    ensures
        scan_lines(ls).utc == 0,
        absolute_time(scan_lines(ls).utc, scan_lines(ls).boot, t) == t,
    decreases ls.len(),
{
    if ls.len() > 0 {
        let v = ls.drop_last();
        assert forall|i: int| 0 <= i < v.len() implies !is_sync_line(#[trigger] v[i]) by {
            assert(v[i] == ls[i]);
        }
        lemma_unsynchronized_passthrough(v, t);
        assert(!is_sync_line(ls[ls.len() - 1]));
    }
}

/// A synchronization line without a readable UTC value leaves the clock's
/// wall-clock anchor and the records as they were; an unsynchronized clock
/// stays so, and its absolute time stays the device time.
pub proof fn lemma_malformed_sync(ls: Seq<Seq<char>>, line: Seq<char>, t: int)
    requires
        is_sync_line(line),
        sync_value(line) is None,
    ensures
        scan_lines(ls.push(line)).utc == scan_lines(ls).utc,
        scan_lines(ls.push(line)).current == scan_lines(ls).current,
        scan_lines(ls.push(line)).done == scan_lines(ls).done,
        scan_lines(ls).utc == 0 ==> absolute_time(
            scan_lines(ls.push(line)).utc,
            scan_lines(ls.push(line)).boot,
            t,
        ) == t,
{
    assert(ls.push(line).drop_last() =~= ls);
}

/// Extraction is a function of the log text alone: two runs on the same
/// text give the same records.
pub proof fn lemma_extraction_deterministic(
    log: Seq<char>,
    r1: Seq<BacktraceModel>,
    r2: Seq<BacktraceModel>,
)
    requires
        r1 == extracted(log),
        r2 == extracted(log),
    ensures
        r1 == r2,
{
}

} // verus!
