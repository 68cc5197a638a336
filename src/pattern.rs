//! The line patterns of the log format. Each pattern is stated as a spec
//! function giving the text captured by its leftmost match (or `None`), and
//! found by an executable search proved to agree with it.
//!
//! Digits are ASCII digits; whitespace is Unicode's White_Space. Lines hold
//! no line break.
use vstd::prelude::*;
use crate::text::{
    chars_of, contains, contains_exec, has_at, has_at_exec, is_alnum, is_alnum_exec, is_digit,
    is_digit_exec, is_hex, is_hex_exec, is_space, is_space_exec, is_upper,
};

verus! {

/// Length of the run of digits starting at `j`.
pub open spec fn digit_run(s: Seq<char>, j: int) -> nat
    decreases s.len() - j,
{
    if 0 <= j < s.len() && is_digit(s[j]) {
        1 + digit_run(s, j + 1)
    } else {
        0
    }
}

/// Length of the run of whitespace starting at `j`.
pub open spec fn space_run(s: Seq<char>, j: int) -> nat
    decreases s.len() - j,
{
    if 0 <= j < s.len() && is_space(s[j]) {
        1 + space_run(s, j + 1)
    } else {
        0
    }
}

/// Length of the run of hexadecimal digits starting at `j`.
pub open spec fn hex_run(s: Seq<char>, j: int) -> nat
    decreases s.len() - j,
{
    if 0 <= j < s.len() && is_hex(s[j]) {
        1 + hex_run(s, j + 1)
    } else {
        0
    }
}

pub fn digit_run_exec(s: &Vec<char>, j: usize) -> (r: usize)
    requires
        j <= s@.len(),
    ensures
        r == digit_run(s@, j as int),
        j + r <= s@.len(),
        forall|k: int| j <= k < j + r ==> is_digit(s@[k]),
{
    let mut i: usize = j;
    while i < s.len() && is_digit_exec(s[i])
        invariant
            j <= i <= s@.len(),
            digit_run(s@, j as int) == (i - j) + digit_run(s@, i as int),
            forall|k: int| j <= k < i ==> is_digit(s@[k]),
        decreases s@.len() - i,
    {
        i = i + 1;
    }
    i - j
}

pub fn space_run_exec(s: &Vec<char>, j: usize) -> (r: usize)
    requires
        j <= s@.len(),
    ensures
        r == space_run(s@, j as int),
        j + r <= s@.len(),
{
    let mut i: usize = j;
    while i < s.len() && is_space_exec(s[i])
        invariant
            j <= i <= s@.len(),
            space_run(s@, j as int) == (i - j) + space_run(s@, i as int),
        decreases s@.len() - i,
    {
        i = i + 1;
    }
    i - j
}

pub fn hex_run_exec(s: &Vec<char>, j: usize) -> (r: usize)
    requires
        j <= s@.len(),
    ensures
        r == hex_run(s@, j as int),
        j + r <= s@.len(),
{
    let mut i: usize = j;
    while i < s.len() && is_hex_exec(s[i])
        invariant
            j <= i <= s@.len(),
            hex_run(s@, j as int) == (i - j) + hex_run(s@, i as int),
        decreases s@.len() - i,
    {
        i = i + 1;
    }
    i - j
}

pub open spec fn word_pc() -> Seq<char> {
    seq!['P', 'C']
}

pub open spec fn word_backtrace() -> Seq<char> {
    seq!['B', 'a', 'c', 'k', 't', 'r', 'a', 'c', 'e', ':']
}

pub open spec fn word_sync() -> Seq<char> {
    seq!['u', 'p', 'd', 'a', 't', 'e', 'd', ' ', 't', 'i', 'm', 'e', ':']
}

pub open spec fn word_addr() -> Seq<char> {
    seq!['0', 'x', '4']
}

fn chars_from(w: &str) -> (r: Vec<char>)
    ensures
        r@ == w@,
{
    chars_of(w)
}

pub fn word_pc_exec() -> (r: Vec<char>)
    ensures
        r@ == word_pc(),
{
    let r = chars_from("PC");
    proof {
        reveal_strlit("PC");
    }
    assert(r@ =~= word_pc());
    r
}

pub fn word_backtrace_exec() -> (r: Vec<char>)
    ensures
        r@ == word_backtrace(),
{
    let r = chars_from("Backtrace:");
    proof {
        reveal_strlit("Backtrace:");
    }
    assert(r@ =~= word_backtrace());
    r
}

pub fn word_sync_exec() -> (r: Vec<char>)
    ensures
        r@ == word_sync(),
{
    let r = chars_from("updated time:");
    proof {
        reveal_strlit("updated time:");
    }
    assert(r@ =~= word_sync());
    r
}

pub fn word_addr_exec() -> (r: Vec<char>)
    ensures
        r@ == word_addr(),
{
    let r = chars_from("0x4");
    proof {
        reveal_strlit("0x4");
    }
    assert(r@ =~= word_addr());
    r
}

// ---------------------------------------------------------------------------
// Device-time tag: an uppercase letter, a space, `(`, digits, `)`.

pub open spec fn tag_at(s: Seq<char>, i: int) -> bool {
    0 <= i && i + 3 <= s.len() && is_upper(s[i]) && s[i + 1] == ' ' && s[i + 2] == '('
        && digit_run(s, i + 3) > 0 && i + 3 + digit_run(s, i + 3) < s.len()
        && s[i + 3 + digit_run(s, i + 3)] == ')'
}

pub open spec fn tag_from(s: Seq<char>, i: int) -> Option<Seq<char>>
    decreases s.len() - i,
{
    if i < 0 || i >= s.len() {
        None
    } else if tag_at(s, i) {
        Some(s.subrange(i + 3, i + 3 + digit_run(s, i + 3)))
    } else {
        tag_from(s, i + 1)
    }
}

/// The digits (milliseconds) of the leftmost device-time tag of a line.
pub open spec fn device_tag(s: Seq<char>) -> Option<Seq<char>> {
    tag_from(s, 0)
}

/// Finds the leftmost device-time tag; gives the range of its digits.
pub fn find_device_tag(s: &Vec<char>) -> (r: Option<(usize, usize)>)
    ensures
        match r {
            Some((a, b)) => a <= b <= s@.len() && device_tag(s@) == Some(s@.subrange(a as int, b as int))
                && forall|k: int| a <= k < b ==> is_digit(s@[k]),
            None => device_tag(s@) is None,
        },
{
    let mut i: usize = 0;
    while i < s.len()
        invariant
            i <= s@.len(),
            device_tag(s@) == tag_from(s@, i as int),
        decreases s@.len() - i,
    {
        if s.len() - i >= 3 && 'A' <= s[i] && s[i] <= 'Z' && s[i + 1] == ' ' && s[i + 2] == '(' {
            let k = digit_run_exec(s, i + 3);
            if k > 0 && i + 3 + k < s.len() && s[i + 3 + k] == ')' {
                return Some((i + 3, i + 3 + k));
            }
        }
        i = i + 1;
    }
    None
}

// ---------------------------------------------------------------------------
// Synchronization value: `updated time:`, whitespace, digits (UTC seconds).

pub open spec fn sync_digits_start(s: Seq<char>, i: int) -> int {
    i + 13 + space_run(s, i + 13)
}

pub open spec fn sync_at(s: Seq<char>, i: int) -> bool {
    has_at(s, i, word_sync()) && digit_run(s, sync_digits_start(s, i)) > 0
}

pub open spec fn sync_from(s: Seq<char>, i: int) -> Option<Seq<char>>
    decreases s.len() - i,
{
    if i < 0 || i >= s.len() {
        None
    } else if sync_at(s, i) {
        let p = sync_digits_start(s, i);
        Some(s.subrange(p, p + digit_run(s, p)))
    } else {
        sync_from(s, i + 1)
    }
}

/// The digits of the leftmost synchronization value of a line.
pub open spec fn sync_value(s: Seq<char>) -> Option<Seq<char>> {
    sync_from(s, 0)
}

/// A line that holds the synchronization marker `updated time:`.
pub open spec fn is_sync_line(s: Seq<char>) -> bool {
    contains(s, word_sync())
}

pub fn find_sync_value(s: &Vec<char>) -> (r: Option<(usize, usize)>)
    ensures
        match r {
            Some((a, b)) => a <= b <= s@.len() && sync_value(s@) == Some(s@.subrange(a as int, b as int))
                && forall|k: int| a <= k < b ==> is_digit(s@[k]),
            None => sync_value(s@) is None,
        },
{
    let w = word_sync_exec();
    let mut i: usize = 0;
    while i < s.len()
        invariant
            i <= s@.len(),
            w@ == word_sync(),
            sync_value(s@) == sync_from(s@, i as int),
        decreases s@.len() - i,
    {
        if has_at_exec(s, i, &w) {
            let sp = space_run_exec(s, i + 13);
            let p = i + 13 + sp;
            let k = digit_run_exec(s, p);
            if k > 0 {
                return Some((p, p + k));
            }
        }
        i = i + 1;
    }
    None
}

pub fn is_sync_line_exec(s: &Vec<char>) -> (r: bool)
    ensures
        r == is_sync_line(s@),
{
    let w = word_sync_exec();
    contains_exec(s, &w)
}

// ---------------------------------------------------------------------------
// Code address: `0x4`, one of `0`-`2`, a digit.

pub open spec fn addr_prefix_at(s: Seq<char>, p: int) -> bool {
    has_at(s, p, word_addr()) && p + 4 < s.len() && '0' <= s[p + 3] && s[p + 3] <= '2'
        && is_digit(s[p + 4])
}

fn addr_prefix_at_exec(s: &Vec<char>, p: usize) -> (r: bool)
    ensures
        r == addr_prefix_at(s@, p as int),
{
    let w = word_addr_exec();
    if has_at_exec(s, p, &w) && s.len() - p > 4 {
        '0' <= s[p + 3] && s[p + 3] <= '2' && is_digit_exec(s[p + 4])
    } else {
        false
    }
}

// ---------------------------------------------------------------------------
// Program counter: `PC`, whitespace, `:`, then a code address followed by
// any hexadecimal digits.

pub open spec fn pc_colon(s: Seq<char>, i: int) -> int {
    i + 2 + space_run(s, i + 2)
}

pub open spec fn pc_at(s: Seq<char>, i: int) -> bool {
    has_at(s, i, word_pc()) && pc_colon(s, i) < s.len() && s[pc_colon(s, i)] == ':'
        && addr_prefix_at(s, pc_colon(s, i) + 1)
}

pub open spec fn pc_from(s: Seq<char>, i: int) -> Option<Seq<char>>
    decreases s.len() - i,
{
    if i < 0 || i >= s.len() {
        None
    } else if pc_at(s, i) {
        let p = pc_colon(s, i) + 1;
        Some(s.subrange(p, p + 5 + hex_run(s, p + 5)))
    } else {
        pc_from(s, i + 1)
    }
}

/// The program-counter address of a line, from its leftmost match.
pub open spec fn pc_capture(s: Seq<char>) -> Option<Seq<char>> {
    pc_from(s, 0)
}

pub fn find_pc(s: &Vec<char>) -> (r: Option<(usize, usize)>)
    ensures
        match r {
            Some((a, b)) => a < b <= s@.len() && pc_capture(s@) == Some(s@.subrange(a as int, b as int)),
            None => pc_capture(s@) is None,
        },
{
    let w = word_pc_exec();
    let mut i: usize = 0;
    while i < s.len()
        invariant
            i <= s@.len(),
            w@ == word_pc(),
            pc_capture(s@) == pc_from(s@, i as int),
        decreases s@.len() - i,
    {
        if has_at_exec(s, i, &w) {
            let sp = space_run_exec(s, i + 2);
            let c = i + 2 + sp;
            if c < s.len() && s[c] == ':' && addr_prefix_at_exec(s, c + 1) {
                let p = c + 1;
                let h = hex_run_exec(s, p + 5);
                return Some((p, p + 5 + h));
            }
        }
        i = i + 1;
    }
    None
}

// ---------------------------------------------------------------------------
// Backtrace line: `Backtrace:`, at most one whitespace, then the rest.

pub open spec fn rest_from(s: Seq<char>, j: int) -> Seq<char> {
    if j < s.len() && is_space(s[j]) {
        s.subrange(j + 1, s.len() as int)
    } else {
        s.subrange(j, s.len() as int)
    }
}

pub open spec fn bt_from(s: Seq<char>, i: int) -> Option<Seq<char>>
    decreases s.len() - i,
{
    if i < 0 || i >= s.len() {
        None
    } else if has_at(s, i, word_backtrace()) {
        Some(rest_from(s, i + 10))
    } else {
        bt_from(s, i + 1)
    }
}

/// The remainder of a backtrace line after its marker.
pub open spec fn bt_capture(s: Seq<char>) -> Option<Seq<char>> {
    bt_from(s, 0)
}

pub fn find_backtrace(s: &Vec<char>) -> (r: Option<usize>)
    ensures
        match r {
            Some(a) => a <= s@.len() && bt_capture(s@) == Some(s@.subrange(a as int, s@.len() as int)),
            None => bt_capture(s@) is None,
        },
{
    let w = word_backtrace_exec();
    let mut i: usize = 0;
    while i < s.len()
        invariant
            i <= s@.len(),
            w@ == word_backtrace(),
            bt_capture(s@) == bt_from(s@, i as int),
        decreases s@.len() - i,
    {
        if has_at_exec(s, i, &w) {
            let j = i + 10;
            if j < s.len() && is_space_exec(s[j]) {
                return Some(j + 1);
            }
            return Some(j);
        }
        i = i + 1;
    }
    None
}

// ---------------------------------------------------------------------------
// Address in free text: a character that is not an ASCII letter or digit, a
// code address with exactly five more hexadecimal digits, and again a
// character that is not an ASCII letter or digit.

pub open spec fn loose_at(s: Seq<char>, i: int) -> bool {
    0 <= i && i + 11 < s.len() && !is_alnum(s[i]) && addr_prefix_at(s, i + 1)
        && (forall|k: int| 6 <= k < 11 ==> is_hex(#[trigger] s[i + k])) && !is_alnum(s[i + 11])
}

pub open spec fn loose_from(s: Seq<char>, i: int) -> Option<Seq<char>>
    decreases s.len() - i,
{
    if i < 0 || i >= s.len() {
        None
    } else if loose_at(s, i) {
        Some(s.subrange(i + 1, i + 11))
    } else {
        loose_from(s, i + 1)
    }
}

/// The leftmost address found in free text.
pub open spec fn loose_address(s: Seq<char>) -> Option<Seq<char>> {
    loose_from(s, 0)
}

fn loose_at_exec(s: &Vec<char>, i: usize) -> (r: bool)
    ensures
        r == loose_at(s@, i as int),
{
    if i >= s.len() || s.len() - i <= 11 {
        return false;
    }
    if is_alnum_exec(s[i]) || !addr_prefix_at_exec(s, i + 1) || is_alnum_exec(s[i + 11]) {
        return false;
    }
    let mut k: usize = 6;
    while k < 11
        invariant
            6 <= k <= 11,
            i + 11 < s.len(),
            forall|m: int| 6 <= m < k ==> is_hex(#[trigger] s@[i + m]),
        decreases 11 - k,
    {
        if !is_hex_exec(s[i + k]) {
            return false;
        }
        k = k + 1;
    }
    true
}

pub fn find_loose_address(s: &Vec<char>) -> (r: Option<usize>)
    ensures
        match r {
            Some(a) => a + 10 <= s@.len() && loose_address(s@) == Some(s@.subrange(a as int, a + 10)),
            None => loose_address(s@) is None,
        },
{
    let mut i: usize = 0;
    while i < s.len()
        invariant
            i <= s@.len(),
            loose_address(s@) == loose_from(s@, i as int),
        decreases s@.len() - i,
    {
        if loose_at_exec(s, i) {
            assert(i + 11 < s.len());
            return Some(i + 1);
        }
        i = i + 1;
    }
    None
}

} // verus!
