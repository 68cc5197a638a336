//! Decoding the frame list that follows a backtrace marker. The list is
//! either inline (`name:address` tokens separated by spaces) or free text,
//! from which one address is taken.
use vstd::prelude::*;
use crate::text::{copy_range, is_hex, is_hex_exec, string_of};
use crate::pattern::{find_loose_address, loose_address};

verus! {

/// One stack frame: the text before and after the first colon of its token.
#[derive(Debug)]
pub struct StackEntry {
    pub name: String,
    pub addr: String,
}

impl View for StackEntry {
    type V = (Seq<char>, Seq<char>);

    open spec fn view(&self) -> (Seq<char>, Seq<char>) {
        (self.name@, self.addr@)
    }
}

pub open spec fn is_inline_char(c: char) -> bool {
    is_hex(c) || c == ':' || c == 'x' || c == ' '
}

/// A frame list in the inline encoding: not empty, and made of hexadecimal
/// digits, `:`, `x` and spaces only.
pub open spec fn is_inline(r: Seq<char>) -> bool {
    r.len() > 0 && forall|k: int| 0 <= k < r.len() ==> is_inline_char(#[trigger] r[k])
}

/// Splitting at spaces, read left to right: the tokens finished so far and
/// the token being read.
pub open spec fn token_state(r: Seq<char>) -> (Seq<Seq<char>>, Seq<char>)
    decreases r.len(),
{
    if r.len() == 0 {
        (seq![], seq![])
    } else {
        let (done, cur) = token_state(r.drop_last());
        if r.last() == ' ' {
            if cur.len() > 0 {
                (done.push(cur), seq![])
            } else {
                (done, cur)
            }
        } else {
            (done, cur.push(r.last()))
        }
    }
}

/// The non-empty space-separated tokens of `r`, in order.
pub open spec fn tokens_of(r: Seq<char>) -> Seq<Seq<char>> {
    let (done, cur) = token_state(r);
    if cur.len() > 0 {
        done.push(cur)
    } else {
        done
    }
}

/// Length of the run of characters other than `:` starting at `j`.
pub open spec fn non_colon_run(s: Seq<char>, j: int) -> nat
    decreases s.len() - j,
{
    if 0 <= j < s.len() && s[j] != ':' {
        1 + non_colon_run(s, j + 1)
    } else {
        0
    }
}

/// A token split at its first colon; a token without a colon gives two
/// empty fields.
pub open spec fn entry_of(t: Seq<char>) -> (Seq<char>, Seq<char>) {
    let k = non_colon_run(t, 0);
    if k < t.len() {
        (t.subrange(0, k as int), t.subrange((k + 1) as int, t.len() as int))
    } else {
        (seq![], seq![])
    }
}

/// The frames of a frame list: one per token in the inline encoding; else
/// the leftmost address found in the text, with an empty second field, or
/// nothing where there is none.
pub open spec fn frames_of(r: Seq<char>) -> Seq<(Seq<char>, Seq<char>)> {
    if is_inline(r) {
        tokens_of(r).map_values(|t: Seq<char>| entry_of(t))
    } else {
        match loose_address(r) {
            Some(a) => seq![(a, seq![])],
            None => seq![],
        }
    }
}

pub open spec fn entries_view(v: Seq<StackEntry>) -> Seq<(Seq<char>, Seq<char>)> {
    v.map_values(|e: StackEntry| e@)
}

fn non_colon_run_exec(s: &Vec<char>) -> (r: usize)
    ensures
        r == non_colon_run(s@, 0),
        r <= s@.len(),
{
    let mut i: usize = 0;
    while i < s.len() && s[i] != ':'
        invariant
            i <= s@.len(),
            non_colon_run(s@, 0) == i + non_colon_run(s@, i as int),
        decreases s@.len() - i,
    {
        i = i + 1;
    }
    i
}

fn entry_of_exec(t: &Vec<char>) -> (e: StackEntry)
    ensures
        e@ == entry_of(t@),
{
    let k = non_colon_run_exec(t);
    if k < t.len() {
        let name = copy_range(t, 0, k);
        let addr = copy_range(t, k + 1, t.len());
        StackEntry { name: string_of(&name), addr: string_of(&addr) }
    } else {
        let empty: Vec<char> = Vec::new();
        let e = StackEntry { name: string_of(&empty), addr: string_of(&empty) };
        assert(e@.0 =~= seq![]);
        assert(e@.1 =~= seq![]);
        e
    }
}

fn is_inline_exec(r: &Vec<char>) -> (b: bool)
    ensures
        b == is_inline(r@),
{
    if r.len() == 0 {
        return false;
    }
    let mut i: usize = 0;
    while i < r.len()
        invariant
            i <= r@.len(),
            forall|k: int| 0 <= k < i ==> is_inline_char(#[trigger] r@[k]),
        decreases r@.len() - i,
    {
        let c = r[i];
        if !(is_hex_exec(c) || c == ':' || c == 'x' || c == ' ') {
            return false;
        }
        i = i + 1;
    }
    true
}

proof fn lemma_push_view(v: Seq<StackEntry>, e: StackEntry)
    ensures
        entries_view(v.push(e)) == entries_view(v).push(e@),
{
    assert(entries_view(v.push(e)) =~= entries_view(v).push(e@));
}

fn decode_inline(r: &Vec<char>) -> (out: Vec<StackEntry>)
    ensures
        entries_view(out@) == tokens_of(r@).map_values(|t: Seq<char>| entry_of(t)),
{
    let mut out: Vec<StackEntry> = Vec::new();
    let mut cur: Vec<char> = Vec::new();
    let mut i: usize = 0;
    assert(r@.take(0) =~= seq![]);
    while i < r.len()
        invariant
            i <= r@.len(),
            entries_view(out@) == token_state(r@.take(i as int)).0.map_values(
                |t: Seq<char>| entry_of(t),
            ),
            cur@ == token_state(r@.take(i as int)).1,
        decreases r@.len() - i,
    {
        let ghost before = r@.take(i as int);
        assert(r@.take(i + 1).drop_last() =~= before);
        let c = r[i];
        if c == ' ' {
            if cur.len() > 0 {
                let e = entry_of_exec(&cur);
                proof {
                    lemma_push_view(out@, e);
                    let done = token_state(before).0;
                    assert(done.push(cur@).map_values(|t: Seq<char>| entry_of(t)) =~= done.map_values(
                        |t: Seq<char>| entry_of(t),
                    ).push(entry_of(cur@)));
                }
                out.push(e);
                cur = Vec::new();
            }
        } else {
            cur.push(c);
        }
        i = i + 1;
    }
    assert(r@.take(i as int) =~= r@);
    if cur.len() > 0 {
        let e = entry_of_exec(&cur);
        proof {
            lemma_push_view(out@, e);
            let done = token_state(r@).0;
            assert(done.push(cur@).map_values(|t: Seq<char>| entry_of(t)) =~= done.map_values(
                |t: Seq<char>| entry_of(t),
            ).push(entry_of(cur@)));
        }
        out.push(e);
    }
    out
}

/// Decodes a frame list (see `frames_of`).
pub fn decode_frames(r: &Vec<char>) -> (out: Vec<StackEntry>)
    ensures
        entries_view(out@) == frames_of(r@),
{
    if is_inline_exec(r) {
        decode_inline(r)
    } else {
        let mut out: Vec<StackEntry> = Vec::new();
        match find_loose_address(r) {
            Some(a) => {
                assert(a + 10 <= r.len());
                let name = copy_range(r, a, a + 10);
                let empty: Vec<char> = Vec::new();
                let e = StackEntry { name: string_of(&name), addr: string_of(&empty) };
                out.push(e);
                assert(entries_view(out@) =~= frames_of(r@));
            },
            None => {
                assert(entries_view(out@) =~= frames_of(r@));
            },
        }
        out
    }
}

} // verus!
