//! What is handed to an address-to-symbol resolver for one backtrace, and
//! how its answer, one line per address handed over, is laid against the
//! frames.
use vstd::prelude::*;
use crate::extract::Backtrace;

verus! {

/// The addresses to resolve: the program counter, then the first field of
/// each frame, in order.
pub open spec fn resolver_inputs(bt: Backtrace) -> Seq<Seq<char>> {
    seq![bt.pc@] + bt.stack@.map_values(|e: crate::frames::StackEntry| e.name@)
}

pub open spec fn strings_view(v: Seq<String>) -> Seq<Seq<char>> {
    v.map_values(|s: String| s@)
}

/// The addresses to hand to the resolver (see `resolver_inputs`).
pub fn resolver_addresses(bt: &Backtrace) -> (r: Vec<String>)
    ensures
        strings_view(r@) == resolver_inputs(*bt),
{
    let mut r: Vec<String> = Vec::new();
    r.push(bt.pc.clone());
    let mut i: usize = 0;
    while i < bt.stack.len()
        invariant
            i <= bt.stack@.len(),
            strings_view(r@) == seq![bt.pc@] + bt.stack@.take(i as int).map_values(
                |e: crate::frames::StackEntry| e.name@,
            ),
        decreases bt.stack@.len() - i,
    {
        let ghost before = r@;
        r.push(bt.stack[i].name.clone());
        proof {
            assert(strings_view(before.push(r@.last())) =~= strings_view(before).push(r@.last()@));
            assert(bt.stack@.take(i + 1) =~= bt.stack@.take(i as int).push(bt.stack@[i as int]));
            assert(bt.stack@.take(i + 1).map_values(|e: crate::frames::StackEntry| e.name@)
                =~= bt.stack@.take(i as int).map_values(|e: crate::frames::StackEntry| e.name@).push(
                bt.stack@[i as int].name@,
            ));
            assert(r@ == before.push(r@.last()));
        }
        i = i + 1;
    }
    assert(bt.stack@.take(i as int) =~= bt.stack@);
    r
}

/// Lays the resolver's lines against the frames: entry `i` is the second
/// field of frame `i` with resolved line `i`, for as many entries as there
/// are both frames and lines.
pub fn annotate_frames(bt: &Backtrace, resolved: &Vec<String>) -> (r: Vec<(String, String)>)
    ensures
        r@.len() == if resolved@.len() < bt.stack@.len() {
            resolved@.len()
        } else {
            bt.stack@.len()
        },
        forall|i: int|
            0 <= i < r@.len() ==> (#[trigger] r@[i]).0@ == bt.stack@[i].addr@ && r@[i].1@
                == resolved@[i]@,
{
    let mut r: Vec<(String, String)> = Vec::new();
    let mut i: usize = 0;
    while i < resolved.len() && i < bt.stack.len()
        invariant
            i <= resolved@.len(),
            i <= bt.stack@.len(),
            r@.len() == i,
            forall|k: int|
                0 <= k < i ==> (#[trigger] r@[k]).0@ == bt.stack@[k].addr@ && r@[k].1@
                    == resolved@[k]@,
        decreases resolved@.len() - i,
    {
        r.push((bt.stack[i].addr.clone(), resolved[i].clone()));
        i = i + 1;
    }
    r
}

} // verus!
