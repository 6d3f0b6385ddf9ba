//! Symbol-name synthesis: the mangled name of a procedure's Text symbol and
//! the names of the anonymous data symbols its local data gets.

use vstd::prelude::*;
use crate::ir::ProcVal;

verus! {

/// The decimal digits of `n`, most significant first.
pub open spec fn dec_bytes(n: nat) -> Seq<u8>
    decreases n,
{
    if n < 10 {
        seq![(48 + n) as u8]
    } else {
        dec_bytes(n / 10).push((48 + n % 10) as u8)
    }
}

/// `".data"`, the tag between a procedure's name and the index of one of
/// its anonymous data symbols.
pub open spec fn data_tag() -> Seq<u8> {
    seq![46u8, 100u8, 97u8, 116u8, 97u8]
}

/// The mangled name of the `rank`-th specialization of a source symbol:
/// the first keeps the plain name, later ones carry a dot and the rank.
pub open spec fn spec_mangled(name: Seq<u8>, rank: int) -> Seq<u8> {
    if rank == 0 {
        name
    } else {
        name.push(46u8) + dec_bytes(rank as nat)
    }
}

/// The name of the `k`-th anonymous data symbol of the procedure whose
/// Text symbol is named `fname`.
pub open spec fn spec_data_sym_name(fname: Seq<u8>, k: nat) -> Seq<u8> {
    fname + data_tag() + dec_bytes(k)
}

/// How many of the first `i` procedures both survive inlining and share
/// the source symbol `sym`: the layout rank of the next such procedure.
pub open spec fn count_kept_sym(procs: Seq<ProcVal>, inlined: Seq<u64>, sym: u64, i: int) -> int
    decreases i,
{
    if i <= 0 {
        0
    } else {
        count_kept_sym(procs, inlined, sym, i - 1) + if !inlined.contains(procs[i - 1].sym)
            && procs[i - 1].sym == sym {
            1int
        } else {
            0int
        }
    }
}

/// Appends the decimal digits of `n`.
pub fn push_decimal(out: &mut Vec<u8>, n: u64)
    ensures
        final(out)@ == old(out)@ + dec_bytes(n as nat),
    decreases n,
{
    if n >= 10 {
        push_decimal(out, n / 10);
        out.push((n % 10) as u8 + 48);
        proof {
            assert(out@ =~= old(out)@ + dec_bytes(n as nat));
        }
    } else {
        out.push(n as u8 + 48);
        proof {
            assert(out@ =~= old(out)@ + dec_bytes(n as nat));
        }
    }
}

/// A fresh copy of a byte string.
pub fn copy_bytes(src: &Vec<u8>) -> (r: Vec<u8>)
    ensures
        r@ == src@,
{
    let mut r: Vec<u8> = Vec::new();
    let mut i: usize = 0;
    while i < src.len()
        invariant
            i <= src@.len(),
            r@ == src@.take(i as int),
        decreases src@.len() - i,
    {
        r.push(src[i]);
        i = i + 1;
        proof {
            assert(r@ =~= src@.take(i as int));
        }
    }
    proof {
        assert(src@.take(src@.len() as int) =~= src@);
    }
    r
}

/// Whether a set, held as a list of symbol keys, contains `x`.
pub fn contains_u64(v: &Vec<u64>, x: u64) -> (b: bool)
    ensures
        b == v@.contains(x),
{
    let mut i: usize = 0;
    while i < v.len()
        invariant
            i <= v@.len(),
            forall|j: int| 0 <= j < i ==> v@[j] != x,
        decreases v@.len() - i,
    {
        if v[i] == x {
            return true;
        }
        i = i + 1;
    }
    false
}

/// The mangled Text-symbol name of a procedure: its source name, and for a
/// later specialization of the same source symbol a dot and the rank.
pub fn mangle_name(name: &Vec<u8>, rank: u64) -> (r: Vec<u8>)
    ensures
        r@ == spec_mangled(name@, rank as int),
{
    let mut r = copy_bytes(name);
    if rank != 0 {
        r.push(46);
        push_decimal(&mut r, rank);
        proof {
            assert(name@.push(46u8) + dec_bytes(rank as nat) =~= r@);
        }
    }
    r
}

/// The name of the `k`-th anonymous data symbol of procedure `fname`.
pub fn data_sym_name(fname: &Vec<u8>, k: u64) -> (r: Vec<u8>)
    ensures
        r@ == spec_data_sym_name(fname@, k as nat),
{
    let mut r = copy_bytes(fname);
    r.push(46);
    r.push(100);
    r.push(97);
    r.push(116);
    r.push(97);
    push_decimal(&mut r, k);
    proof {
        assert(fname@ + data_tag() + dec_bytes(k as nat) =~= r@);
    }
    r
}

} // verus!
