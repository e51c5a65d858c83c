//! Small shared helpers: decimal rendering of integers, byte-range copying,
//! and a linear congruential step.

use vstd::prelude::*;

verus! {

/// The decimal digit characters of `n`, most significant first.
pub open spec fn dec_chars(n: nat) -> Seq<char>
    decreases n,
{
    if n < 10 {
        seq![dec_char(n)]
    } else {
        dec_chars(n / 10).push(dec_char(n % 10))
    }
}

/// The character for one decimal digit.
pub open spec fn dec_char(d: nat) -> char {
    if d == 0 { '0' }
    else if d == 1 { '1' }
    else if d == 2 { '2' }
    else if d == 3 { '3' }
    else if d == 4 { '4' }
    else if d == 5 { '5' }
    else if d == 6 { '6' }
    else if d == 7 { '7' }
    else if d == 8 { '8' }
    else { '9' }
}

/// The decimal digit bytes of `n`, most significant first.
pub open spec fn dec_bytes(n: nat) -> Seq<u8>
    decreases n,
{
    if n < 10 {
        seq![(0x30 + n) as u8]
    } else {
        dec_bytes(n / 10).push((0x30 + n % 10) as u8)
    }
}

/// One decimal digit as a string slice.
fn digit_str(d: u64) -> (r: &'static str)
    requires
        d < 10,
    ensures
        r@ =~= seq![dec_char(d as nat)],
{
    let r: &'static str = if d == 0 { "0" }
        else if d == 1 { "1" }
        else if d == 2 { "2" }
        else if d == 3 { "3" }
        else if d == 4 { "4" }
        else if d == 5 { "5" }
        else if d == 6 { "6" }
        else if d == 7 { "7" }
        else if d == 8 { "8" }
        else { "9" };
    proof {
        reveal_strlit("0");
        reveal_strlit("1");
        reveal_strlit("2");
        reveal_strlit("3");
        reveal_strlit("4");
        reveal_strlit("5");
        reveal_strlit("6");
        reveal_strlit("7");
        reveal_strlit("8");
        reveal_strlit("9");
    }
    r
}

/// `n` written in decimal.
pub fn u64_to_string(n: u64) -> (s: String)
    ensures
        s@ == dec_chars(n as nat),
    decreases n,
{
    if n < 10 {
        let s = String::from_str(digit_str(n));
        proof {
            assert(s@ =~= dec_chars(n as nat));
        }
        s
    } else {
        let s = u64_to_string(n / 10);
        let s = s.concat(digit_str(n % 10));
        proof {
            assert(s@ =~= dec_chars(n as nat));
        }
        s
    }
}

/// Appends `n` written in decimal to `out`.
pub fn push_u64_dec(out: &mut Vec<u8>, n: u64)
    ensures
        final(out)@ == old(out)@ + dec_bytes(n as nat),
    decreases n,
{
    if n >= 10 {
        push_u64_dec(out, n / 10);
        out.push(0x30 + (n % 10) as u8);
        proof {
            assert(out@ =~= old(out)@ + dec_bytes(n as nat));
        }
    } else {
        out.push(0x30 + n as u8);
        proof {
            assert(out@ =~= old(out)@ + dec_bytes(n as nat));
        }
    }
}

/// A copy of `src[start..end]`.
pub fn copy_range(src: &[u8], start: usize, end: usize) -> (out: Vec<u8>)
    requires
        start <= end <= src@.len(),
    ensures
        out@ == src@.subrange(start as int, end as int),
{
    let sub = vstd::slice::slice_subrange(src, start, end);
    vstd::slice::slice_to_vec(sub)
}

/// Whether two byte strings hold the same bytes.
pub fn bytes_eq(a: &[u8], b: &[u8]) -> (r: bool)
    ensures
        r <==> a@ == b@,
{
    let n = a.len();
    if n != b.len() {
        proof {
            assert(a@.len() != b@.len());
        }
        return false;
    }
    let mut i: usize = 0;
    while i < n
        invariant
            n == a@.len(),
            n == b@.len(),
            i <= n,
            forall|j: int| 0 <= j < i ==> a@[j] == b@[j],
        decreases n - i,
    {
        if a[i] != b[i] {
            return false;
        }
        i = i + 1;
    }
    proof {
        assert(a@ =~= b@);
    }
    true
}

/// A copy of the whole byte vector.
pub fn clone_bytes(v: &Vec<u8>) -> (out: Vec<u8>)
    ensures
        out@ == v@,
{
    let s = v.as_slice();
    let out = vstd::slice::slice_to_vec(s);
    proof {
        assert(out@ =~= v@);
    }
    out
}

/// One step of a linear congruential generator, reduced modulo `2^32`.
pub fn lcg(seed: &mut u64)
    ensures
        *final(seed) == ((1_664_525 * *old(seed)) % 0x1_0000_0000_0000_0000 + 1_013_904_223)
            % 0x1_0000_0000_0000_0000 % 0x1_0000_0000,
{
    let a: u64 = 1_664_525;
    let c: u64 = 1_013_904_223;
    let m: u64 = 0x1_0000_0000;
    *seed = (a.wrapping_mul(*seed)).wrapping_add(c) % m;
}

} // verus!
