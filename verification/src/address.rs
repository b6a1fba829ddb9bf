//! Canonical address representation.
//!
//! Every address is normalized before storage or comparison: an optional
//! `0x` prefix is removed, the digits are left-padded with zeros to the
//! canonical width of 64, and the `0x` prefix is put back.  Two textual forms
//! of the same address therefore compare equal after normalization.

use vstd::prelude::*;
use vstd::string::*;

verus! {

/// Canonical number of hex digits in a stored address.
pub const ADDRESS_WIDTH: usize = 64;

pub open spec fn zeros(n: nat) -> Seq<char> {
    Seq::new(n, |i: int| '0')
}

pub open spec fn has_hex_prefix(s: Seq<char>) -> bool {
    s.len() >= 2 && s[0] == '0' && s[1] == 'x'
}

pub open spec fn strip_hex_prefix(s: Seq<char>) -> Seq<char> {
    if has_hex_prefix(s) {
        s.skip(2)
    } else {
        s
    }
}

pub open spec fn pad_to_width(s: Seq<char>) -> Seq<char> {
    if s.len() >= ADDRESS_WIDTH {
        s
    } else {
        zeros((ADDRESS_WIDTH - s.len()) as nat) + s
    }
}

/// The canonical fixed-width form of a textual address.
pub open spec fn spec_standard_address(s: Seq<char>) -> Seq<char> {
    seq!['0', 'x'] + pad_to_width(strip_hex_prefix(s))
}

/// Normalizes a textual address to its canonical fixed-width form.
pub fn standardize_address(addr: &str) -> (r: String)
    ensures
        r@ == spec_standard_address(addr@),
{
    let n = addr.unicode_len();
    let has_prefix = n >= 2 && addr.get_char(0) == '0' && addr.get_char(1) == 'x';
    let body: &str = if has_prefix {
        addr.substring_char(2, n)
    } else {
        addr
    };
    let m = if has_prefix {
        n - 2
    } else {
        n
    };
    proof {
        if has_prefix {
            assert(addr@.skip(2) =~= addr@.subrange(2, addr@.len() as int));
        }
        assert(body@ == strip_hex_prefix(addr@));
        assert(body@.len() == m);
    }
    let mut out = String::from_str("0x");
    proof {
        reveal_strlit("0x");
        reveal_strlit("0");
        assert(out@ =~= seq!['0', 'x'] + zeros(0));
    }
    let mut k: usize = m;
    while k < ADDRESS_WIDTH
        invariant
            m <= k,
            k <= ADDRESS_WIDTH || k == m,
            out@ == seq!['0', 'x'] + zeros((k - m) as nat),
        decreases ADDRESS_WIDTH - k,
    {
        proof {
            reveal_strlit("0");
            assert(seq!['0', 'x'] + zeros((k - m) as nat) + "0"@ =~= seq!['0', 'x'] + zeros(
                (k + 1 - m) as nat,
            ));
        }
        out.append("0");
        k = k + 1;
    }
    proof {
        if m < ADDRESS_WIDTH {
            assert(k == ADDRESS_WIDTH);
        } else {
            assert(k == m);
            assert(out@ =~= seq!['0', 'x']);
        }
    }
    out.append(body);
    proof {
        if m < ADDRESS_WIDTH {
            assert(out@ == seq!['0', 'x'] + zeros((ADDRESS_WIDTH - m) as nat) + body@);
            assert(out@ =~= seq!['0', 'x'] + (zeros((ADDRESS_WIDTH - m) as nat) + body@));
            assert(pad_to_width(body@) == zeros((ADDRESS_WIDTH - m) as nat) + body@);
        } else {
            assert(out@ =~= seq!['0', 'x'] + pad_to_width(body@));
        }
    }
    out
}

/// Normalization is idempotent: a canonical address normalizes to itself.
pub proof fn lemma_standard_address_idempotent(s: Seq<char>)
    ensures
        spec_standard_address(spec_standard_address(s)) == spec_standard_address(s),
{
    let p = pad_to_width(strip_hex_prefix(s));
    let r = seq!['0', 'x'] + p;
    assert(p.len() >= ADDRESS_WIDTH);
    assert(has_hex_prefix(r));
    assert(strip_hex_prefix(r) =~= p);
    assert(spec_standard_address(r) =~= r);
}

/// Adding the `0x` prefix to an unprefixed textual form does not change the
/// canonical address.
pub proof fn lemma_standard_address_prefix_insensitive(s: Seq<char>)
    requires
        !has_hex_prefix(s),
    ensures
        spec_standard_address(seq!['0', 'x'] + s) == spec_standard_address(s),
{
    let t = seq!['0', 'x'] + s;
    assert(has_hex_prefix(t));
    assert(strip_hex_prefix(t) =~= s);
}

/// Extra leading zeros in a short textual form do not change the canonical
/// address.
pub proof fn lemma_standard_address_leading_zero_insensitive(s: Seq<char>)
    requires
        !has_hex_prefix(s),
        !(s.len() >= 1 && s[0] == 'x'),
        s.len() < ADDRESS_WIDTH,
    ensures
        spec_standard_address(seq!['0'] + s) == spec_standard_address(s),
{
    let t = seq!['0'] + s;
    assert(!has_hex_prefix(t));
    assert(strip_hex_prefix(t) =~= t);
    assert(pad_to_width(t) =~= pad_to_width(s));
    assert(spec_standard_address(t) =~= spec_standard_address(s));
}

} // verus!
