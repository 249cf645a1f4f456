//! Plain-byte representations of the chain's 20-byte addresses and
//! 256-bit words, with their numeric value and comparisons.

use vstd::prelude::*;
use vstd::arithmetic::mul::lemma_mul_inequality;

verus! {

/// Numeric value of a big-endian byte string: the first byte is the most
/// significant.
pub open spec fn be_val(s: Seq<u8>) -> nat
    decreases s.len(),
{
    if s.len() == 0 {
        0
    } else {
        (s.first() * pow256((s.len() - 1) as nat) + be_val(s.drop_first())) as nat
    }
}

/// 256 raised to the power n.
pub open spec fn pow256(n: nat) -> nat
    decreases n,
{
    if n == 0 {
        1
    } else {
        256 * pow256((n - 1) as nat)
    }
}

pub proof fn lemma_be_val_bound(s: Seq<u8>)
    ensures
        be_val(s) < pow256(s.len()),
    decreases s.len(),
{
    if s.len() == 0 {
    } else {
        let p = pow256((s.len() - 1) as nat);
        lemma_be_val_bound(s.drop_first());
        assert(s.first() <= 255);
        lemma_mul_inequality(s.first() as int, 255, p as int);
        assert(255 * p + p == 256 * p);
    }
}

/// Two byte strings of one length with equal prefixes are ordered as the
/// first bytes where they differ.
pub proof fn lemma_be_val_prefix_gt(s: Seq<u8>, t: Seq<u8>, i: int)
    requires
        s.len() == t.len(),
        0 <= i < s.len(),
        forall|j: int| 0 <= j < i ==> s[j] == t[j],
        s[i] > t[i],
    ensures
        be_val(s) > be_val(t),
    decreases i,
{
    let p = pow256((s.len() - 1) as nat);
    if i == 0 {
        lemma_be_val_bound(t.drop_first());
        assert(t.first() as int + 1 <= s.first() as int);
        lemma_mul_inequality(t.first() as int + 1, s.first() as int, p as int);
        assert((t.first() as int + 1) * p == t.first() as int * p + p) by (nonlinear_arith);
    } else {
        let s1 = s.drop_first();
        let t1 = t.drop_first();
        assert(forall|j: int| 0 <= j < i - 1 ==> s1[j] == t1[j]);
        assert(s1[i - 1] > t1[i - 1]);
        lemma_be_val_prefix_gt(s1, t1, i - 1);
        assert(s.first() == t.first());
    }
}

/// True exactly when the two byte strings are equal.
pub fn bytes_eq(a: &Vec<u8>, b: &Vec<u8>) -> (r: bool)
    ensures
        r == (a@ == b@),
{
    if a.len() != b.len() {
        assert(a@ != b@) by {
            assert(a@.len() != b@.len());
        }
        return false;
    }
    let n = a.len();
    let mut i: usize = 0;
    while i < n
        invariant
            n == a@.len() == b@.len(),
            0 <= i <= n,
            forall|j: int| 0 <= j < i ==> a@[j] == b@[j],
        decreases n - i,
    {
        if a[i] != b[i] {
            return false;
        }
        i += 1;
    }
    proof {
        assert(a@ =~= b@);
    }
    true
}

/// True exactly when the big-endian value of `a` exceeds that of `b`.
/// The two strings must have one length.
pub fn be_bytes_gt(a: &Vec<u8>, b: &Vec<u8>) -> (r: bool)
    requires
        a@.len() == b@.len(),
    ensures
        r == (be_val(a@) > be_val(b@)),
{
    let n = a.len();
    let mut i: usize = 0;
    while i < n
        invariant
            n == a@.len() == b@.len(),
            0 <= i <= n,
            forall|j: int| 0 <= j < i ==> a@[j] == b@[j],
        decreases n - i,
    {
        if a[i] > b[i] {
            proof {
                lemma_be_val_prefix_gt(a@, b@, i as int);
            }
            return true;
        }
        if a[i] < b[i] {
            proof {
                lemma_be_val_prefix_gt(b@, a@, i as int);
            }
            return false;
        }
        i += 1;
    }
    proof {
        assert(a@ =~= b@);
    }
    false
}

/// A fresh byte string with the same contents.
pub fn copy_bytes(src: &Vec<u8>) -> (r: Vec<u8>)
    ensures
        r@ == src@,
{
    let mut out: Vec<u8> = Vec::new();
    let n = src.len();
    let mut i: usize = 0;
    while i < n
        invariant
            n == src@.len(),
            0 <= i <= n,
            out@ == src@.take(i as int),
        decreases n - i,
    {
        out.push(src[i]);
        proof {
            assert(out@ =~= src@.take(i as int + 1));
        }
        i += 1;
    }
    proof {
        assert(src@.take(n as int) =~= src@);
    }
    out
}

/// A 20-byte account address.
#[derive(Clone, Debug)]
pub struct Address {
    pub bytes: Vec<u8>,
}

impl View for Address {
    type V = Seq<u8>;

    open spec fn view(&self) -> Seq<u8> {
        self.bytes@
    }
}

impl Address {
    /// A well-formed address holds exactly 20 bytes.
    pub open spec fn wf(&self) -> bool {
        self@.len() == 20
    }

    /// A fresh address with the same bytes.
    pub fn duplicate(&self) -> (r: Address)
        ensures
            r@ == self@,
    {
        Address { bytes: copy_bytes(&self.bytes) }
    }

    /// True exactly when the two addresses hold the same bytes.
    pub fn same_as(&self, other: &Address) -> (r: bool)
        ensures
            r == (self@ == other@),
    {
        bytes_eq(&self.bytes, &other.bytes)
    }
}

/// A 256-bit word: a storage slot key or a storage value.
#[derive(Clone, Debug)]
pub struct Word {
    pub bytes: Vec<u8>,
}

impl View for Word {
    type V = Seq<u8>;

    open spec fn view(&self) -> Seq<u8> {
        self.bytes@
    }
}

impl Word {
    /// A well-formed word holds exactly 32 bytes.
    pub open spec fn wf(&self) -> bool {
        self@.len() == 32
    }

    /// A fresh word with the same bytes.
    pub fn duplicate(&self) -> (r: Word)
        ensures
            r@ == self@,
    {
        Word { bytes: copy_bytes(&self.bytes) }
    }
}

/// Value of a hexadecimal digit in ASCII, or 16 for a byte that is no
/// such digit.
pub open spec fn hex_digit_val(b: u8) -> nat {
    if 48 <= b <= 57 {
        (b - 48) as nat
    } else if 97 <= b <= 102 {
        (b - 97 + 10) as nat
    } else if 65 <= b <= 70 {
        (b - 65 + 10) as nat
    } else {
        16
    }
}

/// True when the byte is an ASCII hexadecimal digit.
pub open spec fn is_hex_digit(b: u8) -> bool {
    hex_digit_val(b) < 16
}

/// True when `s` spells a 20-byte address: `0x` and forty hexadecimal
/// digits.
pub open spec fn is_address_literal(s: Seq<u8>) -> bool {
    &&& s.len() == 42
    &&& s[0] == 48
    &&& s[1] == 120 || s[1] == 88
    &&& forall|j: int| 2 <= j < 42 ==> is_hex_digit(#[trigger] s[j])
}

/// The address bytes spelled by a valid address literal.
pub open spec fn address_of_literal(s: Seq<u8>) -> Seq<u8> {
    Seq::new(20, |i: int| (hex_digit_val(s[2 + 2 * i]) * 16 + hex_digit_val(s[3 + 2 * i])) as u8)
}

/// Value of one hexadecimal digit byte, or 16 where it is none.
fn hex_digit(b: u8) -> (r: u8)
    ensures
        r == hex_digit_val(b),
{
    if 48 <= b && b <= 57 {
        b - 48
    } else if 97 <= b && b <= 102 {
        b - 97 + 10
    } else if 65 <= b && b <= 70 {
        b - 65 + 10
    } else {
        16
    }
}

/// Parses an address written as `0x` followed by forty hexadecimal
/// digits. Returns the address exactly when the input has that shape.
pub fn parse_address(s: &Vec<u8>) -> (r: Option<Address>)
    ensures
        match r {
            Option::Some(a) => is_address_literal(s@) && a.wf() && a@ == address_of_literal(s@),
            Option::None => !is_address_literal(s@),
        },
{
    if s.len() != 42 {
        return None;
    }
    if s[0] != 48 || (s[1] != 120 && s[1] != 88) {
        return None;
    }
    let mut out: Vec<u8> = Vec::new();
    let mut i: usize = 0;
    while i < 20
        invariant
            s@.len() == 42,
            0 <= i <= 20,
            out@.len() == i,
            forall|j: int| 2 <= j < 2 + 2 * i ==> is_hex_digit(#[trigger] s@[j]),
            forall|k: int| 0 <= k < i ==> out@[k] == (hex_digit_val(s@[2 + 2 * k]) * 16 + hex_digit_val(
                s@[3 + 2 * k])) as u8,
        decreases 20 - i,
    {
        let hi = hex_digit(s[2 + 2 * i]);
        let lo = hex_digit(s[3 + 2 * i]);
        if hi == 16 || lo == 16 {
            return None;
        }
        out.push(hi * 16 + lo);
        i += 1;
    }
    proof {
        assert(out@ =~= address_of_literal(s@));
    }
    Some(Address { bytes: out })
}

} // verus!
