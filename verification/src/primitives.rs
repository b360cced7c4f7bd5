//! The fixed-size values of the chain: addresses, 32-byte words, 256-bit integers and
//! signatures.

use vstd::prelude::*;

verus! {

/// The number that a byte string denotes when read as a big-endian integer.
pub open spec fn be_value(s: Seq<u8>) -> nat
    decreases s.len(),
{
    if s.len() == 0 {
        0
    } else {
        be_value(s.drop_last()) * 256 + s.last() as nat
    }
}

/// `256` raised to the power `n`.
pub open spec fn pow256(n: nat) -> nat
    decreases n,
{
    if n == 0 {
        1
    } else {
        256 * pow256((n - 1) as nat)
    }
}

/// A big-endian byte string of length `n` denotes a number below `256^n`.
pub proof fn lemma_be_value_bound(s: Seq<u8>)
    ensures
        be_value(s) < pow256(s.len()),
    decreases s.len(),
{
    if s.len() > 0 {
        lemma_be_value_bound(s.drop_last());
    }
}

/// Reading one more byte shifts the number read so far by one byte.
pub proof fn lemma_be_value_take(s: Seq<u8>, k: int)
    requires
        0 <= k < s.len(),
    ensures
        be_value(s.take(k + 1)) == be_value(s.take(k)) * 256 + s[k] as nat,
{
    assert(s.take(k + 1).drop_last() =~= s.take(k));
}

/// Whether two byte arrays of one length hold the same bytes.
pub fn bytes_equal<const N: usize>(a: &[u8; N], b: &[u8; N]) -> (same: bool)
    ensures
        same == (a@ == b@),
        same == (*a == *b),
{
    let mut i: usize = 0;
    while i < N
        invariant
            0 <= i <= N,
            forall|j: int| 0 <= j < i ==> a[j] == b[j],
        decreases N - i,
    {
        if a[i] != b[i] {
            return false;
        }
        i += 1;
    }
    assert(a@ =~= b@);
    assert(*a =~= *b);
    true
}

/// The shape of an increment with carry: from position `i` on, `s` holds only `0xff` and `t`
/// only zero; below it the two agree but for the byte before `i`, which is one more in `t`.
pub open spec fn incremented(s: Seq<u8>, t: Seq<u8>, i: int) -> bool {
    &&& s.len() == t.len()
    &&& 0 <= i <= s.len()
    &&& forall|j: int| i <= j < s.len() ==> s[j] == 255 && t[j] == 0
    &&& i > 0 ==> {
        &&& s[i - 1] < 255
        &&& t[i - 1] == s[i - 1] + 1
        &&& forall|j: int| 0 <= j < i - 1 ==> s[j] == t[j]
    }
}

/// An increment with carry adds one to the number denoted, and wraps to zero from the largest.
pub proof fn lemma_incremented_value(s: Seq<u8>, t: Seq<u8>, i: int)
    requires
        incremented(s, t, i),
    ensures
        be_value(s) + 1 < pow256(s.len()) ==> be_value(t) == be_value(s) + 1,
        be_value(s) + 1 >= pow256(s.len()) ==> be_value(t) == 0 && i == 0,
    decreases s.len(),
{
    lemma_be_value_bound(s);
    if s.len() > 0 {
        let s1 = s.drop_last();
        let t1 = t.drop_last();
        lemma_be_value_bound(s1);
        if i == s.len() {
            assert(s1 =~= t1);
        } else {
            assert(incremented(s1, t1, i));
            lemma_incremented_value(s1, t1, i);
        }
    }
}

/// The text form of an address: `0x` and forty hexadecimal digits, whose letters carry the
/// EIP-55 checksum in their case.
pub uninterp spec fn address_text(address: Seq<u8>) -> Seq<char>;

/// Writes an address out with the `Display` impl of `alloy_primitives::Address`.
///
/// Trusted: the text depends on the twenty bytes alone. Which text it is stays unstated;
/// the contract only gives it a name.
#[verifier::external_body]
fn checksum_text(address: &[u8; 20]) -> (text: String)
    ensures
        text@ == address_text(address@),
{
    alloy_primitives::Address::new(*address).to_string()
}

/// A 20-byte account address.
#[derive(Clone, Copy, Debug, PartialEq, Eq, Hash)]
pub struct Address {
    pub bytes: [u8; 20],
}

impl View for Address {
    type V = Seq<u8>;

    open spec fn view(&self) -> Seq<u8> {
        self.bytes@
    }
}

impl Address {
    /// The address made of the given bytes.
    pub fn new(bytes: [u8; 20]) -> (res: Self)
        ensures
            res.bytes == bytes,
    {
        Address { bytes }
    }

    /// The address whose bytes are all zero.
    pub fn zero() -> (res: Self)
        ensures
            res@ == Seq::new(20, |i: int| 0u8),
    {
        Address { bytes: [0u8; 20] }
    }

    /// The address read as a big-endian integer.
    pub open spec fn value(&self) -> nat {
        be_value(self@)
    }

    /// Whether two addresses hold the same bytes.
    pub fn is_equal(&self, other: &Address) -> (b: bool)
        ensures
            b == (self@ == other@),
            b == (*self == *other),
    {
        bytes_equal(&self.bytes, &other.bytes)
    }

    /// The address in its text form.
    pub fn to_string(&self) -> (text: String)
        ensures
            text@ == address_text(self@),
    {
        checksum_text(&self.bytes)
    }

    /// Whether this address, read as a big-endian integer, is strictly below `other`.
    pub fn is_below(&self, other: &Address) -> (b: bool)
        ensures
            b == (self.value() < other.value()),
    {
        let mut below = false;
        let mut above = false;
        let mut i: usize = 0;
        while i < 20
            invariant
                0 <= i <= 20,
                below == (be_value(self@.take(i as int)) < be_value(other@.take(i as int))),
                above == (be_value(self@.take(i as int)) > be_value(other@.take(i as int))),
            decreases 20 - i,
        {
            proof {
                lemma_be_value_take(self@, i as int);
                lemma_be_value_take(other@, i as int);
            }
            if !below && !above {
                if self.bytes[i] < other.bytes[i] {
                    below = true;
                } else if self.bytes[i] > other.bytes[i] {
                    above = true;
                }
            }
            i += 1;
        }
        assert(self@.take(20) =~= self@);
        assert(other@.take(20) =~= other@);
        below
    }
}

/// A 32-byte word: a hash or a salt.
#[derive(Clone, Copy, Debug, PartialEq, Eq, Hash)]
pub struct B256 {
    pub bytes: [u8; 32],
}

impl View for B256 {
    type V = Seq<u8>;

    open spec fn view(&self) -> Seq<u8> {
        self.bytes@
    }
}

impl B256 {
    /// The word made of the given bytes.
    pub fn new(bytes: [u8; 32]) -> (res: Self)
        ensures
            res.bytes == bytes,
    {
        B256 { bytes }
    }

    /// The word whose bytes are all zero.
    pub fn zero() -> (res: Self)
        ensures
            res@ == Seq::new(32, |i: int| 0u8),
    {
        B256 { bytes: [0u8; 32] }
    }

    /// Whether two words hold the same bytes.
    pub fn is_equal(&self, other: &B256) -> (b: bool)
        ensures
            b == (self@ == other@),
            b == (*self == *other),
    {
        bytes_equal(&self.bytes, &other.bytes)
    }
}

/// The number of values of a 256-bit unsigned integer, `2^256`.
pub open spec fn u256_modulus() -> nat {
    0x1_0000_0000_0000_0000_0000_0000_0000_0000_0000_0000_0000_0000_0000_0000_0000_0000nat
}

/// `2^256` is `256^32`.
pub proof fn lemma_u256_modulus()
    ensures
        pow256(32) == u256_modulus(),
{
    reveal_with_fuel(pow256, 5);
    assert(pow256(4) == 0x1_0000_0000nat);
    assert(pow256(8) == 0x1_0000_0000_0000_0000nat);
    assert(pow256(12) == 0x1_0000_0000_0000_0000_0000_0000nat);
    assert(pow256(16) == 0x1_0000_0000_0000_0000_0000_0000_0000_0000nat);
    assert(pow256(20) == 0x1_0000_0000_0000_0000_0000_0000_0000_0000_0000_0000nat);
    assert(pow256(24) == 0x1_0000_0000_0000_0000_0000_0000_0000_0000_0000_0000_0000_0000nat);
    assert(pow256(28) == 0x1_0000_0000_0000_0000_0000_0000_0000_0000_0000_0000_0000_0000_0000_0000nat);
    assert(pow256(32) == 256 * (256 * (256 * (256 * pow256(28)))));
}

/// A 256-bit unsigned integer, held as 32 big-endian bytes.
#[derive(Clone, Copy, Debug, PartialEq, Eq, Hash)]
pub struct U256 {
    pub bytes: [u8; 32],
}

impl View for U256 {
    type V = Seq<u8>;

    open spec fn view(&self) -> Seq<u8> {
        self.bytes@
    }
}

impl U256 {
    /// The number held.
    pub open spec fn value(&self) -> nat {
        be_value(self@)
    }

    /// The integer whose big-endian bytes are given.
    pub fn from_be_bytes(bytes: [u8; 32]) -> (res: Self)
        ensures
            res.bytes == bytes,
    {
        U256 { bytes }
    }

    /// Zero.
    pub fn zero() -> (res: Self)
        ensures
            res.value() == 0,
            res@ == Seq::new(32, |i: int| 0u8),
    {
        let res = U256 { bytes: [0u8; 32] };
        proof {
            lemma_be_value_zeros(res@);
        }
        res
    }

    /// The integer equal to `n`.
    pub fn from_u64(n: u64) -> (res: Self)
        ensures
            res.value() == n,
    {
        let mut bytes = [0u8; 32];
        let mut rest: u64 = n;
        let mut i: usize = 32;
        proof {
            assert(bytes@.skip(32).len() == 0);
            assert(be_value(bytes@.skip(32)) == 0);
            assert(pow256(0) == 1);
            assert(rest * pow256(0) == rest) by (nonlinear_arith)
                requires
                    pow256(0) == 1,
            ;
        }
        while i > 24
            invariant
                24 <= i <= 32,
                forall|j: int| 0 <= j < i ==> bytes[j] == 0,
                n == rest * pow256((32 - i) as nat) + be_value(bytes@.skip(i as int)),
            decreases i,
        {
            i -= 1;
            proof {
                lemma_be_value_skip(bytes@.update(i as int, (rest % 256) as u8), i as int);
                assert(bytes@.update(i as int, (rest % 256) as u8).skip(i + 1) =~= bytes@.skip(
                    i + 1,
                ));
                lemma_pow256_step((31 - i) as nat);
                assert(rest == (rest / 256) * 256 + rest % 256);
                let p = pow256((31 - i) as nat);
                assert(rest * p == (rest / 256) * (256 * p) + (rest % 256) * p)
                    by (nonlinear_arith)
                    requires
                        rest == (rest / 256) * 256 + rest % 256,
                ;
            }
            bytes[i] = (rest % 256) as u8;
            rest = rest / 256;
        }
        proof {
            reveal_with_fuel(pow256, 9);
            assert(pow256(8) == 0x1_0000_0000_0000_0000nat);
            assert(rest == 0) by (nonlinear_arith)
                requires
                    n == rest * 0x1_0000_0000_0000_0000nat + be_value(bytes@.skip(24)),
                    n <= u64::MAX,
                    rest >= 0,
            ;
            lemma_be_value_leading_zeros(bytes@, 24);
        }
        U256 { bytes }
    }

    /// Whether two integers are the same.
    pub fn is_equal(&self, other: &U256) -> (b: bool)
        ensures
            b == (self@ == other@),
            b == (*self == *other),
    {
        bytes_equal(&self.bytes, &other.bytes)
    }

    /// Adds one, wrapping to zero from the largest value.
    pub fn increment(&mut self)
        ensures
            final(self).value() == (old(self).value() + 1) % u256_modulus(),
    {
        let ghost before = self.bytes@;
        let mut bytes = self.bytes;
        let mut i: usize = 32;
        while i > 0 && bytes[i - 1] == 255
            invariant
                0 <= i <= 32,
                before.len() == 32,
                forall|j: int| 0 <= j < i ==> bytes[j] == before[j],
                forall|j: int| i <= j < 32 ==> before[j] == 255,
                forall|j: int| i <= j < 32 ==> bytes[j] == 0,
            decreases i,
        {
            i -= 1;
            bytes[i] = 0;
        }
        let ghost cleared = bytes@;
        if i > 0 {
            let b = bytes[i - 1];
            bytes[i - 1] = b + 1;
            assert(bytes@ == cleared.update(i - 1, (b + 1) as u8));
        }
        self.bytes = bytes;
        proof {
            let after = bytes@;
            assert forall|j: int| i <= j < before.len() implies before[j] == 255 && after[j]
                == 0 by {
                assert(cleared[j] == 0);
            }
            if i > 0 {
                assert forall|j: int| 0 <= j < i - 1 implies before[j] == after[j] by {
                    assert(cleared[j] == before[j]);
                }
                assert(before[i - 1] < 255);
                assert(after[i - 1] == before[i - 1] + 1);
            }
            assert(incremented(before, after, i as int));
            lemma_incremented_value(before, bytes@, i as int);
            lemma_be_value_bound(before);
            lemma_u256_modulus();
            let v = be_value(before) as int;
            let m = u256_modulus() as int;
            if v + 1 < m {
                assert((v + 1) % m == v + 1) by (nonlinear_arith)
                    requires
                        0 <= v + 1 < m,
                ;
            } else {
                assert(v + 1 == m);
                assert(m % m == 0) by (nonlinear_arith)
                    requires
                        m > 0,
                ;
            }
        }
    }
}

/// A string of zero bytes denotes zero.
pub proof fn lemma_be_value_zeros(s: Seq<u8>)
    requires
        forall|j: int| 0 <= j < s.len() ==> s[j] == 0,
    ensures
        be_value(s) == 0,
    decreases s.len(),
{
    if s.len() > 0 {
        lemma_be_value_zeros(s.drop_last());
    }
}

/// `256^(n+1)` is `256 * 256^n`.
pub proof fn lemma_pow256_step(n: nat)
    ensures
        pow256(n + 1) == 256 * pow256(n),
{
}

/// The number denoted splits at the first byte: the byte, shifted, plus what the rest denotes.
pub proof fn lemma_be_value_first(s: Seq<u8>)
    requires
        s.len() > 0,
    ensures
        be_value(s) == s[0] as nat * pow256((s.len() - 1) as nat) + be_value(s.skip(1)),
    decreases s.len(),
{
    let rest = s.skip(1);
    if s.len() == 1 {
        assert(s.drop_last().len() == 0);
        assert(be_value(s.drop_last()) == 0);
        assert(be_value(rest) == 0);
        assert(pow256(0) == 1);
        assert(s.last() == s[0]);
        assert(be_value(s) == s[0] as nat);
        assert(s[0] as nat * pow256(0) == s[0] as nat) by (nonlinear_arith)
            requires
                pow256(0) == 1,
        ;
    } else {
        let d = s.drop_last();
        lemma_be_value_first(d);
        assert(d.skip(1) =~= rest.drop_last());
        assert(rest.last() == s.last());
        assert(d[0] == s[0]);
        let p = pow256((d.len() - 1) as nat);
        let q = pow256((s.len() - 1) as nat);
        let a = s[0] as nat;
        let b = be_value(d.skip(1));
        assert(q == 256 * p);
        assert(be_value(d) == a * p + b);
        assert(be_value(s) == be_value(d) * 256 + s.last() as nat);
        assert(be_value(rest) == b * 256 + s.last() as nat);
        assert((a * p + b) * 256 == a * q + b * 256) by (nonlinear_arith)
            requires
                q == 256 * p,
        ;
    }
}

/// The same, for the part of `s` that starts at `i`.
pub proof fn lemma_be_value_skip(s: Seq<u8>, i: int)
    requires
        0 <= i < s.len(),
    ensures
        be_value(s.skip(i)) == s[i] as nat * pow256((s.len() - 1 - i) as nat) + be_value(
            s.skip(i + 1),
        ),
{
    lemma_be_value_first(s.skip(i));
    assert(s.skip(i).skip(1) =~= s.skip(i + 1));
}

/// Leading zero bytes do not change the number denoted.
pub proof fn lemma_be_value_leading_zeros(s: Seq<u8>, i: int)
    requires
        0 <= i <= s.len(),
        forall|j: int| 0 <= j < i ==> s[j] == 0,
    ensures
        be_value(s) == be_value(s.skip(i)),
    decreases i,
{
    if i == 0 {
        assert(s.skip(0) =~= s);
    } else {
        lemma_be_value_leading_zeros(s, i - 1);
        lemma_be_value_skip(s, i - 1);
    }
}

/// A recoverable ECDSA signature over the secp256k1 curve: the scalars `r` and `s` as
/// big-endian bytes, and the parity of the curve point's `y` coordinate.
#[derive(Clone, Copy, Debug, PartialEq, Eq, Hash)]
pub struct Signature {
    pub r: [u8; 32],
    pub s: [u8; 32],
    pub y_parity: bool,
}

/// What a signature holds, as plain values.
pub struct SignatureView {
    pub r: Seq<u8>,
    pub s: Seq<u8>,
    pub y_parity: bool,
}

impl View for Signature {
    type V = SignatureView;

    open spec fn view(&self) -> SignatureView {
        SignatureView { r: self.r@, s: self.s@, y_parity: self.y_parity }
    }
}

impl Signature {
    /// The signature with the given parts.
    pub fn new(r: [u8; 32], s: [u8; 32], y_parity: bool) -> (res: Self)
        ensures
            res.r == r,
            res.s == s,
            res.y_parity == y_parity,
    {
        Signature { r, s, y_parity }
    }

    /// The placeholder that an envelope carries before it is signed: both scalars zero.
    pub fn empty() -> (res: Self)
        ensures
            res@.r == Seq::new(32, |i: int| 0u8),
            res@.s == Seq::new(32, |i: int| 0u8),
            !res@.y_parity,
    {
        Signature { r: [0u8; 32], s: [0u8; 32], y_parity: false }
    }

    /// Whether two signatures hold the same parts.
    pub fn is_equal(&self, other: &Signature) -> (b: bool)
        ensures
            b == (self@ == other@),
    {
        bytes_equal(&self.r, &other.r) && bytes_equal(&self.s, &other.s) && self.y_parity
            == other.y_parity
    }
}

/// Two addresses are the same exactly if they hold the same bytes.
pub proof fn lemma_address_by_bytes(a: Address, b: Address)
    ensures
        (a == b) == (a@ == b@),
{
    if a@ == b@ {
        assert(a.bytes =~= b.bytes);
    }
}

} // verus!
