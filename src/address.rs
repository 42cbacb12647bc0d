//! Twenty-byte account addresses, ordered by their raw bytes.

use std::str::FromStr;
use vstd::prelude::*;

verus! {

/// Number of bytes in an address.
pub const ADDRESS_LEN: usize = 20;

/// A fixed-size account or contract identifier.
#[derive(Debug, Clone, Copy, PartialEq, Eq, Hash, Default)]
pub struct Address(pub [u8; 20]);

impl View for Address {
    type V = Seq<u8>;

    open spec fn view(&self) -> Seq<u8> {
        self.0@
    }
}

/// Outcome of comparing two addresses.
#[derive(Debug, Clone, Copy, PartialEq, Eq)]
pub enum AddressOrder {
    Less,
    Equal,
    Greater,
}

/// `a` comes strictly before `b` when, at the first byte where they differ,
/// the byte of `a` is smaller.
pub open spec fn bytes_lt(a: Seq<u8>, b: Seq<u8>) -> bool {
    exists|i: int|
        0 <= i < a.len() && i < b.len() && #[trigger] a.take(i) == b.take(i) && a[i] < b[i]
}

/// Lexicographic order is transitive on sequences of one length.
pub proof fn lemma_bytes_lt_transitive(a: Seq<u8>, b: Seq<u8>, c: Seq<u8>)
    requires
        a.len() == b.len(),
        b.len() == c.len(),
        bytes_lt(a, b),
        bytes_lt(b, c),
    ensures
        bytes_lt(a, c),
{
    let i = choose|i: int| 0 <= i < a.len() && i < b.len() && #[trigger] a.take(i) == b.take(i) && a[i] < b[i];
    let j = choose|j: int| 0 <= j < b.len() && j < c.len() && #[trigger] b.take(j) == c.take(j) && b[j] < c[j];
    let k = if i < j { i } else { j };
    assert forall|m: int| 0 <= m < k implies a[m] == c[m] by {
        assert(a.take(i)[m] == b.take(i)[m]);
        assert(b.take(j)[m] == c.take(j)[m]);
    }
    assert(a.take(k) =~= c.take(k));
    if i < j {
        assert(b.take(j)[i] == c.take(j)[i]);
    } else if j < i {
        assert(a.take(i)[j] == b.take(i)[j]);
    }
    assert(a[k] < c[k]);
}

/// Lexicographic order is irreflexive and asymmetric.
pub proof fn lemma_bytes_lt_asymmetric(a: Seq<u8>, b: Seq<u8>)
    requires
        a.len() == b.len(),
        bytes_lt(a, b),
    ensures
        a != b,
        !bytes_lt(b, a),
{
    let i = choose|i: int| 0 <= i < a.len() && i < b.len() && #[trigger] a.take(i) == b.take(i) && a[i] < b[i];
    if bytes_lt(b, a) {
        let j = choose|j: int| 0 <= j < b.len() && j < a.len() && #[trigger] b.take(j) == a.take(j) && b[j] < a[j];
        if i < j {
            assert(b.take(j)[i] == a.take(j)[i]);
        } else if j < i {
            assert(a.take(i)[j] == b.take(i)[j]);
        }
    }
}

impl Address {
    /// Compares two addresses byte by byte, most significant byte first.
    pub fn compare(&self, other: &Address) -> (r: AddressOrder)
        ensures
            r == AddressOrder::Less <==> bytes_lt(self@, other@),
            r == AddressOrder::Equal <==> self@ == other@,
            r == AddressOrder::Greater <==> bytes_lt(other@, self@),
    {
        let mut i: usize = 0;
        while i < ADDRESS_LEN
            invariant
                0 <= i <= 20,
                self@.len() == 20,
                other@.len() == 20,
                forall|j: int| 0 <= j < i ==> self@[j] == other@[j],
            decreases 20 - i,
        {
            if self.0[i] != other.0[i] {
                assert(self@.take(i as int) =~= other@.take(i as int));
                if self.0[i] < other.0[i] {
                    proof { lemma_bytes_lt_asymmetric(self@, other@); }
                    return AddressOrder::Less;
                } else {
                    proof { lemma_bytes_lt_asymmetric(other@, self@); }
                    return AddressOrder::Greater;
                }
            }
            i = i + 1;
        }
        assert(self@ =~= other@);
        proof {
            if bytes_lt(self@, other@) {
                lemma_bytes_lt_asymmetric(self@, other@);
            }
            if bytes_lt(other@, self@) {
                lemma_bytes_lt_asymmetric(other@, self@);
            }
        }
        AddressOrder::Equal
    }
}

} // verus!

verus! {

/// Value of a hexadecimal digit of either case.
pub open spec fn hex_value(c: char) -> int {
    if '0' <= c && c <= '9' {
        c as int - '0' as int
    } else if 'a' <= c && c <= 'f' {
        c as int - 'a' as int + 10
    } else {
        c as int - 'A' as int + 10
    }
}

pub open spec fn is_hex_digit(c: char) -> bool {
    ('0' <= c && c <= '9') || ('a' <= c && c <= 'f') || ('A' <= c && c <= 'F')
}

pub open spec fn is_hex_space(c: char) -> bool {
    c == ' ' || c == '\r' || c == '\n' || c == '\t'
}

pub open spec fn all_hex_digits(s: Seq<char>) -> bool {
    forall|i: int| 0 <= i < s.len() ==> is_hex_digit(#[trigger] s[i])
}

/// The bytes that a string of hex digits spells, two digits per byte, high
/// nibble first.
pub open spec fn hex_decode(s: Seq<char>) -> Seq<u8> {
    Seq::new(
        (s.len() / 2) as nat,
        |i: int| (hex_value(s[2 * i]) * 16 + hex_value(s[2 * i + 1])) as u8,
    )
}

/// Relies on `FromStr` for `cfx_types::H160` (fixed-hash 0.6 over rustc-hex):
/// forty hex digits decode big-endian into the twenty bytes they spell; a
/// character other than a hex digit or blank, or a digit count other than
/// forty, is an error.
#[verifier::external_body]
pub(crate) fn parse_hex_address(s: &str) -> (r: Option<Address>)
    ensures
        all_hex_digits(s@) && s@.len() == 40 ==> r is Some && r->0@ == hex_decode(s@),
        all_hex_digits(s@) && s@.len() != 40 ==> r is None,
        (exists|i: int| 0 <= i < s@.len() && !is_hex_digit(s@[i]) && !is_hex_space(s@[i])) ==> r is None,
{
    match cfx_types::H160::from_str(s) {
        Ok(h) => Some(Address(h.0)),
        Err(_) => None,
    }
}

} // verus!
