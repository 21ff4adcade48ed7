use vstd::prelude::*;
use crate::bytes::be_nat;
use crate::bytes::hex_bytes;
use crate::bytes::hex_text;
use crate::bytes::is_hex;
use crate::bytes::lemma_hex_ignores_case;
use crate::bytes::lemma_hex_round_trip;
use crate::bytes::lemma_hex_text_len;
use crate::bytes::lower_hex;
use crate::bytes::without_hex_prefix;
use crate::bytes::lemma_be_nat_first_difference;

verus! {

/// A 20-byte account identifier, compared and ordered bytewise.
#[derive(Debug, Clone, Copy, Hash)]
pub struct Address {
    pub bytes: [u8; 20],
}

impl PartialEq for Address {
    fn eq(&self, other: &Address) -> (r: bool) {
        let mut i: usize = 0;
        while i < 20
            invariant
                i <= 20,
                forall|k: int| 0 <= k < i ==> self.bytes[k] == other.bytes[k],
            decreases 20 - i,
        {
            if self.bytes[i] != other.bytes[i] {
                return false;
            }
            i += 1;
        }
        assert(self.bytes =~= other.bytes);
        true
    }
}

impl Eq for Address {

}

impl vstd::std_specs::cmp::PartialEqSpecImpl for Address {
    open spec fn obeys_eq_spec() -> bool {
        true
    }

    open spec fn eq_spec(&self, other: &Address) -> bool {
        *self == *other
    }
}

/// The twenty bytes that a text gives as an address: the text is exactly
/// forty hexadecimal digits of either case, with or without "0x" or "0X"
/// before them, two digits to the byte. Any other text gives nothing.
pub open spec fn parsed_address(text: Seq<char>) -> Option<Seq<u8>> {
    let digits = without_hex_prefix(text);
    if digits.len() == 40 && is_hex(digits) {
        Some(hex_bytes(digits))
    } else {
        None
    }
}

/// Upper and lower case give one address.
pub proof fn lemma_parse_ignores_case(text: Seq<char>)
    ensures
        parsed_address(lower_hex(text)) == parsed_address(text),
{
    lemma_hex_ignores_case(text);
    lemma_hex_ignores_case(without_hex_prefix(text));
}

/// An address in its wire form is read back as itself.
pub proof fn lemma_parse_round_trip(a: Address)
    ensures
        parsed_address(a.wire_text()) == Some(a.bytes@),
{
    let digits = hex_text(a.bytes@);
    let text = a.wire_text();
    lemma_hex_text_len(a.bytes@);
    lemma_hex_round_trip(a.bytes@);
    assert(text[0] == '0' && text[1] == 'x');
    assert(without_hex_prefix(text) =~= digits);
}

/// `str::parse::<Address>` with alloy's `Address`, which decodes the text as
/// hexadecimal into twenty bytes and fails on any other length and on any
/// character that is no hexadecimal digit.
#[verifier::external_body]
fn parse_hex_address(text: &str) -> (r: Option<Address>)
    ensures
        match r {
            Some(a) => parsed_address(text@) == Some(a.bytes@),
            None => parsed_address(text@) is None,
        },
{
    match text.parse::<alloy::primitives::Address>() {
        Ok(a) => Some(Address { bytes: a.into_array() }),
        Err(_) => None,
    }
}

/// `hex::encode_prefixed` of alloy's primitives: "0x" and then the bytes in
/// lower-case hexadecimal.
#[verifier::external_body]
fn hex_encode_prefixed(bytes: &[u8; 20]) -> (s: String)
    ensures
        s@ == seq!['0', 'x'] + hex_text(bytes@),
{
    alloy::primitives::hex::encode_prefixed(bytes)
}

impl Address {
    /// The address as it stands on the wire: "0x" and 40 lower-case
    /// hexadecimal digits.
    pub open spec fn wire_text(self) -> Seq<char> {
        seq!['0', 'x'] + hex_text(self.bytes@)
    }

    /// The address of twenty zero bytes.
    pub fn zero() -> (a: Address)
        ensures
            forall|i: int| 0 <= i < 20 ==> a.bytes@[i] == 0,
    {
        Address { bytes: [0u8; 20] }
    }

    /// Reads an address from hexadecimal text. Upper and lower case are the
    /// same address.
    pub fn parse(text: &str) -> (r: Option<Address>)
        ensures
            match r {
                Some(a) => parsed_address(text@) == Some(a.bytes@),
                None => parsed_address(text@) is None,
            },
    {
        parse_hex_address(text)
    }

    /// The address in its wire form.
    pub fn to_hex_string(&self) -> (s: String)
        ensures
            s@ == self.wire_text(),
    {
        hex_encode_prefixed(&self.bytes)
    }

    /// The address read as a big-endian number. Addresses are ordered by it,
    /// which is the bytewise lexicographic order.
    pub open spec fn rank(self) -> nat {
        be_nat(self.bytes@)
    }

    /// Whether `self` comes strictly before `other`.
    pub fn precedes(&self, other: &Address) -> (r: bool)
        ensures
            r == (self.rank() < other.rank()),
    {
        let mut i: usize = 0;
        while i < 20
            invariant
                i <= 20,
                forall|k: int| 0 <= k < i ==> self.bytes[k] == other.bytes[k],
            decreases 20 - i,
        {
            if self.bytes[i] != other.bytes[i] {
                proof {
                    let a = self.bytes@;
                    let b = other.bytes@;
                    assert(a.subrange(0, i as int) == b.subrange(0, i as int));
                    assert(a.subrange(0, 20) == a);
                    assert(b.subrange(0, 20) == b);
                    if a[i as int] < b[i as int] {
                        lemma_be_nat_first_difference(a, b, i as int, 20);
                    } else {
                        lemma_be_nat_first_difference(b, a, i as int, 20);
                    }
                }
                return self.bytes[i] < other.bytes[i];
            }
            i += 1;
        }
        assert(self.bytes@ == other.bytes@);
        false
    }
}

/// Two addresses of the same rank are the same address.
pub proof fn lemma_rank_injective(a: Address, b: Address)
    requires
        a.rank() == b.rank(),
    ensures
        a == b,
{
    if exists|k: int| 0 <= k < 20 && a.bytes[k] != b.bytes[k] {
        assert(a.bytes@.subrange(0, 0) =~= b.bytes@.subrange(0, 0));
        let k = choose_first_difference(a.bytes@, b.bytes@, 0);
        assert(a.bytes@.subrange(0, 20) == a.bytes@);
        assert(b.bytes@.subrange(0, 20) == b.bytes@);
        if a.bytes@[k] < b.bytes@[k] {
            lemma_be_nat_first_difference(a.bytes@, b.bytes@, k, 20);
        } else {
            lemma_be_nat_first_difference(b.bytes@, a.bytes@, k, 20);
        }
    } else {
        assert(a.bytes =~= b.bytes);
    }
}

/// The first index from `from` on at which two byte strings differ.
proof fn choose_first_difference(a: Seq<u8>, b: Seq<u8>, from: int) -> (k: int)
    requires
        a.len() == b.len(),
        0 <= from,
        a.subrange(0, from) == b.subrange(0, from),
        exists|j: int| from <= j < a.len() && a[j] != b[j],
    ensures
        from <= k < a.len(),
        a[k] != b[k],
        a.subrange(0, k) == b.subrange(0, k),
    decreases a.len() - from,
{
    if a[from] != b[from] {
        from
    } else {
        assert(a.subrange(0, from + 1) == a.subrange(0, from).push(a[from]));
        assert(b.subrange(0, from + 1) == b.subrange(0, from).push(b[from]));
        choose_first_difference(a, b, from + 1)
    }
}

} // verus!
