use vstd::prelude::*;
use crate::bytes::be_nat;
use crate::bytes::decimal_text;
use crate::bytes::lemma_be_nat_injective;

verus! {

/// An unsigned 256-bit amount, held as 32 big-endian bytes.
#[derive(Debug, Clone, Copy, Hash)]
pub struct Balance {
    pub bytes: [u8; 32],
}

impl View for Balance {
    type V = nat;

    /// The amount as a number.
    open spec fn view(&self) -> nat {
        be_nat(self.bytes@)
    }
}

impl PartialEq for Balance {
    fn eq(&self, other: &Balance) -> (r: bool) {
        let mut i: usize = 0;
        while i < 32
            invariant
                i <= 32,
                forall|k: int| 0 <= k < i ==> self.bytes[k] == other.bytes[k],
            decreases 32 - i,
        {
            if self.bytes[i] != other.bytes[i] {
                proof {
                    if self@ == other@ {
                        lemma_be_nat_injective(self.bytes@, other.bytes@);
                    }
                }
                return false;
            }
            i += 1;
        }
        assert(self.bytes@ =~= other.bytes@);
        true
    }
}

impl Eq for Balance {

}

impl vstd::std_specs::cmp::PartialEqSpecImpl for Balance {
    open spec fn obeys_eq_spec() -> bool {
        true
    }

    open spec fn eq_spec(&self, other: &Balance) -> bool {
        self@ == other@
    }
}

/// What a 256-bit unsigned integer decodes to from contract return data: the
/// first 32-byte word, read big-endian; nothing when there is no full word.
pub open spec fn decoded_balance(data: Seq<u8>) -> Option<nat> {
    if data.len() >= 32 {
        Some(be_nat(data.subrange(0, 32)))
    } else {
        None
    }
}

/// `<U256 as SolValue>::abi_decode` of alloy, with its default decoder: it
/// takes the first word of the data as a big-endian integer, accepts trailing
/// bytes, and fails when the data is shorter than one word.
#[verifier::external_body]
fn abi_decode_uint256(data: &[u8]) -> (r: Option<Balance>)
    ensures
        match r {
            Some(b) => decoded_balance(data@) == Some(b@),
            None => decoded_balance(data@) is None,
        },
{
    match <alloy::primitives::U256 as alloy::sol_types::SolValue>::abi_decode(data) {
        Ok(v) => Some(Balance { bytes: v.to_be_bytes::<32>() }),
        Err(_) => None,
    }
}

/// `to_string` of alloy's `U256`: the number in decimal.
#[verifier::external_body]
fn uint256_to_decimal(bytes: [u8; 32]) -> (s: String)
    ensures
        s@ == decimal_text(be_nat(bytes@)),
{
    alloy::primitives::U256::from_be_bytes::<32>(bytes).to_string()
}

impl Balance {
    /// The zero amount.
    pub fn zero() -> (b: Balance)
        ensures
            b@ == 0,
    {
        let b = Balance { bytes: [0u8; 32] };
        proof {
            lemma_be_nat_zeros(b.bytes@, 32);
            assert(b.bytes@.subrange(0, 32) == b.bytes@);
        }
        b
    }

    /// Decodes the return data of a call that yields one `uint256`.
    pub fn decode(data: &[u8]) -> (r: Option<Balance>)
        ensures
            match r {
                Some(b) => decoded_balance(data@) == Some(b@),
                None => decoded_balance(data@) is None,
            },
    {
        abi_decode_uint256(data)
    }

    /// The amount as a decimal string, the form it has on the wire.
    pub fn to_decimal_string(&self) -> (s: String)
        ensures
            s@ == decimal_text(self@),
    {
        uint256_to_decimal(self.bytes)
    }
}

/// A prefix of zero bytes denotes zero.
proof fn lemma_be_nat_zeros(bytes: Seq<u8>, upto: int)
    requires
        0 <= upto <= bytes.len(),
        forall|k: int| 0 <= k < upto ==> bytes[k] == 0,
    ensures
        be_nat(bytes.subrange(0, upto)) == 0,
    decreases upto,
{
    if upto > 0 {
        lemma_be_nat_zeros(bytes, upto - 1);
        assert(bytes.subrange(0, upto).drop_last() == bytes.subrange(0, upto - 1));
    }
}

} // verus!
