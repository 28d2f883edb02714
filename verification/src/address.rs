//! Account addresses: thirty-two raw bytes, compared raw and shown in base 58.

use vstd::prelude::*;

verus! {

/// Number of bytes in an account address.
pub const ADDRESS_LEN: usize = 32;

/// The address of an account, a program or a user on the ledger.
#[derive(Clone, Copy, Debug)]
pub struct Address {
    pub bytes: [u8; 32],
}

impl View for Address {
    type V = Seq<u8>;

    open spec fn view(&self) -> Seq<u8> {
        self.bytes@
    }
}

impl Address {
    /// Wraps thirty-two raw bytes.
    pub fn new(bytes: [u8; 32]) -> (a: Address)
        ensures
            a@ == bytes@,
            a.bytes == bytes,
    {
        Address { bytes }
    }

    /// Reads an address from a byte slice, which must hold exactly
    /// thirty-two bytes.
    pub fn from_slice(bytes: &[u8]) -> (r: Option<Address>)
        ensures
            r is Some <==> bytes@.len() == 32,
            r matches Some(a) ==> a@ == bytes@,
    {
        if bytes.len() != ADDRESS_LEN {
            return None;
        }
        let address = Address::read(bytes, 0);
        assert(bytes@.subrange(0, 32) =~= bytes@);
        Some(address)
    }

    /// The address that lies in `data` from position `at` on.
    pub fn read(data: &[u8], at: usize) -> (a: Address)
        requires
            at + 32 <= data@.len(),
        ensures
            a@ == data@.subrange(at as int, at + 32),
    {
        // A length fits in `usize`, and with it every position up to it.
        let len = data.len();
        let mut out: [u8; 32] = [0u8; 32];
        let mut i: usize = 0;
        while i < 32
            invariant
                i <= 32,
                at + 32 <= data@.len(),
                data@.len() == len,
                forall|j: int| 0 <= j < i ==> out@[j] == data@[at + j],
            decreases 32 - i,
        {
            out[i] = data[at + i];
            i += 1;
        }
        assert(out@ =~= data@.subrange(at as int, at + 32));
        Address { bytes: out }
    }

    /// Whether two addresses hold the same bytes.
    pub fn same(&self, other: &Address) -> (r: bool)
        ensures
            r == (self@ == other@),
    {
        let mut i: usize = 0;
        while i < 32
            invariant
                i <= 32,
                forall|j: int| 0 <= j < i ==> self.bytes@[j] == other.bytes@[j],
            decreases 32 - i,
        {
            if self.bytes[i] != other.bytes[i] {
                return false;
            }
            i += 1;
        }
        assert(self@ =~= other@);
        true
    }
}

/// Why a text is not an address.
#[derive(Clone, Copy, Debug, PartialEq, Eq)]
pub enum AddressError {
    /// The text is not base 58.
    NotBase58,
    /// The text is base 58 but does not stand for thirty-two bytes.
    WrongLength,
}

/// The base-58 text of a byte string, as the `bs58` crate writes it with its
/// default alphabet.
pub uninterp spec fn base58_text(bytes: Seq<u8>) -> Seq<char>;

/// The byte string that a base-58 text stands for, as the `bs58` crate reads
/// it with its default alphabet; `None` where it refuses the text.
pub uninterp spec fn base58_bytes(text: Seq<char>) -> Option<Seq<u8>>;

#[verifier::external_type_specification]
#[verifier::external_body]
pub struct ExBase58DecodeError(bs58::decode::Error);

/// `bs58::encode(..).into_string()` on the thirty-two bytes of an address.
/// Trusted: the result is the crate's base-58 text of exactly these bytes.
#[verifier::external_body]
fn base58_encode(bytes: &[u8; 32]) -> (text: String)
    ensures
        text@ == base58_text(bytes@),
{
    bs58::encode(bytes).into_string()
}

/// `bs58::decode(..).into_vec()`. Trusted: the call succeeds exactly on the
/// texts that the crate accepts and then yields the bytes they stand for.
#[verifier::external_body]
fn base58_decode(text: &str) -> (r: Result<Vec<u8>, bs58::decode::Error>)
    ensures
        r matches Ok(v) ==> base58_bytes(text@) == Some(v@),
        r is Err ==> base58_bytes(text@) is None,
{
    bs58::decode(text).into_vec()
}

impl Address {
    /// The address in base 58, the form in which it leaves the library.
    pub fn to_text(&self) -> (text: String)
        ensures
            text@ == base58_text(self@),
    {
        base58_encode(&self.bytes)
    }

    /// Reads an address from its base-58 text.
    pub fn parse(text: &str) -> (r: Result<Address, AddressError>)
        ensures
            match r {
                Ok(a) => base58_bytes(text@) == Some(a@),
                Err(AddressError::NotBase58) => base58_bytes(text@) is None,
                Err(AddressError::WrongLength) => base58_bytes(text@) matches Some(b) && b.len()
                    != 32,
            },
    {
        match base58_decode(text) {
            Ok(bytes) => match Address::from_slice(bytes.as_slice()) {
                Some(a) => Ok(a),
                None => Err(AddressError::WrongLength),
            },
            Err(_) => Err(AddressError::NotBase58),
        }
    }
}

/// The address with these bytes.
pub open spec fn address_of(bytes: Seq<u8>) -> Address {
    Address { bytes: choose|b: [u8; 32]| b@ == bytes }
}

/// An address is the address of its bytes.
pub proof fn lemma_address_of(address: Address)
    ensures
        address_of(address@) == address,
{
    let witness = address.bytes;
    assert(witness@ == address@);
    let chosen = choose|b: [u8; 32]| b@ == address@;
    assert(chosen@ == address@);
    assert(chosen@ =~= address.bytes@);
    assert(chosen == address.bytes);
}

/// Whether `list` holds the address with these bytes.
pub open spec fn spec_contains(list: Seq<Address>, bytes: Seq<u8>) -> bool {
    exists|i: int| 0 <= i < list.len() && (#[trigger] list[i])@ == bytes
}

/// Whether `list` holds `a`; addresses are compared by their raw bytes.
pub fn contains(list: &Vec<Address>, a: &Address) -> (r: bool)
    ensures
        r == spec_contains(list@, a@),
{
    let mut i: usize = 0;
    while i < list.len()
        invariant
            i <= list.len(),
            forall|j: int| 0 <= j < i ==> (#[trigger] list@[j])@ != a@,
        decreases list.len() - i,
    {
        if list[i].same(a) {
            return true;
        }
        i += 1;
    }
    false
}

} // verus!
