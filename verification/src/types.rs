//! Plain value types shared by the classifier, the aggregate store and the
//! ingestion logic: account addresses, 32-byte words and transfer events.

use vstd::prelude::*;
use vstd::std_specs::cmp::PartialEqSpecImpl;
use crate::amount::Amount;

verus! {

/// A 20-byte account or contract address.
#[derive(Clone, Copy, Debug)]
pub struct Address {
    pub bytes: [u8; 20],
}

impl View for Address {
    type V = Seq<u8>;

    open spec fn view(&self) -> Seq<u8> {
        self.bytes@
    }
}

impl Address {
    /// Wraps twenty raw bytes, most significant first.
    pub fn new(bytes: [u8; 20]) -> (a: Address)
        ensures
            a@ == bytes@,
            a.bytes == bytes,
    {
        Address { bytes }
    }

    /// The all-zero address.
    pub fn zero() -> (a: Address)
        ensures
            a@ == Seq::new(20, |i: int| 0u8),
    {
        Address { bytes: [0u8; 20] }
    }

    /// The raw bytes of the address.
    pub fn as_bytes(&self) -> (bytes: &[u8; 20])
        ensures
            bytes@ == self@,
    {
        &self.bytes
    }

    /// Computes the fingerprint used to bucket addresses.
    pub fn fingerprint(&self) -> (f: u64)
        ensures
            f == fingerprint_of(self@),
    {
        fingerprint8(
            self.bytes[0],
            self.bytes[1],
            self.bytes[2],
            self.bytes[3],
            self.bytes[4],
            self.bytes[5],
            self.bytes[6],
            self.bytes[7],
        )
    }
}

/// The first eight bytes of `bytes` read as a big-endian number.
pub open spec fn fingerprint_of(bytes: Seq<u8>) -> u64 {
    (bytes[0] as int * 0x0100_0000_0000_0000 + bytes[1] as int * 0x0001_0000_0000_0000
        + bytes[2] as int * 0x0000_0100_0000_0000 + bytes[3] as int * 0x0000_0001_0000_0000
        + bytes[4] as int * 0x0000_0000_0100_0000 + bytes[5] as int * 0x0000_0000_0001_0000
        + bytes[6] as int * 0x0000_0000_0000_0100 + bytes[7] as int) as u64
}

fn fingerprint8(b0: u8, b1: u8, b2: u8, b3: u8, b4: u8, b5: u8, b6: u8, b7: u8) -> (f: u64)
    ensures
        f == fingerprint_of(seq![b0, b1, b2, b3, b4, b5, b6, b7]),
        f == (b0 as int * 0x0100_0000_0000_0000 + b1 as int * 0x0001_0000_0000_0000 + b2 as int
            * 0x0000_0100_0000_0000 + b3 as int * 0x0000_0001_0000_0000 + b4 as int
            * 0x0000_0000_0100_0000 + b5 as int * 0x0000_0000_0001_0000 + b6 as int
            * 0x0000_0000_0000_0100 + b7 as int),
{
    (b0 as u64) * 0x0100_0000_0000_0000 + (b1 as u64) * 0x0001_0000_0000_0000 + (b2 as u64)
        * 0x0000_0100_0000_0000 + (b3 as u64) * 0x0000_0001_0000_0000 + (b4 as u64)
        * 0x0000_0000_0100_0000 + (b5 as u64) * 0x0000_0000_0001_0000 + (b6 as u64)
        * 0x0000_0000_0000_0100 + (b7 as u64)
}

/// Compares two byte strings of equal length element by element.
pub fn bytes_equal(a: &[u8], b: &[u8]) -> (same: bool)
    ensures
        same == (a@ == b@),
{
    if a.len() != b.len() {
        return false;
    }
    let mut i: usize = 0;
    while i < a.len()
        invariant
            a@.len() == b@.len(),
            i <= a@.len(),
            forall|j: int| 0 <= j < i ==> a@[j] == b@[j],
        decreases a@.len() - i,
    {
        if a[i] != b[i] {
            return false;
        }
        i += 1;
    }
    assert(a@ =~= b@);
    true
}

impl PartialEq for Address {
    fn eq(&self, other: &Address) -> (same: bool) {
        bytes_equal(self.bytes.as_slice(), other.bytes.as_slice())
    }
}

impl PartialEqSpecImpl for Address {
    open spec fn obeys_eq_spec() -> bool {
        true
    }

    open spec fn eq_spec(&self, other: &Address) -> bool {
        self@ == other@
    }
}

/// A 32-byte word: a transaction identifier, a log topic or a digest.
#[derive(Clone, Copy, Debug)]
pub struct Hash256 {
    pub bytes: [u8; 32],
}

impl View for Hash256 {
    type V = Seq<u8>;

    open spec fn view(&self) -> Seq<u8> {
        self.bytes@
    }
}

impl Hash256 {
    /// Wraps thirty-two raw bytes.
    pub fn new(bytes: [u8; 32]) -> (h: Hash256)
        ensures
            h@ == bytes@,
            h.bytes == bytes,
    {
        Hash256 { bytes }
    }

    /// The all-zero word.
    pub fn zero() -> (h: Hash256)
        ensures
            h@ == Seq::new(32, |i: int| 0u8),
    {
        Hash256 { bytes: [0u8; 32] }
    }

    /// The raw bytes of the word.
    pub fn as_bytes(&self) -> (bytes: &[u8; 32])
        ensures
            bytes@ == self@,
    {
        &self.bytes
    }

    /// Computes the fingerprint used to bucket events by transaction.
    pub fn fingerprint(&self) -> (f: u64)
        ensures
            f == fingerprint_of(self@),
    {
        fingerprint8(
            self.bytes[0],
            self.bytes[1],
            self.bytes[2],
            self.bytes[3],
            self.bytes[4],
            self.bytes[5],
            self.bytes[6],
            self.bytes[7],
        )
    }

    /// The address that an indexed topic carries: the last twenty bytes of
    /// the word.
    pub fn to_address(&self) -> (a: Address)
        ensures
            a@ == self@.subrange(12, 32),
    {
        let mut bytes = [0u8; 20];
        let mut i: usize = 0;
        while i < 20
            invariant
                i <= 20,
                forall|j: int| 0 <= j < i ==> bytes@[j] == self.bytes@[j + 12],
            decreases 20 - i,
        {
            bytes[i] = self.bytes[i + 12];
            i += 1;
        }
        Address { bytes }
    }
}

impl PartialEq for Hash256 {
    fn eq(&self, other: &Hash256) -> (same: bool) {
        bytes_equal(self.bytes.as_slice(), other.bytes.as_slice())
    }
}

impl PartialEqSpecImpl for Hash256 {
    open spec fn obeys_eq_spec() -> bool {
        true
    }

    open spec fn eq_spec(&self, other: &Hash256) -> bool {
        self@ == other@
    }
}

/// One on-chain token movement, as recorded by the aggregate store.
///
/// The pair of transaction identifier and log position identifies the
/// event. The amount is kept as the raw integer; its display value is the
/// raw integer divided by ten to the token's decimals.
#[derive(Clone, Copy, Debug)]
pub struct Transfer {
    pub block_number: u64,
    pub tx_hash: Hash256,
    pub log_index: u64,
    pub token: Address,
    pub from: Address,
    pub to: Address,
    pub amount_raw: Amount,
    pub timestamp: u64,
}

/// What a `Transfer` stands for in contracts.
pub struct TransferView {
    pub block_number: u64,
    pub tx_hash: Seq<u8>,
    pub log_index: u64,
    pub token: Seq<u8>,
    pub from: Seq<u8>,
    pub to: Seq<u8>,
    pub amount_raw: nat,
    pub timestamp: u64,
}

impl TransferView {
    /// The identity of the event: transaction identifier and log position.
    pub open spec fn key(self) -> (Seq<u8>, u64) {
        (self.tx_hash, self.log_index)
    }
}

impl View for Transfer {
    type V = TransferView;

    open spec fn view(&self) -> TransferView {
        TransferView {
            block_number: self.block_number,
            tx_hash: self.tx_hash@,
            log_index: self.log_index,
            token: self.token@,
            from: self.from@,
            to: self.to@,
            amount_raw: self.amount_raw@,
            timestamp: self.timestamp,
        }
    }
}

/// The side of the exchange's books that a transfer is counted on.
#[derive(Clone, Copy, Debug, PartialEq, Eq, Structural)]
pub enum Direction {
    /// Tokens moved to a watched address.
    Inbound,
    /// Tokens moved away from a watched address.
    Outbound,
}

} // verus!
