//! Identities that the contracts key their records by.
//!
//! An account or contract address is carried as its canonical byte encoding
//! (the XDR of the address); a stealth public key as its raw 32 bytes.

use vstd::prelude::*;

verus! {

/// Keys of a [`crate::ledger::Ledger`]: comparable and copyable by their view.
pub trait LedgerKey: View + Sized {
    /// Whether two keys denote the same record.
    fn same_key(&self, other: &Self) -> (r: bool)
        ensures
            r == (self@ == other@),
    ;

    /// A fresh key equal to this one.
    fn copy_key(&self) -> (r: Self)
        ensures
            r@ == self@,
    ;
}

/// Byte-wise equality of two byte strings.
pub fn bytes_eq(a: &Vec<u8>, b: &Vec<u8>) -> (r: bool)
    ensures
        r == (a@ == b@),
{
    if a.len() != b.len() {
        return false;
    }
    let n = a.len();
    let mut i: usize = 0;
    while i < n
        invariant
            n == a.len() == b.len(),
            i <= n,
            forall|j: int| 0 <= j < i ==> a@[j] == b@[j],
        decreases n - i,
    {
        if a[i] != b[i] {
            return false;
        }
        i = i + 1;
    }
    assert(a@ =~= b@);
    true
}

/// A copy of a byte string.
pub fn copy_bytes(a: &Vec<u8>) -> (r: Vec<u8>)
    ensures
        r@ == a@,
{
    let mut r: Vec<u8> = Vec::new();
    let n = a.len();
    let mut i: usize = 0;
    while i < n
        invariant
            n == a.len(),
            i <= n,
            r@ =~= a@.take(i as int),
        decreases n - i,
    {
        r.push(a[i]);
        i = i + 1;
        assert(r@ =~= a@.take(i as int));
    }
    assert(a@.take(n as int) =~= a@);
    r
}

/// Appends the bytes of `src` to `dst`.
pub fn append_bytes(dst: &mut Vec<u8>, src: &Vec<u8>)
    ensures
        final(dst)@ == old(dst)@ + src@,
{
    let n = src.len();
    let mut i: usize = 0;
    while i < n
        invariant
            n == src.len(),
            i <= n,
            dst@ =~= old(dst)@ + src@.take(i as int),
        decreases n - i,
    {
        dst.push(src[i]);
        i = i + 1;
        assert(dst@ =~= old(dst)@ + src@.take(i as int));
    }
    assert(src@.take(n as int) =~= src@);
}

/// An account or contract address, held as its canonical encoding.
#[derive(Debug)]
pub struct Address {
    bytes: Vec<u8>,
}

impl View for Address {
    type V = Seq<u8>;

    closed spec fn view(&self) -> Seq<u8> {
        self.bytes@
    }
}

/// An optional address by value.
pub open spec fn address_opt_view(o: Option<Address>) -> Option<Seq<u8>> {
    match o {
        Some(a) => Some(a@),
        None => None,
    }
}

impl Address {
    /// The address whose encoding is `bytes`.
    pub fn from_bytes(bytes: Vec<u8>) -> (a: Address)
        ensures
            a@ == bytes@,
    {
        Address { bytes }
    }

    /// The encoding of this address.
    pub fn as_bytes(&self) -> (r: &Vec<u8>)
        ensures
            r@ == self@,
    {
        &self.bytes
    }

    /// Whether two addresses are the same.
    pub fn equals(&self, other: &Address) -> (r: bool)
        ensures
            r == (self@ == other@),
    {
        bytes_eq(&self.bytes, &other.bytes)
    }

    /// A copy of this address.
    pub fn duplicate(&self) -> (r: Address)
        ensures
            r@ == self@,
    {
        Address { bytes: copy_bytes(&self.bytes) }
    }
}

impl LedgerKey for Address {
    fn same_key(&self, other: &Self) -> (r: bool) {
        self.equals(other)
    }

    fn copy_key(&self) -> (r: Self) {
        self.duplicate()
    }
}

/// A stealth public key (its raw bytes).
#[derive(Debug)]
pub struct PublicKey {
    bytes: Vec<u8>,
}

impl View for PublicKey {
    type V = Seq<u8>;

    closed spec fn view(&self) -> Seq<u8> {
        self.bytes@
    }
}

impl PublicKey {
    /// The key whose bytes are `bytes`.
    pub fn from_bytes(bytes: Vec<u8>) -> (k: PublicKey)
        ensures
            k@ == bytes@,
    {
        PublicKey { bytes }
    }

    /// The bytes of this key.
    pub fn as_bytes(&self) -> (r: &Vec<u8>)
        ensures
            r@ == self@,
    {
        &self.bytes
    }
}

impl LedgerKey for PublicKey {
    fn same_key(&self, other: &Self) -> (r: bool) {
        bytes_eq(&self.bytes, &other.bytes)
    }

    fn copy_key(&self) -> (r: Self) {
        PublicKey { bytes: copy_bytes(&self.bytes) }
    }
}

/// The pair that an allowance is recorded under: owner and spender.
#[derive(Debug)]
pub struct AllowanceKey {
    pub from: Address,
    pub spender: Address,
}

impl View for AllowanceKey {
    type V = (Seq<u8>, Seq<u8>);

    open spec fn view(&self) -> (Seq<u8>, Seq<u8>) {
        (self.from@, self.spender@)
    }
}

impl LedgerKey for AllowanceKey {
    fn same_key(&self, other: &Self) -> (r: bool) {
        self.from.equals(&other.from) && self.spender.equals(&other.spender)
    }

    fn copy_key(&self) -> (r: Self) {
        AllowanceKey { from: self.from.duplicate(), spender: self.spender.duplicate() }
    }
}

} // verus!
