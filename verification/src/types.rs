//! Protocol values: hashes, addresses, transactions, and the context and
//! response of a service call.

use crate::hex::{append_hex, hex_bytes, hex_text, lemma_hex_round_trip, read_hex};
use crate::text::bytes_equal;
use vstd::prelude::*;
use vstd::string::*;

verus! {

/// Number of bytes in a hash.
pub const HASH_LEN: usize = 32;

/// Number of bytes in an address.
pub const ADDRESS_LEN: usize = 20;

/// Payload text in the external string format.
pub type JsonString = String;

/// `bytes::Bytes`, the byte buffer in which keys and signatures travel.
#[verifier::external_type_specification]
#[verifier::external_body]
pub struct ExBytes(bytes::Bytes);

/// The bytes that a `bytes::Bytes` holds.
pub uninterp spec fn bytes_view(buffer: bytes::Bytes) -> Seq<u8>;

/// Calls `Bytes::from` on a vector: the buffer holds the vector's bytes.
#[verifier::external_body]
pub(crate) fn bytes_from_vec(data: Vec<u8>) -> (r: bytes::Bytes)
    ensures
        bytes_view(r) == data@,
{
    bytes::Bytes::from(data)
}

/// Calls `to_vec` on the slice that a `Bytes` dereferences to: a vector of the
/// bytes the buffer holds.
#[verifier::external_body]
pub(crate) fn bytes_to_vec(buffer: &bytes::Bytes) -> (r: Vec<u8>)
    ensures
        r@ == bytes_view(*buffer),
{
    buffer.to_vec()
}

/// What can go wrong when a protocol value is built.
#[derive(Debug)]
pub enum TypesError {
    /// A hexadecimal text could not be read; holds the parser's report.
    ParseHexError(String),
    /// A value could not be serialized; holds the codec's report.
    Serialization(String),
    AddressLenInvalid,
    HashLenInvalid,
}

impl TypesError {
    /// The text shown for the error.
    pub open spec fn message_spec(self) -> Seq<char> {
        match self {
            TypesError::ParseHexError(report) => "parse hex error: "@ + report@,
            TypesError::Serialization(report) => "serialization error: "@ + report@,
            TypesError::AddressLenInvalid => "address len invalid"@,
            TypesError::HashLenInvalid => "hash len invalid"@,
        }
    }

    /// The text shown for the error.
    pub fn message(&self) -> (r: String)
        ensures
            r@ == self.message_spec(),
    {
        match self {
            TypesError::ParseHexError(report) => String::from_str("parse hex error: ").concat(report.as_str()),
            TypesError::Serialization(report) => String::from_str("serialization error: ").concat(
                report.as_str(),
            ),
            TypesError::AddressLenInvalid => String::from_str("address len invalid"),
            TypesError::HashLenInvalid => String::from_str("hash len invalid"),
        }
    }
}

/// Copies a byte slice into a vector.
pub fn copy_bytes(data: &[u8]) -> (r: Vec<u8>)
    ensures
        r@ == data@,
{
    let mut out: Vec<u8> = Vec::new();
    let mut i: usize = 0;
    while i < data.len()
        invariant
            i <= data.len(),
            out@ == data@.take(i as int),
        decreases data.len() - i,
    {
        out.push(data[i]);
        assert(data@.take(i + 1) =~= data@.take(i as int).push(data@[i as int]));
        i += 1;
    }
    assert(data@.take(data.len() as int) =~= data@);
    out
}

/// A 32-byte digest.
#[derive(Debug)]
pub struct Hash {
    bytes: Vec<u8>,
}

impl View for Hash {
    type V = Seq<u8>;

    closed spec fn view(&self) -> Seq<u8> {
        self.bytes@
    }
}

impl Clone for Hash {
    fn clone(&self) -> (r: Self)
        ensures
            r@ == self@,
    {
        proof {
            use_type_invariant(self);
        }
        Hash { bytes: copy_bytes(self.bytes.as_slice()) }
    }
}

impl Hash {
    #[verifier::type_invariant]
    spec fn well_formed(self) -> bool {
        self.bytes@.len() == HASH_LEN
    }

    /// The hash that holds the given bytes; they must be exactly 32.
    pub fn from_bytes(bytes: bytes::Bytes) -> (r: Result<Hash, TypesError>)
        ensures
            match r {
                Ok(hash) => bytes_view(bytes).len() == HASH_LEN && hash@ == bytes_view(bytes),
                Err(e) => bytes_view(bytes).len() != HASH_LEN && e == TypesError::HashLenInvalid,
            },
    {
        let data = bytes_to_vec(&bytes);
        Hash::from_vec(data)
    }

    /// The hash that holds the given bytes; they must be exactly 32.
    pub fn from_vec(data: Vec<u8>) -> (r: Result<Hash, TypesError>)
        ensures
            match r {
                Ok(hash) => data@.len() == HASH_LEN && hash@ == data@,
                Err(e) => data@.len() != HASH_LEN && e == TypesError::HashLenInvalid,
            },
    {
        if data.len() != HASH_LEN {
            return Err(TypesError::HashLenInvalid);
        }
        Ok(Hash { bytes: data })
    }

    /// The bytes of the hash, as a buffer.
    pub fn as_bytes(&self) -> (r: bytes::Bytes)
        ensures
            bytes_view(r) == self@,
            self@.len() == HASH_LEN,
    {
        proof {
            use_type_invariant(self);
        }
        bytes_from_vec(copy_bytes(self.bytes.as_slice()))
    }

    /// The bytes of the hash.
    pub fn as_slice(&self) -> (r: &[u8])
        ensures
            r@ == self@,
            self@.len() == HASH_LEN,
    {
        proof {
            use_type_invariant(self);
        }
        self.bytes.as_slice()
    }

    /// Whether two hashes hold the same bytes.
    pub fn same(&self, other: &Hash) -> (r: bool)
        ensures
            r == (self@ == other@),
    {
        bytes_equal(self.bytes.as_slice(), other.bytes.as_slice())
    }
}

/// A hexadecimal text without the `0x` that may stand before it.
pub open spec fn clean_0x(text: Seq<char>) -> Seq<char> {
    if text.len() >= 2 && text[0] == '0' && text[1] == 'x' {
        text.skip(2)
    } else {
        text
    }
}

/// The text of an address: `0x` and the 40 digits of its bytes.
pub open spec fn address_hex(bytes: Seq<u8>) -> Seq<char> {
    "0x"@ + hex_text(bytes)
}

/// The bytes of the address that a text stands for.
pub open spec fn address_of_hex(text: Seq<char>) -> Option<Seq<u8>> {
    match hex_bytes(clean_0x(text)) {
        Some(bytes) => if bytes.len() == ADDRESS_LEN {
            Some(bytes)
        } else {
            None
        },
        None => None,
    }
}

/// Reading the text of an address gives the address back.
pub proof fn lemma_address_hex_round_trip(bytes: Seq<u8>)
    requires
        bytes.len() == ADDRESS_LEN,
    ensures
        address_of_hex(address_hex(bytes)) == Some(bytes),
{
    reveal_strlit("0x");
    lemma_hex_round_trip(bytes);
    assert(clean_0x(address_hex(bytes)) =~= hex_text(bytes));
}

/// A 20-byte account address.
#[derive(Debug)]
pub struct Address {
    bytes: Vec<u8>,
}

impl View for Address {
    type V = Seq<u8>;

    closed spec fn view(&self) -> Seq<u8> {
        self.bytes@
    }
}

impl Clone for Address {
    fn clone(&self) -> (r: Self)
        ensures
            r@ == self@,
    {
        proof {
            use_type_invariant(self);
        }
        Address { bytes: copy_bytes(self.bytes.as_slice()) }
    }
}

impl Address {
    #[verifier::type_invariant]
    spec fn well_formed(self) -> bool {
        self.bytes@.len() == ADDRESS_LEN
    }

    /// The address that holds the given bytes; they must be exactly 20.
    pub fn from_bytes(bytes: bytes::Bytes) -> (r: Result<Address, TypesError>)
        ensures
            match r {
                Ok(address) => bytes_view(bytes).len() == ADDRESS_LEN && address@ == bytes_view(bytes),
                Err(e) => bytes_view(bytes).len() != ADDRESS_LEN && e == TypesError::AddressLenInvalid,
            },
    {
        let data = bytes_to_vec(&bytes);
        Address::from_vec(data)
    }

    /// The address that holds the given bytes; they must be exactly 20.
    pub fn from_vec(data: Vec<u8>) -> (r: Result<Address, TypesError>)
        ensures
            match r {
                Ok(address) => data@.len() == ADDRESS_LEN && address@ == data@,
                Err(e) => data@.len() != ADDRESS_LEN && e == TypesError::AddressLenInvalid,
            },
    {
        if data.len() != ADDRESS_LEN {
            return Err(TypesError::AddressLenInvalid);
        }
        Ok(Address { bytes: data })
    }

    /// The address that a hexadecimal text stands for, with or without `0x`
    /// before its digits.
    pub fn from_hex(text: &str) -> (r: Result<Address, TypesError>)
        ensures
            match r {
                Ok(address) => address_of_hex(text@) == Some(address@),
                Err(TypesError::ParseHexError(report)) => hex_bytes(clean_0x(text@)) is None && report@
                    == "invalid hex text"@,
                Err(TypesError::AddressLenInvalid) => hex_bytes(clean_0x(text@)) matches Some(bytes) && bytes.len()
                    != ADDRESS_LEN,
                Err(_) => false,
            },
    {
        let len = text.unicode_len();
        let from: usize = if len >= 2 && text.get_char(0) == '0' && text.get_char(1) == 'x' {
            2
        } else {
            0
        };
        assert(text@.skip(0) =~= text@);
        match read_hex(text, from) {
            Some(data) => Address::from_vec(data),
            None => Err(TypesError::ParseHexError(String::from_str("invalid hex text"))),
        }
    }

    /// The text of the address: `0x` and the 40 digits of its bytes.
    pub fn as_hex(&self) -> (r: String)
        ensures
            r@ == address_hex(self@),
    {
        let mut out = String::from_str("0x");
        append_hex(&mut out, self.bytes.as_slice());
        out
    }

    /// The address of a hash: its first 20 bytes.
    pub fn from_hash(hash: Hash) -> (r: Result<Address, TypesError>)
        ensures
            r matches Ok(address) && address@ == hash@.take(ADDRESS_LEN as int),
    {
        let source = hash.as_slice();
        let mut data: Vec<u8> = Vec::new();
        let mut i: usize = 0;
        while i < ADDRESS_LEN
            invariant
                i <= ADDRESS_LEN,
                source@.len() == HASH_LEN,
                data@ == source@.take(i as int),
            decreases ADDRESS_LEN - i,
        {
            data.push(source[i]);
            assert(source@.take(i + 1) =~= source@.take(i as int).push(source@[i as int]));
            i += 1;
        }
        Address::from_vec(data)
    }

    /// The bytes of the address, as a buffer.
    pub fn as_bytes(&self) -> (r: bytes::Bytes)
        ensures
            bytes_view(r) == self@,
            self@.len() == ADDRESS_LEN,
    {
        proof {
            use_type_invariant(self);
        }
        bytes_from_vec(copy_bytes(self.bytes.as_slice()))
    }

    /// The bytes of the address.
    pub fn as_slice(&self) -> (r: &[u8])
        ensures
            r@ == self@,
            self@.len() == ADDRESS_LEN,
    {
        proof {
            use_type_invariant(self);
        }
        self.bytes.as_slice()
    }

    /// Whether two addresses hold the same bytes.
    pub fn same(&self, other: &Address) -> (r: bool)
        ensures
            r == (self@ == other@),
    {
        bytes_equal(self.bytes.as_slice(), other.bytes.as_slice())
    }
}

/// The request part of a transaction: which method of which service to call,
/// and with what payload.
#[derive(Debug)]
pub struct TransactionRequest {
    pub service_name: String,
    pub method: String,
    pub payload: JsonString,
}

/// A transaction before it is signed.
#[derive(Debug)]
pub struct RawTransaction {
    pub chain_id: Hash,
    pub nonce: Hash,
    pub timeout: u64,
    pub cycles_price: u64,
    pub cycles_limit: u64,
    pub request: TransactionRequest,
}

/// A transaction with its hash, its signature and the sender it names.
#[derive(Debug)]
pub struct SignedTransaction {
    pub raw: RawTransaction,
    pub tx_hash: Hash,
    pub pubkey: bytes::Bytes,
    pub signature: bytes::Bytes,
    pub sender: Address,
    pub signature_type: u8,
}

/// The record that accompanies one call into a service. The executor makes
/// it for the call; a service does not keep it.
#[derive(Debug)]
pub struct ServiceContext {
    service_name: String,
    service_method: String,
    payload: JsonString,
    tx_hash: Option<Hash>,
    caller: Address,
    cycles_limit: u64,
}

/// The mathematical value of a `ServiceContext`.
pub struct ServiceContextView {
    pub service_name: Seq<char>,
    pub service_method: Seq<char>,
    pub payload: Seq<char>,
    pub tx_hash: Option<Seq<u8>>,
    pub caller: Seq<u8>,
    pub cycles_limit: u64,
}

impl View for ServiceContext {
    type V = ServiceContextView;

    closed spec fn view(&self) -> ServiceContextView {
        ServiceContextView {
            service_name: self.service_name@,
            service_method: self.service_method@,
            payload: self.payload@,
            tx_hash: match self.tx_hash {
                Some(hash) => Some(hash@),
                None => None,
            },
            caller: self.caller@,
            cycles_limit: self.cycles_limit,
        }
    }
}

impl ServiceContext {
    /// A context for a call of `service_method` of `service_name`. The
    /// transaction hash is absent outside the scope of a transaction.
    pub fn new(
        service_name: String,
        service_method: String,
        payload: JsonString,
        tx_hash: Option<Hash>,
        caller: Address,
        cycles_limit: u64,
    ) -> (r: ServiceContext)
        ensures
            r@ == (ServiceContextView {
                service_name: service_name@,
                service_method: service_method@,
                payload: payload@,
                tx_hash: match tx_hash {
                    Some(hash) => Some(hash@),
                    None => None,
                },
                caller: caller@,
                cycles_limit,
            }),
    {
        ServiceContext { service_name, service_method, payload, tx_hash, caller, cycles_limit }
    }

    pub fn get_service_name(&self) -> (r: &str)
        ensures
            r@ == self@.service_name,
    {
        self.service_name.as_str()
    }

    pub fn get_service_method(&self) -> (r: &str)
        ensures
            r@ == self@.service_method,
    {
        self.service_method.as_str()
    }

    pub fn get_payload(&self) -> (r: &str)
        ensures
            r@ == self@.payload,
    {
        self.payload.as_str()
    }

    pub fn get_tx_hash(&self) -> (r: Option<Hash>)
        ensures
            match r {
                Some(hash) => self@.tx_hash == Some(hash@),
                None => self@.tx_hash is None,
            },
    {
        match &self.tx_hash {
            Some(hash) => Some(hash.clone()),
            None => None,
        }
    }

    pub fn get_caller(&self) -> (r: Address)
        ensures
            r@ == self@.caller,
    {
        self.caller.clone()
    }

    pub fn get_cycles_limit(&self) -> (r: u64)
        ensures
            r == self@.cycles_limit,
    {
        self.cycles_limit
    }
}

/// The result of a service call: the data of a success, or the code and
/// message of an error. Code 0 stands for "no error" and is never the code of
/// an error.
#[derive(Debug)]
pub enum ServiceResponse<T> {
    Succeed(T),
    Error { code: u16, error_message: String },
}

/// The mathematical value of a response whose data has been given a value.
pub enum Outcome<D> {
    Succeed(D),
    Error { code: u16, message: Seq<char> },
}

impl<T> ServiceResponse<T> {
    /// The response of a call that succeeded with `data`.
    pub fn from_succeed(data: T) -> (r: Self)
        ensures
            r == ServiceResponse::Succeed(data),
    {
        ServiceResponse::Succeed(data)
    }

    /// The response of a call that failed.
    pub fn from_error(code: u16, error_message: String) -> (r: Self)
        requires
            code != 0,
        ensures
            r == (ServiceResponse::<T>::Error { code, error_message }),
    {
        ServiceResponse::Error { code, error_message }
    }

    /// Whether the response is an error.
    pub fn is_error(&self) -> (r: bool)
        ensures
            r == (self is Error),
    {
        match self {
            ServiceResponse::Succeed(_) => false,
            ServiceResponse::Error { .. } => true,
        }
    }

    /// The code of the response: that of the error, or 0 for a success.
    pub fn code(&self) -> (r: u16)
        ensures
            r == match self {
                ServiceResponse::Succeed(_) => 0,
                ServiceResponse::Error { code, .. } => *code,
            },
    {
        match self {
            ServiceResponse::Succeed(_) => 0,
            ServiceResponse::Error { code, .. } => *code,
        }
    }
}

/// The value of a response whose data is text.
pub open spec fn text_outcome(response: ServiceResponse<String>) -> Outcome<Seq<char>> {
    match response {
        ServiceResponse::Succeed(data) => Outcome::Succeed(data@),
        ServiceResponse::Error { code, error_message } => Outcome::Error { code, message: error_message@ },
    }
}

} // verus!
