//! Hashing, domain separation and signer recovery.
//!
//! The hash function, the ABI encoding and the elliptic-curve recovery are
//! the work of `alloy_primitives`, `alloy_sol_types` and `stylus_sdk`; what
//! is hashed, and what is done with a recovered signer, is decided and
//! verified here.

use crate::primitives::{Address, FixedBytes32, U256};
use crate::types::{CertificateView, EriError, Item, ItemView};
use vstd::prelude::*;
use vstd::utf8::encode_utf8;

verus! {

/// The Keccak-256 hash of `data`: 32 bytes.
pub uninterp spec fn keccak256_of(data: Seq<u8>) -> Seq<u8>;

/// Calls `alloy_primitives::keccak256`. Trusted: the result is the
/// Keccak-256 hash of the bytes given, and depends on nothing else.
#[verifier::external_body]
fn keccak256(data: &[u8]) -> (digest: FixedBytes32)
    ensures
        digest@ == keccak256_of(data@),
{
    FixedBytes32 { bytes: alloy_primitives::keccak256(data).0 }
}

/// The hash of a string's UTF-8 bytes.
pub open spec fn string_hash(text: Seq<char>) -> Seq<u8> {
    keccak256_of(encode_utf8(text))
}

/// Hashes the UTF-8 bytes of a string.
pub fn hash_str(text: &str) -> (digest: FixedBytes32)
    ensures
        digest@ == string_hash(text@),
{
    keccak256(text.as_bytes())
}

/// `n` zero bytes.
pub open spec fn zero_bytes(n: nat) -> Seq<u8> {
    Seq::new(n, |i: int| 0u8)
}

/// An address as a 32-byte word: twelve zero bytes, then the address.
pub open spec fn address_word(address: Seq<u8>) -> Seq<u8> {
    zero_bytes(12) + address
}

/// Byte `i` of the 32-byte big-endian form of `value`.
pub open spec fn u64_word_byte(value: u64, i: int) -> u8 {
    if 24 <= i < 32 {
        ((value >> ((8 * (31 - i)) as u64)) & 0xff) as u8
    } else {
        0u8
    }
}

/// A 64-bit number as a 32-byte big-endian word.
pub open spec fn u64_word(value: u64) -> Seq<u8> {
    Seq::new(32, |i: int| u64_word_byte(value, i))
}

/// Appends the bytes of an array to a buffer.
pub fn append_bytes<const N: usize>(out: &mut Vec<u8>, bytes: &[u8; N])
    ensures
        final(out)@ == old(out)@ + bytes@,
{
    let ghost before = out@;
    let mut i: usize = 0;
    while i < N
        invariant
            i <= N,
            out@ == before + bytes@.subrange(0, i as int),
        decreases N - i,
    {
        out.push(bytes[i]);
        assert(out@ =~= before + bytes@.subrange(0, i as int + 1));
        i += 1;
    }
    assert(bytes@.subrange(0, N as int) =~= bytes@);
}

/// Writes an address as a 32-byte word.
pub fn address_to_word(address: &Address) -> (word: [u8; 32])
    ensures
        word@ == address_word(address@),
{
    let mut word = [0u8; 32];
    let mut i: usize = 0;
    while i < 20
        invariant
            i <= 20,
            forall|j: int| 0 <= j < 12 ==> word@[j] == 0u8,
            forall|j: int| 0 <= j < i ==> word@[12 + j] == address.bytes@[j],
        decreases 20 - i,
    {
        word[12 + i] = address.bytes[i];
        i += 1;
    }
    assert(word@ =~= address_word(address@));
    word
}

/// Writes a 64-bit number as a 32-byte big-endian word.
pub fn u64_to_word(value: u64) -> (word: [u8; 32])
    ensures
        word@ == u64_word(value),
{
    let mut word = [0u8; 32];
    let mut i: usize = 24;
    while i < 32
        invariant
            24 <= i <= 32,
            forall|j: int| 0 <= j < 24 ==> word@[j] == 0u8,
            forall|j: int| 24 <= j < i ==> word@[j] == u64_word_byte(value, j),
        decreases 32 - i,
    {
        let shift: u64 = 8 * (31 - i as u64);
        let low: u64 = (value >> shift) & 0xff;
        assert(low <= 0xff) by (bit_vector)
            requires
                low == (value >> shift) & 0xff,
        ;
        word[i] = low as u8;
        i += 1;
    }
    assert(word@ =~= u64_word(value));
    word
}

/// The type string of the signing domain.
pub open spec fn domain_type() -> Seq<char> {
    "EIP712Domain(string name,string version,uint256 chainId,address verifyingContract)"@
}

/// What is hashed into a domain separator: the domain's type hash, the
/// hashes of its name and version, the chain id and the verifying address,
/// each as one 32-byte word.
pub open spec fn domain_preimage_of(
    type_hash: Seq<u8>,
    name_hash: Seq<u8>,
    version_hash: Seq<u8>,
    chain_id: u64,
    verifying_address: Seq<u8>,
) -> Seq<u8> {
    type_hash + name_hash + version_hash + u64_word(chain_id) + address_word(verifying_address)
}

/// Lays out what is hashed into a domain separator.
pub fn domain_preimage(
    type_hash: &FixedBytes32,
    name_hash: &FixedBytes32,
    version_hash: &FixedBytes32,
    chain_id: u64,
    verifying_address: &Address,
) -> (preimage: Vec<u8>)
    ensures
        preimage@ == domain_preimage_of(
            type_hash@,
            name_hash@,
            version_hash@,
            chain_id,
            verifying_address@,
        ),
{
    let chain_word = u64_to_word(chain_id);
    let verifier_word = address_to_word(verifying_address);
    let mut preimage: Vec<u8> = Vec::new();
    append_bytes(&mut preimage, &type_hash.bytes);
    append_bytes(&mut preimage, &name_hash.bytes);
    append_bytes(&mut preimage, &version_hash.bytes);
    append_bytes(&mut preimage, &chain_word);
    append_bytes(&mut preimage, &verifier_word);
    assert(preimage@ =~= domain_preimage_of(
        type_hash@,
        name_hash@,
        version_hash@,
        chain_id,
        verifying_address@,
    ));
    preimage
}

/// The domain separator: the hash of the domain's type hash, the hashes
/// of its name and version, the chain id and the verifying address. It
/// ties a signature to one deployment on one chain.
pub open spec fn domain_separator_of(
    name_hash: Seq<u8>,
    version_hash: Seq<u8>,
    chain_id: u64,
    verifying_address: Seq<u8>,
) -> Seq<u8> {
    keccak256_of(
        domain_preimage_of(
            string_hash(domain_type()),
            name_hash,
            version_hash,
            chain_id,
            verifying_address,
        ),
    )
}

/// Computes the domain separator.
pub fn domain_separator(
    name_hash: &FixedBytes32,
    version_hash: &FixedBytes32,
    chain_id: u64,
    verifying_address: &Address,
) -> (separator: FixedBytes32)
    ensures
        separator@ == domain_separator_of(
            name_hash@,
            version_hash@,
            chain_id,
            verifying_address@,
        ),
{
    let type_hash = hash_str(
        "EIP712Domain(string name,string version,uint256 chainId,address verifyingContract)",
    );
    let preimage = domain_preimage(
        &type_hash,
        name_hash,
        version_hash,
        chain_id,
        verifying_address,
    );
    keccak256(preimage.as_slice())
}

/// What is hashed into the struct hash of a certificate: the schema's
/// type hash, the hashes of name, id and serial, and date, owner and
/// metadata hash, each as one 32-byte word, in this order.
pub open spec fn struct_preimage_of(
    type_hash: Seq<u8>,
    name_hash: Seq<u8>,
    id_hash: Seq<u8>,
    serial_hash: Seq<u8>,
    date: Seq<u8>,
    owner: Seq<u8>,
    metadata_hash: Seq<u8>,
) -> Seq<u8> {
    type_hash + name_hash + id_hash + serial_hash + date + address_word(owner) + metadata_hash
}

/// Lays out what is hashed into the struct hash of a certificate.
pub fn struct_preimage(
    type_hash: &FixedBytes32,
    name_hash: &FixedBytes32,
    id_hash: &FixedBytes32,
    serial_hash: &FixedBytes32,
    date: &U256,
    owner: &Address,
    metadata_hash: &FixedBytes32,
) -> (preimage: Vec<u8>)
    ensures
        preimage@ == struct_preimage_of(
            type_hash@,
            name_hash@,
            id_hash@,
            serial_hash@,
            date@,
            owner@,
            metadata_hash@,
        ),
{
    let owner_word = address_to_word(owner);
    let mut preimage: Vec<u8> = Vec::new();
    append_bytes(&mut preimage, &type_hash.bytes);
    append_bytes(&mut preimage, &name_hash.bytes);
    append_bytes(&mut preimage, &id_hash.bytes);
    append_bytes(&mut preimage, &serial_hash.bytes);
    append_bytes(&mut preimage, &date.bytes);
    append_bytes(&mut preimage, &owner_word);
    append_bytes(&mut preimage, &metadata_hash.bytes);
    assert(preimage@ =~= struct_preimage_of(
        type_hash@,
        name_hash@,
        id_hash@,
        serial_hash@,
        date@,
        owner@,
        metadata_hash@,
    ));
    preimage
}

/// The struct hash of a certificate. The metadata itself is covered by
/// its hash.
pub open spec fn certificate_struct_hash(type_hash: Seq<u8>, certificate: CertificateView) -> Seq<
    u8,
> {
    keccak256_of(
        struct_preimage_of(
            type_hash,
            string_hash(certificate.name),
            string_hash(certificate.unique_id),
            string_hash(certificate.serial),
            certificate.date,
            certificate.owner,
            certificate.metadata_hash,
        ),
    )
}

/// Computes the struct hash of a certificate from its fields.
pub fn struct_hash(
    type_hash: &FixedBytes32,
    name: &str,
    unique_id: &str,
    serial: &str,
    date: &U256,
    owner: &Address,
    metadata_hash: &FixedBytes32,
) -> (hash: FixedBytes32)
    ensures
        hash@ == keccak256_of(
            struct_preimage_of(
                type_hash@,
                string_hash(name@),
                string_hash(unique_id@),
                string_hash(serial@),
                date@,
                owner@,
                metadata_hash@,
            ),
        ),
{
    let name_hash = hash_str(name);
    let id_hash = hash_str(unique_id);
    let serial_hash = hash_str(serial);
    let preimage = struct_preimage(
        type_hash,
        &name_hash,
        &id_hash,
        &serial_hash,
        date,
        owner,
        metadata_hash,
    );
    keccak256(preimage.as_slice())
}

/// What is hashed into the digest that is signed: the two bytes `0x19
/// 0x01`, the domain separator and the struct hash.
pub open spec fn digest_preimage_of(separator: Seq<u8>, struct_hash: Seq<u8>) -> Seq<u8> {
    seq![0x19u8, 0x01u8] + separator + struct_hash
}

/// Lays out what is hashed into the digest that is signed.
pub fn digest_preimage(separator: &FixedBytes32, struct_hash: &FixedBytes32) -> (preimage: Vec<u8>)
    ensures
        preimage@ == digest_preimage_of(separator@, struct_hash@),
{
    let mut preimage: Vec<u8> = Vec::new();
    preimage.push(0x19u8);
    preimage.push(0x01u8);
    assert(preimage@ =~= seq![0x19u8, 0x01u8]);
    append_bytes(&mut preimage, &separator.bytes);
    append_bytes(&mut preimage, &struct_hash.bytes);
    preimage
}

/// The digest that is signed for a struct hash under a domain separator.
pub open spec fn typed_data_digest(separator: Seq<u8>, struct_hash: Seq<u8>) -> Seq<u8> {
    keccak256_of(digest_preimage_of(separator, struct_hash))
}

/// Computes the digest that is signed.
pub fn digest(separator: &FixedBytes32, struct_hash: &FixedBytes32) -> (digest: FixedBytes32)
    ensures
        digest@ == typed_data_digest(separator@, struct_hash@),
{
    let preimage = digest_preimage(separator, struct_hash);
    keccak256(preimage.as_slice())
}

/// The ABI encoding of an item's fields as one sequence: name, id, serial,
/// date, owner, manufacturer and metadata, in this order.
pub uninterp spec fn item_encoding(
    name: Seq<char>,
    item_id: Seq<char>,
    serial: Seq<char>,
    date: Seq<u8>,
    owner: Seq<u8>,
    manufacturer: Seq<char>,
    metadata: Seq<Seq<char>>,
) -> Seq<u8>;

/// Calls `alloy_sol_types::SolValue::abi_encode_sequence` on the tuple of
/// an item's fields. Trusted: the bytes depend on the seven fields alone.
#[verifier::external_body]
fn abi_encode_item(item: &Item) -> (encoded: Vec<u8>)
    ensures
        encoded@ == item_encoding(
            item@.name,
            item@.item_id,
            item@.serial,
            item@.date,
            item@.owner,
            item@.manufacturer,
            item@.metadata,
        ),
{
    alloy_sol_types::SolValue::abi_encode_sequence(
        &(
            item.name.clone(),
            item.item_id.clone(),
            item.serial.clone(),
            alloy_primitives::U256::from_be_bytes(item.date.bytes),
            alloy_primitives::Address::new(item.owner.bytes),
            item.manufacturer.clone(),
            item.metadata.clone(),
        ),
    )
}

/// The Keccak-256 hash of `data` as the contract host computes it: 32
/// bytes.
pub uninterp spec fn host_keccak_of(data: Seq<u8>) -> Seq<u8>;

/// Calls `stylus_sdk::crypto::keccak`. Trusted: the result is the hash of
/// the bytes given, and depends on nothing else.
#[verifier::external_body]
fn host_keccak(data: &[u8]) -> (digest: FixedBytes32)
    ensures
        digest@ == host_keccak_of(data@),
{
    FixedBytes32 { bytes: stylus_sdk::crypto::keccak(data).0 }
}

/// The content hash of an item: the hash of the encoding of its fields.
/// A claim code is this hash of the item as it stood when the code was
/// made, so an item that has changed hands has another code.
pub open spec fn item_hash_of(item: ItemView) -> Seq<u8> {
    host_keccak_of(
        item_encoding(
            item.name,
            item.item_id,
            item.serial,
            item.date,
            item.owner,
            item.manufacturer,
            item.metadata,
        ),
    )
}

/// Computes the content hash of an item.
pub fn item_hash(item: &Item) -> (hash: FixedBytes32)
    ensures
        hash@ == item_hash_of(item@),
{
    let encoded = abi_encode_item(item);
    host_keccak(encoded.as_slice())
}

/// The two scalars of a signature and the parity of its recovery point.
pub struct RawSignature {
    pub r: U256,
    pub s: U256,
    pub y_parity: bool,
}

/// The values that the last byte of a 65-byte signature may take.
pub open spec fn valid_recovery_byte(v: u8) -> bool {
    v <= 1 || v == 27 || v == 28 || v >= 35
}

/// The parity that a valid last byte stands for.
pub open spec fn recovery_parity(v: u8) -> bool {
    if v <= 1 {
        v % 2 == 1
    } else {
        v % 2 == 0
    }
}

/// How 65 raw bytes are read as a signature: `r`, then `s`, then the
/// recovery byte. Other lengths and other recovery bytes are malformed.
pub open spec fn parsed_signature(raw: Seq<u8>) -> Option<(Seq<u8>, Seq<u8>, bool)> {
    if raw.len() == 65 && valid_recovery_byte(raw[64]) {
        Some((raw.subrange(0, 32), raw.subrange(32, 64), recovery_parity(raw[64])))
    } else {
        None
    }
}

/// Calls `alloy_primitives::Signature::from_raw`. Trusted: it accepts
/// exactly the inputs of 65 bytes whose last byte is 0, 1, 27, 28 or at
/// least 35, takes `r` from the first 32 bytes and `s` from the next 32,
/// and the parity from the last byte.
#[verifier::external_body]
fn signature_from_raw(raw: &[u8]) -> (parsed: Option<RawSignature>)
    ensures
        match parsed {
            Some(signature) => parsed_signature(raw@) == Some(
                (signature.r@, signature.s@, signature.y_parity),
            ),
            None => parsed_signature(raw@) is None,
        },
{
    match alloy_primitives::Signature::from_raw(raw) {
        Ok(signature) => Some(
            RawSignature {
                r: U256 { bytes: signature.r().to_be_bytes() },
                s: U256 { bytes: signature.s().to_be_bytes() },
                y_parity: signature.v(),
            },
        ),
        Err(_) => None,
    }
}

/// The address whose key made the signature `(r, s, y_parity)` over
/// `prehash`, if the curve yields one.
pub uninterp spec fn recovered_address(
    r: Seq<u8>,
    s: Seq<u8>,
    y_parity: bool,
    prehash: Seq<u8>,
) -> Option<Seq<u8>>;

/// Calls `alloy_primitives::Signature::recover_address_from_prehash` on
/// the signature made of the three parts. Trusted: the outcome depends on
/// the signature and the digest alone.
#[verifier::external_body]
fn recover_address_from_prehash(signature: &RawSignature, prehash: &FixedBytes32) -> (signer:
    Option<Address>)
    ensures
        match signer {
            Some(address) => recovered_address(
                signature.r@,
                signature.s@,
                signature.y_parity,
                prehash@,
            ) == Some(address@),
            None => recovered_address(signature.r@, signature.s@, signature.y_parity, prehash@)
                is None,
        },
{
    let parts = alloy_primitives::Signature::new(
        alloy_primitives::U256::from_be_bytes(signature.r.bytes),
        alloy_primitives::U256::from_be_bytes(signature.s.bytes),
        signature.y_parity,
    );
    match parts.recover_address_from_prehash(&alloy_primitives::B256::new(prehash.bytes)) {
        Ok(address) => Some(Address { bytes: address.into_array() }),
        Err(_) => None,
    }
}

/// The signer of `digest` under the raw signature: none where the bytes
/// are malformed or the curve yields no key.
pub open spec fn signer_of(digest: Seq<u8>, signature: Seq<u8>) -> Option<Seq<u8>> {
    match parsed_signature(signature) {
        Some((r, s, y_parity)) => recovered_address(r, s, y_parity, digest),
        None => None,
    }
}

/// What `recover` returns for each outcome of the recovery.
pub open spec fn recover_result(signer: Option<Seq<u8>>, result: Result<Address, EriError>) -> bool {
    match signer {
        Some(address) => result matches Ok(found) && found@ == address,
        None => result == Err::<Address, EriError>(EriError::InvalidSignature),
    }
}

/// Recovers the address that signed `digest`. Malformed bytes and a
/// signature that yields no signer are both `InvalidSignature`.
pub fn recover(digest: &FixedBytes32, signature: &[u8]) -> (result: Result<Address, EriError>)
    ensures
        recover_result(signer_of(digest@, signature@), result),
{
    match signature_from_raw(signature) {
        Some(parsed) => match recover_address_from_prehash(&parsed, digest) {
            Some(address) => Ok(address),
            None => Err(EriError::InvalidSignature),
        },
        None => Err(EriError::InvalidSignature),
    }
}

} // verus!
