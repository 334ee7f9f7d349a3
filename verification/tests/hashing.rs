use alloy_sol_types::SolValue;
use eri_registry::authenticity::Authenticity;
use eri_registry::hashing::{
    address_to_word, append_bytes, digest, digest_preimage, domain_preimage, domain_separator,
    hash_str, item_hash, recover, struct_hash, struct_preimage, u64_to_word,
};
use eri_registry::primitives::{bytes_all_zero, bytes_equal, Address, FixedBytes32, U256};
use eri_registry::types::{EriError, Item};

fn address(byte: u8) -> Address {
    Address { bytes: [byte; 20] }
}

fn hex32(text: &str) -> [u8; 32] {
    let mut out = [0u8; 32];
    let bytes = text.as_bytes();
    for i in 0..32 {
        let pair = std::str::from_utf8(&bytes[2 * i..2 * i + 2]).unwrap();
        out[i] = u8::from_str_radix(pair, 16).unwrap();
    }
    out
}

#[test]
fn keccak_of_the_empty_input() {
    let expected = hex32("c5d2460186f7233c927e7db2dcc703c0e500b653ca82273b7bfad8045d85a470");
    assert_eq!(hash_str("").bytes, expected);
}

#[test]
fn keccak_of_a_short_text() {
    let expected = hex32("4e03657aea45a94fc7d47ba826c8d667c0d1e6e33a64a036ec44f58fa12d6c45");
    assert_eq!(hash_str("abc").bytes, expected);
}

#[test]
fn byte_comparisons() {
    assert!(bytes_equal(&[1u8, 2, 3], &[1u8, 2, 3]));
    assert!(!bytes_equal(&[1u8, 2, 3], &[1u8, 2, 4]));
    assert!(!bytes_equal(&[0u8, 2, 3], &[1u8, 2, 3]));
    assert!(bytes_all_zero(&[0u8; 7]));
    assert!(!bytes_all_zero(&[0u8, 0, 1]));
    assert!(bytes_all_zero::<0>(&[]));
    assert!(address(3).same(&address(3)));
    assert!(!address(3).same(&address(4)));
    assert!(Address::zero().is_zero());
    assert!(!address(1).is_zero());
    let word = FixedBytes32 { bytes: [9; 32] };
    assert!(word.same(&FixedBytes32 { bytes: [9; 32] }));
    assert!(!word.same(&FixedBytes32 { bytes: [8; 32] }));
}

#[test]
fn words_of_numbers_and_addresses() {
    let mut one = [0u8; 32];
    one[31] = 1;
    assert_eq!(u64_to_word(1), one);
    assert_eq!(u64_to_word(0), [0u8; 32]);
    let mut big = [0u8; 32];
    big[24..].copy_from_slice(&[0x01, 0x23, 0x45, 0x67, 0x89, 0xab, 0xcd, 0xef]);
    assert_eq!(u64_to_word(0x0123_4567_89ab_cdef), big);
    let mut max = [0u8; 32];
    max[24..].copy_from_slice(&[0xff; 8]);
    assert_eq!(u64_to_word(u64::MAX), max);
    assert_eq!(
        u64_to_word(421_614),
        alloy_primitives::U256::from(421_614u64).to_be_bytes::<32>()
    );

    let mut padded = [0u8; 32];
    padded[12..].copy_from_slice(&[7u8; 20]);
    assert_eq!(address_to_word(&address(7)), padded);
}

#[test]
fn appending_keeps_what_was_there() {
    let mut buffer = vec![1u8, 2];
    append_bytes(&mut buffer, &[3u8, 4, 5]);
    assert_eq!(buffer, vec![1u8, 2, 3, 4, 5]);
    append_bytes::<0>(&mut buffer, &[]);
    assert_eq!(buffer, vec![1u8, 2, 3, 4, 5]);
}

#[test]
fn preimages_are_laid_out_word_by_word() {
    let word = |byte: u8| FixedBytes32 { bytes: [byte; 32] };

    let laid = digest_preimage(&word(1), &word(2));
    let mut expected = vec![0x19u8, 0x01];
    expected.extend_from_slice(&[1; 32]);
    expected.extend_from_slice(&[2; 32]);
    assert_eq!(laid, expected);

    let laid = domain_preimage(&word(1), &word(2), &word(3), 0x0102, &address(9));
    let mut expected = Vec::new();
    expected.extend_from_slice(&[1; 32]);
    expected.extend_from_slice(&[2; 32]);
    expected.extend_from_slice(&[3; 32]);
    expected.extend_from_slice(&[0; 30]);
    expected.extend_from_slice(&[1, 2]);
    expected.extend_from_slice(&[0; 12]);
    expected.extend_from_slice(&[9; 20]);
    assert_eq!(laid, expected);

    let laid = struct_preimage(
        &word(1),
        &word(2),
        &word(3),
        &word(4),
        &U256 { bytes: [5; 32] },
        &address(6),
        &word(7),
    );
    let mut expected = Vec::new();
    for byte in 1u8..=5 {
        expected.extend_from_slice(&[byte; 32]);
    }
    expected.extend_from_slice(&[0; 12]);
    expected.extend_from_slice(&[6; 20]);
    expected.extend_from_slice(&[7; 32]);
    assert_eq!(laid, expected);
}

#[test]
fn domain_separator_is_that_of_the_typed_data_standard() {
    let name_hash = hash_str("CertificateAuth");
    let version_hash = hash_str("1");
    let ours = domain_separator(&name_hash, &version_hash, 421_614, &address(0xBB));
    let domain = alloy_sol_types::Eip712Domain::new(
        Some("CertificateAuth".into()),
        Some("1".into()),
        Some(alloy_primitives::U256::from(421_614u64)),
        Some(alloy_primitives::Address::new([0xBB; 20])),
        None,
    );
    assert_eq!(ours.bytes, domain.separator().0);
}

#[test]
fn domain_separator_depends_on_chain_and_address() {
    let name_hash = hash_str("CertificateAuth");
    let version_hash = hash_str("1");
    let base = domain_separator(&name_hash, &version_hash, 1, &address(0xBB));
    assert_ne!(base, domain_separator(&name_hash, &version_hash, 2, &address(0xBB)));
    assert_ne!(base, domain_separator(&name_hash, &version_hash, 1, &address(0xBC)));
    assert_ne!(base, domain_separator(&version_hash, &name_hash, 1, &address(0xBB)));
}

#[test]
fn struct_hash_is_the_hash_of_seven_words() {
    let type_hash = hash_str(
        "Certificate(string name,string uniqueId,string serial,uint256 date,address owner,bytes32 metadataHash)",
    );
    let date = U256 { bytes: u64_to_word(1_700_000_000) };
    let metadata_hash = FixedBytes32 { bytes: [0x5a; 32] };
    let ours = struct_hash(
        &type_hash,
        "Watch",
        "W-1",
        "SN-9",
        &date,
        &address(0x11),
        &metadata_hash,
    );
    let words = (
        alloy_primitives::B256::new(type_hash.bytes),
        alloy_primitives::keccak256("Watch".as_bytes()),
        alloy_primitives::keccak256("W-1".as_bytes()),
        alloy_primitives::keccak256("SN-9".as_bytes()),
        alloy_primitives::U256::from(1_700_000_000u64),
        alloy_primitives::Address::new([0x11; 20]),
        alloy_primitives::B256::new([0x5a; 32]),
    );
    let encoded = words.abi_encode();
    assert_eq!(encoded.len(), 7 * 32);
    assert_eq!(ours.bytes, alloy_primitives::keccak256(&encoded).0);
}

#[test]
fn digest_is_the_hash_of_prefix_separator_and_struct_hash() {
    let separator = FixedBytes32 { bytes: [0x01; 32] };
    let hash = FixedBytes32 { bytes: [0x02; 32] };
    let mut preimage = vec![0x19u8, 0x01];
    preimage.extend_from_slice(&[0x01; 32]);
    preimage.extend_from_slice(&[0x02; 32]);
    assert_eq!(preimage.len(), 66);
    assert_eq!(digest(&separator, &hash).bytes, alloy_primitives::keccak256(&preimage).0);
    assert_ne!(digest(&separator, &hash), digest(&hash, &separator));
}

#[test]
fn hash_typed_data_uses_the_deployment() {
    let authority = Authenticity::constructor(address(0xAA), 7, address(0xBB)).unwrap();
    let hash = FixedBytes32 { bytes: [0x33; 32] };
    let domain = alloy_sol_types::Eip712Domain::new(
        Some("CertificateAuth".into()),
        Some("1".into()),
        Some(alloy_primitives::U256::from(7u64)),
        Some(alloy_primitives::Address::new([0xBB; 20])),
        None,
    );
    let mut preimage = vec![0x19u8, 0x01];
    preimage.extend_from_slice(&domain.separator().0);
    preimage.extend_from_slice(&[0x33; 32]);
    assert_eq!(
        authority.hash_typed_data_v4(hash).unwrap().bytes,
        alloy_primitives::keccak256(&preimage).0
    );
    let elsewhere = Authenticity::constructor(address(0xAA), 8, address(0xBB)).unwrap();
    assert_ne!(authority.hash_typed_data_v4(hash), elsewhere.hash_typed_data_v4(hash));
}

fn watch() -> Item {
    Item {
        name: "Watch".to_string(),
        item_id: "W-1".to_string(),
        serial: "SN-9".to_string(),
        date: U256 { bytes: u64_to_word(1_700_000_000) },
        owner: address(0x11),
        manufacturer: "Acme".to_string(),
        metadata: vec!["gold".to_string(), "42mm".to_string()],
    }
}

#[test]
fn item_hash_is_the_hash_of_the_abi_encoding() {
    let fields = (
        "Watch".to_string(),
        "W-1".to_string(),
        "SN-9".to_string(),
        alloy_primitives::U256::from(1_700_000_000u64),
        alloy_primitives::Address::new([0x11; 20]),
        "Acme".to_string(),
        vec!["gold".to_string(), "42mm".to_string()],
    );
    let expected = alloy_primitives::keccak256(fields.abi_encode_sequence());
    assert_eq!(item_hash(&watch()).bytes, expected.0);
}

#[test]
fn item_hash_changes_with_every_field() {
    let base = item_hash(&watch());
    let mut other = watch();
    other.name = "Watch2".to_string();
    assert_ne!(item_hash(&other), base);
    let mut other = watch();
    other.item_id = "W-2".to_string();
    assert_ne!(item_hash(&other), base);
    let mut other = watch();
    other.serial = "SN-8".to_string();
    assert_ne!(item_hash(&other), base);
    let mut other = watch();
    other.date = U256 { bytes: u64_to_word(1_700_000_001) };
    assert_ne!(item_hash(&other), base);
    let mut other = watch();
    other.owner = address(0x12);
    assert_ne!(item_hash(&other), base);
    let mut other = watch();
    other.manufacturer = "Bolt".to_string();
    assert_ne!(item_hash(&other), base);
    let mut other = watch();
    other.metadata.pop();
    assert_ne!(item_hash(&other), base);
    assert_eq!(item_hash(&watch()), base);
}

fn signed(key_byte: u8, digest: &FixedBytes32) -> (Vec<u8>, Address) {
    let key = k256::ecdsa::SigningKey::from_slice(&[key_byte; 32]).unwrap();
    let (signature, recovery) = key.sign_prehash_recoverable(&digest.bytes).unwrap();
    let mut raw = signature.to_bytes().to_vec();
    raw.push(27 + recovery.to_byte());
    let signer = alloy_primitives::Address::from_private_key(&key);
    (raw, Address { bytes: signer.into_array() })
}

#[test]
fn recover_finds_the_signer() {
    let message = hash_str("a certificate");
    let (raw, signer) = signed(0x21, &message);
    assert_eq!(raw.len(), 65);
    assert_eq!(recover(&message, &raw), Ok(signer));
    let (other_raw, other_signer) = signed(0x22, &message);
    assert_ne!(signer, other_signer);
    assert_eq!(recover(&message, &other_raw), Ok(other_signer));
}

#[test]
fn recover_accepts_both_forms_of_the_recovery_byte() {
    let message = hash_str("a certificate");
    let (mut raw, signer) = signed(0x21, &message);
    raw[64] -= 27;
    assert_eq!(recover(&message, &raw), Ok(signer));
}

#[test]
fn recover_over_another_digest_gives_another_signer() {
    let message = hash_str("a certificate");
    let (raw, signer) = signed(0x21, &message);
    let other = hash_str("another certificate");
    match recover(&other, &raw) {
        Ok(found) => assert_ne!(found, signer),
        Err(error) => assert_eq!(error, EriError::InvalidSignature),
    }
}

#[test]
fn recover_refuses_malformed_signatures() {
    let message = hash_str("a certificate");
    let (raw, _) = signed(0x21, &message);
    assert_eq!(recover(&message, &[]), Err(EriError::InvalidSignature));
    assert_eq!(recover(&message, &raw[..64]), Err(EriError::InvalidSignature));
    let mut long = raw.clone();
    long.push(0);
    assert_eq!(recover(&message, &long), Err(EriError::InvalidSignature));
    for bad in [2u8, 26, 29, 34] {
        let mut wrong = raw.clone();
        wrong[64] = bad;
        assert_eq!(recover(&message, &wrong), Err(EriError::InvalidSignature));
    }
    // scalars of zero are no signature
    let mut zero = vec![0u8; 65];
    zero[64] = 27;
    assert_eq!(recover(&message, &zero), Err(EriError::InvalidSignature));
    // nor are scalars beyond the order of the curve
    let mut large = vec![0xffu8; 65];
    large[64] = 28;
    assert_eq!(recover(&message, &large), Err(EriError::InvalidSignature));
    let mut large_s = raw.clone();
    for byte in large_s[32..64].iter_mut() {
        *byte = 0xff;
    }
    assert_eq!(recover(&message, &large_s), Err(EriError::InvalidSignature));
}
