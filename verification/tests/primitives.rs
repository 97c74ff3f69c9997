//! Texts, bytes, addresses, and the messages of the errors.

use glc_bridge::bytes::{from_bits64, push_le, read_le, same_bytes, to_bits64};
use glc_bridge::glc::hex::{decode_exact, decode_vec, encode, HexError};
use glc_bridge::glc::rpc::RpcError;
use glc_bridge::solana::instruction::{
    anchor_discriminator, complete_withdrawal_instruction, deposit_claim_pda,
    destination_commitment, try_deposit_claim_pda, CompleteWithdrawalAccounts,
};
use glc_bridge::solana::pubkey::{
    Pubkey, INSTRUCTIONS_SYSVAR_ID, RENT_SYSVAR_ID, SYSTEM_PROGRAM_ID, TOKEN_METADATA_PROGRAM_ID,
    TOKEN_PROGRAM_ID, UPGRADEABLE_LOADER_ID,
};
use glc_bridge::solana::rpc::decode_token_metadata;
use glc_bridge::text::{is_before, parse_number, push_decimal_int, split_list, NumberError};
use glc_bridge::withdrawal::address::{
    base58_decode, base58_encode, base58check_encode, decode_p2pkh_hash160, encode_p2pkh,
    p2pkh_script_hex, AddressError,
};
use glc_bridge::withdrawal::sweep::SweepError;
use sha2::{Digest, Sha256};

#[test]
fn numbers_spell_and_read_back() {
    for n in [0i64, 7, -7, 1_000, i64::MAX, i64::MIN] {
        let mut out = String::new();
        push_decimal_int(&mut out, n);
        assert_eq!(out, n.to_string());
    }
    assert_eq!(parse_number("255", 255), Ok(255));
    assert_eq!(parse_number("+255", 255), Ok(255));
    assert_eq!(parse_number("00", 255), Ok(0));
    assert_eq!(parse_number("256", 255), Err(NumberError::TooLarge));
    assert_eq!(parse_number("", 255), Err(NumberError::Empty));
    for bad in ["+", "-1", "1 ", "x"] {
        assert_eq!(parse_number(bad, 255), Err(NumberError::InvalidDigit));
        assert_eq!(
            bad.parse::<u8>().unwrap_err().to_string(),
            NumberError::InvalidDigit.message()
        );
    }
    assert_eq!(
        parse_number("18446744073709551615", u64::MAX),
        Ok(u64::MAX)
    );
    assert_eq!(
        parse_number("18446744073709551616", u64::MAX),
        Err(NumberError::TooLarge)
    );
    assert_eq!(
        "".parse::<u8>().unwrap_err().to_string(),
        NumberError::Empty.message()
    );
    assert_eq!(
        "256".parse::<u8>().unwrap_err().to_string(),
        NumberError::TooLarge.message()
    );
}

#[test]
fn lists_are_split_at_commas() {
    assert_eq!(split_list(" a ,, b\t,"), vec!["a", "b"]);
    assert!(split_list("").is_empty());
    assert!(split_list(" , ").is_empty());
    assert!(is_before("a", "ab") && is_before("B", "a") && !is_before("a", "a"));
}

#[test]
fn bytes_are_little_endian() {
    let mut out = Vec::new();
    push_le(&mut out, 0x0102_0304, 4);
    assert_eq!(out, vec![4, 3, 2, 1]);
    assert_eq!(read_le(&out, 0, 4), 0x0102_0304);
    assert_eq!(read_le(&out, 1, 2), 0x0203);
    for v in [0i64, -1, i64::MIN, i64::MAX] {
        assert_eq!(to_bits64(v), v as u64);
        assert_eq!(from_bits64(v as u64), v);
    }
    assert!(same_bytes(&[1, 2], &[1, 2]));
    assert!(!same_bytes(&[1, 2], &[1, 3]) && !same_bytes(&[1], &[1, 2]));
}

#[test]
fn hex_text_spells_the_bytes() {
    assert_eq!(encode(&[0x00, 0x0f, 0xff]), "000fff");
    assert_eq!(decode_vec("000fFF"), Ok(vec![0x00, 0x0f, 0xff]));
    assert_eq!(decode_vec("0"), Err(HexError::NotHex));
    assert_eq!(decode_vec("0g"), Err(HexError::NotHex));
    assert_eq!(decode_exact::<2>("abcd"), Ok([0xab, 0xcd]));
    assert_eq!(decode_exact::<2>("ab"), Err(HexError::WrongLength));
    assert_eq!(HexError::NotHex.message(), "not hexadecimal");
    assert_eq!(HexError::WrongLength.message(), "wrong number of bytes");
}

#[test]
fn base58_is_the_usual_one() {
    assert_eq!(base58_encode(b"Hello World!"), "2NEpo7TZRRrLZSi2U");
    assert_eq!(base58_encode(&[0, 0, 1]), "112");
    assert_eq!(base58_encode(&[]), "");
    assert_eq!(
        base58_decode("2NEpo7TZRRrLZSi2U"),
        Some(b"Hello World!".to_vec())
    );
    assert_eq!(base58_decode("112"), Some(vec![0, 0, 1]));
    assert_eq!(base58_decode("0"), None);
    assert_eq!(
        base58_encode(&[7; 32]),
        solana_sdk::pubkey::Pubkey::new_from_array([7; 32]).to_string()
    );
}

#[test]
fn addresses_pay_the_hash_they_spell() {
    let hash = [0x22u8; 20];
    let text = encode_p2pkh(&hash);
    assert_eq!(decode_p2pkh_hash160(&text), Ok(hash));
    let mut payload = vec![0x6f];
    payload.extend_from_slice(&hash);
    let sum = Sha256::digest(Sha256::digest(&payload));
    payload.extend_from_slice(&sum[..4]);
    assert_eq!(text, base58_encode(&payload));
    assert_eq!(
        p2pkh_script_hex(&hash),
        format!("76a914{}88ac", encode(&hash))
    );
}

#[test]
fn a_text_that_cannot_be_paid_says_why() {
    let good = encode_p2pkh(&[0x22; 20]);
    let mut spoilt = base58_decode(&good).unwrap();
    spoilt[24] ^= 1;
    let cases = [
        ("0OIl".to_string(), AddressError::NotBase58),
        ("2NEpo7TZRRrLZSi2U".to_string(), AddressError::WrongLength),
        (base58_encode(&spoilt), AddressError::BadChecksum),
        (
            base58check_encode(0x05, &[0x22; 20]),
            AddressError::WrongVersion,
        ),
    ];
    for (text, why) in cases {
        assert_eq!(decode_p2pkh_hash160(&text), Err(why));
    }
    assert_eq!(AddressError::NotBase58.message(), "it is not base58 text");
    assert_eq!(
        AddressError::WrongLength.message(),
        "it does not hold 25 bytes"
    );
    assert_eq!(
        AddressError::BadChecksum.message(),
        "its checksum does not match"
    );
    assert_eq!(
        AddressError::WrongVersion.message(),
        "it is not a pay-to-public-key-hash address"
    );
}

#[test]
fn only_an_unreached_node_is_asked_again() {
    assert!(RpcError::Transport("x".to_string()).is_retriable());
    assert!(!RpcError::Method("x".to_string()).is_retriable());
    assert!(!RpcError::Malformed("x".to_string()).is_retriable());
    assert_eq!(
        RpcError::Method("x".to_string()).message(),
        "method error: x"
    );
}

#[test]
fn well_known_keys_are_those_of_their_crates() {
    assert_eq!(TOKEN_PROGRAM_ID, spl_token::ID.to_bytes());
    assert_eq!(
        INSTRUCTIONS_SYSVAR_ID,
        solana_sdk::sysvar::instructions::ID.to_bytes()
    );
    assert_eq!(RENT_SYSVAR_ID, solana_sdk::sysvar::rent::ID.to_bytes());
    assert_eq!(
        base58_encode(&SYSTEM_PROGRAM_ID),
        "11111111111111111111111111111111"
    );
    assert_eq!(
        base58_encode(&UPGRADEABLE_LOADER_ID),
        "BPFLoaderUpgradeab1e11111111111111111111111"
    );
    assert_eq!(
        base58_encode(&TOKEN_METADATA_PROGRAM_ID),
        "metaqbxxUerdq28cj1RbAWkYQm3ybzjb6a8bt518x1s"
    );
}

#[test]
fn a_completion_says_what_was_paid() {
    let key = |b: u8| Pubkey::new_from_array([b; 32]);
    let accounts = CompleteWithdrawalAccounts {
        submitter: key(1),
        bridge_config: key(2),
        validator_set: key(3),
        withdrawal: key(4),
    };
    let ix = complete_withdrawal_instruction(&key(9), &accounts, 7, [0xab; 32], 500, 3);
    let mut data = anchor_discriminator("complete_withdrawal").to_vec();
    data.extend_from_slice(&7u64.to_le_bytes());
    data.extend_from_slice(&[0xab; 32]);
    data.extend_from_slice(&500u64.to_le_bytes());
    data.extend_from_slice(&3u64.to_le_bytes());
    assert_eq!(ix.data, data);
    assert_eq!(ix.program_id, key(9));
    assert_eq!(ix.accounts.len(), 5);
    assert_eq!(ix.accounts[4].pubkey.bytes, INSTRUCTIONS_SYSVAR_ID);
    let digest: [u8; 32] = Sha256::digest(b"address").into();
    assert_eq!(destination_commitment(b"address"), digest);
    assert_eq!(
        try_deposit_claim_pda(&key(9), &[1; 32], 2),
        Some(deposit_claim_pda(&key(9), &[1; 32], 2))
    );
}

#[test]
fn a_name_that_is_not_utf8_is_read_with_replacements() {
    let mut d = vec![4u8];
    d.extend_from_slice(&[6; 32]);
    d.extend_from_slice(&[7; 32]);
    for s in [&[b'a', 0xff, b'b'][..], b"s", b"u"] {
        d.extend_from_slice(&(s.len() as u32).to_le_bytes());
        d.extend_from_slice(s);
    }
    assert_eq!(decode_token_metadata(&d).unwrap().name, "a\u{fffd}b");
}

#[test]
fn a_sweep_error_says_what_was_found() {
    let cases = [
        (
            SweepError::NothingToSweep,
            "the vault holds no spendable outputs at the required confirmation depth",
        ),
        (
            SweepError::FeeExceedsValue { total: 5, fee: 9 },
            "total vault value 5 does not cover the 9 fee",
        ),
        (
            SweepError::ResultIsDust { swept: 5, dust: 9 },
            "sweeping 5 would leave a dust output below the 9 threshold",
        ),
        (
            SweepError::TooManyInputs { needed: 5, max: 4 },
            "the sweep would need 5 inputs, more than the 4 cap",
        ),
        (
            SweepError::DestinationIsSource,
            "the destination is the vault being swept — a sweep must move funds elsewhere",
        ),
        (
            SweepError::InputCountMismatch {
                expected: 2,
                found: 1,
            },
            "the proposed transaction has 1 inputs, the plan has 2",
        ),
        (
            SweepError::InputMismatch {
                index: 0,
                expected: "a:1".to_string(),
                found: "b:2".to_string(),
            },
            "proposed input 0 is b:2, the plan has a:1",
        ),
        (
            SweepError::NotSingleOutput(2),
            "the proposed transaction has 2 outputs; a sweep has exactly one",
        ),
        (
            SweepError::WrongDestination {
                expected_hex: "aa".to_string(),
                found_hex: "bb".to_string(),
            },
            "the sweep pays bb, not the planned destination aa",
        ),
        (
            SweepError::WrongAmount {
                expected: 5,
                found: 4,
            },
            "the sweep pays 4, the plan pays 5",
        ),
        (
            SweepError::AlreadySigned(3),
            "the proposed transaction is already signed: input 3 carries a scriptSig",
        ),
    ];
    for (error, text) in cases {
        assert_eq!(error.message(), text);
    }
}
