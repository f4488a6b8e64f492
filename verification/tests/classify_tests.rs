use pump_feed::classify::classify;
use pump_feed::update::MessageData;
use pump_feed::update::RawUpdate;
use pump_feed::update::TokenBalance;
use pump_feed::update::TransactionData;
use pump_feed::update::TransactionInfo;
use pump_feed::update::TransactionMeta;
use pump_feed::update::TransactionUpdate;

const PROGRAM: &str = "6EF8rrecthR5Dkzon8Nwu78hRvfCKubJ14M5uBEwF6P";

fn balance(mint: Option<&str>) -> TokenBalance {
    TokenBalance { mint: mint.map(|m| m.to_string()) }
}

fn make_update(
    logs: Option<Vec<u8>>,
    signature: Vec<u8>,
    sig_list: Vec<Vec<u8>>,
    keys: Vec<Vec<u8>>,
    pre: Vec<TokenBalance>,
    post: Vec<TokenBalance>,
    slot: u64,
) -> RawUpdate {
    RawUpdate::Transaction(TransactionUpdate {
        slot,
        transaction: Some(TransactionInfo {
            signature,
            transaction: Some(TransactionData {
                signatures: sig_list,
                message: Some(MessageData { account_keys: keys }),
            }),
            meta: Some(TransactionMeta {
                log_messages: logs,
                pre_token_balances: pre,
                post_token_balances: post,
            }),
        }),
    })
}

fn create_logs() -> Vec<u8> {
    format!("Program {} invoke [1]\nProgram log: Instruction: Create\n", PROGRAM).into_bytes()
}

#[test]
fn create_scenario_produces_event() {
    let update = make_update(
        Some(create_logs()),
        vec![255],
        vec![],
        vec![vec![7u8; 32]],
        vec![],
        vec![balance(Some("ABCpump"))],
        4242,
    );
    let e = classify(&update).expect("a creation update must classify");
    // bs58 of the single byte 0xff is "5Q" in the default alphabet.
    assert_eq!(e.signature, "5Q");
    assert_eq!(e.mint_address, "ABCpump");
    assert_eq!(e.creator_address, bs58::encode(vec![7u8; 32]).into_string());
    assert_eq!(e.slot, 4242);
}

#[test]
fn signature_of_zero_bytes_is_all_ones() {
    let update = make_update(
        Some(create_logs()),
        vec![0, 0, 0],
        vec![],
        vec![vec![1u8]],
        vec![],
        vec![balance(Some("Mpump"))],
        1,
    );
    let e = classify(&update).unwrap();
    assert_eq!(e.signature, "111");
}

#[test]
fn pump_suffix_preferred_over_order() {
    let update = make_update(
        Some(create_logs()),
        vec![1],
        vec![],
        vec![vec![2u8]],
        vec![],
        vec![balance(Some("XYZfirst")), balance(Some("ABCpump"))],
        7,
    );
    let e = classify(&update).unwrap();
    assert_eq!(e.mint_address, "ABCpump");
}

#[test]
fn first_candidate_when_no_pump_suffix() {
    let update = make_update(
        Some(create_logs()),
        vec![1],
        vec![],
        vec![vec![2u8]],
        vec![],
        vec![balance(Some("FirstNew")), balance(Some("SecondNew"))],
        7,
    );
    let e = classify(&update).unwrap();
    assert_eq!(e.mint_address, "FirstNew");
}

#[test]
fn swap_logs_do_not_classify() {
    let logs = format!("Program {} invoke [1]\nProgram log: Instruction: Swap\n", PROGRAM)
        .into_bytes();
    let update = make_update(
        Some(logs),
        vec![1],
        vec![],
        vec![vec![2u8]],
        vec![],
        vec![balance(Some("ABCpump"))],
        7,
    );
    assert!(classify(&update).is_none());
}

#[test]
fn missing_program_address_does_not_classify() {
    let logs = b"Program log: Instruction: Create\n".to_vec();
    let update = make_update(
        Some(logs),
        vec![1],
        vec![],
        vec![vec![2u8]],
        vec![],
        vec![balance(Some("ABCpump"))],
        7,
    );
    assert!(classify(&update).is_none());
}

#[test]
fn create_v2_marker_classifies() {
    let logs = format!("Program {} invoke [1]\nProgram log: Instruction: CreateV2\n", PROGRAM)
        .into_bytes();
    let update = make_update(
        Some(logs),
        vec![1],
        vec![],
        vec![vec![2u8]],
        vec![],
        vec![balance(Some("ABCpump"))],
        7,
    );
    assert!(classify(&update).is_some());
}

#[test]
fn both_markers_classify_through_v2() {
    let logs = format!(
        "Program {} invoke [1]\nProgram log: Instruction: Create\nProgram log: Instruction: CreateV2\n",
        PROGRAM,
    )
    .into_bytes();
    let update = make_update(
        Some(logs),
        vec![1],
        vec![],
        vec![vec![2u8]],
        vec![],
        vec![balance(Some("ABCpump"))],
        7,
    );
    assert!(classify(&update).is_some());
}

#[test]
fn stray_v2_tag_does_not_disable_plain_marker() {
    // "CreateV2" appears outside any "Instruction: CreateV2" marker: only
    // the full V2 marker disables the plain branch, so this still matches.
    let logs = format!(
        "Program {} invoke [1]\nProgram log: Instruction: Create\nProgram log: saw CreateV2 elsewhere\n",
        PROGRAM,
    )
    .into_bytes();
    let update = make_update(
        Some(logs),
        vec![1],
        vec![],
        vec![vec![2u8]],
        vec![],
        vec![balance(Some("ABCpump"))],
        7,
    );
    assert!(classify(&update).is_some());
}

#[test]
fn invalid_utf8_logs_do_not_classify() {
    let mut logs = vec![0xc0u8, 0xc1u8];
    logs.extend_from_slice(create_logs().as_slice());
    let update = make_update(
        Some(logs),
        vec![1],
        vec![],
        vec![vec![2u8]],
        vec![],
        vec![balance(Some("ABCpump"))],
        7,
    );
    assert!(classify(&update).is_none());
}

#[test]
fn overlong_encoding_in_logs_does_not_classify() {
    // 0xc0 0xaf is an overlong encoding of '/': str::from_utf8 rejects it.
    let mut logs = create_logs();
    logs.push(0xc0);
    logs.push(0xaf);
    let update = make_update(
        Some(logs),
        vec![1],
        vec![],
        vec![vec![2u8]],
        vec![],
        vec![balance(Some("ABCpump"))],
        7,
    );
    assert!(classify(&update).is_none());
}

#[test]
fn surrogate_bytes_in_logs_do_not_classify() {
    // 0xed 0xa0 0x80 would decode into the surrogate range.
    let mut logs = create_logs();
    logs.extend_from_slice(&[0xed, 0xa0, 0x80]);
    let update = make_update(
        Some(logs),
        vec![1],
        vec![],
        vec![vec![2u8]],
        vec![],
        vec![balance(Some("ABCpump"))],
        7,
    );
    assert!(classify(&update).is_none());
}

#[test]
fn multibyte_text_in_logs_still_classifies() {
    let mut logs = create_logs();
    logs.extend_from_slice("comment: \u{e9}\u{4e16}\u{1f600}\n".as_bytes());
    let update = make_update(
        Some(logs),
        vec![1],
        vec![],
        vec![vec![2u8]],
        vec![],
        vec![balance(Some("ABCpump"))],
        7,
    );
    assert!(classify(&update).is_some());
}

#[test]
fn absent_logs_do_not_classify() {
    let update = make_update(
        None,
        vec![1],
        vec![],
        vec![vec![2u8]],
        vec![],
        vec![balance(Some("ABCpump"))],
        7,
    );
    assert!(classify(&update).is_none());
}

#[test]
fn signature_falls_back_to_signature_list() {
    let update = make_update(
        Some(create_logs()),
        vec![],
        vec![vec![9, 9, 9], vec![1, 1, 1]],
        vec![vec![2u8]],
        vec![],
        vec![balance(Some("ABCpump"))],
        7,
    );
    let e = classify(&update).unwrap();
    assert_eq!(e.signature, bs58::encode(vec![9, 9, 9]).into_string());
}

#[test]
fn missing_signature_everywhere_does_not_classify() {
    let update = make_update(
        Some(create_logs()),
        vec![],
        vec![],
        vec![vec![2u8]],
        vec![],
        vec![balance(Some("ABCpump"))],
        7,
    );
    assert!(classify(&update).is_none());
}

#[test]
fn missing_account_keys_do_not_classify() {
    let update = make_update(
        Some(create_logs()),
        vec![1],
        vec![],
        vec![],
        vec![],
        vec![balance(Some("ABCpump"))],
        7,
    );
    assert!(classify(&update).is_none());
}

#[test]
fn mint_present_in_pre_list_is_not_new() {
    let update = make_update(
        Some(create_logs()),
        vec![1],
        vec![],
        vec![vec![2u8]],
        vec![balance(Some("ABCpump"))],
        vec![balance(Some("ABCpump"))],
        7,
    );
    assert!(classify(&update).is_none());
}

#[test]
fn exact_placeholder_mint_is_not_a_candidate() {
    let update = make_update(
        Some(create_logs()),
        vec![1],
        vec![],
        vec![vec![2u8]],
        vec![],
        vec![balance(Some("11111111111111111111111111111111"))],
        7,
    );
    assert!(classify(&update).is_none());
}

#[test]
fn mint_containing_placeholder_is_still_new() {
    // Only the exact placeholder address is excluded; a different address
    // that merely contains the 32 ones is a legitimate new mint.
    let update = make_update(
        Some(create_logs()),
        vec![1],
        vec![],
        vec![vec![2u8]],
        vec![],
        vec![balance(Some("a11111111111111111111111111111111b"))],
        7,
    );
    let e = classify(&update).unwrap();
    assert_eq!(e.mint_address, "a11111111111111111111111111111111b");
}

#[test]
fn empty_mint_is_not_a_candidate() {
    let update = make_update(
        Some(create_logs()),
        vec![1],
        vec![],
        vec![vec![2u8]],
        vec![],
        vec![balance(Some(""))],
        7,
    );
    assert!(classify(&update).is_none());
}

#[test]
fn empty_mint_does_not_block_a_later_candidate() {
    let update = make_update(
        Some(create_logs()),
        vec![1],
        vec![],
        vec![vec![2u8]],
        vec![],
        vec![balance(Some("")), balance(Some("RealMint"))],
        7,
    );
    let e = classify(&update).unwrap();
    assert_eq!(e.mint_address, "RealMint");
}

#[test]
fn empty_fallback_signature_entry_does_not_classify() {
    let update = make_update(
        Some(create_logs()),
        vec![],
        vec![vec![]],
        vec![vec![2u8]],
        vec![],
        vec![balance(Some("ABCpump"))],
        7,
    );
    assert!(classify(&update).is_none());
}

#[test]
fn empty_first_account_key_does_not_classify() {
    let update = make_update(
        Some(create_logs()),
        vec![1],
        vec![],
        vec![vec![]],
        vec![],
        vec![balance(Some("ABCpump"))],
        7,
    );
    assert!(classify(&update).is_none());
}

#[test]
fn pre_mint_only_blocks_its_own_address() {
    let update = make_update(
        Some(create_logs()),
        vec![1],
        vec![],
        vec![vec![2u8]],
        vec![balance(Some("OldMint")), balance(None)],
        vec![balance(Some("OldMint")), balance(Some("NewMint"))],
        7,
    );
    let e = classify(&update).unwrap();
    assert_eq!(e.mint_address, "NewMint");
}

#[test]
fn non_transaction_updates_do_not_classify() {
    assert!(classify(&RawUpdate::Other).is_none());
    let update = RawUpdate::Transaction(TransactionUpdate { slot: 3, transaction: None });
    assert!(classify(&update).is_none());
}

#[test]
fn missing_meta_does_not_classify() {
    let update = RawUpdate::Transaction(TransactionUpdate {
        slot: 3,
        transaction: Some(TransactionInfo {
            signature: vec![1],
            transaction: Some(TransactionData {
                signatures: vec![],
                message: Some(MessageData { account_keys: vec![vec![2u8]] }),
            }),
            meta: None,
        }),
    });
    assert!(classify(&update).is_none());
}
