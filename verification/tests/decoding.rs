use dex_indexer::amount::Amount;
use dex_indexer::decoder::{
    decode_block, decode_evm_log, decode_record, decode_solana_instruction, find_venue, DecodeError,
};
use dex_indexer::model::{Chain, ChainKind, RawBlock, RawRecord, Venue};
use dex_indexer::pipeline::{build_batch, price_event};
use dex_indexer::store::PriceTable;

fn dec_word(x: u128) -> Vec<u8> {
    let mut w = vec![0u8; 16];
    w.extend_from_slice(&x.to_be_bytes());
    w
}

fn dec_address_word(last: u8) -> Vec<u8> {
    let mut w = vec![0u8; 32];
    w[12] = 0xaa;
    w[31] = last;
    w
}

fn dec_selector() -> Vec<u8> {
    let mut s = vec![0xd7u8; 32];
    s[0] = 0x01;
    s
}

fn dec_venue_address() -> Vec<u8> {
    let mut a = vec![0u8; 20];
    a[0] = 0x5c;
    a[1] = 0x69;
    a[2] = 0x5e;
    a[3] = 0x5a;
    a[4] = 0x5a;
    a[5] = 0x5d;
    a
}

fn dec_venue() -> Venue {
    Venue {
        address: dec_venue_address(),
        selector: dec_selector(),
        pair_key: "TOKENA/TOKENB".to_string(),
        decimals_in: 6,
        decimals_out: 18,
    }
}

fn dec_chain() -> Chain {
    Chain { chain_id: "ethereum".to_string(), kind: ChainKind::Evm, confirmation_depth: 5 }
}

fn dec_swap_log(tx_index: u64, index: u64, amount_in: u128, amount_out: u128) -> RawRecord {
    let mut data = dec_word(amount_in);
    data.extend_from_slice(&dec_word(amount_out));
    data.extend_from_slice(&dec_address_word(9));
    RawRecord {
        tx_index,
        index,
        source: dec_venue_address(),
        topics: vec![dec_selector(), dec_address_word(7)],
        data,
    }
}

fn dec_block(height: u64, records: Vec<RawRecord>) -> RawBlock {
    RawBlock { height, hash: [height as u8; 32], parent_hash: [(height - 1) as u8; 32], records }
}

fn sol_venue() -> Venue {
    Venue {
        address: vec![0x42u8; 32],
        selector: vec![9u8],
        pair_key: "SOL/USDC".to_string(),
        decimals_in: 9,
        decimals_out: 6,
    }
}

fn sol_chain() -> Chain {
    Chain { chain_id: "solana".to_string(), kind: ChainKind::Solana, confirmation_depth: 32 }
}

fn sol_instruction(amount_in: u64, amount_out: u64) -> RawRecord {
    let mut data = vec![9u8];
    data.extend_from_slice(&amount_in.to_le_bytes());
    data.extend_from_slice(&amount_out.to_le_bytes());
    RawRecord {
        tx_index: 4,
        index: 2,
        source: vec![0x42u8; 32],
        topics: vec![vec![1u8; 32], vec![2u8; 32]],
        data,
    }
}

#[test]
fn evm_swap_log_is_decoded() {
    let log = dec_swap_log(3, 11, 1_000_000, 2_000_000_000_000_000_000);
    let event = decode_record(&dec_chain(), &vec![dec_venue()], 905, &log, 1_700_000_000)
        .unwrap()
        .unwrap();
    assert_eq!(event.chain_id, "ethereum");
    assert_eq!(event.dex_address, dec_venue_address());
    assert_eq!(event.pair_key, "TOKENA/TOKENB");
    assert_eq!(event.amount_in, Amount::from_u64(1_000_000));
    assert_eq!(event.amount_out, Amount::from_u128(2_000_000_000_000_000_000));
    assert_eq!(event.block_height, 905);
    assert_eq!(event.tx_index, 3);
    assert_eq!(event.log_index, 11);
    assert_eq!(event.observed_at, 1_700_000_000);
}

#[test]
fn evm_amounts_use_all_256_bits() {
    let mut log = dec_swap_log(0, 0, 1, 1);
    log.data[0] = 0x80;
    log.data[32] = 0x01;
    let (amount_in, amount_out) = decode_evm_log(&dec_selector(), &log).unwrap().unwrap();
    assert_eq!(amount_in, Amount { w0: 1, w1: 0, w2: 0, w3: 0x8000_0000_0000_0000 });
    assert_eq!(amount_out, Amount { w0: 1, w1: 0, w2: 0, w3: 0x0100_0000_0000_0000 });
}

#[test]
fn log_of_an_unknown_address_is_passed_over() {
    let mut log = dec_swap_log(0, 0, 1, 2);
    log.source[19] = 1;
    assert_eq!(decode_record(&dec_chain(), &vec![dec_venue()], 1, &log, 0), Ok(None));
    log.data = vec![1, 2, 3];
    assert_eq!(decode_record(&dec_chain(), &vec![dec_venue()], 1, &log, 0), Ok(None));
    assert_eq!(decode_record(&dec_chain(), &vec![], 1, &log, 0), Ok(None));
}

#[test]
fn log_of_another_event_of_the_venue_is_passed_over() {
    let mut log = dec_swap_log(0, 0, 1, 2);
    log.topics[0][5] = 0;
    log.data = vec![];
    assert_eq!(decode_record(&dec_chain(), &vec![dec_venue()], 1, &log, 0), Ok(None));
    log.topics = vec![];
    assert_eq!(decode_record(&dec_chain(), &vec![dec_venue()], 1, &log, 0), Ok(None));
    let mut short = dec_swap_log(0, 0, 1, 2);
    short.topics[0].pop();
    assert_eq!(decode_evm_log(&dec_selector(), &short), Ok(None));
}

#[test]
fn swap_log_with_wrong_topic_count_is_malformed() {
    let mut log = dec_swap_log(0, 0, 1, 2);
    log.topics.pop();
    assert_eq!(
        decode_record(&dec_chain(), &vec![dec_venue()], 1, &log, 0),
        Err(DecodeError::TopicCount)
    );
    let mut log = dec_swap_log(0, 0, 1, 2);
    log.topics.push(dec_address_word(1));
    assert_eq!(decode_evm_log(&dec_selector(), &log), Err(DecodeError::TopicCount));
}

#[test]
fn swap_log_with_bad_sender_is_malformed() {
    let mut log = dec_swap_log(0, 0, 1, 2);
    log.topics[1][11] = 1;
    assert_eq!(decode_evm_log(&dec_selector(), &log), Err(DecodeError::SenderWord));
    let mut log = dec_swap_log(0, 0, 1, 2);
    log.topics[1].pop();
    assert_eq!(decode_evm_log(&dec_selector(), &log), Err(DecodeError::SenderWord));
}

#[test]
fn swap_log_with_wrong_data_length_is_malformed() {
    let mut log = dec_swap_log(0, 0, 1, 2);
    log.data.pop();
    assert_eq!(decode_evm_log(&dec_selector(), &log), Err(DecodeError::DataLength));
    let mut log = dec_swap_log(0, 0, 1, 2);
    log.data.push(0);
    assert_eq!(decode_evm_log(&dec_selector(), &log), Err(DecodeError::DataLength));
    let mut log = dec_swap_log(0, 0, 1, 2);
    log.data = vec![];
    assert_eq!(decode_evm_log(&dec_selector(), &log), Err(DecodeError::DataLength));
}

#[test]
fn swap_log_with_bad_recipient_is_malformed() {
    let mut log = dec_swap_log(0, 0, 1, 2);
    log.data[64] = 1;
    assert_eq!(decode_evm_log(&dec_selector(), &log), Err(DecodeError::RecipientWord));
    let mut log = dec_swap_log(0, 0, 1, 2);
    log.data[75] = 0xff;
    assert_eq!(decode_evm_log(&dec_selector(), &log), Err(DecodeError::RecipientWord));
    let mut log = dec_swap_log(0, 0, 1, 2);
    log.data[76] = 0xff;
    assert!(decode_evm_log(&dec_selector(), &log).unwrap().is_some());
}

#[test]
fn solana_swap_instruction_is_decoded() {
    let ix = sol_instruction(1_500_000_000, 0x0102_0304_0506_0708);
    let event = decode_record(&sol_chain(), &vec![sol_venue()], 250_000_000, &ix, 17)
        .unwrap()
        .unwrap();
    assert_eq!(event.chain_id, "solana");
    assert_eq!(event.pair_key, "SOL/USDC");
    assert_eq!(event.amount_in.to_u128(), Some(1_500_000_000));
    assert_eq!(event.amount_out.to_u128(), Some(0x0102_0304_0506_0708));
    assert_eq!(event.block_height, 250_000_000);
    assert_eq!(event.tx_index, 4);
    assert_eq!(event.log_index, 2);
}

#[test]
fn solana_instruction_of_another_kind_is_passed_over() {
    let mut ix = sol_instruction(1, 2);
    ix.data[0] = 8;
    assert_eq!(decode_solana_instruction(&[9u8], &ix), Ok(None));
    ix.data = vec![];
    assert_eq!(decode_solana_instruction(&[9u8], &ix), Ok(None));
    let other = sol_instruction(1, 2);
    let mut chain_venue = sol_venue();
    chain_venue.address = vec![0x43u8; 32];
    assert_eq!(decode_record(&sol_chain(), &vec![chain_venue], 1, &other, 0), Ok(None));
}

#[test]
fn solana_instruction_with_too_few_accounts_is_malformed() {
    let mut ix = sol_instruction(1, 2);
    ix.topics.pop();
    assert_eq!(decode_solana_instruction(&[9u8], &ix), Err(DecodeError::AccountCount));
}

#[test]
fn solana_instruction_with_wrong_length_is_malformed() {
    let mut ix = sol_instruction(1, 2);
    ix.data.pop();
    assert_eq!(decode_solana_instruction(&[9u8], &ix), Err(DecodeError::InstructionLength));
    let mut ix = sol_instruction(1, 2);
    ix.data.push(0);
    assert_eq!(decode_solana_instruction(&[9u8], &ix), Err(DecodeError::InstructionLength));
    let ix = sol_instruction(1, 2);
    assert_eq!(decode_solana_instruction(&[], &ix), Err(DecodeError::InstructionLength));
}

#[test]
fn solana_selector_may_be_several_bytes() {
    let mut ix = sol_instruction(5, 6);
    let mut data = vec![0xf8u8, 0xc6, 0x9e, 0x91];
    data.extend_from_slice(&5u64.to_le_bytes());
    data.extend_from_slice(&6u64.to_le_bytes());
    ix.data = data;
    let (a, b) = decode_solana_instruction(&[0xf8, 0xc6, 0x9e, 0x91], &ix).unwrap().unwrap();
    assert_eq!((a.to_u128(), b.to_u128()), (Some(5), Some(6)));
}

#[test]
fn find_venue_takes_the_first_with_the_address() {
    let mut second = dec_venue();
    second.pair_key = "OTHER".to_string();
    let mut elsewhere = dec_venue();
    elsewhere.address[0] = 0;
    let venues = vec![elsewhere, dec_venue(), second];
    assert_eq!(find_venue(&venues, &dec_venue_address()), Some(1));
    assert_eq!(find_venue(&venues, &[0u8; 20]), None);
    assert_eq!(find_venue(&vec![], &dec_venue_address()), None);
}

#[test]
fn malformed_log_does_not_stop_the_others() {
    let mut bad = dec_swap_log(3, 3, 40, 41);
    bad.data.truncate(50);
    let records = vec![
        dec_swap_log(0, 0, 10, 11),
        dec_swap_log(1, 1, 20, 21),
        dec_swap_log(2, 2, 30, 31),
        bad,
        dec_swap_log(4, 4, 50, 51),
    ];
    let block = dec_block(7, records);
    let outcome = decode_block(&dec_chain(), &vec![dec_venue()], &block, 99);
    assert_eq!(outcome.failures, 1);
    let indices: Vec<u64> = outcome.events.iter().map(|e| e.log_index).collect();
    assert_eq!(indices, vec![0, 1, 2, 4]);
    let amounts: Vec<Option<u128>> = outcome.events.iter().map(|e| e.amount_in.to_u128()).collect();
    assert_eq!(amounts, vec![Some(10), Some(20), Some(30), Some(50)]);

    let batch = build_batch(&dec_chain(), &vec![dec_venue()], &vec![block], 99);
    assert_eq!(batch.failures, 1);
    let mut table = PriceTable::new();
    assert_eq!(table.upsert_batch(&batch.records), 4);
    let stored: Vec<u64> = (0..table.len()).map(|i| table.get(i).unwrap().log_index).collect();
    assert_eq!(stored, vec![0, 1, 2, 4]);
}

#[test]
fn block_without_swaps_decodes_to_nothing() {
    let mut foreign = dec_swap_log(0, 0, 1, 2);
    foreign.source = vec![1u8; 20];
    let outcome = decode_block(&dec_chain(), &vec![dec_venue()], &dec_block(3, vec![foreign]), 0);
    assert!(outcome.events.is_empty());
    assert_eq!(outcome.failures, 0);
    let empty = decode_block(&dec_chain(), &vec![dec_venue()], &dec_block(3, vec![]), 0);
    assert!(empty.events.is_empty());
    assert_eq!(empty.failures, 0);
}

#[test]
fn swap_is_priced_with_the_decimals_of_its_venue() {
    let log = dec_swap_log(3, 11, 1_000_000, 2_000_000_000_000_000_000);
    let venues = vec![dec_venue()];
    let event = decode_record(&dec_chain(), &venues, 905, &log, 5).unwrap().unwrap();
    let record = price_event(&venues, &event, 6);
    assert_eq!(record.pair_key, "TOKENA/TOKENB");
    assert_eq!(record.chain_id, "ethereum");
    assert_eq!(record.block_height, 905);
    assert_eq!(record.tx_index, 3);
    assert_eq!(record.log_index, 11);
    assert_eq!(record.inserted_at, 6);
    assert_eq!(record.price.unwrap().scaled.to_u128(), Some(2_000_000_000_000_000_000));
}

#[test]
fn swap_without_a_price_is_recorded_without_one() {
    let venues = vec![dec_venue()];
    let log = dec_swap_log(0, 1, 0, 5);
    let event = decode_record(&dec_chain(), &venues, 8, &log, 5).unwrap().unwrap();
    let record = price_event(&venues, &event, 6);
    assert_eq!(record.price, None);
    assert_eq!(record.block_height, 8);
    let unknown = price_event(&vec![], &event, 6);
    assert_eq!(unknown.price, None);
}

#[test]
fn batch_holds_the_records_of_all_blocks_in_order() {
    let blocks = vec![
        dec_block(5, vec![dec_swap_log(0, 0, 1, 2), dec_swap_log(0, 1, 1, 3)]),
        dec_block(6, vec![]),
        dec_block(7, vec![dec_swap_log(2, 0, 1, 4)]),
    ];
    let batch = build_batch(&dec_chain(), &vec![dec_venue()], &blocks, 1);
    let keys: Vec<(u64, u64, u64)> =
        batch.records.iter().map(|r| (r.block_height, r.tx_index, r.log_index)).collect();
    assert_eq!(keys, vec![(5, 0, 0), (5, 0, 1), (7, 2, 0)]);
    assert_eq!(batch.failures, 0);
}
