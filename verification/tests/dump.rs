use txodump::block::{Block, OutPoint, Transaction, TxOutput, COINBASE_INDEX};
use txodump::dump::{Phase, TXODump};

fn coinbase_input() -> OutPoint {
    OutPoint { txid: [0; 32], index: COINBASE_INDEX }
}

fn tx(tag: u8, inputs: Vec<OutPoint>, output_values: Vec<u64>, size: u64) -> Transaction {
    Transaction {
        txid: [tag; 32],
        inputs,
        outputs: output_values.into_iter().map(|value| TxOutput { value }).collect(),
        size,
    }
}

#[test]
fn spend_scenario_exact_line() {
    // Block 0 creates output (tx A, index 0, value 5000). Block 1 spends it
    // in a transaction of size 250 with input value 5000 and output value
    // 4900: fee 100, fee rate 100/250 truncated to 0, coin age 1.
    let mut dump = TXODump::new();
    dump.on_start(0);

    let block0 = Block { txs: vec![tx(0xAA, vec![coinbase_input()], vec![5000], 100)] };
    let lines0 = dump.on_block(&block0, 0);
    assert_eq!(lines0, Vec::<u8>::new());

    let spend = OutPoint { txid: [0xAA; 32], index: 0 };
    let block1 = Block { txs: vec![tx(0xBB, vec![spend], vec![4900], 250)] };
    let lines1 = dump.on_block(&block1, 1);
    assert_eq!(lines1, b"1;1;0;5000\n".to_vec());

    let summary = dump.on_complete(1);
    assert_eq!(summary.blocks, 2);
    assert_eq!(summary.transactions, 2);
    assert_eq!(summary.inputs, 2);
    assert_eq!(summary.outputs, 2);
    assert_eq!(summary.final_height, 1);
}

#[test]
fn coinbase_input_emits_nothing_and_touches_nothing() {
    let mut dump = TXODump::new();
    dump.on_start(0);
    let block0 = Block { txs: vec![tx(0x11, vec![coinbase_input()], vec![700], 80)] };
    dump.on_block(&block0, 0);
    // A coinbase-style input referencing tx 0x11 must not consume its
    // output: the output is still spendable afterwards.
    let sentinel = OutPoint { txid: [0x11; 32], index: COINBASE_INDEX };
    let block1 = Block { txs: vec![tx(0x22, vec![sentinel], vec![], 50)] };
    let lines1 = dump.on_block(&block1, 1);
    assert_eq!(lines1, Vec::<u8>::new());
    let real = OutPoint { txid: [0x11; 32], index: 0 };
    let block2 = Block { txs: vec![tx(0x33, vec![real], vec![], 100)] };
    let lines2 = dump.on_block(&block2, 2);
    // fee 700, rate 700/100 = 7; coin age 2.
    assert_eq!(lines2, b"2;2;7;700\n".to_vec());
}

#[test]
fn unknown_reference_is_skipped_silently() {
    let mut dump = TXODump::new();
    dump.on_start(5);
    let ghost_ref = OutPoint { txid: [0x77; 32], index: 3 };
    let block = Block { txs: vec![tx(0x44, vec![ghost_ref], vec![10], 60)] };
    let lines = dump.on_block(&block, 5);
    assert_eq!(lines, Vec::<u8>::new());
    let summary = dump.on_complete(5);
    assert_eq!(summary.blocks, 1);
    assert_eq!(summary.transactions, 1);
    assert_eq!(summary.inputs, 1);
    assert_eq!(summary.outputs, 1);
}

#[test]
fn multi_input_records_repeat_the_fee_rate() {
    let mut dump = TXODump::new();
    dump.on_start(0);
    let creator = tx(0xAB, vec![coinbase_input()], vec![600, 400], 90);
    dump.on_block(&Block { txs: vec![creator] }, 0);
    // Spend both outputs in one transaction: input value 1000, output
    // value 250, size 250: fee 750, rate 3 on both records.
    let in0 = OutPoint { txid: [0xAB; 32], index: 0 };
    let in1 = OutPoint { txid: [0xAB; 32], index: 1 };
    let spender = tx(0xCD, vec![in0, in1], vec![250], 250);
    let lines = dump.on_block(&Block { txs: vec![spender] }, 4);
    assert_eq!(lines, b"4;4;3;600\n4;4;3;400\n".to_vec());
}

#[test]
fn same_block_spend_has_zero_coin_age() {
    let mut dump = TXODump::new();
    dump.on_start(0);
    let creator = tx(0xA1, vec![coinbase_input()], vec![500], 70);
    let spend = OutPoint { txid: [0xA1; 32], index: 0 };
    let spender = tx(0xB2, vec![spend], vec![500], 100);
    let lines = dump.on_block(&Block { txs: vec![creator, spender] }, 3);
    // Created and consumed at height 3: coin age 0, fee 0, rate 0.
    assert_eq!(lines, b"3;0;0;500\n".to_vec());
}

#[test]
fn duplicate_creation_spends_the_later_pair() {
    let mut dump = TXODump::new();
    dump.on_start(0);
    // The same reference is created twice before being spent: the later
    // value and creation height win.
    let first = tx(0xEE, vec![coinbase_input()], vec![100], 50);
    dump.on_block(&Block { txs: vec![first] }, 0);
    let second = tx(0xEE, vec![coinbase_input()], vec![900], 50);
    dump.on_block(&Block { txs: vec![second] }, 1);
    let spend = OutPoint { txid: [0xEE; 32], index: 0 };
    let spender = tx(0xDD, vec![spend], vec![900], 100);
    let lines = dump.on_block(&Block { txs: vec![spender] }, 2);
    // coin age 2 - 1 = 1; value 900; fee 0.
    assert_eq!(lines, b"2;1;0;900\n".to_vec());
}

#[test]
fn zero_block_run_completes() {
    let mut dump = TXODump::new();
    dump.on_start(0);
    let summary = dump.on_complete(0);
    assert_eq!(dump.current_phase(), Phase::Completed);
    assert_eq!(summary.blocks, 0);
    assert_eq!(summary.transactions, 0);
    assert_eq!(summary.inputs, 0);
    assert_eq!(summary.outputs, 0);
    assert_eq!(summary.final_height, 0);
}

#[test]
fn rerun_reproduces_identical_lines() {
    let run = || {
        let mut dump = TXODump::new();
        dump.on_start(0);
        let mut emitted: Vec<u8> = Vec::new();
        let b0 = Block { txs: vec![tx(0x10, vec![coinbase_input()], vec![800, 90], 120)] };
        emitted.extend(dump.on_block(&b0, 0));
        let in0 = OutPoint { txid: [0x10; 32], index: 0 };
        let b1 = Block { txs: vec![tx(0x20, vec![in0], vec![750], 200)] };
        emitted.extend(dump.on_block(&b1, 1));
        let in1 = OutPoint { txid: [0x10; 32], index: 1 };
        let b2 = Block { txs: vec![tx(0x30, vec![in1], vec![], 90)] };
        emitted.extend(dump.on_block(&b2, 2));
        dump.on_complete(2);
        emitted
    };
    let first = run();
    let second = run();
    assert_eq!(first, second);
    assert_eq!(first, b"1;1;0;800\n2;2;1;90\n".to_vec());
}

#[test]
fn heights_may_skip_but_stay_ascending() {
    let mut dump = TXODump::new();
    dump.on_start(100);
    let creator = tx(0x55, vec![coinbase_input()], vec![300], 60);
    dump.on_block(&Block { txs: vec![creator] }, 100);
    let spend = OutPoint { txid: [0x55; 32], index: 0 };
    let spender = tx(0x66, vec![spend], vec![100], 100);
    let lines = dump.on_block(&Block { txs: vec![spender] }, 150);
    // coin age 150 - 100 = 50; fee 200, rate 2.
    assert_eq!(lines, b"150;50;2;300\n".to_vec());
}
