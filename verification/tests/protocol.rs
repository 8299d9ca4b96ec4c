use spore::actions::ActionRecord;
use spore::actions::SporeAction;
use spore::errors::Error;
use spore::hashing::data_hash;
use spore::hashing::derive_id;
use spore::model::Cell;
use spore::model::Config;
use spore::model::Script;
use spore::model::Transaction;
use spore::validate::validate;

fn mol_bytes(d: &[u8]) -> Vec<u8> {
    let mut v = (d.len() as u32).to_le_bytes().to_vec();
    v.extend_from_slice(d);
    v
}

fn mol_table3(f0: &[u8], f1: &[u8], f2: &[u8]) -> Vec<u8> {
    let header = 4 + 4 * 3;
    let o0 = header;
    let o1 = o0 + f0.len();
    let o2 = o1 + f1.len();
    let total = o2 + f2.len();
    let mut v = (total as u32).to_le_bytes().to_vec();
    for o in [o0, o1, o2] {
        v.extend_from_slice(&(o as u32).to_le_bytes());
    }
    v.extend_from_slice(f0);
    v.extend_from_slice(f1);
    v.extend_from_slice(f2);
    v
}

fn spore_data_bytes(ct: &[u8], content: &[u8], cluster: Option<&[u8]>) -> Vec<u8> {
    let f2 = match cluster {
        Some(c) => mol_bytes(c),
        None => Vec::new(),
    };
    mol_table3(&mol_bytes(ct), &mol_bytes(content), &f2)
}

fn cluster_data_bytes(name: &[u8], desc: &[u8], mutant: Option<&[u8]>) -> Vec<u8> {
    let f2 = match mutant {
        Some(m) => mol_bytes(m),
        None => Vec::new(),
    };
    mol_table3(&mol_bytes(name), &mol_bytes(desc), &f2)
}

fn mk_script(code: u8, args: &[u8]) -> Script {
    Script { code_hash: vec![code; 32], hash_type: 1, args: args.to_vec() }
}

fn plain_cell(lock: u8, cap: u64) -> Cell {
    Cell { capacity: cap, lock_hash: vec![lock; 32], type_script: None, data: Vec::new() }
}

fn typed_cell(lock: u8, cap: u64, script: Script, data: Vec<u8>) -> Cell {
    Cell { capacity: cap, lock_hash: vec![lock; 32], type_script: Some(script), data }
}

fn config() -> Config {
    Config {
        cluster_code_hashes: vec![vec![0xCC; 32]],
        cluster_agent_code_hashes: vec![vec![0xAA; 32]],
    }
}

fn script_hash() -> Vec<u8> {
    vec![0x55; 32]
}

const SPORE_CODE: u8 = 0x77;
const OUTPOINT: [u8; 36] = [0x11; 36];

/// A minimal creation: one plain input, the new asset at output zero.
fn creation_tx(data: Vec<u8>, id: &[u8]) -> (Transaction, Script) {
    let script = mk_script(SPORE_CODE, id);
    let tx = Transaction {
        inputs: vec![plain_cell(1, 1000)],
        outputs: vec![typed_cell(2, 500, mk_script(SPORE_CODE, id), data)],
        cell_deps: Vec::new(),
        first_input_outpoint: OUTPOINT.to_vec(),
    };
    (tx, script)
}

fn mint_action(id: &[u8], data: &[u8]) -> SporeAction {
    SporeAction::Mint {
        nft_id: id.to_vec(),
        data_hash: data_hash(&data.to_vec()),
        to: None,
    }
}

fn message_with(action: SporeAction) -> Option<Vec<ActionRecord>> {
    Some(vec![ActionRecord { script_hash: script_hash(), action }])
}

#[test]
fn create_text_plain_succeeds() {
    let data = spore_data_bytes(b"text/plain", b"hello", None);
    let id = derive_id(&OUTPOINT.to_vec(), 0);
    let (tx, script) = creation_tx(data.clone(), &id);
    let msg = message_with(mint_action(&id, &data));
    let r = validate(&tx, &script, &script_hash(), &msg, &config());
    let calls = r.expect("creation should validate");
    assert_eq!(calls.len(), 0);
}

#[test]
fn create_empty_content_rejected() {
    let data = spore_data_bytes(b"text/plain", b"", None);
    let id = derive_id(&OUTPOINT.to_vec(), 0);
    let (tx, script) = creation_tx(data.clone(), &id);
    let msg = message_with(mint_action(&id, &data));
    let r = validate(&tx, &script, &script_hash(), &msg, &config());
    assert_eq!(r.unwrap_err(), Error::EmptyContent);
}

#[test]
fn create_malformed_record_rejected() {
    let id = derive_id(&OUTPOINT.to_vec(), 0);
    let (tx, script) = creation_tx(vec![1, 2, 3], &id);
    let msg = message_with(mint_action(&id, &[1, 2, 3]));
    let r = validate(&tx, &script, &script_hash(), &msg, &config());
    assert_eq!(r.unwrap_err(), Error::InvalidNFTData);
}

#[test]
fn create_bad_content_type_rejected() {
    let data = spore_data_bytes(b"noslash", b"hello", None);
    let id = derive_id(&OUTPOINT.to_vec(), 0);
    let (tx, script) = creation_tx(data.clone(), &id);
    let msg = message_with(mint_action(&id, &data));
    let r = validate(&tx, &script, &script_hash(), &msg, &config());
    assert_eq!(r.unwrap_err(), Error::InvalidContentType);
}

#[test]
fn create_wrong_identity_rejected() {
    let data = spore_data_bytes(b"text/plain", b"hello", None);
    let wrong = vec![0u8; 32];
    let (tx, script) = creation_tx(data.clone(), &wrong);
    let msg = message_with(mint_action(&wrong, &data));
    let r = validate(&tx, &script, &script_hash(), &msg, &config());
    assert_eq!(r.unwrap_err(), Error::InvalidNFTID);
}

#[test]
fn derive_id_is_the_default_hash_of_outpoint_and_index() {
    let id = derive_id(&OUTPOINT.to_vec(), 3);
    let mut buf = OUTPOINT.to_vec();
    buf.extend_from_slice(&3u64.to_le_bytes());
    assert_eq!(id, ckb_hash::blake2b_256(&buf).to_vec());
}

#[test]
fn multipart_without_marker_rejected() {
    let data = spore_data_bytes(b"multipart/mixed; boundary=xyz", b"hello", None);
    let id = derive_id(&OUTPOINT.to_vec(), 0);
    let (tx, script) = creation_tx(data.clone(), &id);
    let msg = message_with(mint_action(&id, &data));
    let r = validate(&tx, &script, &script_hash(), &msg, &config());
    assert_eq!(r.unwrap_err(), Error::InvalidMultipartContent);
}

#[test]
fn multipart_with_marker_succeeds() {
    let data = spore_data_bytes(b"multipart/mixed; boundary=xyz", b"head --xyz body", None);
    let id = derive_id(&OUTPOINT.to_vec(), 0);
    let (tx, script) = creation_tx(data.clone(), &id);
    let msg = message_with(mint_action(&id, &data));
    let r = validate(&tx, &script, &script_hash(), &msg, &config());
    assert!(r.is_ok());
}

#[test]
fn multipart_without_boundary_rejected() {
    let data = spore_data_bytes(b"multipart/mixed", b"hello", None);
    let id = derive_id(&OUTPOINT.to_vec(), 0);
    let (tx, script) = creation_tx(data.clone(), &id);
    let msg = message_with(mint_action(&id, &data));
    let r = validate(&tx, &script, &script_hash(), &msg, &config());
    assert_eq!(r.unwrap_err(), Error::InvalidContentType);
}

#[test]
fn multipart_boundary_bad_encoding_rejected() {
    let mut ct = b"multipart/mixed; boundary=".to_vec();
    ct.push(0xFF);
    let data = spore_data_bytes(&ct, b"hello", None);
    let id = derive_id(&OUTPOINT.to_vec(), 0);
    let (tx, script) = creation_tx(data.clone(), &id);
    let msg = message_with(mint_action(&id, &data));
    let r = validate(&tx, &script, &script_hash(), &msg, &config());
    assert_eq!(r.unwrap_err(), Error::Encoding);
}

#[test]
fn multiple_spend_rejected() {
    let id = derive_id(&OUTPOINT.to_vec(), 0);
    let data = spore_data_bytes(b"text/plain", b"hello", None);
    let script = mk_script(SPORE_CODE, &id);
    let tx = Transaction {
        inputs: vec![
            typed_cell(1, 500, mk_script(SPORE_CODE, &id), data.clone()),
            typed_cell(1, 500, mk_script(SPORE_CODE, &id), data.clone()),
        ],
        outputs: Vec::new(),
        cell_deps: Vec::new(),
        first_input_outpoint: OUTPOINT.to_vec(),
    };
    let r = validate(&tx, &script, &script_hash(), &None, &config());
    assert_eq!(r.unwrap_err(), Error::MultipleSpend);
}

#[test]
fn conflicting_creation_rejected() {
    let id = derive_id(&OUTPOINT.to_vec(), 0);
    let data = spore_data_bytes(b"text/plain", b"hello", None);
    let script = mk_script(SPORE_CODE, &id);
    let tx = Transaction {
        inputs: vec![plain_cell(1, 1000)],
        outputs: vec![
            typed_cell(2, 500, mk_script(SPORE_CODE, &id), data.clone()),
            typed_cell(2, 500, mk_script(SPORE_CODE, &id), data.clone()),
        ],
        cell_deps: Vec::new(),
        first_input_outpoint: OUTPOINT.to_vec(),
    };
    let r = validate(&tx, &script, &script_hash(), &None, &config());
    assert_eq!(r.unwrap_err(), Error::ConflictCreation);
}

#[test]
fn missing_message_rejected() {
    let data = spore_data_bytes(b"text/plain", b"hello", None);
    let id = derive_id(&OUTPOINT.to_vec(), 0);
    let (tx, script) = creation_tx(data, &id);
    let r = validate(&tx, &script, &script_hash(), &None, &config());
    assert_eq!(r.unwrap_err(), Error::InvliadCoBuildWitnessLayout);
}

#[test]
fn unmatched_action_record_rejected() {
    let data = spore_data_bytes(b"text/plain", b"hello", None);
    let id = derive_id(&OUTPOINT.to_vec(), 0);
    let (tx, script) = creation_tx(data.clone(), &id);
    let msg = Some(vec![ActionRecord {
        script_hash: vec![0x99; 32],
        action: mint_action(&id, &data),
    }]);
    let r = validate(&tx, &script, &script_hash(), &msg, &config());
    assert_eq!(r.unwrap_err(), Error::InvliadCoBuildMessage);
}

#[test]
fn creation_with_burn_action_rejected() {
    let data = spore_data_bytes(b"text/plain", b"hello", None);
    let id = derive_id(&OUTPOINT.to_vec(), 0);
    let (tx, script) = creation_tx(data, &id);
    let msg = message_with(SporeAction::Burn { nft_id: id.clone(), from: None });
    let r = validate(&tx, &script, &script_hash(), &msg, &config());
    assert_eq!(r.unwrap_err(), Error::SporeActionMismatch);
}

#[test]
fn creation_with_wrong_data_hash_rejected() {
    let data = spore_data_bytes(b"text/plain", b"hello", None);
    let id = derive_id(&OUTPOINT.to_vec(), 0);
    let (tx, script) = creation_tx(data, &id);
    let msg = message_with(SporeAction::Mint {
        nft_id: id.clone(),
        data_hash: vec![0u8; 32],
        to: None,
    });
    let r = validate(&tx, &script, &script_hash(), &msg, &config());
    assert_eq!(r.unwrap_err(), Error::SporeActionFieldMismatch);
}

#[test]
fn creation_mint_to_matching_lock_succeeds() {
    let data = spore_data_bytes(b"text/plain", b"hello", None);
    let id = derive_id(&OUTPOINT.to_vec(), 0);
    let (tx, script) = creation_tx(data.clone(), &id);
    let msg = message_with(SporeAction::Mint {
        nft_id: id.clone(),
        data_hash: data_hash(&data),
        to: Some(vec![2; 32]),
    });
    let r = validate(&tx, &script, &script_hash(), &msg, &config());
    assert!(r.is_ok());
}

#[test]
fn creation_mint_to_wrong_lock_rejected() {
    let data = spore_data_bytes(b"text/plain", b"hello", None);
    let id = derive_id(&OUTPOINT.to_vec(), 0);
    let (tx, script) = creation_tx(data.clone(), &id);
    let msg = message_with(SporeAction::Mint {
        nft_id: id.clone(),
        data_hash: data_hash(&data),
        to: Some(vec![9; 32]),
    });
    let r = validate(&tx, &script, &script_hash(), &msg, &config());
    assert_eq!(r.unwrap_err(), Error::SporeActionFieldMismatch);
}

fn transfer_tx(in_data: Vec<u8>, out_data: Vec<u8>, id: &[u8]) -> (Transaction, Script) {
    let script = mk_script(SPORE_CODE, id);
    let tx = Transaction {
        inputs: vec![typed_cell(3, 500, mk_script(SPORE_CODE, id), in_data)],
        outputs: vec![typed_cell(4, 500, mk_script(SPORE_CODE, id), out_data)],
        cell_deps: Vec::new(),
        first_input_outpoint: OUTPOINT.to_vec(),
    };
    (tx, script)
}

#[test]
fn transfer_identical_data_succeeds() {
    let id = vec![0xEE; 32];
    let data = spore_data_bytes(b"text/plain", b"hello", None);
    let (tx, script) = transfer_tx(data.clone(), data, &id);
    let msg = message_with(SporeAction::Transfer { nft_id: id.clone(), from: None, to: None });
    let r = validate(&tx, &script, &script_hash(), &msg, &config());
    assert!(r.is_ok());
}

#[test]
fn transfer_modified_data_rejected() {
    let id = vec![0xEE; 32];
    let a = spore_data_bytes(b"text/plain", b"hello", None);
    let b = spore_data_bytes(b"text/plain", b"world", None);
    let (tx, script) = transfer_tx(a, b, &id);
    let msg = message_with(SporeAction::Transfer { nft_id: id.clone(), from: None, to: None });
    let r = validate(&tx, &script, &script_hash(), &msg, &config());
    assert_eq!(r.unwrap_err(), Error::ModifySporePermanentField);
}

#[test]
fn transfer_addresses_checked_against_their_sides() {
    let id = vec![0xEE; 32];
    let data = spore_data_bytes(b"text/plain", b"hello", None);
    let (tx, script) = transfer_tx(data.clone(), data.clone(), &id);
    let good = message_with(SporeAction::Transfer {
        nft_id: id.clone(),
        from: Some(vec![3; 32]),
        to: Some(vec![4; 32]),
    });
    assert!(validate(&tx, &script, &script_hash(), &good, &config()).is_ok());
    let bad = message_with(SporeAction::Transfer {
        nft_id: id.clone(),
        from: Some(vec![4; 32]),
        to: Some(vec![4; 32]),
    });
    let r = validate(&tx, &script, &script_hash(), &bad, &config());
    assert_eq!(r.unwrap_err(), Error::SporeActionFieldMismatch);
}

fn destroy_tx(data: Vec<u8>, id: &[u8]) -> (Transaction, Script) {
    let script = mk_script(SPORE_CODE, id);
    let tx = Transaction {
        inputs: vec![typed_cell(5, 500, mk_script(SPORE_CODE, id), data)],
        outputs: Vec::new(),
        cell_deps: Vec::new(),
        first_input_outpoint: OUTPOINT.to_vec(),
    };
    (tx, script)
}

#[test]
fn destroy_plain_asset_succeeds() {
    let id = vec![0xEE; 32];
    let data = spore_data_bytes(b"text/plain", b"hello", None);
    let (tx, script) = destroy_tx(data, &id);
    let msg = message_with(SporeAction::Burn { nft_id: id.clone(), from: None });
    let r = validate(&tx, &script, &script_hash(), &msg, &config());
    assert!(r.is_ok());
}

#[test]
fn destroy_immortal_asset_rejected() {
    let id = vec![0xEE; 32];
    let data = spore_data_bytes(b"text/plain;immortal=true", b"hello", None);
    let (tx, script) = destroy_tx(data, &id);
    let msg = message_with(SporeAction::Burn { nft_id: id.clone(), from: None });
    let r = validate(&tx, &script, &script_hash(), &msg, &config());
    assert_eq!(r.unwrap_err(), Error::DestroyImmortalNFT);
}

#[test]
fn destroy_burn_wrong_id_rejected() {
    let id = vec![0xEE; 32];
    let data = spore_data_bytes(b"text/plain", b"hello", None);
    let (tx, script) = destroy_tx(data, &id);
    let msg = message_with(SporeAction::Burn { nft_id: vec![0; 32], from: None });
    let r = validate(&tx, &script, &script_hash(), &msg, &config());
    assert_eq!(r.unwrap_err(), Error::SporeActionFieldMismatch);
}

fn cluster_creation(
    cid: &[u8],
    cluster_data: Vec<u8>,
    extra_inputs: Vec<Cell>,
    extra_outputs: Vec<Cell>,
    extra_deps: Vec<Cell>,
    content_type: &[u8],
) -> (Transaction, Script, Vec<u8>, Option<Vec<ActionRecord>>) {
    let data = spore_data_bytes(content_type, b"hello", Some(cid));
    let id = derive_id(&OUTPOINT.to_vec(), 0);
    let script = mk_script(SPORE_CODE, &id);
    let mut inputs = vec![plain_cell(1, 1000)];
    inputs.extend(extra_inputs);
    let mut outputs = vec![typed_cell(2, 500, mk_script(SPORE_CODE, &id), data.clone())];
    outputs.extend(extra_outputs);
    let mut cell_deps = vec![Cell {
        capacity: 300,
        lock_hash: vec![0x10; 32],
        type_script: Some(Script { code_hash: vec![0xCC; 32], hash_type: 1, args: cid.to_vec() }),
        data: cluster_data,
    }];
    cell_deps.extend(extra_deps);
    let tx = Transaction {
        inputs,
        outputs,
        cell_deps,
        first_input_outpoint: OUTPOINT.to_vec(),
    };
    let msg = message_with(mint_action(&id, &data));
    (tx, script, id, msg)
}

#[test]
fn cluster_missing_from_deps_rejected() {
    let cid = vec![0xC1; 32];
    let data = spore_data_bytes(b"text/plain", b"hello", Some(&cid));
    let id = derive_id(&OUTPOINT.to_vec(), 0);
    let (tx, script) = creation_tx(data.clone(), &id);
    let msg = message_with(mint_action(&id, &data));
    let r = validate(&tx, &script, &script_hash(), &msg, &config());
    assert_eq!(r.unwrap_err(), Error::ClusterCellNotInDep);
}

#[test]
fn cluster_demanded_mutant_missing_rejected() {
    let cid = vec![0xC1; 32];
    let cd = cluster_data_bytes(b"name", b"desc", Some(&[0xAB; 32]));
    let (tx, script, _id, msg) = cluster_creation(&cid, cd, vec![], vec![], vec![], b"text/plain");
    let r = validate(&tx, &script, &script_hash(), &msg, &config());
    assert_eq!(r.unwrap_err(), Error::ClusterRequiresMutantApplied);
}

#[test]
fn cluster_ownership_by_lock_proxy_of_cluster_lock() {
    let cid = vec![0xC1; 32];
    let cd = cluster_data_bytes(b"name", b"desc", None);
    // the cluster dep's lock is 0x10; a cell with that lock on both sides
    let (tx, script, _id, msg) = cluster_creation(
        &cid,
        cd,
        vec![plain_cell(0x10, 100)],
        vec![plain_cell(0x10, 100)],
        vec![],
        b"text/plain",
    );
    let r = validate(&tx, &script, &script_hash(), &msg, &config());
    assert!(r.is_ok());
}

#[test]
fn cluster_ownership_via_agent_lock_proxy() {
    // cluster cell only in deps; agent cell only in deps; a cell with the
    // agent's lock both consumed and recreated proves authority.
    let cid = vec![0xC1; 32];
    let cd = cluster_data_bytes(b"name", b"desc", None);
    let agent_dep = Cell {
        capacity: 200,
        lock_hash: vec![0x20; 32],
        type_script: Some(Script { code_hash: vec![0xAA; 32], hash_type: 1, args: cid.clone() }),
        data: Vec::new(),
    };
    let (tx, script, _id, msg) = cluster_creation(
        &cid,
        cd,
        vec![plain_cell(0x20, 100)],
        vec![plain_cell(0x20, 100)],
        vec![agent_dep],
        b"text/plain",
    );
    let r = validate(&tx, &script, &script_hash(), &msg, &config());
    assert!(r.is_ok());
}

#[test]
fn cluster_ownership_absent_rejected() {
    let cid = vec![0xC1; 32];
    let cd = cluster_data_bytes(b"name", b"desc", None);
    let (tx, script, _id, msg) = cluster_creation(&cid, cd, vec![], vec![], vec![], b"text/plain");
    let r = validate(&tx, &script, &script_hash(), &msg, &config());
    assert_eq!(r.unwrap_err(), Error::ClusterOwnershipVerifyFailed);
}

fn hex64(b: u8) -> Vec<u8> {
    let mut v = Vec::new();
    for _ in 0..32 {
        let hi = b >> 4;
        let lo = b & 0xF;
        for d in [hi, lo] {
            v.push(if d < 10 { b'0' + d } else { b'a' + d - 10 });
        }
    }
    v
}

fn payment_creation(in_cap: u64, out_cap: u64) -> (Transaction, Script, Option<Vec<ActionRecord>>) {
    let mutant = vec![0xAB; 32];
    let mut ct = b"text/plain;mutant[]=".to_vec();
    ct.extend_from_slice(&hex64(0xAB));
    let data = spore_data_bytes(&ct, b"hello", None);
    let id = derive_id(&OUTPOINT.to_vec(), 0);
    let script = mk_script(SPORE_CODE, &id);
    let mut ext_args = mutant.clone();
    ext_args.push(2); // demand ten to the second
    let ext_dep = Cell {
        capacity: 100,
        lock_hash: vec![0x30; 32],
        type_script: Some(Script { code_hash: vec![0xBB; 32], hash_type: 1, args: ext_args }),
        data: vec![0xDE, 0xAD],
    };
    let tx = Transaction {
        inputs: vec![plain_cell(1, 1000), plain_cell(0x30, in_cap)],
        outputs: vec![
            typed_cell(2, 500, mk_script(SPORE_CODE, &id), data.clone()),
            plain_cell(0x30, out_cap),
        ],
        cell_deps: vec![ext_dep],
        first_input_outpoint: OUTPOINT.to_vec(),
    };
    let msg = message_with(mint_action(&id, &data));
    (tx, script, msg)
}

#[test]
fn payment_gate_exact_hundred_succeeds() {
    let (tx, script, msg) = payment_creation(100, 200);
    let r = validate(&tx, &script, &script_hash(), &msg, &config());
    let calls = r.expect("payment of exactly one hundred should pass");
    assert_eq!(calls.len(), 1);
    assert_eq!(calls[0].code_hash, ckb_hash::blake2b_256(&[0xDE, 0xAD]).to_vec());
    let want: Vec<Vec<u8>> = vec![b"0".to_vec(), b"0".to_vec(), b"0".to_vec()];
    assert_eq!(calls[0].args, want);
}

#[test]
fn payment_gate_ninety_nine_rejected() {
    let (tx, script, msg) = payment_creation(100, 199);
    let r = validate(&tx, &script, &script_hash(), &msg, &config());
    assert_eq!(r.unwrap_err(), Error::ExtensionPaymentNotEnough);
}

#[test]
fn extension_missing_from_deps_rejected() {
    let mut ct = b"text/plain;mutant[]=".to_vec();
    ct.extend_from_slice(&hex64(0xAB));
    let data = spore_data_bytes(&ct, b"hello", None);
    let id = derive_id(&OUTPOINT.to_vec(), 0);
    let (tx, script) = creation_tx(data.clone(), &id);
    let msg = message_with(mint_action(&id, &data));
    let r = validate(&tx, &script, &script_hash(), &msg, &config());
    assert_eq!(r.unwrap_err(), Error::ExtensionCellNotInDep);
}

#[test]
fn transfer_with_mutant_encodes_both_positions() {
    let mutant = vec![0xAB; 32];
    let mut ct = b"text/plain;mutant[]=".to_vec();
    ct.extend_from_slice(&hex64(0xAB));
    let data = spore_data_bytes(&ct, b"hello", None);
    let id = vec![0xEE; 32];
    let script = mk_script(SPORE_CODE, &id);
    let ext_dep = Cell {
        capacity: 100,
        lock_hash: vec![0x30; 32],
        type_script: Some(Script { code_hash: vec![0xBB; 32], hash_type: 1, args: mutant }),
        data: vec![0xBE, 0xEF],
    };
    let tx = Transaction {
        inputs: vec![plain_cell(9, 10), typed_cell(3, 500, mk_script(SPORE_CODE, &id), data.clone())],
        outputs: vec![typed_cell(4, 500, mk_script(SPORE_CODE, &id), data)],
        cell_deps: vec![ext_dep],
        first_input_outpoint: OUTPOINT.to_vec(),
    };
    let msg = message_with(SporeAction::Transfer { nft_id: id.clone(), from: None, to: None });
    let r = validate(&tx, &script, &script_hash(), &msg, &config());
    let calls = r.expect("transfer with present extension should validate");
    assert_eq!(calls.len(), 1);
    // operation digit one, dependency position zero, input position one, output position zero
    let want: Vec<Vec<u8>> = vec![b"1".to_vec(), b"0".to_vec(), b"1".to_vec(), b"0".to_vec()];
    assert_eq!(calls[0].args, want);
}

#[test]
fn creation_identity_depends_on_outpoint() {
    // same args, different first consumed input: the required id changes
    let data = spore_data_bytes(b"text/plain", b"hello", None);
    let id = derive_id(&OUTPOINT.to_vec(), 0);
    let (mut tx, script) = creation_tx(data.clone(), &id);
    tx.first_input_outpoint = vec![0x22; 36];
    let msg = message_with(mint_action(&id, &data));
    let r = validate(&tx, &script, &script_hash(), &msg, &config());
    assert_eq!(r.unwrap_err(), Error::InvalidNFTID);
}

#[test]
fn creation_at_second_output_position() {
    let data = spore_data_bytes(b"text/plain", b"hello", None);
    let id = derive_id(&OUTPOINT.to_vec(), 1);
    let script = mk_script(SPORE_CODE, &id);
    let tx = Transaction {
        inputs: vec![plain_cell(1, 1000)],
        outputs: vec![
            plain_cell(6, 100),
            typed_cell(2, 500, mk_script(SPORE_CODE, &id), data.clone()),
        ],
        cell_deps: Vec::new(),
        first_input_outpoint: OUTPOINT.to_vec(),
    };
    let msg = message_with(mint_action(&id, &data));
    assert!(validate(&tx, &script, &script_hash(), &msg, &config()).is_ok());
}

#[test]
fn extension_position_beyond_one_digit_rejected() {
    // ten filler dependencies push the extension cell to position ten,
    // which no single decimal digit can encode
    let mutant = vec![0xAB; 32];
    let mut ct = b"text/plain;mutant[]=".to_vec();
    ct.extend_from_slice(&hex64(0xAB));
    let data = spore_data_bytes(&ct, b"hello", None);
    let id = derive_id(&OUTPOINT.to_vec(), 0);
    let script = mk_script(SPORE_CODE, &id);
    let ext_dep = Cell {
        capacity: 100,
        lock_hash: vec![0x30; 32],
        type_script: Some(Script { code_hash: vec![0xBB; 32], hash_type: 1, args: mutant }),
        data: vec![1],
    };
    let mut cell_deps: Vec<Cell> = (0..10).map(|_| plain_cell(7, 1)).collect();
    cell_deps.push(ext_dep);
    let tx = Transaction {
        inputs: vec![plain_cell(1, 1000)],
        outputs: vec![typed_cell(2, 500, mk_script(SPORE_CODE, &id), data.clone())],
        cell_deps,
        first_input_outpoint: OUTPOINT.to_vec(),
    };
    let msg = message_with(mint_action(&id, &data));
    let r = validate(&tx, &script, &script_hash(), &msg, &config());
    assert_eq!(r.unwrap_err(), Error::IndexOutOfBound);
}
