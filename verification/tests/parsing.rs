use spore::errors::Error;
use spore::hashing::data_hash;
use spore::mime::parse_mime;
use spore::molecule::parse_spore_data;
use spore::molecule::parse_cluster_mutant;
use spore::report::code_hash_line;

fn mol_bytes(d: &[u8]) -> Vec<u8> {
    let mut v = (d.len() as u32).to_le_bytes().to_vec();
    v.extend_from_slice(d);
    v
}

fn mol_table3(f0: &[u8], f1: &[u8], f2: &[u8]) -> Vec<u8> {
    let header = 4 + 4 * 3;
    let o0 = header;
    let o1 = o0 + f0.len();
    let o2 = o1 + f1.len();
    let total = o2 + f2.len();
    let mut v = (total as u32).to_le_bytes().to_vec();
    for o in [o0, o1, o2] {
        v.extend_from_slice(&(o as u32).to_le_bytes());
    }
    v.extend_from_slice(f0);
    v.extend_from_slice(f1);
    v.extend_from_slice(f2);
    v
}

#[test]
fn mime_plain_type_parses() {
    let m = parse_mime(&b"text/plain".to_vec()).expect("should parse");
    assert_eq!(m.main_type, b"text".to_vec());
    assert_eq!(m.sub_type, b"plain".to_vec());
    assert!(!m.immortal);
    assert!(m.mutants.is_empty());
    assert!(m.params.is_empty());
}

#[test]
fn mime_params_are_trimmed_and_ordered() {
    let m = parse_mime(&b"multipart/mixed; boundary=xyz; immortal=true".to_vec()).unwrap();
    assert_eq!(m.main_type, b"multipart".to_vec());
    assert_eq!(m.sub_type, b"mixed".to_vec());
    assert!(m.immortal);
    assert_eq!(m.params.len(), 2);
    assert_eq!(m.params[0].0, b"boundary".to_vec());
    assert_eq!(m.params[0].1, b"xyz".to_vec());
}

#[test]
fn mime_immortal_needs_exact_true() {
    let m = parse_mime(&b"text/plain;immortal=yes".to_vec()).unwrap();
    assert!(!m.immortal);
}

#[test]
fn mime_mutant_list_parses_in_order() {
    let mut ct = b"image/png;mutant[]=".to_vec();
    ct.extend_from_slice(b"00000000000000000000000000000000000000000000000000000000000000ff");
    ct.push(b',');
    ct.extend_from_slice(b"0101010101010101010101010101010101010101010101010101010101010101");
    let m = parse_mime(&ct).unwrap();
    assert_eq!(m.mutants.len(), 2);
    let mut first = vec![0u8; 31];
    first.push(0xFF);
    assert_eq!(m.mutants[0], first);
    assert_eq!(m.mutants[1], vec![1u8; 32]);
}

#[test]
fn mime_bad_mutant_hex_rejected() {
    let r = parse_mime(&b"image/png;mutant[]=zz".to_vec());
    assert_eq!(r.unwrap_err(), Error::InvalidContentType);
}

#[test]
fn mime_empty_main_or_sub_rejected() {
    assert_eq!(parse_mime(&b"/plain".to_vec()).unwrap_err(), Error::InvalidContentType);
    assert_eq!(parse_mime(&b"text/".to_vec()).unwrap_err(), Error::InvalidContentType);
    assert_eq!(parse_mime(&b"text/;a=b".to_vec()).unwrap_err(), Error::InvalidContentType);
}

#[test]
fn mime_param_without_value_rejected() {
    assert_eq!(parse_mime(&b"text/plain;junk".to_vec()).unwrap_err(), Error::InvalidContentType);
}

#[test]
fn record_roundtrip_through_parser() {
    let data = mol_table3(&mol_bytes(b"text/plain"), &mol_bytes(b"hello"), &mol_bytes(&[7u8; 32]));
    let sd = parse_spore_data(&data).expect("well-formed record");
    assert_eq!(sd.content_type, b"text/plain".to_vec());
    assert_eq!(sd.content, b"hello".to_vec());
    assert_eq!(sd.cluster_id, Some(vec![7u8; 32]));
}

#[test]
fn record_without_cluster_parses() {
    let data = mol_table3(&mol_bytes(b"text/plain"), &mol_bytes(b"hello"), &[]);
    let sd = parse_spore_data(&data).unwrap();
    assert_eq!(sd.cluster_id, None);
}

#[test]
fn record_with_wrong_total_size_rejected() {
    let mut data = mol_table3(&mol_bytes(b"text/plain"), &mol_bytes(b"hello"), &[]);
    data.push(0);
    assert_eq!(parse_spore_data(&data).unwrap_err(), Error::InvalidNFTData);
}

#[test]
fn record_with_short_header_rejected() {
    assert_eq!(parse_spore_data(&vec![4, 0, 0, 0]).unwrap_err(), Error::InvalidNFTData);
}

#[test]
fn record_with_bad_field_length_rejected() {
    let mut bad_field = (9u32).to_le_bytes().to_vec();
    bad_field.extend_from_slice(b"hi");
    let data = mol_table3(&bad_field, &mol_bytes(b"hello"), &[]);
    assert_eq!(parse_spore_data(&data).unwrap_err(), Error::InvalidNFTData);
}

#[test]
fn cluster_mutant_read_from_record() {
    let data = mol_table3(&mol_bytes(b"n"), &mol_bytes(b"d"), &mol_bytes(&[9u8; 32]));
    assert_eq!(parse_cluster_mutant(&data), Some(vec![9u8; 32]));
}

#[test]
fn cluster_without_mutant_or_malformed_demands_none() {
    let data = mol_table3(&mol_bytes(b"n"), &mol_bytes(b"d"), &[]);
    assert_eq!(parse_cluster_mutant(&data), None);
    assert_eq!(parse_cluster_mutant(&vec![1, 2, 3]), None);
}

#[test]
fn data_hash_matches_the_ledger_hash() {
    let d = b"some cell data".to_vec();
    assert_eq!(data_hash(&d), ckb_hash::blake2b_256(&d).to_vec());
}

#[test]
fn report_line_spells_the_code_hash() {
    let bin = b"binary contents".to_vec();
    let line = code_hash_line(&b"spore".to_vec(), &bin);
    let expected = format!(
        "- code_hash of contact {:<19}: 0x{}\n",
        "spore",
        hex::encode(ckb_hash::blake2b_256(&bin))
    );
    assert_eq!(line, expected.into_bytes());
}

#[test]
fn report_line_pads_to_the_label_column() {
    let bin = vec![1u8, 2, 3];
    let line = code_hash_line(&b"cluster_agent".to_vec(), &bin);
    let s = String::from_utf8(line).unwrap();
    assert!(s.starts_with("- code_hash of contact cluster_agent      : 0x"));
    assert!(s.ends_with("\n"));
}
