//! The serialized form of asset and cluster records: a binary table of
//! length-prefixed byte strings behind a header of monotone field offsets.
//! Records with more fields than expected are tolerated for forward
//! compatibility; every structural defect rejects the record.

use vstd::prelude::*;

use crate::bytes::copy_range;
use crate::errors::Error;

verus! {

/// The little-endian 32-bit number at offset `i` of `s`.
pub open spec fn le_u32_at(s: Seq<u8>, i: int) -> int {
    s[i] + s[i + 1] * 0x100 + s[i + 2] * 0x1_0000 + s[i + 3] * 0x100_0000
}

/// Reads the little-endian 32-bit number at offset `i`.
fn read_u32_at(s: &Vec<u8>, i: usize) -> (r: u32)
    requires
        i + 4 <= s@.len(),
    ensures
        r == le_u32_at(s@, i as int),
{
    let n = s.len();
    (s[i] as u32) + (s[i + 1] as u32) * 0x100 + (s[i + 2] as u32) * 0x1_0000 + (s[i + 3] as u32)
        * 0x100_0000
}

/// The `k`-th field offset recorded in the table header.
pub open spec fn table_offset(s: Seq<u8>, k: int) -> int {
    le_u32_at(s, 4 + 4 * k)
}

/// The number of fields the table header declares.
pub open spec fn table_field_count(s: Seq<u8>) -> int {
    table_offset(s, 0) / 4 - 1
}

/// Structural well-formedness of a table carrying at least `min_fields`
/// fields: the recorded total size is the byte length, the header is intact
/// and the field offsets are monotone and within bounds.
#[verifier::opaque]
pub open spec fn table_wf(s: Seq<u8>, min_fields: int) -> bool {
    let fc = table_field_count(s);
    &&& s.len() >= 8
    &&& le_u32_at(s, 0) == s.len()
    &&& table_offset(s, 0) % 4 == 0
    &&& table_offset(s, 0) >= 8
    &&& table_offset(s, 0) <= s.len()
    &&& fc >= min_fields
    &&& (forall|k: int| 0 <= k < fc - 1 ==> #[trigger] table_offset(s, k) <= table_offset(s, k + 1))
    &&& table_offset(s, fc - 1) <= s.len()
}

/// The bytes of field `k` of a well-formed table.
#[verifier::opaque]
pub open spec fn table_field(s: Seq<u8>, k: int) -> Seq<u8> {
    let fc = table_field_count(s);
    let hi = if k + 1 < fc {
        table_offset(s, k + 1)
    } else {
        s.len() as int
    };
    s.subrange(table_offset(s, k), hi)
}

/// Monotonicity of the offsets carries across any distance.
pub proof fn lemma_offsets_chain(s: Seq<u8>, a: int, b: int)
    requires
        forall|k: int|
            0 <= k < table_field_count(s) - 1 ==> #[trigger] table_offset(s, k) <= table_offset(
                s,
                k + 1,
            ),
        0 <= a <= b <= table_field_count(s) - 1,
    ensures
        table_offset(s, a) <= table_offset(s, b),
    decreases b - a,
{
    if a < b {
        lemma_offsets_chain(s, a, b - 1);
    }
}

/// A molecule byte string: a four-byte count followed by that many bytes.
pub open spec fn parse_bytes(s: Seq<u8>) -> Option<Seq<u8>> {
    if s.len() >= 4 && le_u32_at(s, 0) == s.len() - 4 {
        Some(s.subrange(4, s.len() as int))
    } else {
        None
    }
}

/// An optional molecule byte string: an empty slice means absent.
pub open spec fn parse_bytes_opt(s: Seq<u8>) -> Option<Option<Seq<u8>>> {
    if s.len() == 0 {
        Some(None)
    } else {
        match parse_bytes(s) {
            Some(b) => Some(Some(b)),
            None => None,
        }
    }
}

/// An asset record as the mathematical model sees it.
pub struct SporeDataModel {
    pub content_type: Seq<u8>,
    pub content: Seq<u8>,
    pub cluster_id: Option<Seq<u8>>,
}

/// Parses cell data as a serialized asset record: a table whose first three
/// fields are the content type, the content and the optional cluster id.
#[verifier::opaque]
pub open spec fn spore_data_of(s: Seq<u8>) -> Option<SporeDataModel> {
    if !table_wf(s, 3) {
        None
    } else {
        match parse_bytes(table_field(s, 0)) {
            None => None,
            Some(ct) => match parse_bytes(table_field(s, 1)) {
                None => None,
                Some(c) => match parse_bytes_opt(table_field(s, 2)) {
                    None => None,
                    Some(cid) => Some(
                        SporeDataModel { content_type: ct, content: c, cluster_id: cid },
                    ),
                },
            },
        }
    }
}

/// The mutant a serialized cluster record demands of its members, if any.
/// A record that does not parse demands none: live cluster cells are kept
/// well-formed by the cluster's own script, so a defect is treated as an
/// empty declaration rather than an error.
#[verifier::opaque]
pub open spec fn cluster_mutant_of(s: Seq<u8>) -> Option<Seq<u8>> {
    if !table_wf(s, 3) {
        None
    } else {
        match parse_bytes(table_field(s, 0)) {
            None => None,
            Some(_name) => match parse_bytes(table_field(s, 1)) {
                None => None,
                Some(_desc) => match parse_bytes_opt(table_field(s, 2)) {
                    None => None,
                    Some(m) => m,
                },
            },
        }
    }
}

/// An asset record: non-structural checks (emptiness, identity) are the
/// validators' business, not the parser's.
#[derive(Debug)]
pub struct SporeData {
    pub content_type: Vec<u8>,
    pub content: Vec<u8>,
    pub cluster_id: Option<Vec<u8>>,
}

impl SporeData {
    /// The mathematical value this record carries.
    pub open spec fn model(self) -> SporeDataModel {
        SporeDataModel {
            content_type: self.content_type@,
            content: self.content@,
            cluster_id: match self.cluster_id {
                Some(v) => Some(v@),
                None => None,
            },
        }
    }
}

/// Decides `table_wf`.
#[verifier::rlimit(50)]
fn check_table(s: &Vec<u8>, min_fields: usize) -> (r: bool)
    ensures
        r == table_wf(s@, min_fields as int),
{
    proof {
        reveal(table_wf);
    }
    if s.len() < 8 {
        return false;
    }
    let total = read_u32_at(s, 0);
    if total as usize != s.len() {
        return false;
    }
    let o0 = read_u32_at(s, 4);
    if o0 % 4 != 0 || o0 < 8 {
        return false;
    }
    if o0 as usize > s.len() {
        return false;
    }
    let fc = (o0 / 4) as usize - 1;
    proof {
        vstd::arithmetic::div_mod::lemma_fundamental_div_mod(o0 as int, 4);
        assert(4 * fc + 4 == o0);
        assert(fc == table_field_count(s@));
    }
    if fc < min_fields {
        return false;
    }
    let mut k: usize = 0;
    while k + 1 < fc
        invariant
            k < fc,
            fc == table_field_count(s@),
            4 * fc + 4 == table_offset(s@, 0),
            table_offset(s@, 0) <= s@.len(),
            s@.len() >= 8,
            le_u32_at(s@, 0) == s@.len(),
            table_offset(s@, 0) % 4 == 0,
            forall|j: int| 0 <= j < k ==> #[trigger] table_offset(s@, j) <= table_offset(s@, j + 1),
        decreases fc - k,
    {
        let a = read_u32_at(s, 4 + 4 * k);
        let b = read_u32_at(s, 4 + 4 * (k + 1));
        proof {
            assert(a == table_offset(s@, k as int));
            assert(b == table_offset(s@, k as int + 1));
        }
        if a > b {
            proof {
                reveal(table_wf);
                assert(!table_wf(s@, min_fields as int));
            }
            return false;
        }
        k += 1;
    }
    if read_u32_at(s, 4 + 4 * (fc - 1)) as usize > s.len() {
        return false;
    }
    true
}

/// Parses one length-prefixed byte-string field.
fn parse_bytes_exec(f: &Vec<u8>) -> (r: Option<Vec<u8>>)
    ensures
        match r {
            Some(v) => parse_bytes(f@) == Some(v@),
            None => parse_bytes(f@) is None,
        },
{
    if f.len() < 4 {
        return None;
    }
    let n = read_u32_at(f, 0);
    if n as usize != f.len() - 4 {
        return None;
    }
    Some(copy_range(f, 4, f.len()))
}

/// Copies field `k` of a table already known to be well-formed.
fn extract_field(s: &Vec<u8>, k: usize) -> (r: Vec<u8>)
    requires
        table_wf(s@, 3),
        k < 3,
    ensures
        r@ == table_field(s@, k as int),
{
    proof {
        reveal(table_wf);
        reveal(table_field);
        vstd::arithmetic::div_mod::lemma_fundamental_div_mod(table_offset(s@, 0), 4);
        assert(4 * table_field_count(s@) + 4 == table_offset(s@, 0));
        lemma_offsets_chain(s@, 0, k as int);
        lemma_offsets_chain(s@, k as int, table_field_count(s@) - 1);
        if k as int + 1 < table_field_count(s@) {
            lemma_offsets_chain(s@, 0, k as int + 1);
            lemma_offsets_chain(s@, k as int + 1, table_field_count(s@) - 1);
        }
    }
    let o0 = read_u32_at(s, 4) as usize;
    let fc = o0 / 4 - 1;
    let lo = read_u32_at(s, 4 + 4 * k) as usize;
    let hi = if k + 1 < fc {
        read_u32_at(s, 4 + 4 * (k + 1)) as usize
    } else {
        s.len()
    };
    copy_range(s, lo, hi)
}

/// Parses cell data as an asset record; every structural defect is the
/// same failure, a malformed asset.
pub fn parse_spore_data(data: &Vec<u8>) -> (r: Result<SporeData, Error>)
    ensures
        match r {
            Ok(sd) => spore_data_of(data@) == Some(sd.model()),
            Err(e) => spore_data_of(data@) is None && e == Error::InvalidNFTData,
        },
{
    proof {
        reveal(spore_data_of);
    }
    if !check_table(data, 3) {
        return Err(Error::InvalidNFTData);
    }
    let f0 = extract_field(data, 0);
    let f1 = extract_field(data, 1);
    let f2 = extract_field(data, 2);
    let content_type = match parse_bytes_exec(&f0) {
        Some(v) => v,
        None => {
            return Err(Error::InvalidNFTData);
        },
    };
    let content = match parse_bytes_exec(&f1) {
        Some(v) => v,
        None => {
            return Err(Error::InvalidNFTData);
        },
    };
    let cluster_id = if f2.len() == 0 {
        None
    } else {
        match parse_bytes_exec(&f2) {
            Some(v) => Some(v),
            None => {
                return Err(Error::InvalidNFTData);
            },
        }
    };
    Ok(SporeData { content_type, content, cluster_id })
}

/// Extracts the mutant demand of a serialized cluster record, tolerating
/// records that do not parse.
pub fn parse_cluster_mutant(data: &Vec<u8>) -> (r: Option<Vec<u8>>)
    ensures
        match r {
            Some(v) => cluster_mutant_of(data@) == Some(v@),
            None => cluster_mutant_of(data@) is None,
        },
{
    proof {
        reveal(cluster_mutant_of);
    }
    if !check_table(data, 3) {
        return None;
    }
    let f0 = extract_field(data, 0);
    let f1 = extract_field(data, 1);
    let f2 = extract_field(data, 2);
    if parse_bytes_exec(&f0).is_none() {
        return None;
    }
    if parse_bytes_exec(&f1).is_none() {
        return None;
    }
    if f2.len() == 0 {
        return None;
    }
    parse_bytes_exec(&f2)
}

} // verus!
