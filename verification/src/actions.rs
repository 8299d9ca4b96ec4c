//! The signed co-build message: action records keyed by script hash, each
//! declaring the operation the transaction intends for that script.

use vstd::prelude::*;

use crate::bytes::bytes_eq;
use crate::bytes::copy_range;

verus! {

/// The operation an action record declares, with the fields the validator
/// must corroborate against cell data.
#[derive(Debug)]
pub enum SporeAction {
    Mint { nft_id: Vec<u8>, data_hash: Vec<u8>, to: Option<Vec<u8>> },
    Transfer { nft_id: Vec<u8>, from: Option<Vec<u8>>, to: Option<Vec<u8>> },
    Burn { nft_id: Vec<u8>, from: Option<Vec<u8>> },
}

/// An operation as the mathematical model sees it.
pub enum ActionModel {
    Mint { nft_id: Seq<u8>, data_hash: Seq<u8>, to: Option<Seq<u8>> },
    Transfer { nft_id: Seq<u8>, from: Option<Seq<u8>>, to: Option<Seq<u8>> },
    Burn { nft_id: Seq<u8>, from: Option<Seq<u8>> },
}

/// Lifts an optional address to its mathematical value.
pub open spec fn opt_model(o: Option<Vec<u8>>) -> Option<Seq<u8>> {
    match o {
        Some(v) => Some(v@),
        None => None,
    }
}

impl SporeAction {
    /// The mathematical value this operation carries.
    pub open spec fn model(self) -> ActionModel {
        match self {
            SporeAction::Mint { nft_id, data_hash, to } => ActionModel::Mint {
                nft_id: nft_id@,
                data_hash: data_hash@,
                to: opt_model(to),
            },
            SporeAction::Transfer { nft_id, from, to } => ActionModel::Transfer {
                nft_id: nft_id@,
                from: opt_model(from),
                to: opt_model(to),
            },
            SporeAction::Burn { nft_id, from } => ActionModel::Burn {
                nft_id: nft_id@,
                from: opt_model(from),
            },
        }
    }
}

/// One record of the signed message.
#[derive(Debug)]
pub struct ActionRecord {
    pub script_hash: Vec<u8>,
    pub action: SporeAction,
}

/// A record as the mathematical model sees it.
pub struct ActionRecordModel {
    pub script_hash: Seq<u8>,
    pub action: ActionModel,
}

impl ActionRecord {
    /// The mathematical value this record carries.
    pub open spec fn model(self) -> ActionRecordModel {
        ActionRecordModel { script_hash: self.script_hash@, action: self.action.model() }
    }
}

/// A delegated execution handed back to the host: the extension's code
/// identity and its positional single-digit arguments. The host transfers
/// control and the extension's own verdict replaces the validator's.
#[derive(Debug)]
pub struct DelegateCall {
    pub code_hash: Vec<u8>,
    pub args: Vec<Vec<u8>>,
}

/// A delegated execution as the mathematical model sees it.
pub struct DelegateModel {
    pub code_hash: Seq<u8>,
    pub args: Seq<Seq<u8>>,
}

impl DelegateCall {
    /// The mathematical value this call carries.
    pub open spec fn model(self) -> DelegateModel {
        DelegateModel { code_hash: self.code_hash@, args: self.args@.map_values(|a: Vec<u8>| a@) }
    }
}

/// First record at or after `i` keyed by `h`.
pub open spec fn find_record_from(ms: Seq<ActionRecordModel>, h: Seq<u8>, i: int) -> Option<int>
    decreases ms.len() - i,
{
    if i < 0 || i >= ms.len() {
        None
    } else if ms[i].script_hash == h {
        Some(i)
    } else {
        find_record_from(ms, h, i + 1)
    }
}

/// A record search that found nothing before `i` can start at `i`.
pub proof fn lemma_find_record_skip(ms: Seq<ActionRecordModel>, h: Seq<u8>, i: int)
    requires
        0 <= i <= ms.len(),
        forall|j: int| 0 <= j < i ==> (#[trigger] ms[j]).script_hash != h,
    ensures
        find_record_from(ms, h, 0) == find_record_from(ms, h, i),
    decreases i,
{
    if i > 0 {
        lemma_find_record_skip(ms, h, i - 1);
    }
}

/// Finds the first record keyed by `h`.
pub fn find_action(records: &Vec<ActionRecord>, h: &Vec<u8>) -> (r: Option<usize>)
    ensures
        match r {
            Some(i) => i < records@.len() && find_record_from(
                records@.map_values(|x: ActionRecord| x.model()),
                h@,
                0,
            ) == Some(i as int),
            None => find_record_from(
                records@.map_values(|x: ActionRecord| x.model()),
                h@,
                0,
            ) is None,
        },
{
    let ghost ms = records@.map_values(|x: ActionRecord| x.model());
    let mut i: usize = 0;
    while i < records.len()
        invariant
            i <= records.len(),
            ms == records@.map_values(|x: ActionRecord| x.model()),
            ms.len() == records@.len(),
            forall|j: int| 0 <= j < i ==> (#[trigger] ms[j]).script_hash != h@,
        decreases records.len() - i,
    {
        proof {
            assert(ms[i as int] == records@[i as int].model());
        }
        if bytes_eq(&records[i].script_hash, h) {
            proof {
                lemma_find_record_skip(ms, h@, i as int);
            }
            return Some(i);
        }
        i += 1;
    }
    proof {
        lemma_find_record_skip(ms, h@, records@.len() as int);
    }
    None
}


} // verus!
