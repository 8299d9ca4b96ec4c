//! The protocol's governing properties, stated once over the mathematical
//! model and proved for every transaction.

use vstd::prelude::*;

use crate::actions::ActionModel;
use crate::actions::ActionRecordModel;
use crate::actions::DelegateModel;
use crate::cluster::spec_cluster_check;
use crate::errors::Error;
use crate::hashing::spec_derive_id;
use crate::mime::mime_of;
use crate::model::Config;
use crate::model::Script;
use crate::model::Transaction;
use crate::model::find_by_type_args;
use crate::model::find_group;
use crate::model::group_count;
use crate::model::sum_capacity;
use crate::molecule::cluster_mutant_of;
use crate::molecule::spore_data_of;
use crate::payment::pow10;
use crate::payment::spec_payment_ok;
use crate::validate::spec_multipart_check;
use crate::validate::spec_process_creation;
use crate::validate::spec_process_destruction;
use crate::validate::spec_process_transfer;
use crate::validate::spec_validate;

verus! {


/// The action record the validation pass dispatches on: the first record
/// of the message keyed by the script's hash.
pub open spec fn dispatched_action(
    message: Option<Seq<ActionRecordModel>>,
    script_hash: Seq<u8>,
) -> ActionModel {
    match message {
        Some(msg) => match crate::actions::find_record_from(msg, script_hash, 0) {
            Some(ri) => msg[ri].action,
            None => arbitrary(),
        },
        None => arbitrary(),
    }
}

/// At most one asset cell may stand on each side. More than one among the
/// inputs is a multiple spend, whatever else the transaction holds; with
/// none among the inputs, more than one among the outputs is a conflicting
/// creation.
pub proof fn lemma_single_instance(
    tx: Transaction,
    script: Script,
    script_hash: Seq<u8>,
    message: Option<Seq<ActionRecordModel>>,
    config: Config,
)
    ensures
        group_count(tx.inputs@, script) > 1 ==> spec_validate(tx, script, script_hash, message, config)
            == Err::<Seq<DelegateModel>, Error>(Error::MultipleSpend),
        (group_count(tx.inputs@, script) <= 1 && group_count(tx.outputs@, script) > 1)
            ==> spec_validate(tx, script, script_hash, message, config) == Err::<
            Seq<DelegateModel>,
            Error,
        >(Error::ConflictCreation),
{
}

/// A creation that validates carries exactly the identity
/// derived from the first consumed input's outpoint and the minted output's
/// position; a creation whose record is sound but whose args differ from
/// that identity fails with the identity error, so changing either
/// derivation input without changing the args rejects the transaction.
pub proof fn lemma_identity_binding(
    tx: Transaction,
    script: Script,
    config: Config,
    out_idx: int,
    action: ActionModel,
)
    ensures
        spec_process_creation(tx, script, config, out_idx, action) is Ok ==> script.args@
            == spec_derive_id(tx.first_input_outpoint@, out_idx as u64),
        ({
            &&& spore_data_of(tx.outputs@[out_idx].data@) matches Some(sd)
            &&& sd.content.len() > 0
            &&& sd.content_type.len() > 0
            &&& tx.inputs@.len() > 0
            &&& script.args@ != spec_derive_id(tx.first_input_outpoint@, out_idx as u64)
        }) ==> spec_process_creation(tx, script, config, out_idx, action) == Err::<
            Seq<DelegateModel>,
            Error,
        >(Error::InvalidNFTID),
{
}

/// The same bond, seen from the whole validation pass: when the group
/// counts select a creation and it validates, the asset's type args equal
/// the identity derived for the first group output.
pub proof fn lemma_identity_binding_validate(
    tx: Transaction,
    script: Script,
    script_hash: Seq<u8>,
    message: Option<Seq<ActionRecordModel>>,
    config: Config,
)
    ensures
        ({
            &&& group_count(tx.inputs@, script) == 0
            &&& group_count(tx.outputs@, script) == 1
            &&& spec_validate(tx, script, script_hash, message, config) is Ok
        }) ==> ({
            &&& find_group(tx.outputs@, script) matches Some(oi)
            &&& script.args@ == spec_derive_id(tx.first_input_outpoint@, oi as u64)
        }),
{
    if group_count(tx.inputs@, script) == 0 && group_count(tx.outputs@, script) == 1
        && spec_validate(tx, script, script_hash, message, config) is Ok {
        match find_group(tx.outputs@, script) {
            Some(oi) => {
                lemma_identity_binding(tx, script, config, oi, dispatched_action(message, script_hash));
            },
            None => {},
        }
    }
}

/// A transfer that validates leaves the serialized
/// record byte-identical between the consumed and the created cell; one
/// whose two records both parse but differ fails as a modification of a
/// permanent field.
pub proof fn lemma_transfer_immutability(tx: Transaction, script: Script, action: ActionModel)
    ensures
        spec_process_transfer(tx, script, action) is Ok ==> ({
            &&& find_group(tx.inputs@, script) matches Some(gi)
            &&& find_group(tx.outputs@, script) matches Some(go)
            &&& tx.inputs@[gi].data@ == tx.outputs@[go].data@
        }),
        ({
            &&& find_group(tx.inputs@, script) matches Some(gi)
            &&& find_group(tx.outputs@, script) matches Some(go)
            &&& spore_data_of(tx.inputs@[gi].data@) is Some
            &&& spore_data_of(tx.outputs@[go].data@) is Some
            &&& tx.inputs@[gi].data@ != tx.outputs@[go].data@
        }) ==> spec_process_transfer(tx, script, action) == Err::<Seq<DelegateModel>, Error>(
            Error::ModifySporePermanentField,
        ),
{
}

/// The same immutability, seen from the whole validation pass: when the
/// group counts select a transfer and it validates, the consumed and the
/// created asset cells carry byte-identical serialized records.
pub proof fn lemma_transfer_immutability_validate(
    tx: Transaction,
    script: Script,
    script_hash: Seq<u8>,
    message: Option<Seq<ActionRecordModel>>,
    config: Config,
)
    ensures
        ({
            &&& group_count(tx.inputs@, script) == 1
            &&& group_count(tx.outputs@, script) == 1
            &&& spec_validate(tx, script, script_hash, message, config) is Ok
        }) ==> ({
            &&& find_group(tx.inputs@, script) matches Some(gi)
            &&& find_group(tx.outputs@, script) matches Some(go)
            &&& tx.inputs@[gi].data@ == tx.outputs@[go].data@
        }),
{
    lemma_transfer_immutability(tx, script, dispatched_action(message, script_hash));
}

/// Whenever the consumed record parses and its content type
/// declares the asset immortal, destruction fails with the immortality
/// error, independent of every other condition; and a destruction that
/// validates consumed an asset that is not immortal.
pub proof fn lemma_immortality(tx: Transaction, script: Script, action: ActionModel)
    ensures
        ({
            &&& find_group(tx.inputs@, script) matches Some(g)
            &&& spore_data_of(tx.inputs@[g].data@) matches Some(sd)
            &&& mime_of(sd.content_type) matches Ok(m)
            &&& m.immortal
        }) ==> spec_process_destruction(tx, script, action) == Err::<Seq<DelegateModel>, Error>(
            Error::DestroyImmortalNFT,
        ),
        spec_process_destruction(tx, script, action) is Ok ==> ({
            &&& find_group(tx.inputs@, script) matches Some(g)
            &&& spore_data_of(tx.inputs@[g].data@) matches Some(sd)
            &&& mime_of(sd.content_type) matches Ok(m)
            &&& !m.immortal
        }),
{
}

/// The same protection, seen from the whole validation pass: when the group
/// counts select a destruction and it validates, the consumed asset was not
/// immortal.
pub proof fn lemma_immortality_validate(
    tx: Transaction,
    script: Script,
    script_hash: Seq<u8>,
    message: Option<Seq<ActionRecordModel>>,
    config: Config,
)
    ensures
        ({
            &&& group_count(tx.inputs@, script) == 1
            &&& group_count(tx.outputs@, script) == 0
            &&& spec_validate(tx, script, script_hash, message, config) is Ok
        }) ==> ({
            &&& find_group(tx.inputs@, script) matches Some(g)
            &&& spore_data_of(tx.inputs@[g].data@) matches Some(sd)
            &&& mime_of(sd.content_type) matches Ok(m)
            &&& !m.immortal
        }),
{
    lemma_immortality(tx, script, dispatched_action(message, script_hash));
}

/// When the declared cluster's record demands a
/// mutant that the asset's own list does not contain, the cluster
/// obligation fails with the mutant-requirement error.
pub proof fn lemma_cluster_mutant_enforcement(
    tx: Transaction,
    cid: Seq<u8>,
    mutants: Seq<Seq<u8>>,
    config: Config,
)
    ensures
        ({
            &&& find_by_type_args(tx.cell_deps@, cid, config.cluster_code_hashes@) matches Some(dep)
            &&& cluster_mutant_of(tx.cell_deps@[dep].data@) matches Some(mid)
            &&& !mutants.contains(mid)
        }) ==> spec_cluster_check(tx, cid, mutants, config) == Err::<(), Error>(
            Error::ClusterRequiresMutantApplied,
        ),
{
}

/// The same demand, seen from a creation: a minted asset that
/// declares such a cluster and reaches the cluster obligation fails there.
pub proof fn lemma_cluster_mutant_enforcement_creation(
    tx: Transaction,
    script: Script,
    config: Config,
    out_idx: int,
    action: ActionModel,
)
    ensures
        ({
            &&& spore_data_of(tx.outputs@[out_idx].data@) matches Some(sd)
            &&& sd.content.len() > 0
            &&& sd.content_type.len() > 0
            &&& tx.inputs@.len() > 0
            &&& script.args@ == spec_derive_id(tx.first_input_outpoint@, out_idx as u64)
            &&& mime_of(sd.content_type) matches Ok(m)
            &&& spec_multipart_check(m, sd.content) is Ok
            &&& sd.cluster_id matches Some(cid)
            &&& find_by_type_args(tx.cell_deps@, cid, config.cluster_code_hashes@) matches Some(dep)
            &&& cluster_mutant_of(tx.cell_deps@[dep].data@) matches Some(mid)
            &&& !m.mutants.contains(mid)
        }) ==> spec_process_creation(tx, script, config, out_idx, action) == Err::<
            Seq<DelegateModel>,
            Error,
        >(Error::ClusterRequiresMutantApplied),
{
}

/// With exponent two the extension demands exactly one hundred more
/// capacity units for its lock: a difference of one hundred passes,
/// ninety-nine fails.
pub proof fn lemma_payment_gate_hundred(tx: Transaction, pos: int)
    requires
        0 <= pos < tx.cell_deps@.len(),
        tx.cell_deps@[pos].type_script matches Some(t) && t.args@.len() > 32 && t.args@[32] == 2,
    ensures
        sum_capacity(tx.outputs@, tx.cell_deps@[pos].lock_hash@) == sum_capacity(
            tx.inputs@,
            tx.cell_deps@[pos].lock_hash@,
        ) + 100 ==> spec_payment_ok(tx, pos),
        sum_capacity(tx.outputs@, tx.cell_deps@[pos].lock_hash@) == sum_capacity(
            tx.inputs@,
            tx.cell_deps@[pos].lock_hash@,
        ) + 99 ==> !spec_payment_ok(tx, pos),
{
    assert(pow10(2) == 100) by {
        reveal_with_fuel(pow10, 3);
    }
}

} // verus!
