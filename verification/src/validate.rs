//! The validation state machine: counting the asset's own cells picks
//! creation, transfer or destruction; the chosen branch checks the cell
//! facts and the signed action record, and hands back the delegated calls
//! the host must still perform.

use vstd::prelude::*;

use crate::actions::ActionModel;
use crate::actions::ActionRecord;
use crate::actions::ActionRecordModel;
use crate::actions::DelegateCall;
use crate::actions::DelegateModel;
use crate::actions::SporeAction;
use crate::actions::find_action;
use crate::actions::find_record_from;
use crate::bytes::bytes_eq;
use crate::bytes::copy_range;
use crate::cluster::cluster_check;
use crate::cluster::spec_cluster_check;
use crate::errors::Error;
use crate::extension::spec_verify_extension;
use crate::extension::verify_extension;
use crate::hashing::blake2b_of;
use crate::hashing::data_hash;
use crate::hashing::derive_id;
use crate::hashing::spec_derive_id;
use crate::mime::Mime;
use crate::mime::MimeModel;
use crate::mime::get_param;
use crate::mime::kw_boundary;
use crate::mime::kw_boundary_vec;
use crate::mime::kw_multipart;
use crate::mime::kw_multipart_vec;
use crate::mime::mime_of;
use crate::mime::param_value;
use crate::mime::parse_mime;
use crate::model::Config;
use crate::model::Script;
use crate::model::Transaction;
use crate::model::count_group;
use crate::model::find_group;
use crate::model::find_group_cell;
use crate::model::group_count;
use crate::molecule::parse_spore_data;
use crate::molecule::spore_data_of;
use crate::search::find_subsequence;
use crate::search::first_occurrence;
use crate::utf8::check_utf8;
use crate::utf8::is_utf8;

verus! {

/// The multipart obligation: a `multipart` asset must name a boundary, the
/// boundary must be valid UTF-8, and the content must contain the literal
/// frame marker, two dashes followed by the boundary.
pub open spec fn spec_multipart_check(m: MimeModel, content: Seq<u8>) -> Result<(), Error> {
    if m.main_type == kw_multipart() {
        match param_value(m.params, kw_boundary()) {
            None => Err(Error::InvalidContentType),
            Some(b) => if !is_utf8(b) {
                Err(Error::Encoding)
            } else if first_occurrence(content, seq![45u8, 45u8] + b) is None {
                Err(Error::InvalidMultipartContent)
            } else {
                Ok(())
            },
        }
    } else {
        Ok(())
    }
}

/// Decides the multipart obligation.
fn multipart_check(mime: &Mime, content: &Vec<u8>) -> (r: Result<(), Error>)
    ensures
        r == spec_multipart_check(mime.model(), content@),
{
    if !bytes_eq(&mime.main_type, &kw_multipart_vec()) {
        return Ok(());
    }
    match get_param(&mime.params, &kw_boundary_vec()) {
        None => Err(Error::InvalidContentType),
        Some(b) => {
            if !check_utf8(&b) {
                return Err(Error::Encoding);
            }
            let mut needle: Vec<u8> = Vec::new();
            needle.push(45);
            needle.push(45);
            let mut btail = copy_range(&b, 0, b.len());
            needle.append(&mut btail);
            proof {
                assert(needle@ =~= seq![45u8, 45u8] + b@);
            }
            match find_subsequence(&needle, content) {
                None => Err(Error::InvalidMultipartContent),
                Some(_) => Ok(()),
            }
        },
    }
}

/// What a creation demands of its signed action record: a mint whose asset
/// id is the derived identity, whose data digest is the digest of the new
/// cell's data, and whose receiver, when named, is the new cell's lock.
pub open spec fn spec_creation_action_check(
    tx: Transaction,
    out_idx: int,
    id: Seq<u8>,
    action: ActionModel,
) -> Result<(), Error> {
    match action {
        ActionModel::Mint { nft_id, data_hash: dh, to } => {
            if nft_id != id || dh != blake2b_of(tx.outputs@[out_idx].data@) {
                Err(Error::SporeActionFieldMismatch)
            } else {
                match to {
                    None => Ok(()),
                    Some(a) => if tx.outputs@[out_idx].lock_hash@ == a {
                        Ok(())
                    } else {
                        Err(Error::SporeActionFieldMismatch)
                    },
                }
            }
        },
        _ => Err(Error::SporeActionMismatch),
    }
}

/// Validates a creation: the new cell's data must be a well-formed asset
/// record with content, the type args must equal the derived identity, the
/// content type must parse and satisfy the multipart obligation, a declared
/// cluster must resolve, the extension chain must pass with the creation
/// operation, and the mint record must corroborate it all.
pub open spec fn spec_process_creation(
    tx: Transaction,
    script: Script,
    config: Config,
    out_idx: int,
    action: ActionModel,
) -> Result<Seq<DelegateModel>, Error> {
    match spore_data_of(tx.outputs@[out_idx].data@) {
        None => Err(Error::InvalidNFTData),
        Some(sd) => {
            if sd.content.len() == 0 {
                Err(Error::EmptyContent)
            } else if sd.content_type.len() == 0 {
                Err(Error::InvalidContentType)
            } else if tx.inputs@.len() == 0 {
                Err(Error::InvalidNFTID)
            } else if script.args@ != spec_derive_id(tx.first_input_outpoint@, out_idx as u64) {
                Err(Error::InvalidNFTID)
            } else {
                match mime_of(sd.content_type) {
                    Err(e) => Err(e),
                    Ok(m) => match spec_multipart_check(m, sd.content) {
                        Err(e) => Err(e),
                        Ok(_) => {
                            let cluster_r = match sd.cluster_id {
                                Some(cid) => spec_cluster_check(tx, cid, m.mutants, config),
                                None => Ok(()),
                            };
                            match cluster_r {
                                Err(e) => Err(e),
                                Ok(_) => match spec_verify_extension(
                                    tx,
                                    m.mutants,
                                    0,
                                    seq![out_idx],
                                ) {
                                    Err(e) => Err(e),
                                    Ok(dels) => match spec_creation_action_check(
                                        tx,
                                        out_idx,
                                        spec_derive_id(tx.first_input_outpoint@, out_idx as u64),
                                        action,
                                    ) {
                                        Err(e) => Err(e),
                                        Ok(_) => Ok(dels),
                                    },
                                },
                            }
                        },
                    },
                }
            }
        },
    }
}

/// Validates a destruction: the consumed asset must parse, must not be
/// immortal, its extension chain must pass with the destroy operation, and
/// the burn record must name the asset's identity and, when present, the
/// consumed cell's lock.
pub open spec fn spec_process_destruction(
    tx: Transaction,
    script: Script,
    action: ActionModel,
) -> Result<Seq<DelegateModel>, Error> {
    match find_group(tx.inputs@, script) {
        None => Err(Error::IndexOutOfBound),
        Some(g) => match spore_data_of(tx.inputs@[g].data@) {
            None => Err(Error::InvalidNFTData),
            Some(sd) => match mime_of(sd.content_type) {
                Err(e) => Err(e),
                Ok(m) => {
                    if m.immortal {
                        Err(Error::DestroyImmortalNFT)
                    } else {
                        match spec_verify_extension(tx, m.mutants, 2, seq![g]) {
                            Err(e) => Err(e),
                            Ok(dels) => match action {
                                ActionModel::Burn { nft_id, from } => {
                                    if nft_id != script.args@ {
                                        Err(Error::SporeActionFieldMismatch)
                                    } else {
                                        match from {
                                            None => Ok(dels),
                                            Some(a) => if tx.inputs@[g].lock_hash@ == a {
                                                Ok(dels)
                                            } else {
                                                Err(Error::SporeActionFieldMismatch)
                                            },
                                        }
                                    }
                                },
                                _ => Err(Error::SporeActionMismatch),
                            },
                        }
                    }
                },
            },
        },
    }
}

/// Validates a transfer: both asset cells must parse, their serialized
/// records must be byte-identical, the extension chain must pass with the
/// transfer operation, and the transfer record must name the identity and,
/// when present, the consumed cell's lock as sender and the created cell's
/// lock as receiver.
pub open spec fn spec_process_transfer(
    tx: Transaction,
    script: Script,
    action: ActionModel,
) -> Result<Seq<DelegateModel>, Error> {
    match find_group(tx.inputs@, script) {
        None => Err(Error::IndexOutOfBound),
        Some(gi) => match find_group(tx.outputs@, script) {
            None => Err(Error::IndexOutOfBound),
            Some(go) => match spore_data_of(tx.inputs@[gi].data@) {
                None => Err(Error::InvalidNFTData),
                Some(sd_in) => match spore_data_of(tx.outputs@[go].data@) {
                    None => Err(Error::InvalidNFTData),
                    Some(_sd_out) => {
                        if tx.inputs@[gi].data@ != tx.outputs@[go].data@ {
                            Err(Error::ModifySporePermanentField)
                        } else {
                            match mime_of(sd_in.content_type) {
                                Err(e) => Err(e),
                                Ok(m) => match spec_verify_extension(tx, m.mutants, 1, seq![gi, go]) {
                                    Err(e) => Err(e),
                                    Ok(dels) => match action {
                                        ActionModel::Transfer { nft_id, from, to } => {
                                            if nft_id != script.args@ {
                                                Err(Error::SporeActionFieldMismatch)
                                            } else {
                                                let from_bad = match from {
                                                    Some(a) => tx.inputs@[gi].lock_hash@ != a,
                                                    None => false,
                                                };
                                                let to_bad = match to {
                                                    Some(a) => tx.outputs@[go].lock_hash@ != a,
                                                    None => false,
                                                };
                                                if from_bad || to_bad {
                                                    Err(Error::SporeActionFieldMismatch)
                                                } else {
                                                    Ok(dels)
                                                }
                                            }
                                        },
                                        _ => Err(Error::SporeActionMismatch),
                                    },
                                },
                            }
                        }
                    },
                },
            },
        },
    }
}

/// The signed message as the mathematical model sees it.
pub open spec fn msg_model(message: Option<Vec<ActionRecord>>) -> Option<Seq<ActionRecordModel>> {
    match message {
        Some(v) => Some(v@.map_values(|x: ActionRecord| x.model())),
        None => None,
    }
}

/// The whole validation pass. More than one asset cell among the inputs is
/// a multiple spend; with none, more than one among the outputs is a
/// conflicting creation. An absent message or a message without a record
/// keyed by this script's hash rejects the transaction. The group counts
/// then pick the branch: none in, one out is a creation at the first group
/// output; one in, none out a destruction; one in, one out a transfer. The
/// host guarantees the script only runs when its group is inhabited.
pub open spec fn spec_validate(
    tx: Transaction,
    script: Script,
    script_hash: Seq<u8>,
    message: Option<Seq<ActionRecordModel>>,
    config: Config,
) -> Result<Seq<DelegateModel>, Error> {
    let n_in = group_count(tx.inputs@, script);
    let n_out = group_count(tx.outputs@, script);
    if n_in > 1 {
        Err(Error::MultipleSpend)
    } else if n_out > 1 {
        Err(Error::ConflictCreation)
    } else {
        match message {
            None => Err(Error::InvliadCoBuildWitnessLayout),
            Some(msg) => match find_record_from(msg, script_hash, 0) {
                None => Err(Error::InvliadCoBuildMessage),
                Some(ri) => {
                    let action = msg[ri].action;
                    if n_in == 0 && n_out == 1 {
                        match find_group(tx.outputs@, script) {
                            None => Err(Error::IndexOutOfBound),
                            Some(oi) => spec_process_creation(tx, script, config, oi, action),
                        }
                    } else if n_in == 1 && n_out == 0 {
                        spec_process_destruction(tx, script, action)
                    } else {
                        spec_process_transfer(tx, script, action)
                    }
                },
            },
        }
    }
}

/// Runs the creation branch.
#[verifier::rlimit(100)]
#[verifier::spinoff_prover]
pub fn process_creation(
    tx: &Transaction,
    script: &Script,
    config: &Config,
    out_idx: usize,
    action: &SporeAction,
) -> (r: Result<Vec<DelegateCall>, Error>)
    requires
        out_idx < tx.outputs@.len(),
    ensures
        match r {
            Ok(calls) => spec_process_creation(*tx, *script, *config, out_idx as int, action.model())
                == Ok::<Seq<DelegateModel>, Error>(calls@.map_values(|c: DelegateCall| c.model())),
            Err(e) => spec_process_creation(*tx, *script, *config, out_idx as int, action.model())
                == Err::<Seq<DelegateModel>, Error>(e),
        },
{
    let sd = match parse_spore_data(&tx.outputs[out_idx].data) {
        Ok(s) => s,
        Err(e) => {
            return Err(e);
        },
    };
    if sd.content.len() == 0 {
        return Err(Error::EmptyContent);
    }
    if sd.content_type.len() == 0 {
        return Err(Error::InvalidContentType);
    }
    if tx.inputs.len() == 0 {
        return Err(Error::InvalidNFTID);
    }
    let id = derive_id(&tx.first_input_outpoint, out_idx as u64);
    if !bytes_eq(&script.args, &id) {
        return Err(Error::InvalidNFTID);
    }
    let mime = match parse_mime(&sd.content_type) {
        Ok(m) => m,
        Err(e) => {
            return Err(e);
        },
    };
    match multipart_check(&mime, &sd.content) {
        Ok(_) => {},
        Err(e) => {
            return Err(e);
        },
    }
    match &sd.cluster_id {
        Some(cid) => {
            match cluster_check(tx, cid, &mime.mutants, config) {
                Ok(_) => {},
                Err(e) => {
                    return Err(e);
                },
            }
        },
        None => {},
    }
    let mut argv: Vec<usize> = Vec::new();
    argv.push(out_idx);
    proof {
        assert(argv@.map_values(|x: usize| x as int) =~= seq![out_idx as int]);
    }
    let dels = match verify_extension(tx, &mime.mutants, 0, &argv) {
        Ok(d) => d,
        Err(e) => {
            return Err(e);
        },
    };
    match action {
        SporeAction::Mint { nft_id, data_hash: dh, to } => {
            if !bytes_eq(nft_id, &id) {
                return Err(Error::SporeActionFieldMismatch);
            }
            let want = data_hash(&tx.outputs[out_idx].data);
            if !bytes_eq(dh, &want) {
                return Err(Error::SporeActionFieldMismatch);
            }
            match to {
                Some(a) => {
                    if !bytes_eq(&tx.outputs[out_idx].lock_hash, a) {
                        return Err(Error::SporeActionFieldMismatch);
                    }
                },
                None => {},
            }
            Ok(dels)
        },
        _ => Err(Error::SporeActionMismatch),
    }
}

/// Runs the destruction branch.
#[verifier::rlimit(100)]
#[verifier::spinoff_prover]
pub fn process_destruction(tx: &Transaction, script: &Script, action: &SporeAction) -> (r: Result<
    Vec<DelegateCall>,
    Error,
>)
    ensures
        match r {
            Ok(calls) => spec_process_destruction(*tx, *script, action.model())
                == Ok::<Seq<DelegateModel>, Error>(calls@.map_values(|c: DelegateCall| c.model())),
            Err(e) => spec_process_destruction(*tx, *script, action.model())
                == Err::<Seq<DelegateModel>, Error>(e),
        },
{
    let g = match find_group_cell(&tx.inputs, script) {
        Some(i) => i,
        None => {
            return Err(Error::IndexOutOfBound);
        },
    };
    let sd = match parse_spore_data(&tx.inputs[g].data) {
        Ok(s) => s,
        Err(e) => {
            return Err(e);
        },
    };
    let mime = match parse_mime(&sd.content_type) {
        Ok(m) => m,
        Err(e) => {
            return Err(e);
        },
    };
    if mime.immortal {
        return Err(Error::DestroyImmortalNFT);
    }
    let mut argv: Vec<usize> = Vec::new();
    argv.push(g);
    proof {
        assert(argv@.map_values(|x: usize| x as int) =~= seq![g as int]);
    }
    let dels = match verify_extension(tx, &mime.mutants, 2, &argv) {
        Ok(d) => d,
        Err(e) => {
            return Err(e);
        },
    };
    match action {
        SporeAction::Burn { nft_id, from } => {
            if !bytes_eq(nft_id, &script.args) {
                return Err(Error::SporeActionFieldMismatch);
            }
            match from {
                Some(a) => {
                    if !bytes_eq(&tx.inputs[g].lock_hash, a) {
                        return Err(Error::SporeActionFieldMismatch);
                    }
                },
                None => {},
            }
            Ok(dels)
        },
        _ => Err(Error::SporeActionMismatch),
    }
}

/// Runs the transfer branch.
#[verifier::rlimit(100)]
#[verifier::spinoff_prover]
pub fn process_transfer(tx: &Transaction, script: &Script, action: &SporeAction) -> (r: Result<
    Vec<DelegateCall>,
    Error,
>)
    ensures
        match r {
            Ok(calls) => spec_process_transfer(*tx, *script, action.model())
                == Ok::<Seq<DelegateModel>, Error>(calls@.map_values(|c: DelegateCall| c.model())),
            Err(e) => spec_process_transfer(*tx, *script, action.model())
                == Err::<Seq<DelegateModel>, Error>(e),
        },
{
    let gi = match find_group_cell(&tx.inputs, script) {
        Some(i) => i,
        None => {
            return Err(Error::IndexOutOfBound);
        },
    };
    let go = match find_group_cell(&tx.outputs, script) {
        Some(i) => i,
        None => {
            return Err(Error::IndexOutOfBound);
        },
    };
    let sd_in = match parse_spore_data(&tx.inputs[gi].data) {
        Ok(s) => s,
        Err(e) => {
            return Err(e);
        },
    };
    match parse_spore_data(&tx.outputs[go].data) {
        Ok(_) => {},
        Err(e) => {
            return Err(e);
        },
    }
    if !bytes_eq(&tx.inputs[gi].data, &tx.outputs[go].data) {
        return Err(Error::ModifySporePermanentField);
    }
    let mime = match parse_mime(&sd_in.content_type) {
        Ok(m) => m,
        Err(e) => {
            return Err(e);
        },
    };
    let mut argv: Vec<usize> = Vec::new();
    argv.push(gi);
    argv.push(go);
    proof {
        assert(argv@.map_values(|x: usize| x as int) =~= seq![gi as int, go as int]);
    }
    let dels = match verify_extension(tx, &mime.mutants, 1, &argv) {
        Ok(d) => d,
        Err(e) => {
            return Err(e);
        },
    };
    match action {
        SporeAction::Transfer { nft_id, from, to } => {
            if !bytes_eq(nft_id, &script.args) {
                return Err(Error::SporeActionFieldMismatch);
            }
            match from {
                Some(a) => {
                    if !bytes_eq(&tx.inputs[gi].lock_hash, a) {
                        return Err(Error::SporeActionFieldMismatch);
                    }
                },
                None => {},
            }
            match to {
                Some(a) => {
                    if !bytes_eq(&tx.outputs[go].lock_hash, a) {
                        return Err(Error::SporeActionFieldMismatch);
                    }
                },
                None => {},
            }
            Ok(dels)
        },
        _ => Err(Error::SporeActionMismatch),
    }
}

/// Runs the whole validation pass. The host guarantees it only invokes the
/// script when the group is inhabited, so an empty group on both sides is
/// excluded here rather than answered.
pub fn validate(
    tx: &Transaction,
    script: &Script,
    script_hash: &Vec<u8>,
    message: &Option<Vec<ActionRecord>>,
    config: &Config,
) -> (r: Result<Vec<DelegateCall>, Error>)
    requires
        group_count(tx.inputs@, *script) + group_count(tx.outputs@, *script) >= 1,
    ensures
        match r {
            Ok(calls) => spec_validate(*tx, *script, script_hash@, msg_model(*message), *config)
                == Ok::<Seq<DelegateModel>, Error>(calls@.map_values(|c: DelegateCall| c.model())),
            Err(e) => spec_validate(*tx, *script, script_hash@, msg_model(*message), *config)
                == Err::<Seq<DelegateModel>, Error>(e),
        },
{
    let n_in = count_group(&tx.inputs, script);
    let n_out = count_group(&tx.outputs, script);
    if n_in > 1 {
        return Err(Error::MultipleSpend);
    }
    if n_out > 1 {
        return Err(Error::ConflictCreation);
    }
    let records = match message {
        Some(m) => m,
        None => {
            return Err(Error::InvliadCoBuildWitnessLayout);
        },
    };
    let ri = match find_action(records, script_hash) {
        Some(i) => i,
        None => {
            return Err(Error::InvliadCoBuildMessage);
        },
    };
    proof {
        assert(records@.map_values(|x: ActionRecord| x.model())[ri as int]
            == records@[ri as int].model());
    }
    let action = &records[ri].action;
    if n_in == 0 && n_out == 1 {
        let oi = match find_group_cell(&tx.outputs, script) {
            Some(i) => i,
            None => {
                return Err(Error::IndexOutOfBound);
            },
        };
        process_creation(tx, script, config, oi, action)
    } else if n_in == 1 && n_out == 0 {
        process_destruction(tx, script, action)
    } else if n_in == 1 && n_out == 1 {
        process_transfer(tx, script, action)
    } else {
        proof {
            assert(false);
        }
        Err(Error::IndexOutOfBound)
    }
}

} // verus!
