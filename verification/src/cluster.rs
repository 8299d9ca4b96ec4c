//! The cluster membership resolver: a clustered asset must name a cluster
//! cell among the dependencies, honour its mutant demand, and prove
//! authority over the cluster by one of four tiered alternatives.

use vstd::prelude::*;

use crate::bytes::bytes_eq;
use crate::errors::Error;
use crate::mime::id_model;
use crate::model::find_by_lock;
use crate::model::find_by_type_args;
use crate::model::find_cell_by_lock;
use crate::model::find_cell_by_type_args;
use crate::model::Config;
use crate::model::Transaction;
use crate::molecule::cluster_mutant_of;
use crate::molecule::parse_cluster_mutant;

verus! {

/// A lock proxy: some cell with lock hash `lock` is both consumed and
/// recreated, so whoever controls that lock authorized the transaction.
pub open spec fn lock_proxy(tx: Transaction, lock: Seq<u8>) -> bool {
    find_by_lock(tx.outputs@, lock) is Some && find_by_lock(tx.inputs@, lock) is Some
}

/// The four ownership proofs, first match in priority order: the cluster
/// cell itself co-spent and recreated; an agent cell co-spent and
/// recreated; an agent among the dependencies anchoring a lock proxy; or a
/// lock proxy anchored to the cluster cell itself.
pub open spec fn spec_cluster_ownership(
    tx: Transaction,
    cid: Seq<u8>,
    cluster_dep: int,
    config: Config,
) -> bool {
    ||| (find_by_type_args(tx.inputs@, cid, config.cluster_code_hashes@) is Some
        && find_by_type_args(tx.outputs@, cid, config.cluster_code_hashes@) is Some)
    ||| (find_by_type_args(tx.inputs@, cid, config.cluster_agent_code_hashes@) is Some
        && find_by_type_args(tx.outputs@, cid, config.cluster_agent_code_hashes@) is Some)
    ||| (match find_by_type_args(tx.cell_deps@, cid, config.cluster_agent_code_hashes@) {
        Some(ai) => lock_proxy(tx, tx.cell_deps@[ai].lock_hash@),
        None => lock_proxy(tx, tx.cell_deps@[cluster_dep].lock_hash@),
    })
}

/// The whole cluster obligation of a creation that declares `cid`: the
/// cluster cell must be among the dependencies under the cluster allowlist,
/// its mutant demand must appear among the asset's mutants, and one
/// ownership proof must hold.
pub open spec fn spec_cluster_check(
    tx: Transaction,
    cid: Seq<u8>,
    mutants: Seq<Seq<u8>>,
    config: Config,
) -> Result<(), Error> {
    match find_by_type_args(tx.cell_deps@, cid, config.cluster_code_hashes@) {
        None => Err(Error::ClusterCellNotInDep),
        Some(dep) => {
            let missing = match cluster_mutant_of(tx.cell_deps@[dep].data@) {
                Some(mid) => !mutants.contains(mid),
                None => false,
            };
            if missing {
                Err(Error::ClusterRequiresMutantApplied)
            } else if spec_cluster_ownership(tx, cid, dep, config) {
                Ok(())
            } else {
                Err(Error::ClusterOwnershipVerifyFailed)
            }
        },
    }
}

/// Decides membership of `id` in a list of 32-byte ids.
pub fn ids_contain(ids: &Vec<Vec<u8>>, id: &Vec<u8>) -> (r: bool)
    ensures
        r == ids@.map_values(|m: Vec<u8>| id_model(m)).contains(id@),
{
    let ghost im = ids@.map_values(|m: Vec<u8>| id_model(m));
    let mut i: usize = 0;
    while i < ids.len()
        invariant
            i <= ids.len(),
            im == ids@.map_values(|m: Vec<u8>| id_model(m)),
            im.len() == ids@.len(),
            forall|j: int| 0 <= j < i ==> #[trigger] im[j] != id@,
        decreases ids.len() - i,
    {
        proof {
            assert(im[i as int] == ids@[i as int]@);
        }
        if bytes_eq(&ids[i], id) {
            return true;
        }
        i += 1;
    }
    proof {
        assert(forall|j: int| 0 <= j < im.len() ==> #[trigger] im[j] != id@);
    }
    false
}

/// Decides `lock_proxy`.
fn check_lock_proxy(tx: &Transaction, lock: &Vec<u8>) -> (r: bool)
    ensures
        r == lock_proxy(*tx, lock@),
{
    find_cell_by_lock(&tx.outputs, lock).is_some() && find_cell_by_lock(&tx.inputs, lock).is_some()
}

/// Decides the cluster obligation.
pub fn cluster_check(tx: &Transaction, cid: &Vec<u8>, mutants: &Vec<Vec<u8>>, config: &Config) -> (r:
    Result<(), Error>)
    ensures
        r == spec_cluster_check(
            *tx,
            cid@,
            mutants@.map_values(|m: Vec<u8>| id_model(m)),
            *config,
        ),
{
    let dep = match find_cell_by_type_args(&tx.cell_deps, cid, &config.cluster_code_hashes) {
        None => {
            return Err(Error::ClusterCellNotInDep);
        },
        Some(d) => d,
    };
    match parse_cluster_mutant(&tx.cell_deps[dep].data) {
        Some(mid) => {
            if !ids_contain(mutants, &mid) {
                return Err(Error::ClusterRequiresMutantApplied);
            }
        },
        None => {},
    }
    let owned = if find_cell_by_type_args(&tx.inputs, cid, &config.cluster_code_hashes).is_some()
        && find_cell_by_type_args(&tx.outputs, cid, &config.cluster_code_hashes).is_some() {
        true
    } else if find_cell_by_type_args(&tx.inputs, cid, &config.cluster_agent_code_hashes).is_some()
        && find_cell_by_type_args(&tx.outputs, cid, &config.cluster_agent_code_hashes).is_some() {
        true
    } else {
        match find_cell_by_type_args(&tx.cell_deps, cid, &config.cluster_agent_code_hashes) {
            Some(ai) => check_lock_proxy(tx, &tx.cell_deps[ai].lock_hash),
            None => check_lock_proxy(tx, &tx.cell_deps[dep].lock_hash),
        }
    };
    if owned {
        Ok(())
    } else {
        Err(Error::ClusterOwnershipVerifyFailed)
    }
}

} // verus!
