//! The transaction model: cells, scripts and the first-match scans over them.
//!
//! A transaction is an immutable snapshot of input cells, output cells and
//! read-only dependency cells. Every positional lookup is a linear scan in
//! index order whose first match wins; that tie-break is part of the
//! protocol and the spec functions here define it.

use vstd::prelude::*;

use crate::bytes::bytes_eq;

verus! {

/// A type script reference: code identity, hash-type discriminant and args.
#[derive(Debug)]
pub struct Script {
    pub code_hash: Vec<u8>,
    pub hash_type: u8,
    pub args: Vec<u8>,
}

/// One cell of the transaction snapshot.
#[derive(Debug)]
pub struct Cell {
    /// Capacity in the smallest ledger unit.
    pub capacity: u64,
    /// Hash of the cell's lock script.
    pub lock_hash: Vec<u8>,
    /// The cell's type script, if it has one.
    pub type_script: Option<Script>,
    /// The cell's opaque data bytes.
    pub data: Vec<u8>,
}

/// The transaction as the executing script sees it.
pub struct Transaction {
    pub inputs: Vec<Cell>,
    pub outputs: Vec<Cell>,
    pub cell_deps: Vec<Cell>,
    /// Serialized outpoint of the first consumed input; the identity of a
    /// newly created asset is derived from it.
    pub first_input_outpoint: Vec<u8>,
}

/// The fixed allowlists of trusted cluster and cluster-agent code hashes,
/// injected by the host rather than read from hidden global state.
pub struct Config {
    pub cluster_code_hashes: Vec<Vec<u8>>,
    pub cluster_agent_code_hashes: Vec<Vec<u8>>,
}

/// Two script references denote the same script.
pub open spec fn script_eq_spec(a: Script, b: Script) -> bool {
    a.code_hash@ == b.code_hash@ && a.hash_type == b.hash_type && a.args@ == b.args@
}

/// The cell belongs to the group of `s`: it carries exactly that type script.
pub open spec fn is_group_cell(c: Cell, s: Script) -> bool {
    match c.type_script {
        Some(t) => script_eq_spec(t, s),
        None => false,
    }
}

/// `h` occurs in the allowlist.
pub open spec fn in_allowlist(list: Seq<Vec<u8>>, h: Seq<u8>) -> bool {
    exists|i: int| 0 <= i < list.len() && list[i]@ == h
}

/// The cell's type script has args equal to `args` and a code hash in `allow`.
pub open spec fn is_args_cell(c: Cell, args: Seq<u8>, allow: Seq<Vec<u8>>) -> bool {
    match c.type_script {
        Some(t) => t.args@ == args && in_allowlist(allow, t.code_hash@),
        None => false,
    }
}

/// The cell's type script args start with the 32-byte id `mutant`.
pub open spec fn is_ext_cell(c: Cell, mutant: Seq<u8>) -> bool {
    match c.type_script {
        Some(t) => t.args@.len() >= 32 && t.args@.subrange(0, 32) == mutant,
        None => false,
    }
}

/// Index of the first cell at or after `i` satisfying `p`, if any.
pub open spec fn find_cell_from(s: Seq<Cell>, i: int, p: spec_fn(Cell) -> bool) -> Option<int>
    decreases s.len() - i,
{
    if i < 0 || i >= s.len() {
        None
    } else if p(s[i]) {
        Some(i)
    } else {
        find_cell_from(s, i + 1, p)
    }
}

/// A scan that found nothing before `i` can as well start at `i`.
pub proof fn lemma_find_cell_skip(s: Seq<Cell>, i: int, p: spec_fn(Cell) -> bool)
    requires
        0 <= i <= s.len(),
        forall|j: int| 0 <= j < i ==> !p(#[trigger] s[j]),
    ensures
        find_cell_from(s, 0, p) == find_cell_from(s, i, p),
    decreases i,
{
    if i > 0 {
        lemma_find_cell_skip(s, i - 1, p);
    }
}


/// The predicate "belongs to the group of `s`".
pub open spec fn group_pred(s: Script) -> spec_fn(Cell) -> bool {
    |c: Cell| is_group_cell(c, s)
}

/// The predicate "has type args `args` under allowlist `allow`".
pub open spec fn args_pred(args: Seq<u8>, allow: Seq<Vec<u8>>) -> spec_fn(Cell) -> bool {
    |c: Cell| is_args_cell(c, args, allow)
}

/// The predicate "has lock hash `lock`".
pub open spec fn lock_pred(lock: Seq<u8>) -> spec_fn(Cell) -> bool {
    |c: Cell| c.lock_hash@ == lock
}

/// The predicate "carries the extension `mutant`".
pub open spec fn ext_pred(mutant: Seq<u8>) -> spec_fn(Cell) -> bool {
    |c: Cell| is_ext_cell(c, mutant)
}

/// First cell of the group of `s`.
pub open spec fn find_group(cells: Seq<Cell>, s: Script) -> Option<int> {
    find_cell_from(cells, 0, group_pred(s))
}

/// First cell whose type args equal `args` under the allowlist `allow`.
pub open spec fn find_by_type_args(cells: Seq<Cell>, args: Seq<u8>, allow: Seq<Vec<u8>>) -> Option<
    int,
> {
    find_cell_from(cells, 0, args_pred(args, allow))
}

/// First cell whose lock hash equals `lock`.
pub open spec fn find_by_lock(cells: Seq<Cell>, lock: Seq<u8>) -> Option<int> {
    find_cell_from(cells, 0, lock_pred(lock))
}

/// First dependency carrying the extension identified by `mutant`.
pub open spec fn find_ext_dep(cells: Seq<Cell>, mutant: Seq<u8>) -> Option<int> {
    find_cell_from(cells, 0, ext_pred(mutant))
}

/// How many of the first `n` cells belong to the group of `s`.
pub open spec fn group_count_to(cells: Seq<Cell>, s: Script, n: int) -> int
    decreases n,
{
    if n <= 0 {
        0
    } else {
        group_count_to(cells, s, n - 1) + if is_group_cell(cells[n - 1], s) {
            1int
        } else {
            0int
        }
    }
}

/// How many cells belong to the group of `s`.
pub open spec fn group_count(cells: Seq<Cell>, s: Script) -> int {
    group_count_to(cells, s, cells.len() as int)
}

/// Capacity, summed over the first `n` cells whose lock hash is `lock`.
pub open spec fn sum_capacity_to(cells: Seq<Cell>, lock: Seq<u8>, n: int) -> int
    decreases n,
{
    if n <= 0 {
        0
    } else {
        sum_capacity_to(cells, lock, n - 1) + if cells[n - 1].lock_hash@ == lock {
            cells[n - 1].capacity as int
        } else {
            0int
        }
    }
}

/// Capacity, summed over all cells whose lock hash is `lock`.
pub open spec fn sum_capacity(cells: Seq<Cell>, lock: Seq<u8>) -> int {
    sum_capacity_to(cells, lock, cells.len() as int)
}

/// The partial sums never shrink and stay under `n` times the largest cell.
pub proof fn lemma_sum_capacity_bound(cells: Seq<Cell>, lock: Seq<u8>, n: int)
    requires
        0 <= n <= cells.len(),
    ensures
        0 <= sum_capacity_to(cells, lock, n) <= n * 0xffff_ffff_ffff_ffff,
    decreases n,
{
    if n > 0 {
        lemma_sum_capacity_bound(cells, lock, n - 1);
        assert((n - 1) * 0xffff_ffff_ffff_ffff + 0xffff_ffff_ffff_ffff == n * 0xffff_ffff_ffff_ffff)
            by (nonlinear_arith);
    }
}

/// Decides `script_eq_spec`.
pub fn script_eq(a: &Script, b: &Script) -> (r: bool)
    ensures
        r == script_eq_spec(*a, *b),
{
    bytes_eq(&a.code_hash, &b.code_hash) && a.hash_type == b.hash_type && bytes_eq(&a.args, &b.args)
}

/// Decides `is_group_cell`.
pub fn cell_in_group(c: &Cell, s: &Script) -> (r: bool)
    ensures
        r == is_group_cell(*c, *s),
{
    match &c.type_script {
        Some(t) => script_eq(t, s),
        None => false,
    }
}

/// Decides `in_allowlist`.
pub fn allowlist_contains(list: &Vec<Vec<u8>>, h: &Vec<u8>) -> (r: bool)
    ensures
        r == in_allowlist(list@, h@),
{
    let mut i: usize = 0;
    while i < list.len()
        invariant
            i <= list.len(),
            forall|j: int| 0 <= j < i ==> #[trigger] list@[j]@ != h@,
        decreases list.len() - i,
    {
        if bytes_eq(&list[i], h) {
            return true;
        }
        i += 1;
    }
    false
}

/// Decides `is_args_cell`.
pub fn cell_has_type_args(c: &Cell, args: &Vec<u8>, allow: &Vec<Vec<u8>>) -> (r: bool)
    ensures
        r == is_args_cell(*c, args@, allow@),
{
    match &c.type_script {
        Some(t) => bytes_eq(&t.args, args) && allowlist_contains(allow, &t.code_hash),
        None => false,
    }
}

/// First-match scan for the group of `s`.
pub fn find_group_cell(cells: &Vec<Cell>, s: &Script) -> (r: Option<usize>)
    ensures
        match r {
            Some(i) => i < cells@.len() && find_group(cells@, *s) == Some(i as int),
            None => find_group(cells@, *s) is None,
        },
{
    let ghost p = group_pred(*s);
    let mut i: usize = 0;
    while i < cells.len()
        invariant
            p == group_pred(*s),
            i <= cells.len(),
            forall|j: int| 0 <= j < i ==> !p(#[trigger] cells@[j]),
        decreases cells.len() - i,
    {
        if cell_in_group(&cells[i], s) {
            proof {
                lemma_find_cell_skip(cells@, i as int, p);
            }
            return Some(i);
        }
        i += 1;
    }
    proof {
        lemma_find_cell_skip(cells@, cells@.len() as int, p);
    }
    None
}

/// First-match scan by type args under an allowlist.
pub fn find_cell_by_type_args(cells: &Vec<Cell>, args: &Vec<u8>, allow: &Vec<Vec<u8>>) -> (r:
    Option<usize>)
    ensures
        match r {
            Some(i) => i < cells@.len() && find_by_type_args(cells@, args@, allow@) == Some(i as int),
            None => find_by_type_args(cells@, args@, allow@) is None,
        },
{
    let ghost p = args_pred(args@, allow@);
    let mut i: usize = 0;
    while i < cells.len()
        invariant
            p == args_pred(args@, allow@),
            i <= cells.len(),
            forall|j: int| 0 <= j < i ==> !p(#[trigger] cells@[j]),
        decreases cells.len() - i,
    {
        if cell_has_type_args(&cells[i], args, allow) {
            proof {
                lemma_find_cell_skip(cells@, i as int, p);
            }
            return Some(i);
        }
        i += 1;
    }
    proof {
        lemma_find_cell_skip(cells@, cells@.len() as int, p);
    }
    None
}

/// First-match scan by lock hash.
pub fn find_cell_by_lock(cells: &Vec<Cell>, lock: &Vec<u8>) -> (r: Option<usize>)
    ensures
        match r {
            Some(i) => i < cells@.len() && find_by_lock(cells@, lock@) == Some(i as int),
            None => find_by_lock(cells@, lock@) is None,
        },
{
    let ghost p = lock_pred(lock@);
    let mut i: usize = 0;
    while i < cells.len()
        invariant
            p == lock_pred(lock@),
            i <= cells.len(),
            forall|j: int| 0 <= j < i ==> !p(#[trigger] cells@[j]),
        decreases cells.len() - i,
    {
        if bytes_eq(&cells[i].lock_hash, lock) {
            proof {
                lemma_find_cell_skip(cells@, i as int, p);
            }
            return Some(i);
        }
        i += 1;
    }
    proof {
        lemma_find_cell_skip(cells@, cells@.len() as int, p);
    }
    None
}

/// First-match scan for an extension dependency.
pub fn find_ext_dep_cell(cells: &Vec<Cell>, mutant: &Vec<u8>) -> (r: Option<usize>)
    ensures
        match r {
            Some(i) => i < cells@.len() && find_ext_dep(cells@, mutant@) == Some(i as int),
            None => find_ext_dep(cells@, mutant@) is None,
        },
{
    let ghost p = ext_pred(mutant@);
    let mut i: usize = 0;
    while i < cells.len()
        invariant
            p == ext_pred(mutant@),
            i <= cells.len(),
            forall|j: int| 0 <= j < i ==> !p(#[trigger] cells@[j]),
        decreases cells.len() - i,
    {
        if cell_is_ext(&cells[i], mutant) {
            proof {
                lemma_find_cell_skip(cells@, i as int, p);
            }
            return Some(i);
        }
        i += 1;
    }
    proof {
        lemma_find_cell_skip(cells@, cells@.len() as int, p);
    }
    None
}

/// Counts the cells of the group of `s`.
pub fn count_group(cells: &Vec<Cell>, s: &Script) -> (r: usize)
    ensures
        r == group_count(cells@, *s),
{
    let mut n: usize = 0;
    let mut i: usize = 0;
    while i < cells.len()
        invariant
            i <= cells.len(),
            n <= i,
            n == group_count_to(cells@, *s, i as int),
        decreases cells.len() - i,
    {
        if cell_in_group(&cells[i], s) {
            n += 1;
        }
        i += 1;
    }
    n
}

/// Sums the capacity of the cells whose lock hash is `lock`.
pub fn capacity_sum(cells: &Vec<Cell>, lock: &Vec<u8>) -> (r: u128)
    ensures
        r == sum_capacity(cells@, lock@),
{
    let mut acc: u128 = 0;
    let mut i: usize = 0;
    while i < cells.len()
        invariant
            i <= cells.len(),
            acc == sum_capacity_to(cells@, lock@, i as int),
        decreases cells.len() - i,
    {
        proof {
            lemma_sum_capacity_bound(cells@, lock@, i as int);
            assert(i * 0xffff_ffff_ffff_ffff + 0xffff_ffff_ffff_ffff <= (
            0xffff_ffff_ffff_ffffu128 as int) * 0xffff_ffff_ffff_ffff + 0xffff_ffff_ffff_ffff)
                by (nonlinear_arith)
                requires
                    i <= 0xffff_ffff_ffff_ffffu128 as int,
            ;
        }
        if bytes_eq(&cells[i].lock_hash, lock) {
            acc = acc + cells[i].capacity as u128;
        }
        i += 1;
    }
    acc
}

/// Decides `is_ext_cell`.
pub fn cell_is_ext(c: &Cell, mutant: &Vec<u8>) -> (r: bool)
    ensures
        r == is_ext_cell(*c, mutant@),
{
    match &c.type_script {
        Some(t) => {
            if t.args.len() < 32 || mutant.len() != 32 {
                proof {
                    if t.args@.len() >= 32 {
                        assert(t.args@.subrange(0, 32).len() == 32);
                    }
                }
                return false;
            }
            let mut i: usize = 0;
            while i < 32
                invariant
                    i <= 32,
                    c.type_script matches Some(ts) && ts.args@ == t.args@,
                    t.args@.len() >= 32,
                    mutant@.len() == 32,
                    forall|j: int| 0 <= j < i ==> t.args@[j] == mutant@[j],
                decreases 32 - i,
            {
                if t.args[i] != mutant[i] {
                    proof {
                        assert(t.args@.subrange(0, 32)[i as int] == t.args@[i as int]);
                    }
                    return false;
                }
                i += 1;
            }
            proof {
                assert(t.args@.subrange(0, 32) =~= mutant@);
            }
            true
        },
        None => false,
    }
}

} // verus!
