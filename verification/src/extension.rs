//! The extension chain: every mutant an asset declares must have its
//! extension cell among the dependencies, must satisfy the payment gate on
//! creation, and yields one delegated call for the host to perform.

use vstd::prelude::*;

use crate::actions::DelegateCall;
use crate::actions::DelegateModel;
use crate::errors::Error;
use crate::hashing::blake2b_of;
use crate::mime::id_model;
use crate::hashing::data_hash;
use crate::model::find_ext_dep;
use crate::model::find_ext_dep_cell;
use crate::model::Transaction;
use crate::payment::check_payment;
use crate::payment::spec_payment_ok;

verus! {

/// The positional argument vector of a delegated call: the operation digit,
/// the dependency position digit, then one digit per extra argument.
pub open spec fn digit_args(op: int, pos: int, argv: Seq<int>) -> Seq<Seq<u8>> {
    seq![seq![(48 + op) as u8], seq![(48 + pos) as u8]] + argv.map_values(
        |x: int| seq![(48 + x) as u8],
    )
}

/// Every encoded position fits in one decimal digit. The encoding cannot
/// carry anything larger, so larger positions are rejected outright instead
/// of being wrapped silently.
pub open spec fn argv_digits_ok(pos: int, argv: Seq<int>) -> bool {
    0 <= pos <= 9 && forall|i: int| 0 <= i < argv.len() ==> 0 <= #[trigger] argv[i] <= 9
}

/// Validates the extension chain of `mutants`, in declaration order: each
/// mutant's cell must be among the dependencies (first 32 args bytes equal
/// to the id, first match wins), the payment gate must hold on the creation
/// path (`op` zero), and the delegated calls are returned in order, each
/// carrying the digest of its extension cell's data as the code identity.
pub open spec fn spec_verify_extension(
    tx: Transaction,
    mutants: Seq<Seq<u8>>,
    op: int,
    argv: Seq<int>,
) -> Result<Seq<DelegateModel>, Error>
    decreases mutants.len(),
{
    if mutants.len() == 0 {
        Ok(Seq::empty())
    } else {
        match find_ext_dep(tx.cell_deps@, mutants[0]) {
            None => Err(Error::ExtensionCellNotInDep),
            Some(pos) => {
                if op == 0 && !spec_payment_ok(tx, pos) {
                    Err(Error::ExtensionPaymentNotEnough)
                } else if !argv_digits_ok(pos, argv) {
                    Err(Error::IndexOutOfBound)
                } else {
                    let call = DelegateModel {
                        code_hash: blake2b_of(tx.cell_deps@[pos].data@),
                        args: digit_args(op, pos, argv),
                    };
                    match spec_verify_extension(tx, mutants.skip(1), op, argv) {
                        Err(e) => Err(e),
                        Ok(rest) => Ok(seq![call] + rest),
                    }
                }
            },
        }
    }
}

/// Prefixes `pre` to an extension chain result.
pub open spec fn prepend_calls(
    pre: Seq<DelegateModel>,
    r: Result<Seq<DelegateModel>, Error>,
) -> Result<Seq<DelegateModel>, Error> {
    match r {
        Err(e) => Err(e),
        Ok(rest) => Ok(pre + rest),
    }
}

/// Decides `argv_digits_ok`.
fn argv_ok(pos: usize, argv: &Vec<usize>) -> (r: bool)
    ensures
        r == argv_digits_ok(pos as int, argv@.map_values(|x: usize| x as int)),
{
    let ghost am = argv@.map_values(|x: usize| x as int);
    if pos > 9 {
        return false;
    }
    let mut i: usize = 0;
    while i < argv.len()
        invariant
            i <= argv.len(),
            am == argv@.map_values(|x: usize| x as int),
            am.len() == argv@.len(),
            pos <= 9,
            forall|j: int| 0 <= j < i ==> 0 <= #[trigger] am[j] <= 9,
        decreases argv.len() - i,
    {
        proof {
            assert(am[i as int] == argv@[i as int] as int);
        }
        if argv[i] > 9 {
            return false;
        }
        i += 1;
    }
    true
}

/// Builds the digit-encoded argument vector.
fn build_args(op: u8, pos: usize, argv: &Vec<usize>) -> (r: Vec<Vec<u8>>)
    requires
        op <= 2,
        argv_digits_ok(pos as int, argv@.map_values(|x: usize| x as int)),
    ensures
        r@.map_values(|a: Vec<u8>| a@) == digit_args(
            op as int,
            pos as int,
            argv@.map_values(|x: usize| x as int),
        ),
{
    let ghost am = argv@.map_values(|x: usize| x as int);
    let mut r: Vec<Vec<u8>> = Vec::new();
    let mut a0: Vec<u8> = Vec::new();
    a0.push(48 + op);
    r.push(a0);
    let mut a1: Vec<u8> = Vec::new();
    a1.push(48 + (pos as u8));
    r.push(a1);
    let mut i: usize = 0;
    while i < argv.len()
        invariant
            i <= argv.len(),
            op <= 2,
            pos <= 9,
            am == argv@.map_values(|x: usize| x as int),
            am.len() == argv@.len(),
            forall|j: int| 0 <= j < am.len() ==> 0 <= #[trigger] am[j] <= 9,
            r@.len() == i + 2,
            r@[0]@ == seq![(48 + op as int) as u8],
            r@[1]@ == seq![(48 + pos as int) as u8],
            forall|j: int| 0 <= j < i ==> #[trigger] r@[j + 2]@ == seq![(48 + am[j]) as u8],
        decreases argv.len() - i,
    {
        proof {
            assert(am[i as int] == argv@[i as int] as int);
        }
        let mut a: Vec<u8> = Vec::new();
        a.push(48 + (argv[i] as u8));
        r.push(a);
        i += 1;
    }
    proof {
        let lifted = r@.map_values(|a: Vec<u8>| a@);
        let want = digit_args(op as int, pos as int, am);
        assert(lifted.len() == want.len());
        assert forall|j: int| 0 <= j < lifted.len() implies lifted[j] == want[j] by {
            if j >= 2 {
                assert(r@[(j - 2) + 2]@ == seq![(48 + am[j - 2]) as u8]);
            }
        }
        assert(lifted =~= want);
    }
    r
}

/// Validates the extension chain and collects the delegated calls.
pub fn verify_extension(tx: &Transaction, mutants: &Vec<Vec<u8>>, op: u8, argv: &Vec<usize>) -> (r:
    Result<Vec<DelegateCall>, Error>)
    requires
        op <= 2,
    ensures
        match r {
            Ok(calls) => spec_verify_extension(
                *tx,
                mutants@.map_values(|m: Vec<u8>| id_model(m)),
                op as int,
                argv@.map_values(|x: usize| x as int),
            ) == Ok::<Seq<DelegateModel>, Error>(calls@.map_values(|c: DelegateCall| c.model())),
            Err(e) => spec_verify_extension(
                *tx,
                mutants@.map_values(|m: Vec<u8>| id_model(m)),
                op as int,
                argv@.map_values(|x: usize| x as int),
            ) == Err::<Seq<DelegateModel>, Error>(e),
        },
{
    let ghost mm = mutants@.map_values(|m: Vec<u8>| id_model(m));
    let ghost am = argv@.map_values(|x: usize| x as int);
    let mut acc: Vec<DelegateCall> = Vec::new();
    let mut i: usize = 0;
    proof {
        assert(mm.skip(0) =~= mm);
        let e0 = acc@.map_values(|c: DelegateCall| c.model());
        match spec_verify_extension(*tx, mm, op as int, am) {
            Ok(rest) => {
                assert(e0 + rest =~= rest);
            },
            Err(_) => {},
        }
    }
    while i < mutants.len()
        invariant
            i <= mutants.len(),
            op <= 2,
            mm == mutants@.map_values(|m: Vec<u8>| id_model(m)),
            am == argv@.map_values(|x: usize| x as int),
            mm.len() == mutants@.len(),
            spec_verify_extension(*tx, mm, op as int, am) == prepend_calls(
                acc@.map_values(|c: DelegateCall| c.model()),
                spec_verify_extension(*tx, mm.skip(i as int), op as int, am),
            ),
        decreases mutants.len() - i,
    {
        proof {
            assert(mm.skip(i as int)[0] == mm[i as int]);
            assert(mm[i as int] == mutants@[i as int]@);
        }
        let pos = match find_ext_dep_cell(&tx.cell_deps, &mutants[i]) {
            None => {
                return Err(Error::ExtensionCellNotInDep);
            },
            Some(p) => p,
        };
        if op == 0 && !check_payment(tx, pos) {
            return Err(Error::ExtensionPaymentNotEnough);
        }
        if !argv_ok(pos, argv) {
            return Err(Error::IndexOutOfBound);
        }
        let code_hash = data_hash(&tx.cell_deps[pos].data);
        let args = build_args(op, pos, argv);
        let call = DelegateCall { code_hash, args };
        proof {
            let tail = spec_verify_extension(*tx, mm.skip(i as int + 1), op as int, am);
            assert(mm.skip(i as int).skip(1) =~= mm.skip(i as int + 1));
            let cm = call.model();
            match tail {
                Ok(rest) => {
                    assert(acc@.map_values(|c: DelegateCall| c.model()) + (seq![cm] + rest)
                        =~= acc@.push(call).map_values(|c: DelegateCall| c.model()) + rest);
                },
                Err(_) => {},
            }
        }
        acc.push(call);
        i += 1;
    }
    proof {
        assert(mm.skip(i as int) =~= Seq::<Seq<u8>>::empty());
        assert(acc@.map_values(|c: DelegateCall| c.model()) + Seq::<DelegateModel>::empty()
            =~= acc@.map_values(|c: DelegateCall| c.model()));
    }
    Ok(acc)
}

} // verus!
