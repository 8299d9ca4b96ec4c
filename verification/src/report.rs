//! The code-hash report: one line per contract binary, naming the binary
//! and the lowercase hex spelling of its data digest. The surrounding tool
//! reads the binaries and prints the lines; building a line is pure.

use vstd::prelude::*;

use crate::bytes::copy_range;
use crate::hashing::blake2b_of;
use crate::hashing::data_hash;

verus! {

/// One lowercase hex digit.
pub open spec fn hex_digit(v: int) -> u8 {
    if v < 10 {
        (48 + v) as u8
    } else {
        (87 + v) as u8
    }
}

/// The lowercase hex spelling of a byte string, high nibble first.
pub open spec fn hex_of(s: Seq<u8>) -> Seq<u8> {
    Seq::new(
        2 * s.len(),
        |i: int|
            if i % 2 == 0 {
                hex_digit((s[i / 2] >> 4) as int)
            } else {
                hex_digit((s[i / 2] & 0xF) as int)
            },
    )
}

/// Relies on hex::encode: two lowercase hex digits per byte, high nibble
/// first, a function of the input bytes alone.
#[verifier::external_body]
fn hex_encode(b: &Vec<u8>) -> (r: Vec<u8>)
    ensures
        r@ == hex_of(b@),
{
    hex::encode(b.as_slice()).into_bytes()
}

/// `n` spaces, or nothing when `n` is not positive.
pub open spec fn spaces(n: int) -> Seq<u8> {
    Seq::new(
        if n > 0 {
            n as nat
        } else {
            0
        },
        |i: int| 32u8,
    )
}

/// The label column: the name padded with spaces to at least 19 bytes.
pub open spec fn padded_name(name: Seq<u8>) -> Seq<u8> {
    name + spaces(19 - name.len())
}

/// The fixed lead-in of a report line.
pub open spec fn line_prefix() -> Seq<u8> {
    seq![
        45u8, 32, 99, 111, 100, 101, 95, 104, 97, 115, 104, 32, 111, 102, 32, 99, 111, 110, 116,
        97, 99, 116, 32,
    ]
}

/// The separator between the label column and the hex digest.
pub open spec fn line_mid() -> Seq<u8> {
    seq![58u8, 32, 48, 120]
}

/// The whole report line for one binary: lead-in, padded name, separator,
/// the hex digest of the binary's bytes, and a newline.
pub open spec fn line_of(name: Seq<u8>, bin: Seq<u8>) -> Seq<u8> {
    line_prefix() + padded_name(name) + line_mid() + hex_of(blake2b_of(bin)) + seq![10u8]
}

/// Builds the report line recording one contract binary's code hash.
pub fn code_hash_line(name: &Vec<u8>, binary: &Vec<u8>) -> (r: Vec<u8>)
    ensures
        r@ == line_of(name@, binary@),
{
    let mut out: Vec<u8> = Vec::new();
    out.push(45);
    out.push(32);
    out.push(99);
    out.push(111);
    out.push(100);
    out.push(101);
    out.push(95);
    out.push(104);
    out.push(97);
    out.push(115);
    out.push(104);
    out.push(32);
    out.push(111);
    out.push(102);
    out.push(32);
    out.push(99);
    out.push(111);
    out.push(110);
    out.push(116);
    out.push(97);
    out.push(99);
    out.push(116);
    out.push(32);
    proof {
        assert(out@ =~= line_prefix());
    }
    let mut nm = copy_range(name, 0, name.len());
    out.append(&mut nm);
    let pad_needed: usize = if name.len() < 19 {
        19 - name.len()
    } else {
        0
    };
    let mut i: usize = 0;
    while i < pad_needed
        invariant
            i <= pad_needed,
            out@ == line_prefix() + name@ + spaces(i as int),
        decreases pad_needed - i,
    {
        out.push(32);
        i += 1;
        proof {
            assert(out@ =~= line_prefix() + name@ + spaces(i as int));
        }
    }
    proof {
        assert(out@ =~= line_prefix() + padded_name(name@));
    }
    out.push(58);
    out.push(32);
    out.push(48);
    out.push(120);
    proof {
        assert(out@ =~= line_prefix() + padded_name(name@) + line_mid());
    }
    let h = data_hash(binary);
    let mut hx = hex_encode(&h);
    out.append(&mut hx);
    out.push(10);
    proof {
        assert(out@ =~= line_of(name@, binary@));
    }
    out
}

} // verus!
