//! The content-type descriptor and its parser.
//!
//! A content type is a byte string `main/sub` optionally followed by
//! `;key=value` parameters; spaces around keys and values are ignored and
//! the first occurrence of a key wins. Three parameters carry protocol
//! meaning: `immortal=true` forbids destruction, `mutant[]` lists the
//! applied extensions as comma-separated 64-digit hex ids, and `boundary`
//! names the multipart frame marker.

use vstd::prelude::*;

use crate::bytes::copy_range;
use crate::errors::Error;

verus! {

/// The first position of `b` in `s[lo..hi)`, if any.
pub open spec fn find_byte_in(s: Seq<u8>, lo: int, hi: int, b: u8) -> Option<int>
    decreases hi - lo,
{
    if lo >= hi {
        None
    } else if s[lo] == b {
        Some(lo)
    } else {
        find_byte_in(s, lo + 1, hi, b)
    }
}

/// What a byte scan means: a `Some` is the first hit, a `None` says the
/// byte does not occur in the range.
pub proof fn lemma_find_byte_props(s: Seq<u8>, lo: int, hi: int, b: u8)
    requires
        lo <= hi,
    ensures
        match find_byte_in(s, lo, hi, b) {
            Some(i) => lo <= i < hi && s[i] == b && forall|j: int| lo <= j < i ==> s[j] != b,
            None => forall|j: int| lo <= j < hi ==> s[j] != b,
        },
    decreases hi - lo,
{
    if lo < hi && s[lo] != b {
        lemma_find_byte_props(s, lo + 1, hi, b);
    }
}

/// Finds the first `b` in `s[lo..hi)`.
pub fn find_byte(s: &Vec<u8>, lo: usize, hi: usize, b: u8) -> (r: Option<usize>)
    requires
        lo <= hi <= s@.len(),
    ensures
        match r {
            Some(i) => lo <= i < hi && find_byte_in(s@, lo as int, hi as int, b) == Some(i as int),
            None => find_byte_in(s@, lo as int, hi as int, b) is None,
        },
{
    let mut i: usize = lo;
    while i < hi
        invariant
            lo <= i <= hi <= s@.len(),
            find_byte_in(s@, lo as int, hi as int, b) == find_byte_in(s@, i as int, hi as int, b),
        decreases hi - i,
    {
        if s[i] == b {
            return Some(i);
        }
        i += 1;
    }
    None
}

/// The first position in `[lo, hi]` past any leading spaces of `s[lo..hi)`.
pub open spec fn skip_spaces(s: Seq<u8>, lo: int, hi: int) -> int
    decreases hi - lo,
{
    if lo >= hi {
        lo
    } else if s[lo] == 32 {
        skip_spaces(s, lo + 1, hi)
    } else {
        lo
    }
}

/// The position in `[lo, hi]` before any trailing spaces of `s[lo..hi)`.
pub open spec fn rskip_spaces(s: Seq<u8>, lo: int, hi: int) -> int
    decreases hi - lo,
{
    if hi <= lo {
        hi
    } else if s[hi - 1] == 32 {
        rskip_spaces(s, lo, hi - 1)
    } else {
        hi
    }
}

/// Skips leading spaces.
fn skip_spaces_exec(s: &Vec<u8>, lo: usize, hi: usize) -> (r: usize)
    requires
        lo <= hi <= s@.len(),
    ensures
        r == skip_spaces(s@, lo as int, hi as int),
        lo <= r <= hi,
{
    let mut i: usize = lo;
    while i < hi
        invariant
            lo <= i <= hi <= s@.len(),
            skip_spaces(s@, lo as int, hi as int) == skip_spaces(s@, i as int, hi as int),
        decreases hi - i,
    {
        if s[i] != 32 {
            return i;
        }
        i += 1;
    }
    i
}

/// Skips trailing spaces.
fn rskip_spaces_exec(s: &Vec<u8>, lo: usize, hi: usize) -> (r: usize)
    requires
        lo <= hi <= s@.len(),
    ensures
        r == rskip_spaces(s@, lo as int, hi as int),
        lo <= r <= hi,
{
    let mut i: usize = hi;
    while i > lo
        invariant
            lo <= i <= hi <= s@.len(),
            rskip_spaces(s@, lo as int, hi as int) == rskip_spaces(s@, lo as int, i as int),
        decreases i,
    {
        if s[i - 1] != 32 {
            return i;
        }
        i -= 1;
    }
    i
}

/// One `key=value` parameter in `s[lo..hi)`: the first `=` splits it, spaces
/// around key and value are dropped, and an empty key is malformed.
pub open spec fn parse_param(s: Seq<u8>, lo: int, hi: int) -> Option<(Seq<u8>, Seq<u8>)> {
    match find_byte_in(s, lo, hi, 61) {
        None => None,
        Some(e) => {
            let ka = skip_spaces(s, lo, e);
            let kb = rskip_spaces(s, ka, e);
            let va = skip_spaces(s, e + 1, hi);
            let vb = rskip_spaces(s, va, hi);
            if kb <= ka {
                None
            } else {
                Some((s.subrange(ka, kb), s.subrange(va, vb)))
            }
        },
    }
}

/// Parses one parameter of `s[lo..hi)`.
fn parse_param_exec(s: &Vec<u8>, lo: usize, hi: usize) -> (r: Option<(Vec<u8>, Vec<u8>)>)
    requires
        lo <= hi <= s@.len(),
    ensures
        match r {
            Some(p) => parse_param(s@, lo as int, hi as int) == Some((p.0@, p.1@)),
            None => parse_param(s@, lo as int, hi as int) is None,
        },
{
    match find_byte(s, lo, hi, 61) {
        None => None,
        Some(e) => {
            let ka = skip_spaces_exec(s, lo, e);
            let kb = rskip_spaces_exec(s, ka, e);
            let va = skip_spaces_exec(s, e + 1, hi);
            let vb = rskip_spaces_exec(s, va, hi);
            if kb <= ka {
                None
            } else {
                Some((copy_range(s, ka, kb), copy_range(s, va, vb)))
            }
        },
    }
}

/// The parameter list of `s[lo..)`: semicolon-separated `key=value` pairs,
/// every one of which must parse.
pub open spec fn parse_params(s: Seq<u8>, lo: int) -> Option<Seq<(Seq<u8>, Seq<u8>)>>
    decreases s.len() - lo,
    via parse_params_decreases
{
    if lo >= s.len() {
        Some(Seq::empty())
    } else {
        match find_byte_in(s, lo, s.len() as int, 59) {
            None => match parse_param(s, lo, s.len() as int) {
                None => None,
                Some(p) => Some(seq![p]),
            },
            Some(i) => match parse_param(s, lo, i) {
                None => None,
                Some(p) => match parse_params(s, i + 1) {
                    None => None,
                    Some(rest) => Some(seq![p] + rest),
                },
            },
        }
    }
}

#[via_fn]
proof fn parse_params_decreases(s: Seq<u8>, lo: int) {
    if lo < s.len() {
        lemma_find_byte_props(s, lo, s.len() as int, 59);
    }
}

/// First parameter at or after `i` whose key is `key`.
pub open spec fn find_param_from(ps: Seq<(Seq<u8>, Seq<u8>)>, key: Seq<u8>, i: int) -> Option<int>
    decreases ps.len() - i,
{
    if i < 0 || i >= ps.len() {
        None
    } else if ps[i].0 == key {
        Some(i)
    } else {
        find_param_from(ps, key, i + 1)
    }
}

/// A parameter search that found nothing before `i` can start at `i`.
pub proof fn lemma_find_param_skip(ps: Seq<(Seq<u8>, Seq<u8>)>, key: Seq<u8>, i: int)
    requires
        0 <= i <= ps.len(),
        forall|j: int| 0 <= j < i ==> (#[trigger] ps[j]).0 != key,
    ensures
        find_param_from(ps, key, 0) == find_param_from(ps, key, i),
    decreases i,
{
    if i > 0 {
        lemma_find_param_skip(ps, key, i - 1);
    }
}

/// The value of the first parameter named `key`, if any.
pub open spec fn param_value(ps: Seq<(Seq<u8>, Seq<u8>)>, key: Seq<u8>) -> Option<Seq<u8>> {
    match find_param_from(ps, key, 0) {
        Some(i) => Some(ps[i].1),
        None => None,
    }
}

/// The keyword `multipart`.
pub open spec fn kw_multipart() -> Seq<u8> {
    seq![109u8, 117u8, 108u8, 116u8, 105u8, 112u8, 97u8, 114u8, 116u8]
}

/// The keyword `boundary`.
pub open spec fn kw_boundary() -> Seq<u8> {
    seq![98u8, 111u8, 117u8, 110u8, 100u8, 97u8, 114u8, 121u8]
}

/// The keyword `immortal`.
pub open spec fn kw_immortal() -> Seq<u8> {
    seq![105u8, 109u8, 109u8, 111u8, 114u8, 116u8, 97u8, 108u8]
}

/// The keyword `true`.
pub open spec fn kw_true() -> Seq<u8> {
    seq![116u8, 114u8, 117u8, 101u8]
}

/// The keyword `mutant[]`.
pub open spec fn kw_mutant() -> Seq<u8> {
    seq![109u8, 117u8, 116u8, 97u8, 110u8, 116u8, 91u8, 93u8]
}

/// Builds the keyword `multipart`.
pub fn kw_multipart_vec() -> (r: Vec<u8>)
    ensures
        r@ == kw_multipart(),
{
    let mut v: Vec<u8> = Vec::new();
    v.push(109u8);
    v.push(117u8);
    v.push(108u8);
    v.push(116u8);
    v.push(105u8);
    v.push(112u8);
    v.push(97u8);
    v.push(114u8);
    v.push(116u8);
    proof {
        assert(v@ =~= kw_multipart());
    }
    v
}

/// Builds the keyword `boundary`.
pub fn kw_boundary_vec() -> (r: Vec<u8>)
    ensures
        r@ == kw_boundary(),
{
    let mut v: Vec<u8> = Vec::new();
    v.push(98u8);
    v.push(111u8);
    v.push(117u8);
    v.push(110u8);
    v.push(100u8);
    v.push(97u8);
    v.push(114u8);
    v.push(121u8);
    proof {
        assert(v@ =~= kw_boundary());
    }
    v
}

/// Builds the keyword `immortal`.
fn kw_immortal_vec() -> (r: Vec<u8>)
    ensures
        r@ == kw_immortal(),
{
    let mut v: Vec<u8> = Vec::new();
    v.push(105u8);
    v.push(109u8);
    v.push(109u8);
    v.push(111u8);
    v.push(114u8);
    v.push(116u8);
    v.push(97u8);
    v.push(108u8);
    proof {
        assert(v@ =~= kw_immortal());
    }
    v
}

/// Builds the keyword `true`.
fn kw_true_vec() -> (r: Vec<u8>)
    ensures
        r@ == kw_true(),
{
    let mut v: Vec<u8> = Vec::new();
    v.push(116u8);
    v.push(114u8);
    v.push(117u8);
    v.push(101u8);
    proof {
        assert(v@ =~= kw_true());
    }
    v
}

/// Builds the keyword `mutant[]`.
fn kw_mutant_vec() -> (r: Vec<u8>)
    ensures
        r@ == kw_mutant(),
{
    let mut v: Vec<u8> = Vec::new();
    v.push(109u8);
    v.push(117u8);
    v.push(116u8);
    v.push(97u8);
    v.push(110u8);
    v.push(116u8);
    v.push(91u8);
    v.push(93u8);
    proof {
        assert(v@ =~= kw_mutant());
    }
    v
}

/// The value of a hex digit, or a negative number for any other byte.
pub open spec fn hex_val(b: u8) -> int {
    if 48 <= b <= 57 {
        b - 48
    } else if 97 <= b <= 102 {
        b - 87
    } else if 65 <= b <= 70 {
        b - 55
    } else {
        -1
    }
}

/// The 32 bytes spelled by 64 hex digits.
pub open spec fn hex_id_of(h: Seq<u8>) -> Seq<u8> {
    Seq::new(32, |i: int| (hex_val(h[2 * i]) * 16 + hex_val(h[2 * i + 1])) as u8)
}

/// A mutant id: exactly 64 hex digits, case-insensitive.
pub open spec fn parse_hex_id(h: Seq<u8>) -> Option<Seq<u8>> {
    if h.len() == 64 && (forall|i: int| 0 <= i < 64 ==> hex_val(#[trigger] h[i]) >= 0) {
        Some(hex_id_of(h))
    } else {
        None
    }
}

/// The comma-separated mutant ids in `v[lo..)`, all of which must parse.
pub open spec fn parse_id_list(v: Seq<u8>, lo: int) -> Option<Seq<Seq<u8>>>
    decreases v.len() - lo,
    via parse_id_list_decreases
{
    match find_byte_in(v, lo, v.len() as int, 44) {
        None => match parse_hex_id(v.subrange(lo, v.len() as int)) {
            None => None,
            Some(id) => Some(seq![id]),
        },
        Some(c) => match parse_hex_id(v.subrange(lo, c)) {
            None => None,
            Some(id) => match parse_id_list(v, c + 1) {
                None => None,
                Some(rest) => Some(seq![id] + rest),
            },
        },
    }
}

#[via_fn]
proof fn parse_id_list_decreases(v: Seq<u8>, lo: int) {
    if lo <= v.len() {
        lemma_find_byte_props(v, lo, v.len() as int, 44);
    } else {
        assert(find_byte_in(v, lo, v.len() as int, 44) is None);
    }
}

/// The mutant list a parameter set declares: nothing means none, an empty
/// value means none, and anything else must be a well-formed id list.
pub open spec fn mutants_of(ps: Seq<(Seq<u8>, Seq<u8>)>) -> Option<Seq<Seq<u8>>> {
    match param_value(ps, kw_mutant()) {
        None => Some(Seq::empty()),
        Some(v) => if v.len() == 0 {
            Some(Seq::empty())
        } else {
            parse_id_list(v, 0)
        },
    }
}

/// Whether the parameter set declares the asset immortal.
pub open spec fn immortal_of(ps: Seq<(Seq<u8>, Seq<u8>)>) -> bool {
    param_value(ps, kw_immortal()) == Some(kw_true())
}

/// A parsed content-type descriptor as the mathematical model sees it.
pub struct MimeModel {
    pub main_type: Seq<u8>,
    pub sub_type: Seq<u8>,
    pub params: Seq<(Seq<u8>, Seq<u8>)>,
    pub immortal: bool,
    pub mutants: Seq<Seq<u8>>,
}

/// Parses a content-type string: a non-empty main type before the first
/// slash, a non-empty subtype up to the first semicolon, then parameters.
#[verifier::opaque]
pub open spec fn mime_of(s: Seq<u8>) -> Result<MimeModel, Error> {
    let n = s.len() as int;
    match find_byte_in(s, 0, n, 47) {
        None => Err(Error::InvalidContentType),
        Some(sl) => if sl == 0 {
            Err(Error::InvalidContentType)
        } else {
            let sub_end = match find_byte_in(s, sl + 1, n, 59) {
                Some(i) => i,
                None => n,
            };
            if sub_end <= sl + 1 {
                Err(Error::InvalidContentType)
            } else {
                let pr = if sub_end == n {
                    Some(Seq::<(Seq<u8>, Seq<u8>)>::empty())
                } else {
                    parse_params(s, sub_end + 1)
                };
                match pr {
                    None => Err(Error::InvalidContentType),
                    Some(ps) => match mutants_of(ps) {
                        None => Err(Error::InvalidContentType),
                        Some(muts) => Ok(
                            MimeModel {
                                main_type: s.subrange(0, sl),
                                sub_type: s.subrange(sl + 1, sub_end),
                                params: ps,
                                immortal: immortal_of(ps),
                                mutants: muts,
                            },
                        ),
                    },
                }
            }
        },
    }
}

/// A parsed content-type descriptor.
#[derive(Debug)]
pub struct Mime {
    pub main_type: Vec<u8>,
    pub sub_type: Vec<u8>,
    pub params: Vec<(Vec<u8>, Vec<u8>)>,
    pub immortal: bool,
    pub mutants: Vec<Vec<u8>>,
}

/// Lifts a parameter pair to its mathematical value.
pub open spec fn param_model(p: (Vec<u8>, Vec<u8>)) -> (Seq<u8>, Seq<u8>) {
    (p.0@, p.1@)
}

/// Lifts a mutant id to its mathematical value.
pub open spec fn id_model(m: Vec<u8>) -> Seq<u8> {
    m@
}

impl Mime {
    /// The mathematical value this descriptor carries.
    pub open spec fn model(self) -> MimeModel {
        MimeModel {
            main_type: self.main_type@,
            sub_type: self.sub_type@,
            params: self.params@.map_values(|p: (Vec<u8>, Vec<u8>)| param_model(p)),
            immortal: self.immortal,
            mutants: self.mutants@.map_values(|m: Vec<u8>| id_model(m)),
        }
    }
}

/// The value of the first parameter named `key`, copied out.
pub fn get_param(params: &Vec<(Vec<u8>, Vec<u8>)>, key: &Vec<u8>) -> (r: Option<Vec<u8>>)
    ensures
        match r {
            Some(v) => param_value(
                params@.map_values(|p: (Vec<u8>, Vec<u8>)| param_model(p)),
                key@,
            ) == Some(v@),
            None => param_value(
                params@.map_values(|p: (Vec<u8>, Vec<u8>)| param_model(p)),
                key@,
            ) is None,
        },
{
    let ghost ps = params@.map_values(|p: (Vec<u8>, Vec<u8>)| param_model(p));
    let mut i: usize = 0;
    while i < params.len()
        invariant
            i <= params.len(),
            ps == params@.map_values(|p: (Vec<u8>, Vec<u8>)| param_model(p)),
            ps.len() == params@.len(),
            forall|j: int| 0 <= j < i ==> (#[trigger] ps[j]).0 != key@,
        decreases params.len() - i,
    {
        proof {
            assert(ps[i as int] == param_model(params@[i as int]));
        }
        if crate::bytes::bytes_eq(&params[i].0, key) {
            proof {
                lemma_find_param_skip(ps, key@, i as int);
            }
            return Some(copy_range(&params[i].1, 0, params[i].1.len()));
        }
        i += 1;
    }
    proof {
        lemma_find_param_skip(ps, key@, params@.len() as int);
    }
    None
}

/// Prefixes `pre` to a parse result.
pub open spec fn prepend_ids(pre: Seq<Seq<u8>>, r: Option<Seq<Seq<u8>>>) -> Option<Seq<Seq<u8>>> {
    match r {
        None => None,
        Some(rest) => Some(pre + rest),
    }
}

/// Prefixes `pre` to a parameter parse result.
pub open spec fn prepend_params(
    pre: Seq<(Seq<u8>, Seq<u8>)>,
    r: Option<Seq<(Seq<u8>, Seq<u8>)>>,
) -> Option<Seq<(Seq<u8>, Seq<u8>)>> {
    match r {
        None => None,
        Some(rest) => Some(pre + rest),
    }
}



/// The numeric value of one hex digit.
fn hex_val_exec(b: u8) -> (r: Option<u8>)
    ensures
        match r {
            Some(v) => hex_val(b) == v as int && v < 16,
            None => hex_val(b) < 0,
        },
{
    if 48 <= b && b <= 57 {
        Some(b - 48)
    } else if 97 <= b && b <= 102 {
        Some(b - 87)
    } else if 65 <= b && b <= 70 {
        Some(b - 55)
    } else {
        None
    }
}

/// Parses the hex id spelled by `s[lo..hi)`.
fn parse_hex_id_exec(s: &Vec<u8>, lo: usize, hi: usize) -> (r: Option<Vec<u8>>)
    requires
        lo <= hi <= s@.len(),
    ensures
        match r {
            Some(v) => parse_hex_id(s@.subrange(lo as int, hi as int)) == Some(v@),
            None => parse_hex_id(s@.subrange(lo as int, hi as int)) is None,
        },
{
    let ghost h = s@.subrange(lo as int, hi as int);
    if hi - lo != 64 {
        return None;
    }
    let mut out: Vec<u8> = Vec::new();
    let mut k: usize = 0;
    while k < 32
        invariant
            k <= 32,
            lo + 64 == hi <= s@.len(),
            h == s@.subrange(lo as int, hi as int),
            out@.len() == k,
            forall|j: int| 0 <= j < 2 * k ==> hex_val(#[trigger] h[j]) >= 0,
            forall|m: int| 0 <= m < k ==> out@[m] == hex_id_of(h)[m],
        decreases 32 - k,
    {
        proof {
            assert(h[2 * (k as int)] == s@[lo + 2 * (k as int)]);
            assert(h[2 * (k as int) + 1] == s@[lo + 2 * (k as int) + 1]);
        }
        let d1 = match hex_val_exec(s[lo + 2 * k]) {
            Some(d) => d,
            None => {
                return None;
            },
        };
        let d2 = match hex_val_exec(s[lo + 2 * k + 1]) {
            Some(d) => d,
            None => {
                return None;
            },
        };
        out.push(d1 * 16 + d2);
        k += 1;
    }
    proof {
        assert(forall|i: int| 0 <= i < 64 ==> hex_val(#[trigger] h[i]) >= 0);
        assert(out@ =~= hex_id_of(h));
    }
    Some(out)
}

/// Parses a whole comma-separated mutant id list.
fn parse_mutants_exec(v: &Vec<u8>) -> (r: Option<Vec<Vec<u8>>>)
    ensures
        match r {
            Some(ids) => parse_id_list(v@, 0) == Some(ids@.map_values(|m: Vec<u8>| id_model(m))),
            None => parse_id_list(v@, 0) is None,
        },
{
    let n = v.len();
    let mut cur: usize = 0;
    let mut acc: Vec<Vec<u8>> = Vec::new();
    loop
        invariant
            cur <= n == v@.len(),
            parse_id_list(v@, 0) == prepend_ids(
                acc@.map_values(|m: Vec<u8>| id_model(m)),
                parse_id_list(v@, cur as int),
            ),
        decreases n - cur,
    {
        match find_byte(v, cur, n, 44) {
            None => {
                match parse_hex_id_exec(v, cur, n) {
                    None => {
                        return None;
                    },
                    Some(id) => {
                        proof {
                            assert(parse_id_list(v@, cur as int) == Some(seq![id@]));
                            assert(acc@.map_values(|m: Vec<u8>| id_model(m)) + seq![id@]
                                =~= acc@.push(id).map_values(|m: Vec<u8>| id_model(m)));
                        }
                        acc.push(id);
                        return Some(acc);
                    },
                }
            },
            Some(c) => {
                match parse_hex_id_exec(v, cur, c) {
                    None => {
                        return None;
                    },
                    Some(id) => {
                        proof {
                            let tail = parse_id_list(v@, c + 1);
                            match tail {
                                Some(rest) => {
                                    assert(acc@.map_values(|m: Vec<u8>| id_model(m)) + (seq![id@]
                                        + rest) =~= acc@.push(id).map_values(
                                        |m: Vec<u8>| id_model(m),
                                    ) + rest);
                                },
                                None => {},
                            }
                        }
                        acc.push(id);
                        cur = c + 1;
                    },
                }
            },
        }
    }
}

/// Parses the parameter region `s[lo..)`.
fn parse_params_exec(s: &Vec<u8>, lo: usize) -> (r: Option<Vec<(Vec<u8>, Vec<u8>)>>)
    requires
        lo <= s@.len(),
    ensures
        match r {
            Some(ps) => parse_params(s@, lo as int) == Some(
                ps@.map_values(|p: (Vec<u8>, Vec<u8>)| param_model(p)),
            ),
            None => parse_params(s@, lo as int) is None,
        },
{
    let n = s.len();
    let mut cur: usize = lo;
    let mut acc: Vec<(Vec<u8>, Vec<u8>)> = Vec::new();
    loop
        invariant
            lo <= cur <= n == s@.len(),
            parse_params(s@, lo as int) == prepend_params(
                acc@.map_values(|p: (Vec<u8>, Vec<u8>)| param_model(p)),
                parse_params(s@, cur as int),
            ),
        decreases n - cur,
    {
        if cur >= n {
            proof {
                assert(parse_params(s@, cur as int) == Some(Seq::<(Seq<u8>, Seq<u8>)>::empty()));
                assert(acc@.map_values(|p: (Vec<u8>, Vec<u8>)| param_model(p)) + Seq::<
                    (Seq<u8>, Seq<u8>),
                >::empty() =~= acc@.map_values(|p: (Vec<u8>, Vec<u8>)| param_model(p)));
            }
            return Some(acc);
        }
        match find_byte(s, cur, n, 59) {
            None => {
                match parse_param_exec(s, cur, n) {
                    None => {
                        return None;
                    },
                    Some(p) => {
                        proof {
                            assert(acc@.map_values(|q: (Vec<u8>, Vec<u8>)| param_model(q)) + seq![
                                (p.0@, p.1@),
                            ] =~= acc@.push(p).map_values(|q: (Vec<u8>, Vec<u8>)| param_model(q)));
                        }
                        acc.push(p);
                        return Some(acc);
                    },
                }
            },
            Some(i) => {
                match parse_param_exec(s, cur, i) {
                    None => {
                        return None;
                    },
                    Some(p) => {
                        proof {
                            let tail = parse_params(s@, i + 1);
                            match tail {
                                Some(rest) => {
                                    assert(acc@.map_values(|q: (Vec<u8>, Vec<u8>)| param_model(q))
                                        + (seq![(p.0@, p.1@)] + rest) =~= acc@.push(p).map_values(
                                        |q: (Vec<u8>, Vec<u8>)| param_model(q),
                                    ) + rest);
                                },
                                None => {},
                            }
                        }
                        acc.push(p);
                        cur = i + 1;
                    },
                }
            },
        }
    }
}

/// Parses a content-type string into its descriptor, or says exactly why it
/// is malformed.
pub fn parse_mime(s: &Vec<u8>) -> (r: Result<Mime, Error>)
    ensures
        match r {
            Ok(m) => mime_of(s@) == Ok::<MimeModel, Error>(m.model()),
            Err(e) => mime_of(s@) == Err::<MimeModel, Error>(e),
        },
{
    proof {
        reveal(mime_of);
    }
    let n = s.len();
    let sl = match find_byte(s, 0, n, 47) {
        Some(i) => i,
        None => {
            return Err(Error::InvalidContentType);
        },
    };
    if sl == 0 {
        return Err(Error::InvalidContentType);
    }
    let sub_end = match find_byte(s, sl + 1, n, 59) {
        Some(i) => i,
        None => n,
    };
    if sub_end <= sl + 1 {
        return Err(Error::InvalidContentType);
    }
    let params: Vec<(Vec<u8>, Vec<u8>)> = if sub_end == n {
        let empty: Vec<(Vec<u8>, Vec<u8>)> = Vec::new();
        proof {
            assert(empty@.map_values(|p: (Vec<u8>, Vec<u8>)| param_model(p)) =~= Seq::<
                (Seq<u8>, Seq<u8>),
            >::empty());
        }
        empty
    } else {
        match parse_params_exec(s, sub_end + 1) {
            None => {
                return Err(Error::InvalidContentType);
            },
            Some(ps) => ps,
        }
    };
    let mutants: Vec<Vec<u8>> = match get_param(&params, &kw_mutant_vec()) {
        None => {
            let empty: Vec<Vec<u8>> = Vec::new();
            proof {
                assert(empty@.map_values(|m: Vec<u8>| id_model(m)) =~= Seq::<Seq<u8>>::empty());
            }
            empty
        },
        Some(v) => {
            if v.len() == 0 {
                let empty: Vec<Vec<u8>> = Vec::new();
                proof {
                    assert(empty@.map_values(|m: Vec<u8>| id_model(m)) =~= Seq::<Seq<u8>>::empty());
                }
                empty
            } else {
                match parse_mutants_exec(&v) {
                    None => {
                        return Err(Error::InvalidContentType);
                    },
                    Some(ids) => ids,
                }
            }
        },
    };
    let immortal = match get_param(&params, &kw_immortal_vec()) {
        Some(v) => crate::bytes::bytes_eq(&v, &kw_true_vec()),
        None => false,
    };
    let main_type = copy_range(s, 0, sl);
    let sub_type = copy_range(s, sl + 1, sub_end);
    Ok(Mime { main_type, sub_type, params, immortal, mutants })
}

} // verus!
