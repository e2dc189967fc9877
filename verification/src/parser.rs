//! The condition compiler: parses condition text into a compiled
//! `Condition` tree at rule-load time. The grammar, lowest
//! precedence first:
//!
//! ```text
//! cond    := and ( "||" cond )?
//! and     := unary ( "&&" and )?
//! unary   := "!" unary | primary
//! primary := "(" cond ")"
//!          | ("ANY" | "ALL") "(" path "," cond ")"   path ends in [*]
//!          | "Count" "(" ident "," ("namespace" | "cluster") ")" aggop int
//!          | path ("==" lit | "!=" lit | "exists" | "notExists")
//! path    := ident ( "." ident | "[" int "]" | "[*]" )*
//! lit     := "true" | "false" | "null" | int | '"' bytes '"'
//! aggop   := "==" | "!=" | "<=" | ">=" | "<" | ">"
//! ```
//!
//! A comparison path holding one wildcard step compiles to an ANY
//! quantifier split at the wildcard. String literals carry no escape
//! sequences. The specification-level parser below is the meaning of
//! the language; the executable parser is proved equal to it.
//! Recursion is bounded by a fuel that the text's length amply
//! covers for any condition of sane nesting depth; on exhaustion the
//! parse fails.

use vstd::prelude::*;
use crate::condition::{AggOp, CmpOp, CondS, Condition, LitS, Literal, NsScope, Quant, cview};
use crate::doc::{PathStep, StepS, path_view};

verus! {

/// Whether byte `b` stands at position `i`.
pub open spec fn at(s: Seq<u8>, i: int, b: u8) -> bool {
    0 <= i < s.len() && s[i] == b
}

pub open spec fn is_ws(b: u8) -> bool {
    b == 32 || b == 9
}

pub open spec fn is_digit(b: u8) -> bool {
    48 <= b <= 57
}

pub open spec fn is_alpha(b: u8) -> bool {
    (65 <= b <= 90) || (97 <= b <= 122) || b == 95
}

pub open spec fn is_ident(b: u8) -> bool {
    is_alpha(b) || is_digit(b)
}

/// Whether an identifier byte stands at position `i`.
pub open spec fn ident_at(s: Seq<u8>, i: int) -> bool {
    0 <= i < s.len() && is_ident(s[i])
}

/// First position at or after `i` holding no whitespace.
pub open spec fn skip_ws(s: Seq<u8>, i: int) -> int
    decreases s.len() - i,
{
    if 0 <= i < s.len() && is_ws(s[i]) {
        skip_ws(s, i + 1)
    } else {
        i
    }
}

/// First position at or after `i` past the identifier bytes.
pub open spec fn ident_end(s: Seq<u8>, i: int) -> int
    decreases s.len() - i,
{
    if ident_at(s, i) {
        ident_end(s, i + 1)
    } else {
        i
    }
}

/// The identifier starting at `i`, if one does.
pub open spec fn spec_ident(s: Seq<u8>, i: int) -> Option<(Seq<u8>, int)> {
    if 0 <= i < s.len() && is_alpha(s[i]) {
        Some((s.subrange(i, ident_end(s, i)), ident_end(s, i)))
    } else {
        None
    }
}

/// Decimal digits of `s[i..e)` folded onto `acc`; `None` once the
/// accumulator could no longer take ten times itself plus a digit
/// within a signed 64-bit value (a handful of literals within ten of
/// that maximum are likewise refused).
pub open spec fn acc_dec(s: Seq<u8>, i: int, e: int, acc: int) -> Option<int>
    decreases e - i,
{
    if i >= e {
        Some(acc)
    } else {
        let d = if 0 <= i < s.len() && is_digit(s[i]) {
            s[i] - 48
        } else {
            0
        };
        if acc <= 922_337_203_685_477_578 {
            acc_dec(s, i + 1, e, acc * 10 + d)
        } else {
            None
        }
    }
}

/// Folding nonnegative digits onto a nonnegative accumulator stays
/// nonnegative.
pub proof fn lemma_acc_dec_nonneg(s: Seq<u8>, i: int, e: int, acc: int)
    requires
        0 <= acc,
    ensures
        acc_dec(s, i, e, acc) matches Some(v) ==> v >= 0,
    decreases e - i,
{
    if i < e && acc <= 922_337_203_685_477_578 {
        let d = if 0 <= i < s.len() && is_digit(s[i]) {
            s[i] - 48
        } else {
            0
        };
        lemma_acc_dec_nonneg(s, i + 1, e, acc * 10 + d);
    }
}

/// First position at or after `i` past the decimal digits.
pub open spec fn digits_end(s: Seq<u8>, i: int) -> int
    decreases s.len() - i,
{
    if 0 <= i < s.len() && is_digit(s[i]) {
        digits_end(s, i + 1)
    } else {
        i
    }
}

pub proof fn lemma_digits_end_bounds(s: Seq<u8>, i: int)
    requires
        0 <= i <= s.len(),
    ensures
        i <= digits_end(s, i) <= s.len(),
    decreases s.len() - i,
{
    if 0 <= i < s.len() && is_digit(s[i]) {
        lemma_digits_end_bounds(s, i + 1);
    }
}

/// The signed decimal literal starting at `i`, if one does.
pub open spec fn spec_int_lit(s: Seq<u8>, i: int) -> Option<(int, int)> {
    let neg = at(s, i, 45);
    let j = if neg {
        i + 1
    } else {
        i
    };
    if 0 <= j < s.len() && is_digit(s[j]) {
        match acc_dec(s, j, digits_end(s, j), 0) {
            Some(v) => Some(
                (
                    if neg {
                        -v
                    } else {
                        v
                    },
                    digits_end(s, j),
                ),
            ),
            None => None,
        }
    } else {
        None
    }
}

/// The unsigned array index starting at `i`, if one does; `None`
/// past what an index can hold.
pub open spec fn spec_idx_lit(s: Seq<u8>, i: int) -> Option<(int, int)> {
    if 0 <= i < s.len() && is_digit(s[i]) {
        match acc_dec(s, i, digits_end(s, i), 0) {
            Some(v) => if v <= usize::MAX {
                Some((v, digits_end(s, i)))
            } else {
                None
            },
            None => None,
        }
    } else {
        None
    }
}

/// First position at or after `i` holding a double quote; the
/// length of `s` if none does.
pub open spec fn str_end(s: Seq<u8>, i: int) -> int
    decreases s.len() - i,
{
    if 0 <= i < s.len() {
        if s[i] == 34 {
            i
        } else {
            str_end(s, i + 1)
        }
    } else {
        i
    }
}

/// Whether byte `b` stands `off` places after `i`.
pub fn at_exec(s: &Vec<u8>, i: usize, off: usize, b: u8) -> (r: bool)
    ensures
        r == at(s@, i + off, b),
{
    if off < s.len() && i < s.len() - off {
        s[i + off] == b
    } else {
        false
    }
}

/// Whether an identifier byte stands `off` places after `i`.
pub fn ident_at_exec(s: &Vec<u8>, i: usize, off: usize) -> (r: bool)
    ensures
        r == ident_at(s@, i + off),
{
    if off < s.len() && i < s.len() - off {
        let b = s[i + off];
        (65 <= b && b <= 90) || (97 <= b && b <= 122) || b == 95 || (48 <= b && b <= 57)
    } else {
        false
    }
}

/// Skips whitespace.
#[verifier::loop_isolation(false)]
pub fn skip_ws_exec(s: &Vec<u8>, i: usize) -> (r: usize)
    requires
        i <= s@.len(),
    ensures
        r == skip_ws(s@, i as int),
        i <= r <= s@.len(),
{
    let mut j = i;
    while j < s.len() && (s[j] == 32 || s[j] == 9)
        invariant
            i <= j <= s@.len(),
            skip_ws(s@, i as int) == skip_ws(s@, j as int),
        decreases s@.len() - j,
    {
        j += 1;
    }
    j
}

/// Tests one byte for the identifier classes.
pub fn is_alpha_byte(b: u8) -> (r: bool)
    ensures
        r == is_alpha(b),
{
    (65 <= b && b <= 90) || (97 <= b && b <= 122) || b == 95
}

pub fn is_ident_byte(b: u8) -> (r: bool)
    ensures
        r == is_ident(b),
{
    (65 <= b && b <= 90) || (97 <= b && b <= 122) || b == 95 || (48 <= b && b <= 57)
}

/// Reads the identifier starting at `i`, if one does.
#[verifier::loop_isolation(false)]
pub fn parse_ident(s: &Vec<u8>, i: usize) -> (r: Option<(Vec<u8>, usize)>)
    requires
        i <= s@.len(),
    ensures
        match r {
            Some((w, j)) => spec_ident(s@, i as int) matches Some((ws, js)) && w@ == ws && j == js
                && i <= j <= s@.len(),
            None => spec_ident(s@, i as int) is None,
        },
{
    if !(i < s.len() && is_alpha_byte(s[i])) {
        return None;
    }
    let mut j = i;
    while j < s.len() && is_ident_byte(s[j])
        invariant
            i <= j <= s@.len(),
            ident_end(s@, i as int) == ident_end(s@, j as int),
        decreases s@.len() - j,
    {
        j += 1;
    }
    let mut w: Vec<u8> = Vec::new();
    let mut k = i;
    while k < j
        invariant
            i <= k <= j <= s@.len(),
            w@ == s@.subrange(i as int, k as int),
        decreases j - k,
    {
        w.push(s[k]);
        k += 1;
        proof {
            assert(w@ =~= s@.subrange(i as int, k as int));
        }
    }
    proof {
        assert(w@ =~= s@.subrange(i as int, ident_end(s@, i as int)));
    }
    Some((w, j))
}

/// Reads the signed decimal literal starting at `i`, if one does.
#[verifier::loop_isolation(false)]
pub fn parse_int_lit(s: &Vec<u8>, i: usize) -> (r: Option<(i64, usize)>)
    requires
        i <= s@.len(),
    ensures
        match r {
            Some((v, j)) => spec_int_lit(s@, i as int) matches Some((vs, js)) && v as int == vs
                && j == js && i <= j <= s@.len(),
            None => spec_int_lit(s@, i as int) is None,
        },
{
    let neg = at_exec(s, i, 0, 45);
    let j: usize;
    if neg {
        if i >= s.len() {
            return None;
        }
        j = i + 1;
    } else {
        j = i;
    }
    if !(j < s.len() && 48 <= s[j] && s[j] <= 57) {
        return None;
    }
    let ghost e = digits_end(s@, j as int);
    let mut acc: i64 = 0;
    let mut k = j;
    while k < s.len() && 48 <= s[k] && s[k] <= 57
        invariant
            e == digits_end(s@, j as int),
            j <= k <= s@.len(),
            0 <= acc,
            e == digits_end(s@, k as int),
            acc_dec(s@, j as int, e, 0) == acc_dec(s@, k as int, e, acc as int),
        decreases s@.len() - k,
    {
        let d = s[k] - 48;
        proof {
            assert(is_digit(s@[k as int]));
            assert(digits_end(s@, k as int) == digits_end(s@, k + 1));
            lemma_digits_end_bounds(s@, k + 1);
            assert(k < e);
        }
        if acc > 922_337_203_685_477_578 {
            proof {
                assert(acc_dec(s@, k as int, e, acc as int) is None);
            }
            return None;
        }
        proof {
            assert(acc_dec(s@, k as int, e, acc as int) == acc_dec(
                s@,
                k + 1,
                e,
                acc as int * 10 + (s@[k as int] - 48),
            ));
        }
        acc = acc * 10 + d as i64;
        k += 1;
    }
    proof {
        lemma_digits_end_bounds(s@, j as int);
        assert(digits_end(s@, k as int) == k as int);
        assert(acc_dec(s@, k as int, k as int, acc as int) == Some(acc as int));
    }
    if neg {
        Some((-acc, k))
    } else {
        Some((acc, k))
    }
}

/// Reads the array index starting at `i`, if one does.
#[verifier::loop_isolation(false)]
pub fn parse_idx_lit(s: &Vec<u8>, i: usize) -> (r: Option<(usize, usize)>)
    requires
        i <= s@.len(),
    ensures
        match r {
            Some((v, j)) => spec_idx_lit(s@, i as int) matches Some((vs, js)) && v as int == vs
                && j == js && i <= j <= s@.len(),
            None => spec_idx_lit(s@, i as int) is None,
        },
{
    if !(i < s.len() && 48 <= s[i] && 57 >= s[i]) {
        return None;
    }
    match parse_int_lit(s, i) {
        Some((v, j)) => {
            proof {
                assert(!at(s@, i as int, 45));
                lemma_acc_dec_nonneg(s@, i as int, digits_end(s@, i as int), 0);
            }
            if v >= 0 && v as u64 <= usize::MAX as u64 {
                Some((v as usize, j))
            } else {
                None
            }
        },
        None => None,
    }
}

/// Keyword tests: the keyword's bytes followed by no identifier
/// byte.
pub open spec fn kw_true_at(s: Seq<u8>, i: int) -> bool {
    at(s, i, 116) && at(s, i + 1, 114) && at(s, i + 2, 117) && at(s, i + 3, 101) && !ident_at(
        s,
        i + 4,
    )
}

pub open spec fn kw_false_at(s: Seq<u8>, i: int) -> bool {
    at(s, i, 102) && at(s, i + 1, 97) && at(s, i + 2, 108) && at(s, i + 3, 115) && at(s, i + 4, 101)
        && !ident_at(s, i + 5)
}

pub open spec fn kw_null_at(s: Seq<u8>, i: int) -> bool {
    at(s, i, 110) && at(s, i + 1, 117) && at(s, i + 2, 108) && at(s, i + 3, 108) && !ident_at(
        s,
        i + 4,
    )
}

pub open spec fn kw_exists_at(s: Seq<u8>, i: int) -> bool {
    at(s, i, 101) && at(s, i + 1, 120) && at(s, i + 2, 105) && at(s, i + 3, 115) && at(
        s,
        i + 4,
        116,
    ) && at(s, i + 5, 115) && !ident_at(s, i + 6)
}

pub open spec fn kw_not_exists_at(s: Seq<u8>, i: int) -> bool {
    at(s, i, 110) && at(s, i + 1, 111) && at(s, i + 2, 116) && at(s, i + 3, 69) && at(
        s,
        i + 4,
        120,
    ) && at(s, i + 5, 105) && at(s, i + 6, 115) && at(s, i + 7, 116) && at(s, i + 8, 115)
        && !ident_at(s, i + 9)
}

pub open spec fn kw_any_at(s: Seq<u8>, i: int) -> bool {
    at(s, i, 65) && at(s, i + 1, 78) && at(s, i + 2, 89) && !ident_at(s, i + 3)
}

pub open spec fn kw_all_at(s: Seq<u8>, i: int) -> bool {
    at(s, i, 65) && at(s, i + 1, 76) && at(s, i + 2, 76) && !ident_at(s, i + 3)
}

pub open spec fn kw_count_at(s: Seq<u8>, i: int) -> bool {
    at(s, i, 67) && at(s, i + 1, 111) && at(s, i + 2, 117) && at(s, i + 3, 110) && at(
        s,
        i + 4,
        116,
    ) && !ident_at(s, i + 5)
}

pub open spec fn kw_namespace_at(s: Seq<u8>, i: int) -> bool {
    at(s, i, 110) && at(s, i + 1, 97) && at(s, i + 2, 109) && at(s, i + 3, 101) && at(
        s,
        i + 4,
        115,
    ) && at(s, i + 5, 112) && at(s, i + 6, 97) && at(s, i + 7, 99) && at(s, i + 8, 101)
        && !ident_at(s, i + 9)
}

pub open spec fn kw_cluster_at(s: Seq<u8>, i: int) -> bool {
    at(s, i, 99) && at(s, i + 1, 108) && at(s, i + 2, 117) && at(s, i + 3, 115) && at(
        s,
        i + 4,
        116,
    ) && at(s, i + 5, 101) && at(s, i + 6, 114) && !ident_at(s, i + 7)
}

pub fn is_kw_true(s: &Vec<u8>, i: usize) -> (r: bool)
    ensures
        r == kw_true_at(s@, i as int),
{
    at_exec(s, i, 0, 116) && at_exec(s, i, 1, 114) && at_exec(s, i, 2, 117) && at_exec(
        s,
        i,
        3,
        101,
    ) && !ident_at_exec(s, i, 4)
}

pub fn is_kw_false(s: &Vec<u8>, i: usize) -> (r: bool)
    ensures
        r == kw_false_at(s@, i as int),
{
    at_exec(s, i, 0, 102) && at_exec(s, i, 1, 97) && at_exec(s, i, 2, 108) && at_exec(
        s,
        i,
        3,
        115,
    ) && at_exec(s, i, 4, 101) && !ident_at_exec(s, i, 5)
}

pub fn is_kw_null(s: &Vec<u8>, i: usize) -> (r: bool)
    ensures
        r == kw_null_at(s@, i as int),
{
    at_exec(s, i, 0, 110) && at_exec(s, i, 1, 117) && at_exec(s, i, 2, 108) && at_exec(
        s,
        i,
        3,
        108,
    ) && !ident_at_exec(s, i, 4)
}

pub fn is_kw_exists(s: &Vec<u8>, i: usize) -> (r: bool)
    ensures
        r == kw_exists_at(s@, i as int),
{
    at_exec(s, i, 0, 101) && at_exec(s, i, 1, 120) && at_exec(s, i, 2, 105) && at_exec(
        s,
        i,
        3,
        115,
    ) && at_exec(s, i, 4, 116) && at_exec(s, i, 5, 115) && !ident_at_exec(s, i, 6)
}

pub fn is_kw_not_exists(s: &Vec<u8>, i: usize) -> (r: bool)
    ensures
        r == kw_not_exists_at(s@, i as int),
{
    at_exec(s, i, 0, 110) && at_exec(s, i, 1, 111) && at_exec(s, i, 2, 116) && at_exec(s, i, 3, 69)
        && at_exec(s, i, 4, 120) && at_exec(s, i, 5, 105) && at_exec(s, i, 6, 115) && at_exec(
        s,
        i,
        7,
        116,
    ) && at_exec(s, i, 8, 115) && !ident_at_exec(s, i, 9)
}

pub fn is_kw_any(s: &Vec<u8>, i: usize) -> (r: bool)
    ensures
        r == kw_any_at(s@, i as int),
{
    at_exec(s, i, 0, 65) && at_exec(s, i, 1, 78) && at_exec(s, i, 2, 89) && !ident_at_exec(s, i, 3)
}

pub fn is_kw_all(s: &Vec<u8>, i: usize) -> (r: bool)
    ensures
        r == kw_all_at(s@, i as int),
{
    at_exec(s, i, 0, 65) && at_exec(s, i, 1, 76) && at_exec(s, i, 2, 76) && !ident_at_exec(s, i, 3)
}

pub fn is_kw_count(s: &Vec<u8>, i: usize) -> (r: bool)
    ensures
        r == kw_count_at(s@, i as int),
{
    at_exec(s, i, 0, 67) && at_exec(s, i, 1, 111) && at_exec(s, i, 2, 117) && at_exec(
        s,
        i,
        3,
        110,
    ) && at_exec(s, i, 4, 116) && !ident_at_exec(s, i, 5)
}

pub fn is_kw_namespace(s: &Vec<u8>, i: usize) -> (r: bool)
    ensures
        r == kw_namespace_at(s@, i as int),
{
    at_exec(s, i, 0, 110) && at_exec(s, i, 1, 97) && at_exec(s, i, 2, 109) && at_exec(
        s,
        i,
        3,
        101,
    ) && at_exec(s, i, 4, 115) && at_exec(s, i, 5, 112) && at_exec(s, i, 6, 97) && at_exec(
        s,
        i,
        7,
        99,
    ) && at_exec(s, i, 8, 101) && !ident_at_exec(s, i, 9)
}

pub fn is_kw_cluster(s: &Vec<u8>, i: usize) -> (r: bool)
    ensures
        r == kw_cluster_at(s@, i as int),
{
    at_exec(s, i, 0, 99) && at_exec(s, i, 1, 108) && at_exec(s, i, 2, 117) && at_exec(
        s,
        i,
        3,
        115,
    ) && at_exec(s, i, 4, 116) && at_exec(s, i, 5, 101) && at_exec(s, i, 6, 114)
        && !ident_at_exec(s, i, 7)
}

/// The literal starting at `i`, if one does.
pub open spec fn spec_lit(s: Seq<u8>, i: int) -> Option<(LitS, int)> {
    if kw_true_at(s, i) {
        Some((LitS::Bool(true), i + 4))
    } else if kw_false_at(s, i) {
        Some((LitS::Bool(false), i + 5))
    } else if kw_null_at(s, i) {
        Some((LitS::Null, i + 4))
    } else if at(s, i, 34) {
        let e = str_end(s, i + 1);
        if e < s.len() {
            Some((LitS::Str(s.subrange(i + 1, e)), e + 1))
        } else {
            None
        }
    } else {
        match spec_int_lit(s, i) {
            Some((v, j)) => Some((LitS::Int(v), j)),
            None => None,
        }
    }
}

/// Reads the literal starting at `i`, if one does.
#[verifier::loop_isolation(false)]
pub fn parse_lit(s: &Vec<u8>, i: usize) -> (r: Option<(Literal, usize)>)
    requires
        i <= s@.len(),
    ensures
        match r {
            Some((l, j)) => spec_lit(s@, i as int) matches Some((ls, js)) && l@ == ls && j == js
                && j <= s@.len(),
            None => spec_lit(s@, i as int) is None,
        },
{
    let n = s.len();
    proof {
        assert(n == s@.len());
    }
    if is_kw_true(s, i) {
        Some((Literal::Bool(true), i + 4))
    } else if is_kw_false(s, i) {
        Some((Literal::Bool(false), i + 5))
    } else if is_kw_null(s, i) {
        Some((Literal::Null, i + 4))
    } else if at_exec(s, i, 0, 34) {
        let mut w: Vec<u8> = Vec::new();
        let mut k = i + 1;
        while k < s.len() && s[k] != 34
            invariant
                i + 1 <= k <= s@.len(),
                w@ == s@.subrange(i + 1, k as int),
                str_end(s@, i + 1) == str_end(s@, k as int),
            decreases s@.len() - k,
        {
            w.push(s[k]);
            k += 1;
            proof {
                assert(w@ =~= s@.subrange(i + 1, k as int));
            }
        }
        if k < s.len() {
            proof {
                assert(str_end(s@, k as int) == k as int);
            }
            Some((Literal::Str(w), k + 1))
        } else {
            proof {
                assert(str_end(s@, k as int) == k as int);
            }
            None
        }
    } else {
        match parse_int_lit(s, i) {
            Some((v, j)) => Some((Literal::Int(v), j)),
            None => None,
        }
    }
}

/// The path steps following an initial identifier, folded onto
/// `acc`. Each step costs one unit of fuel.
pub open spec fn spec_steps(s: Seq<u8>, i: int, acc: Seq<StepS>, fuel: int) -> Option<
    (Seq<StepS>, int),
>
    decreases fuel,
{
    if fuel <= 0 {
        None
    } else if at(s, i, 46) {
        match spec_ident(s, i + 1) {
            Some((id, j)) => spec_steps(s, j, acc.push(StepS::Key(id)), fuel - 1),
            None => None,
        }
    } else if at(s, i, 91) {
        let j = skip_ws(s, i + 1);
        if at(s, j, 42) {
            let k = skip_ws(s, j + 1);
            if at(s, k, 93) {
                spec_steps(s, k + 1, acc.push(StepS::Wild), fuel - 1)
            } else {
                None
            }
        } else {
            match spec_idx_lit(s, j) {
                Some((n, k)) => {
                    let k2 = skip_ws(s, k);
                    if at(s, k2, 93) {
                        spec_steps(s, k2 + 1, acc.push(StepS::Index(n)), fuel - 1)
                    } else {
                        None
                    }
                },
                None => None,
            }
        }
    } else {
        Some((acc, i))
    }
}

/// The field path starting at `i`, if one does.
pub open spec fn spec_path(s: Seq<u8>, i: int, fuel: int) -> Option<(Seq<StepS>, int)> {
    match spec_ident(s, i) {
        Some((id, j)) => spec_steps(s, j, seq![StepS::Key(id)], fuel),
        None => None,
    }
}

/// Reads the field path starting at `i`, if one does.
#[verifier::loop_isolation(false)]
pub fn parse_path(s: &Vec<u8>, i: usize, fuel: u64) -> (r: Option<(Vec<PathStep>, usize)>)
    requires
        i <= s@.len(),
    ensures
        match r {
            Some((p, j)) => spec_path(s@, i as int, fuel as int) matches Some((ps, js))
                && path_view(p@) == ps && j == js && j <= s@.len(),
            None => spec_path(s@, i as int, fuel as int) is None,
        },
{
    let n = s.len();
    proof {
        assert(n == s@.len());
    }
    let first = match parse_ident(s, i) {
        Some(x) => x,
        None => {
            return None;
        },
    };
    let mut steps: Vec<PathStep> = Vec::new();
    steps.push(PathStep::Key(first.0));
    let mut pos = first.1;
    let mut f = fuel;
    proof {
        assert(path_view(steps@) =~= seq![StepS::Key(spec_ident(s@, i as int)->Some_0.0)]);
    }
    loop
        invariant
            pos <= s@.len(),
            f <= fuel,
            spec_path(s@, i as int, fuel as int) == spec_steps(
                s@,
                pos as int,
                path_view(steps@),
                f as int,
            ),
        decreases f,
    {
        if f == 0 {
            return None;
        }
        if at_exec(s, pos, 0, 46) {
            match parse_ident(s, pos + 1) {
                Some((id, j)) => {
                    let ghost old_steps = steps@;
                    steps.push(PathStep::Key(id));
                    proof {
                        assert(path_view(steps@) =~= path_view(old_steps).push(
                            steps@.last()@,
                        ));
                    }
                    pos = j;
                    f = f - 1;
                },
                None => {
                    return None;
                },
            }
        } else if at_exec(s, pos, 0, 91) {
            let j = skip_ws_exec(s, pos + 1);
            if at_exec(s, j, 0, 42) {
                let k = skip_ws_exec(s, j + 1);
                if at_exec(s, k, 0, 93) {
                    let ghost old_steps = steps@;
                    steps.push(PathStep::Wild);
                    proof {
                        assert(path_view(steps@) =~= path_view(old_steps).push(StepS::Wild));
                    }
                    pos = k + 1;
                    f = f - 1;
                } else {
                    return None;
                }
            } else {
                match parse_idx_lit(s, j) {
                    Some((n, k)) => {
                        let k2 = skip_ws_exec(s, k);
                        if at_exec(s, k2, 0, 93) {
                            let ghost old_steps = steps@;
                            steps.push(PathStep::Index(n));
                            proof {
                                assert(path_view(steps@) =~= path_view(old_steps).push(
                                    StepS::Index(n as int),
                                ));
                            }
                            pos = k2 + 1;
                            f = f - 1;
                        } else {
                            return None;
                        }
                    },
                    None => {
                        return None;
                    },
                }
            }
        } else {
            return Some((steps, pos));
        }
    }
}

/// Number of wildcard steps in a path.
pub open spec fn wild_count(p: Seq<StepS>) -> int
    decreases p.len(),
{
    if p.len() == 0 {
        0
    } else {
        wild_count(p.drop_last()) + if p.last() is Wild {
            1int
        } else {
            0int
        }
    }
}

/// Index of the first wildcard step at or after `i`; the path's
/// length if there is none.
pub open spec fn first_wild(p: Seq<StepS>, i: int) -> int
    decreases p.len() - i,
{
    if !(0 <= i < p.len()) {
        p.len() as int
    } else if p[i] is Wild {
        i
    } else {
        first_wild(p, i + 1)
    }
}

/// Counts the wildcards of a path and finds the first.
#[verifier::loop_isolation(false)]
pub fn wild_stats(p: &Vec<PathStep>) -> (r: (usize, usize))
    ensures
        r.0 as int == wild_count(path_view(p@)),
        r.0 > 0 ==> r.1 as int == first_wild(path_view(p@), 0) && r.1 < p@.len() && path_view(
            p@,
        )[r.1 as int] is Wild,
        r.0 == 0 ==> r.1 == p@.len(),
{
    let ghost pv = path_view(p@);
    let mut wc: usize = 0;
    let mut wi: usize = p.len();
    let mut i: usize = 0;
    while i < p.len()
        invariant
            i <= p@.len(),
            wc <= i,
            wc as int == wild_count(pv.take(i as int)),
            wc == 0 ==> wi == p@.len() && first_wild(pv, 0) == first_wild(pv, i as int),
            wc > 0 ==> wi < i && pv[wi as int] is Wild && first_wild(pv, 0) == wi,
        decreases p@.len() - i,
    {
        proof {
            assert(pv.take(i + 1).drop_last() =~= pv.take(i as int));
            assert(pv.take(i + 1).last() == pv[i as int]);
            assert(pv[i as int] == p@[i as int]@);
        }
        let is_wild = match &p[i] {
            PathStep::Wild => true,
            _ => false,
        };
        if is_wild {
            if wc == 0 {
                wi = i;
                proof {
                    assert(first_wild(pv, i as int) == i as int);
                }
            }
            wc += 1;
        } else {
            proof {
                assert(first_wild(pv, i as int) == first_wild(pv, i + 1));
            }
        }
        i += 1;
    }
    proof {
        assert(pv.take(p@.len() as int) =~= pv);
        if wc == 0 {
            assert(first_wild(pv, p@.len() as int) == pv.len() as int);
        }
    }
    (wc, wi)
}

/// A fresh copy of one path step.
pub fn copy_step(p: &PathStep) -> (r: PathStep)
    ensures
        r@ == p@,
{
    match p {
        PathStep::Key(k) => PathStep::Key(crate::doc::copy_bytes(k)),
        PathStep::Index(n) => PathStep::Index(*n),
        PathStep::Wild => PathStep::Wild,
    }
}

/// Compilation of one comparison: a path without a wildcard stays a
/// plain comparison; one with a single wildcard becomes an ANY
/// quantifier split at the wildcard; more wildcards are refused.
pub open spec fn spec_compile_cmp(p: Seq<StepS>, op: CmpOp, lit: LitS) -> Option<CondS> {
    if wild_count(p) == 0 {
        Some(CondS::Cmp { path: p, op, lit })
    } else if wild_count(p) == 1 {
        let w = first_wild(p, 0);
        Some(
            CondS::Quantified {
                q: Quant::Any,
                path: p.subrange(0, w),
                inner: Box::new(CondS::Cmp { path: p.subrange(w + 1, p.len() as int), op, lit }),
            },
        )
    } else {
        None
    }
}

/// Compiles one comparison.
#[verifier::loop_isolation(false)]
pub fn compile_cmp(steps: Vec<PathStep>, op: CmpOp, lit: Literal) -> (r: Option<Condition>)
    ensures
        match r {
            Some(c) => spec_compile_cmp(path_view(steps@), op, lit@) matches Some(cs) && cview(c)
                == cs,
            None => spec_compile_cmp(path_view(steps@), op, lit@) is None,
        },
{
    let ghost pv = path_view(steps@);
    let sl = steps.len();
    proof {
        assert(sl == steps@.len());
    }
    let (wc, wi) = wild_stats(&steps);
    if wc == 0 {
        Some(Condition::Cmp { path: steps, op, lit })
    } else if wc == 1 {
        let mut prefix: Vec<PathStep> = Vec::new();
        let mut j: usize = 0;
        while j < wi
            invariant
                j <= wi < steps@.len(),
                path_view(prefix@) == pv.subrange(0, j as int),
            decreases wi - j,
        {
            prefix.push(copy_step(&steps[j]));
            j += 1;
            proof {
                assert(path_view(prefix@) =~= pv.subrange(0, j as int));
            }
        }
        let mut suffix: Vec<PathStep> = Vec::new();
        let mut k: usize = wi + 1;
        while k < steps.len()
            invariant
                wi + 1 <= k <= steps@.len(),
                path_view(suffix@) == pv.subrange(wi + 1, k as int),
            decreases steps@.len() - k,
    {
            suffix.push(copy_step(&steps[k]));
            k += 1;
            proof {
                assert(path_view(suffix@) =~= pv.subrange(wi + 1, k as int));
            }
        }
        proof {
            assert(path_view(prefix@) =~= pv.subrange(0, first_wild(pv, 0)));
            assert(path_view(suffix@) =~= pv.subrange(first_wild(pv, 0) + 1, pv.len() as int));
        }
        let inner = Condition::Cmp { path: suffix, op, lit };
        let ghost icv = cview(inner);
        let r = Condition::Quantified { q: Quant::Any, path: prefix, inner: Box::new(inner) };
        proof {
            assert(cview(r) == (CondS::Quantified {
                q: Quant::Any,
                path: path_view(prefix@),
                inner: Box::new(icv),
            }));
        }
        Some(r)
    } else {
        None
    }
}

/// The aggregate comparison operator starting at `i`.
pub open spec fn spec_agg_op(s: Seq<u8>, i: int) -> Option<(AggOp, int)> {
    if at(s, i, 61) && at(s, i + 1, 61) {
        Some((AggOp::Eq, i + 2))
    } else if at(s, i, 33) && at(s, i + 1, 61) {
        Some((AggOp::Ne, i + 2))
    } else if at(s, i, 60) && at(s, i + 1, 61) {
        Some((AggOp::Le, i + 2))
    } else if at(s, i, 62) && at(s, i + 1, 61) {
        Some((AggOp::Ge, i + 2))
    } else if at(s, i, 60) {
        Some((AggOp::Lt, i + 1))
    } else if at(s, i, 62) {
        Some((AggOp::Gt, i + 1))
    } else {
        None
    }
}

/// Reads the aggregate comparison operator starting at `i`.
pub fn parse_agg_op(s: &Vec<u8>, i: usize) -> (r: Option<(AggOp, usize)>)
    ensures
        match r {
            Some((op, j)) => spec_agg_op(s@, i as int) matches Some((ops, js)) && op == ops && j
                == js && j <= s@.len(),
            None => spec_agg_op(s@, i as int) is None,
        },
{
    let n = s.len();
    proof {
        assert(n == s@.len());
    }
    if at_exec(s, i, 0, 61) && at_exec(s, i, 1, 61) {
        Some((AggOp::Eq, i + 2))
    } else if at_exec(s, i, 0, 33) && at_exec(s, i, 1, 61) {
        Some((AggOp::Ne, i + 2))
    } else if at_exec(s, i, 0, 60) && at_exec(s, i, 1, 61) {
        Some((AggOp::Le, i + 2))
    } else if at_exec(s, i, 0, 62) && at_exec(s, i, 1, 61) {
        Some((AggOp::Ge, i + 2))
    } else if at_exec(s, i, 0, 60) {
        Some((AggOp::Lt, i + 1))
    } else if at_exec(s, i, 0, 62) {
        Some((AggOp::Gt, i + 1))
    } else {
        None
    }
}

/// The comparison expression starting at `i`.
pub open spec fn spec_cmp_expr(s: Seq<u8>, i: int, fuel: int) -> Option<(CondS, int)> {
    match spec_path(s, i, fuel) {
        Some((p, j)) => {
            let k = skip_ws(s, j);
            if at(s, k, 61) && at(s, k + 1, 61) {
                match spec_lit(s, skip_ws(s, k + 2)) {
                    Some((lit, j2)) => match spec_compile_cmp(p, CmpOp::Eq, lit) {
                        Some(c) => Some((c, j2)),
                        None => None,
                    },
                    None => None,
                }
            } else if at(s, k, 33) && at(s, k + 1, 61) {
                match spec_lit(s, skip_ws(s, k + 2)) {
                    Some((lit, j2)) => match spec_compile_cmp(p, CmpOp::Ne, lit) {
                        Some(c) => Some((c, j2)),
                        None => None,
                    },
                    None => None,
                }
            } else if kw_exists_at(s, k) {
                match spec_compile_cmp(p, CmpOp::Exists, LitS::Null) {
                    Some(c) => Some((c, k + 6)),
                    None => None,
                }
            } else if kw_not_exists_at(s, k) {
                match spec_compile_cmp(p, CmpOp::NotExists, LitS::Null) {
                    Some(c) => Some((c, k + 9)),
                    None => None,
                }
            } else {
                None
            }
        },
        None => None,
    }
}

/// Reads the comparison expression starting at `i`.
pub fn parse_cmp_expr(s: &Vec<u8>, i: usize, fuel: u64) -> (r: Option<(Condition, usize)>)
    requires
        i <= s@.len(),
    ensures
        match r {
            Some((c, j)) => spec_cmp_expr(s@, i as int, fuel as int) matches Some((cs, js))
                && cview(c) == cs && j == js && j <= s@.len(),
            None => spec_cmp_expr(s@, i as int, fuel as int) is None,
        },
{
    let n = s.len();
    proof {
        assert(n == s@.len());
    }
    let (p, j) = match parse_path(s, i, fuel) {
        Some(x) => x,
        None => {
            return None;
        },
    };
    let k = skip_ws_exec(s, j);
    if at_exec(s, k, 0, 61) && at_exec(s, k, 1, 61) {
        let k2 = skip_ws_exec(s, k + 2);
        match parse_lit(s, k2) {
            Some((lit, j2)) => match compile_cmp(p, CmpOp::Eq, lit) {
                Some(c) => Some((c, j2)),
                None => None,
            },
            None => None,
        }
    } else if at_exec(s, k, 0, 33) && at_exec(s, k, 1, 61) {
        let k2 = skip_ws_exec(s, k + 2);
        match parse_lit(s, k2) {
            Some((lit, j2)) => match compile_cmp(p, CmpOp::Ne, lit) {
                Some(c) => Some((c, j2)),
                None => None,
            },
            None => None,
        }
    } else if is_kw_exists(s, k) {
        match compile_cmp(p, CmpOp::Exists, Literal::Null) {
            Some(c) => Some((c, k + 6)),
            None => None,
        }
    } else if is_kw_not_exists(s, k) {
        match compile_cmp(p, CmpOp::NotExists, Literal::Null) {
            Some(c) => Some((c, k + 9)),
            None => None,
        }
    } else {
        None
    }
}

/// The aggregate primitive starting at `i` (at its `Count` keyword):
/// a count of cached objects of one kind, scoped to the current
/// namespace or the whole cluster, compared to an integer.
pub open spec fn spec_agg(s: Seq<u8>, i: int) -> Option<(CondS, int)> {
    let j = skip_ws(s, i + 5);
    if at(s, j, 40) {
        match spec_ident(s, skip_ws(s, j + 1)) {
            Some((kind, k2)) => {
                let k3 = skip_ws(s, k2);
                if at(s, k3, 44) {
                    let k4 = skip_ws(s, k3 + 1);
                    if kw_namespace_at(s, k4) || kw_cluster_at(s, k4) {
                        let sc = if kw_namespace_at(s, k4) {
                            NsScope::Current
                        } else {
                            NsScope::Cluster
                        };
                        let k5 = if kw_namespace_at(s, k4) {
                            k4 + 9
                        } else {
                            k4 + 7
                        };
                        let k6 = skip_ws(s, k5);
                        if at(s, k6, 41) {
                            match spec_agg_op(s, skip_ws(s, k6 + 1)) {
                                Some((op, k8)) => match spec_int_lit(s, skip_ws(s, k8)) {
                                    Some((v, k9)) => Some(
                                        (CondS::Agg { kind, scope: sc, op, bound: v }, k9),
                                    ),
                                    None => None,
                                },
                                None => None,
                            }
                        } else {
                            None
                        }
                    } else {
                        None
                    }
                } else {
                    None
                }
            },
            None => None,
        }
    } else {
        None
    }
}

/// Reads the aggregate primitive starting at `i`.
pub fn parse_agg(s: &Vec<u8>, i: usize) -> (r: Option<(Condition, usize)>)
    requires
        i + 5 <= s@.len(),
    ensures
        match r {
            Some((c, j)) => spec_agg(s@, i as int) matches Some((cs, js)) && cview(c) == cs && j
                == js && j <= s@.len(),
            None => spec_agg(s@, i as int) is None,
        },
{
    let n = s.len();
    proof {
        assert(n == s@.len());
    }
    let j = skip_ws_exec(s, i + 5);
    if !at_exec(s, j, 0, 40) {
        return None;
    }
    let k1 = skip_ws_exec(s, j + 1);
    let (kind, k2) = match parse_ident(s, k1) {
        Some(x) => x,
        None => {
            return None;
        },
    };
    let k3 = skip_ws_exec(s, k2);
    if !at_exec(s, k3, 0, 44) {
        return None;
    }
    let k4 = skip_ws_exec(s, k3 + 1);
    let sc: NsScope;
    let k5: usize;
    if is_kw_namespace(s, k4) {
        sc = NsScope::Current;
        k5 = k4 + 9;
    } else if is_kw_cluster(s, k4) {
        sc = NsScope::Cluster;
        k5 = k4 + 7;
    } else {
        return None;
    }
    let k6 = skip_ws_exec(s, k5);
    if !at_exec(s, k6, 0, 41) {
        return None;
    }
    let k7 = skip_ws_exec(s, k6 + 1);
    let (op, k8) = match parse_agg_op(s, k7) {
        Some(x) => x,
        None => {
            return None;
        },
    };
    let k9 = skip_ws_exec(s, k8);
    match parse_int_lit(s, k9) {
        Some((v, k10)) => Some((Condition::Agg { kind, scope: sc, op, bound: v }, k10)),
        None => None,
    }
}

/// The quantifier expression starting at `i` (at its `ANY`/`ALL`
/// keyword): a quantifier over the elements of the array reached by
/// a path that ends in the wildcard step, with an inner condition
/// evaluated against one element.
pub open spec fn spec_quant(s: Seq<u8>, i: int, q: Quant, fuel: int) -> Option<(CondS, int)>
    decreases fuel, 0int,
{
    if fuel <= 0 {
        None
    } else {
        let j = skip_ws(s, i + 3);
        if at(s, j, 40) {
            match spec_path(s, skip_ws(s, j + 1), fuel) {
                Some((p, j2)) => if p.len() > 0 && p.last() is Wild && wild_count(p) == 1 {
                    let k = skip_ws(s, j2);
                    if at(s, k, 44) {
                        match spec_or(s, k + 1, fuel - 1) {
                            Some((c, j3)) => {
                                let k2 = skip_ws(s, j3);
                                if at(s, k2, 41) {
                                    Some(
                                        (
                                            CondS::Quantified {
                                                q,
                                                path: p.drop_last(),
                                                inner: Box::new(c),
                                            },
                                            k2 + 1,
                                        ),
                                    )
                                } else {
                                    None
                                }
                            },
                            None => None,
                        }
                    } else {
                        None
                    }
                } else {
                    None
                },
                None => None,
            }
        } else {
            None
        }
    }
}

/// The primary expression starting at `i`: a parenthesized
/// condition, a quantifier, an aggregate, or a comparison.
pub open spec fn spec_primary(s: Seq<u8>, i: int, fuel: int) -> Option<(CondS, int)>
    decreases fuel, 1int,
{
    if fuel <= 0 {
        None
    } else if at(s, i, 40) {
        match spec_or(s, i + 1, fuel - 1) {
            Some((c, j)) => {
                let k = skip_ws(s, j);
                if at(s, k, 41) {
                    Some((c, k + 1))
                } else {
                    None
                }
            },
            None => None,
        }
    } else if kw_any_at(s, i) && at(s, skip_ws(s, i + 3), 40) {
        spec_quant(s, i, Quant::Any, fuel)
    } else if kw_all_at(s, i) && at(s, skip_ws(s, i + 3), 40) {
        spec_quant(s, i, Quant::All, fuel)
    } else if kw_count_at(s, i) && at(s, skip_ws(s, i + 5), 40) {
        spec_agg(s, i)
    } else {
        spec_cmp_expr(s, i, fuel)
    }
}

/// The negation level: any run of `!` before a primary.
pub open spec fn spec_unary(s: Seq<u8>, i: int, fuel: int) -> Option<(CondS, int)>
    decreases fuel, 2int,
{
    if fuel <= 0 {
        None
    } else {
        let j = skip_ws(s, i);
        if at(s, j, 33) && !at(s, j + 1, 61) {
            match spec_unary(s, j + 1, fuel - 1) {
                Some((c, k)) => Some((CondS::Not(Box::new(c)), k)),
                None => None,
            }
        } else {
            spec_primary(s, j, fuel)
        }
    }
}

/// The conjunction level: `&&` binds tighter than `||`.
pub open spec fn spec_and(s: Seq<u8>, i: int, fuel: int) -> Option<(CondS, int)>
    decreases fuel, 3int,
{
    if fuel <= 0 {
        None
    } else {
        match spec_unary(s, i, fuel) {
            Some((c, j)) => {
                let k = skip_ws(s, j);
                if at(s, k, 38) && at(s, k + 1, 38) {
                    match spec_and(s, k + 2, fuel - 1) {
                        Some((c2, j2)) => Some((CondS::And(Box::new(c), Box::new(c2)), j2)),
                        None => None,
                    }
                } else {
                    Some((c, j))
                }
            },
            None => None,
        }
    }
}

/// The disjunction level, the whole condition grammar.
pub open spec fn spec_or(s: Seq<u8>, i: int, fuel: int) -> Option<(CondS, int)>
    decreases fuel, 4int,
{
    if fuel <= 0 {
        None
    } else {
        match spec_and(s, i, fuel) {
            Some((c, j)) => {
                let k = skip_ws(s, j);
                if at(s, k, 124) && at(s, k + 1, 124) {
                    match spec_or(s, k + 2, fuel - 1) {
                        Some((c2, j2)) => Some((CondS::Or(Box::new(c), Box::new(c2)), j2)),
                        None => None,
                    }
                } else {
                    Some((c, j))
                }
            },
            None => None,
        }
    }
}

/// The meaning of a whole condition text: the grammar applied at the
/// start, with nothing but whitespace left over. The fuel covers any
/// text of sane nesting depth; a text longer than 4 GiB is refused
/// outright.
pub open spec fn spec_parse_condition(s: Seq<u8>) -> Option<CondS> {
    if s.len() > 0xffff_ffff {
        None
    } else {
        match spec_or(s, 0, 6 * (s.len() as int) + 8) {
            Some((c, j)) => if skip_ws(s, j) == s.len() {
                Some(c)
            } else {
                None
            },
            None => None,
        }
    }
}

/// Reads the quantifier expression starting at `i`.
pub fn parse_quant(s: &Vec<u8>, i: usize, q: Quant, fuel: u64) -> (r: Option<(Condition, usize)>)
    requires
        i + 3 <= s@.len(),
    ensures
        match r {
            Some((c, j)) => spec_quant(s@, i as int, q, fuel as int) matches Some((cs, js))
                && cview(c) == cs && j == js && j <= s@.len(),
            None => spec_quant(s@, i as int, q, fuel as int) is None,
        },
    decreases fuel, 0int,
{
    let n = s.len();
    proof {
        assert(n == s@.len());
    }
    if fuel == 0 {
        return None;
    }
    let j = skip_ws_exec(s, i + 3);
    if !at_exec(s, j, 0, 40) {
        return None;
    }
    let p0 = skip_ws_exec(s, j + 1);
    let (mut p, j2) = match parse_path(s, p0, fuel) {
        Some(x) => x,
        None => {
            return None;
        },
    };
    let ghost pv = path_view(p@);
    let (wc, _wi) = wild_stats(&p);
    let pl = p.len();
    let last_wild = pl > 0 && (match &p[pl - 1] {
        PathStep::Wild => true,
        _ => false,
    });
    proof {
        if p@.len() > 0 {
            assert(pv.last() == p@[p@.len() - 1]@);
        }
    }
    if !(last_wild && wc == 1) {
        return None;
    }
    let k = skip_ws_exec(s, j2);
    if !at_exec(s, k, 0, 44) {
        return None;
    }
    let (c, j3) = match parse_or(s, k + 1, fuel - 1) {
        Some(x) => x,
        None => {
            return None;
        },
    };
    let k2 = skip_ws_exec(s, j3);
    if !at_exec(s, k2, 0, 41) {
        return None;
    }
    p.pop();
    proof {
        assert(path_view(p@) =~= pv.drop_last());
    }
    let ghost ccv = cview(c);
    let r = Condition::Quantified { q, path: p, inner: Box::new(c) };
    proof {
        assert(cview(r) == (CondS::Quantified { q, path: path_view(p@), inner: Box::new(ccv) }));
    }
    Some((r, k2 + 1))
}

/// Reads the primary expression starting at `i`.
pub fn parse_primary(s: &Vec<u8>, i: usize, fuel: u64) -> (r: Option<(Condition, usize)>)
    requires
        i <= s@.len(),
    ensures
        match r {
            Some((c, j)) => spec_primary(s@, i as int, fuel as int) matches Some((cs, js))
                && cview(c) == cs && j == js && j <= s@.len(),
            None => spec_primary(s@, i as int, fuel as int) is None,
        },
    decreases fuel, 1int,
{
    let n = s.len();
    proof {
        assert(n == s@.len());
    }
    if fuel == 0 {
        return None;
    }
    if at_exec(s, i, 0, 40) {
        match parse_or(s, i + 1, fuel - 1) {
            Some((c, j)) => {
                let k = skip_ws_exec(s, j);
                if at_exec(s, k, 0, 41) {
                    Some((c, k + 1))
                } else {
                    None
                }
            },
            None => None,
        }
    } else if is_kw_any(s, i) && at_exec(s, skip_ws_exec(s, if i + 3 <= n {
        i + 3
    } else {
        n
    }), 0, 40) {
        parse_quant(s, i, Quant::Any, fuel)
    } else if is_kw_all(s, i) && at_exec(s, skip_ws_exec(s, if i + 3 <= n {
        i + 3
    } else {
        n
    }), 0, 40) {
        parse_quant(s, i, Quant::All, fuel)
    } else if is_kw_count(s, i) && at_exec(s, skip_ws_exec(s, if i + 5 <= n {
        i + 5
    } else {
        n
    }), 0, 40) {
        parse_agg(s, i)
    } else {
        parse_cmp_expr(s, i, fuel)
    }
}

/// Reads the negation level starting at `i`.
pub fn parse_unary(s: &Vec<u8>, i: usize, fuel: u64) -> (r: Option<(Condition, usize)>)
    requires
        i <= s@.len(),
    ensures
        match r {
            Some((c, j)) => spec_unary(s@, i as int, fuel as int) matches Some((cs, js))
                && cview(c) == cs && j == js && j <= s@.len(),
            None => spec_unary(s@, i as int, fuel as int) is None,
        },
    decreases fuel, 2int,
{
    let n = s.len();
    proof {
        assert(n == s@.len());
    }
    if fuel == 0 {
        return None;
    }
    let j = skip_ws_exec(s, i);
    if at_exec(s, j, 0, 33) && !at_exec(s, j, 1, 61) {
        match parse_unary(s, j + 1, fuel - 1) {
            Some((c, k)) => Some((Condition::Not(Box::new(c)), k)),
            None => None,
        }
    } else {
        parse_primary(s, j, fuel)
    }
}

/// Reads the conjunction level starting at `i`.
pub fn parse_and(s: &Vec<u8>, i: usize, fuel: u64) -> (r: Option<(Condition, usize)>)
    requires
        i <= s@.len(),
    ensures
        match r {
            Some((c, j)) => spec_and(s@, i as int, fuel as int) matches Some((cs, js)) && cview(c)
                == cs && j == js && j <= s@.len(),
            None => spec_and(s@, i as int, fuel as int) is None,
        },
    decreases fuel, 3int,
{
    let n = s.len();
    proof {
        assert(n == s@.len());
    }
    if fuel == 0 {
        return None;
    }
    match parse_unary(s, i, fuel) {
        Some((c, j)) => {
            let k = skip_ws_exec(s, j);
            if at_exec(s, k, 0, 38) && at_exec(s, k, 1, 38) {
                match parse_and(s, k + 2, fuel - 1) {
                    Some((c2, j2)) => Some((Condition::And(Box::new(c), Box::new(c2)), j2)),
                    None => None,
                }
            } else {
                Some((c, j))
            }
        },
        None => None,
    }
}

/// Reads the disjunction level starting at `i`.
pub fn parse_or(s: &Vec<u8>, i: usize, fuel: u64) -> (r: Option<(Condition, usize)>)
    requires
        i <= s@.len(),
    ensures
        match r {
            Some((c, j)) => spec_or(s@, i as int, fuel as int) matches Some((cs, js)) && cview(c)
                == cs && j == js && j <= s@.len(),
            None => spec_or(s@, i as int, fuel as int) is None,
        },
    decreases fuel, 4int,
{
    let n = s.len();
    proof {
        assert(n == s@.len());
    }
    if fuel == 0 {
        return None;
    }
    match parse_and(s, i, fuel) {
        Some((c, j)) => {
            let k = skip_ws_exec(s, j);
            if at_exec(s, k, 0, 124) && at_exec(s, k, 1, 124) {
                match parse_or(s, k + 2, fuel - 1) {
                    Some((c2, j2)) => Some((Condition::Or(Box::new(c), Box::new(c2)), j2)),
                    None => None,
                }
            } else {
                Some((c, j))
            }
        },
        None => None,
    }
}

/// Compiles one condition text into its tree, or fails on the first
/// flaw: the result is exactly what the specification-level grammar
/// assigns to the text.
pub fn parse_condition(s: &Vec<u8>) -> (r: Option<Condition>)
    ensures
        match r {
            Some(c) => spec_parse_condition(s@) matches Some(cs) && cview(c) == cs,
            None => spec_parse_condition(s@) is None,
        },
{
    if s.len() > 0xffff_ffff {
        return None;
    }
    let fuel: u64 = 6 * (s.len() as u64) + 8;
    match parse_or(s, 0, fuel) {
        Some((c, j)) => {
            let e = skip_ws_exec(s, j);
            if e == s.len() {
                Some(c)
            } else {
                None
            }
        },
        None => None,
    }
}

} // verus!
