//! Parsing of textual arguments against declared types: decimal integers,
//! `true`/`false`, `0x`-prefixed byte strings, 32-byte account identifiers
//! and parenthesised composites.

use vstd::prelude::*;
use vstd::string::StrSliceExecFns;

use crate::codec::{lemma_pow256_increases, lemma_pow256_values, pow256};
use crate::types::{has_type, type_model, type_models, TypeModel, TypeSpec, Value, ValueModel};

verus! {

pub open spec fn is_dec_digit(c: char) -> bool {
    '0' <= c && c <= '9'
}

pub open spec fn dec_digit_val(c: char) -> nat {
    (c as int - '0' as int) as nat
}

pub open spec fn is_hex_digit(c: char) -> bool {
    ('0' <= c && c <= '9') || ('a' <= c && c <= 'f') || ('A' <= c && c <= 'F')
}

pub open spec fn hex_digit_val(c: char) -> nat {
    if '0' <= c && c <= '9' {
        (c as int - '0' as int) as nat
    } else if 'a' <= c && c <= 'f' {
        (c as int - 'a' as int + 10) as nat
    } else {
        (c as int - 'A' as int + 10) as nat
    }
}

/// The first position at or after `pos` holding no decimal digit.
pub open spec fn scan_dec_digits(s: Seq<char>, pos: int) -> int
    decreases s.len() - pos,
{
    if pos < 0 || pos >= s.len() {
        pos
    } else if is_dec_digit(s[pos]) {
        scan_dec_digits(s, pos + 1)
    } else {
        pos
    }
}

/// The first position at or after `pos` holding no hexadecimal digit.
pub open spec fn scan_hex_digits(s: Seq<char>, pos: int) -> int
    decreases s.len() - pos,
{
    if pos < 0 || pos >= s.len() {
        pos
    } else if is_hex_digit(s[pos]) {
        scan_hex_digits(s, pos + 1)
    } else {
        pos
    }
}

/// The value of an all-digit decimal string, most significant digit first.
pub open spec fn dec_val(s: Seq<char>) -> nat
    decreases s.len(),
{
    if s.len() == 0 {
        0nat
    } else {
        dec_val(s.drop_last()) * 10 + dec_digit_val(s.last())
    }
}

/// Whether a string is well-formed hexadecimal: an even number of
/// hexadecimal digits.
pub open spec fn is_valid_hex(s: Seq<char>) -> bool {
    s.len() % 2 == 0 && (forall|i: int| 0 <= i < s.len() ==> is_hex_digit(#[trigger] s[i]))
}

/// The bytes an even-length hexadecimal string denotes, one byte per digit
/// pair.
pub open spec fn hex_bytes(s: Seq<char>) -> Seq<u8> {
    Seq::new(
        (s.len() / 2) as nat,
        |i: int| (hex_digit_val(s[2 * i]) * 16 + hex_digit_val(s[2 * i + 1])) as u8,
    )
}

/// Parses one value of type `t` at position `pos` of `s`: the value and the
/// position after it, or `None` when no well-formed rendering of `t` starts
/// there.
pub open spec fn parse_at(t: TypeModel, s: Seq<char>, pos: int) -> Option<(ValueModel, int)>
    decreases t, 0int,
{
    if pos < 0 || pos > s.len() {
        None
    } else {
        match t {
            TypeModel::Bool => if pos + 4 <= s.len() && s[pos] == 't' && s[pos + 1] == 'r' && s[pos
                + 2] == 'u' && s[pos + 3] == 'e' {
                Some((ValueModel::Bool(true), pos + 4))
            } else if pos + 5 <= s.len() && s[pos] == 'f' && s[pos + 1] == 'a' && s[pos + 2] == 'l'
                && s[pos + 3] == 's' && s[pos + 4] == 'e' {
                Some((ValueModel::Bool(false), pos + 5))
            } else {
                None
            },
            TypeModel::U8 => match parse_uint_at(s, pos, 1) {
                Some((v, p)) => Some((ValueModel::U8(v as u8), p)),
                None => None,
            },
            TypeModel::U16 => match parse_uint_at(s, pos, 2) {
                Some((v, p)) => Some((ValueModel::U16(v as u16), p)),
                None => None,
            },
            TypeModel::U32 => match parse_uint_at(s, pos, 4) {
                Some((v, p)) => Some((ValueModel::U32(v as u32), p)),
                None => None,
            },
            TypeModel::U64 => match parse_uint_at(s, pos, 8) {
                Some((v, p)) => Some((ValueModel::U64(v as u64), p)),
                None => None,
            },
            TypeModel::U128 => match parse_uint_at(s, pos, 16) {
                Some((v, p)) => Some((ValueModel::U128(v as u128), p)),
                None => None,
            },
            TypeModel::AccountId => if pos + 66 <= s.len() && s[pos] == '0' && s[pos + 1] == 'x'
                && scan_hex_digits(s, pos + 2) >= pos + 66 {
                Some((ValueModel::AccountId(hex_bytes(s.subrange(pos + 2, pos + 66))), pos + 66))
            } else {
                None
            },
            TypeModel::Bytes => if pos + 2 <= s.len() && s[pos] == '0' && s[pos + 1] == 'x' {
                let end = scan_hex_digits(s, pos + 2);
                if (end - pos - 2) % 2 == 0 && end - pos - 2 <= 2 * (u32::MAX as int) {
                    Some((ValueModel::Bytes(hex_bytes(s.subrange(pos + 2, end))), end))
                } else {
                    None
                }
            } else {
                None
            },
            TypeModel::Composite(ts) => if pos < s.len() && s[pos] == '(' {
                match parse_fields_at(ts, 0, s, pos + 1) {
                    Some((vs, p)) => if p < s.len() && s[p] == ')' {
                        Some((ValueModel::Composite(vs), p + 1))
                    } else {
                        None
                    },
                    None => None,
                }
            } else {
                None
            },
        }
    }
}

/// Parses a decimal integer at `pos` that must fit in `width` bytes:
/// maximal munch over the digit span.
pub open spec fn parse_uint_at(s: Seq<char>, pos: int, width: nat) -> Option<(nat, int)> {
    let end = scan_dec_digits(s, pos);
    if 0 <= pos && end > pos && dec_val(s.subrange(pos, end)) < pow256(width) {
        Some((dec_val(s.subrange(pos, end)), end))
    } else {
        None
    }
}

/// Parses the comma-separated renderings of fields `ts[i..]` starting at
/// `pos`: the field values and the position after the last field.
pub open spec fn parse_fields_at(ts: Seq<TypeModel>, i: int, s: Seq<char>, pos: int) -> Option<
    (Seq<ValueModel>, int),
>
    decreases ts, ts.len() - i,
{
    if i < 0 || i > ts.len() || pos < 0 || pos > s.len() {
        None
    } else if i == ts.len() {
        Some((Seq::empty(), pos))
    } else {
        match parse_at(ts[i], s, pos) {
            Some((v, p)) => if i + 1 == ts.len() {
                Some((seq![v], p))
            } else if p < s.len() && s[p] == ',' {
                match parse_fields_at(ts, i + 1, s, p + 1) {
                    Some((vs, e)) => Some((seq![v] + vs, e)),
                    None => None,
                }
            } else {
                None
            },
            None => None,
        }
    }
}

/// Parses a whole argument string as a value of type `t`: the rendering
/// must span the entire string.
pub open spec fn parse_arg(t: TypeModel, s: Seq<char>) -> Option<ValueModel> {
    match parse_at(t, s, 0) {
        Some((v, p)) => if p == s.len() {
            Some(v)
        } else {
            None
        },
        None => None,
    }
}

/// Whatever the parser accepts is well typed for the declared type, and it
/// consumes a span inside the string.
pub proof fn lemma_parse_sound(t: TypeModel, s: Seq<char>, pos: int)
    ensures
        parse_at(t, s, pos) matches Some(p) ==> has_type(p.0, t) && pos <= p.1 <= s.len(),
    decreases t, 0int,
{
    if 0 <= pos <= s.len() {
        match t {
            TypeModel::Composite(ts) => {
                lemma_parse_fields_sound(ts, 0, s, pos + 1);
                if pos < s.len() && s[pos] == '(' {
                    match parse_fields_at(ts, 0, s, pos + 1) {
                        Some((vs, p)) => {
                            assert(has_type(ValueModel::Composite(vs), t));
                        },
                        None => {},
                    }
                }
            },
            TypeModel::U8 => {
                lemma_scan_dec_range(s, pos);
                lemma_uint_fits(s, pos, 1);
            },
            TypeModel::U16 => {
                lemma_scan_dec_range(s, pos);
                lemma_uint_fits(s, pos, 2);
            },
            TypeModel::U32 => {
                lemma_scan_dec_range(s, pos);
                lemma_uint_fits(s, pos, 4);
            },
            TypeModel::U64 => {
                lemma_scan_dec_range(s, pos);
                lemma_uint_fits(s, pos, 8);
            },
            TypeModel::U128 => {
                lemma_scan_dec_range(s, pos);
                lemma_uint_fits(s, pos, 16);
            },
            TypeModel::AccountId => {
                if pos + 2 <= s.len() {
                    lemma_scan_hex_range(s, pos + 2);
                }
            },
            TypeModel::Bytes => {
                if pos + 2 <= s.len() {
                    lemma_scan_hex_range(s, pos + 2);
                }
            },
            _ => {},
        }
    }
}

proof fn lemma_uint_fits(s: Seq<char>, pos: int, width: nat)
    ensures
        parse_uint_at(s, pos, width) matches Some(p) ==> p.0 < pow256(width),
{
}

pub proof fn lemma_parse_fields_sound(ts: Seq<TypeModel>, i: int, s: Seq<char>, pos: int)
    ensures
        parse_fields_at(ts, i, s, pos) matches Some(p) ==> pos <= p.1 <= s.len() && p.0.len()
            == ts.len() - i && (forall|j: int|
            0 <= j < p.0.len() ==> has_type(#[trigger] p.0[j], ts[i + j])),
    decreases ts, ts.len() - i,
{
    if 0 <= i < ts.len() && 0 <= pos <= s.len() {
        lemma_parse_sound(ts[i], s, pos);
        match parse_at(ts[i], s, pos) {
            Some((v, p)) => {
                if i + 1 < ts.len() && p < s.len() && s[p] == ',' {
                    lemma_parse_fields_sound(ts, i + 1, s, p + 1);
                }
            },
            None => {},
        }
    }
}

/// The scanners stay inside the string and certify the digits they passed.
pub proof fn lemma_scan_dec_range(s: Seq<char>, pos: int)
    requires
        0 <= pos <= s.len(),
    ensures
        pos <= scan_dec_digits(s, pos) <= s.len(),
        forall|j: int| pos <= j < scan_dec_digits(s, pos) ==> is_dec_digit(#[trigger] s[j]),
    decreases s.len() - pos,
{
    if pos < s.len() && is_dec_digit(s[pos]) {
        lemma_scan_dec_range(s, pos + 1);
    }
}

pub proof fn lemma_scan_hex_range(s: Seq<char>, pos: int)
    requires
        0 <= pos <= s.len(),
    ensures
        pos <= scan_hex_digits(s, pos) <= s.len(),
        forall|j: int| pos <= j < scan_hex_digits(s, pos) ==> is_hex_digit(#[trigger] s[j]),
    decreases s.len() - pos,
{
    if pos < s.len() && is_hex_digit(s[pos]) {
        lemma_scan_hex_range(s, pos + 1);
    }
}

/// Appending one digit multiplies the prefix value by ten and adds it.
proof fn lemma_dec_val_extend(s: Seq<char>, a: int, k: int)
    requires
        0 <= a <= k < s.len(),
    ensures
        dec_val(s.subrange(a, k + 1)) == dec_val(s.subrange(a, k)) * 10 + dec_digit_val(s[k]),
{
    let w = s.subrange(a, k + 1);
    assert(w.drop_last() =~= s.subrange(a, k));
    assert(w.last() == s[k]);
}

/// A longer digit span never denotes a smaller value.
proof fn lemma_dec_val_mono(s: Seq<char>, a: int, k: int, end: int)
    requires
        0 <= a <= k <= end <= s.len(),
    ensures
        dec_val(s.subrange(a, k)) <= dec_val(s.subrange(a, end)),
    decreases end - k,
{
    if k < end {
        lemma_dec_val_extend(s, a, k);
        assert(dec_val(s.subrange(a, k)) <= dec_val(s.subrange(a, k)) * 10 + dec_digit_val(
            s[k],
        )) by (nonlinear_arith);
        lemma_dec_val_mono(s, a, k + 1, end);
    }
}

/// Finds the end of the decimal digit span starting at `pos`.
fn scan_dec(s: &str, pos: usize) -> (r: usize)
    requires
        pos <= s@.len(),
    ensures
        r == scan_dec_digits(s@, pos as int),
        pos <= r <= s@.len(),
{
    let n = s.unicode_len();
    let mut j = pos;
    while j < n
        invariant
            pos <= j <= n == s@.len(),
            scan_dec_digits(s@, pos as int) == scan_dec_digits(s@, j as int),
        decreases n - j,
    {
        let c = s.get_char(j);
        if !('0' <= c && c <= '9') {
            return j;
        }
        j = j + 1;
    }
    j
}

/// Finds the end of the hexadecimal digit span starting at `pos`.
fn scan_hex(s: &str, pos: usize) -> (r: usize)
    requires
        pos <= s@.len(),
    ensures
        r == scan_hex_digits(s@, pos as int),
        pos <= r <= s@.len(),
{
    let n = s.unicode_len();
    let mut j = pos;
    while j < n
        invariant
            pos <= j <= n == s@.len(),
            scan_hex_digits(s@, pos as int) == scan_hex_digits(s@, j as int),
        decreases n - j,
    {
        let c = s.get_char(j);
        if !(('0' <= c && c <= '9') || ('a' <= c && c <= 'f') || ('A' <= c && c <= 'F')) {
            return j;
        }
        j = j + 1;
    }
    j
}

/// The numeric value of one hexadecimal digit.
fn hex_val(c: char) -> (r: u8)
    requires
        is_hex_digit(c),
    ensures
        r as nat == hex_digit_val(c),
{
    if '0' <= c && c <= '9' {
        ((c as u32) - ('0' as u32)) as u8
    } else if 'a' <= c && c <= 'f' {
        ((c as u32) - ('a' as u32) + 10) as u8
    } else {
        ((c as u32) - ('A' as u32) + 10) as u8
    }
}

/// Collects the bytes of the hexadecimal digit span `[start, end)`.
fn collect_hex(s: &str, start: usize, end: usize) -> (r: Vec<u8>)
    requires
        start <= end <= s@.len(),
        (end - start) % 2 == 0,
        forall|j: int| start <= j < end ==> is_hex_digit(#[trigger] s@[j]),
    ensures
        r@ == hex_bytes(s@.subrange(start as int, end as int)),
{
    let mut out: Vec<u8> = Vec::new();
    let count = (end - start) / 2;
    let mut j: usize = 0;
    while j < count
        invariant
            j <= count,
            count == (end - start) / 2,
            (end - start) % 2 == 0,
            start <= end <= s@.len(),
            forall|m: int| start <= m < end ==> is_hex_digit(#[trigger] s@[m]),
            out@.len() == j,
            forall|m: int| 0 <= m < j ==> out@[m] == hex_bytes(
                s@.subrange(start as int, end as int),
            )[m],
        decreases count - j,
    {
        let hi = hex_val(s.get_char(start + 2 * j));
        let lo = hex_val(s.get_char(start + 2 * j + 1));
        proof {
            let span = s@.subrange(start as int, end as int);
            assert(span[2 * (j as int)] == s@[start + 2 * (j as int)]);
            assert(span[2 * (j as int) + 1] == s@[start + 2 * (j as int) + 1]);
            assert(hex_digit_val(span[2 * (j as int)]) <= 15 && hex_digit_val(
                span[2 * (j as int) + 1],
            ) <= 15);
        }
        out.push(hi * 16 + lo);
        j = j + 1;
    }
    proof {
        assert(out@ =~= hex_bytes(s@.subrange(start as int, end as int)));
    }
    out
}

/// Parses a decimal integer at `pos` whose value must stay below
/// `256^width`; `maxv` is that bound less one.
fn parse_uint(s: &str, pos: usize, width: usize, maxv: u128) -> (r: Option<(u128, usize)>)
    requires
        pos <= s@.len(),
        1 <= width,
        maxv as nat == pow256(width as nat) - 1,
    ensures
        match parse_uint_at(s@, pos as int, width as nat) {
            Some(p) => r matches Some(q) && q.0 as nat == p.0 && q.1 == p.1,
            None => r is None,
        },
{
    let end = scan_dec(s, pos);
    proof {
        lemma_scan_dec_range(s@, pos as int);
    }
    if end == pos {
        return None;
    }
    let mut v: u128 = 0;
    let mut k = pos;
    while k < end
        invariant
            pos <= k <= end <= s@.len(),
            end == scan_dec_digits(s@, pos as int),
            forall|j: int| pos <= j < end ==> is_dec_digit(#[trigger] s@[j]),
            v as nat == dec_val(s@.subrange(pos as int, k as int)),
            v <= maxv,
            1 <= width,
            maxv as nat == pow256(width as nat) - 1,
        decreases end - k,
    {
        let c = s.get_char(k);
        let d = ((c as u32) - 48) as u128;
        proof {
            assert(is_dec_digit(s@[k as int]));
            assert(d as nat == dec_digit_val(s@[k as int]));
            assert(d <= 9);
            lemma_pow256_increases(1, width as nat);
            assert(maxv >= 255);
            lemma_dec_val_extend(s@, pos as int, k as int);
        }
        if v > (maxv - d) / 10 {
            proof {
                assert(v * 10 + d > maxv) by (nonlinear_arith)
                    requires
                        v > (maxv - d) / 10,
                        d <= maxv,
                ;
                lemma_dec_val_mono(s@, pos as int, k as int + 1, end as int);
            }
            return None;
        }
        proof {
            assert(v * 10 + d <= maxv) by (nonlinear_arith)
                requires
                    v <= (maxv - d) / 10,
                    d <= maxv,
            ;
        }
        v = v * 10 + d;
        k = k + 1;
    }
    Some((v, end))
}

/// Parses one value of type `t` at position `pos` of `s`; mirrors
/// [`parse_at`] exactly.
#[verifier::loop_isolation(false)]
#[verifier::rlimit(60)]
pub fn parse_value_at(t: &TypeSpec, s: &str, pos: usize) -> (r: Option<(Value, usize)>)
    requires
        pos <= s@.len(),
    ensures
        match parse_at(t.deep_view(), s@, pos as int) {
            Some(p) => r matches Some(q) && q.0.deep_view() == p.0 && q.1 == p.1 && pos <= q.1
                <= s@.len(),
            None => r is None,
        },
    decreases t, 0int,
{
    proof {
        lemma_pow256_values();
        lemma_parse_sound(t.deep_view(), s@, pos as int);
    }
    let n = s.unicode_len();
    match t {
        TypeSpec::Bool => {
            if n - pos >= 4 && s.get_char(pos) == 't' && s.get_char(pos + 1) == 'r' && s.get_char(
                pos + 2,
            ) == 'u' && s.get_char(pos + 3) == 'e' {
                Some((Value::Bool(true), pos + 4))
            } else if n - pos >= 5 && s.get_char(pos) == 'f' && s.get_char(pos + 1) == 'a'
                && s.get_char(pos + 2) == 'l' && s.get_char(pos + 3) == 's' && s.get_char(pos + 4)
                == 'e' {
                Some((Value::Bool(false), pos + 5))
            } else {
                None
            }
        },
        TypeSpec::U8 => {
            match parse_uint(s, pos, 1, 0xff) {
                Some((v, p)) => Some((Value::U8(v as u8), p)),
                None => None,
            }
        },
        TypeSpec::U16 => {
            match parse_uint(s, pos, 2, 0xffff) {
                Some((v, p)) => Some((Value::U16(v as u16), p)),
                None => None,
            }
        },
        TypeSpec::U32 => {
            match parse_uint(s, pos, 4, 0xffff_ffff) {
                Some((v, p)) => Some((Value::U32(v as u32), p)),
                None => None,
            }
        },
        TypeSpec::U64 => {
            match parse_uint(s, pos, 8, 0xffff_ffff_ffff_ffff) {
                Some((v, p)) => Some((Value::U64(v as u64), p)),
                None => None,
            }
        },
        TypeSpec::U128 => {
            match parse_uint(s, pos, 16, 0xffff_ffff_ffff_ffff_ffff_ffff_ffff_ffff) {
                Some((v, p)) => Some((Value::U128(v), p)),
                None => None,
            }
        },
        TypeSpec::AccountId => {
            if n - pos >= 66 && s.get_char(pos) == '0' && s.get_char(pos + 1) == 'x' {
                let e = scan_hex(s, pos + 2);
                proof {
                    lemma_scan_hex_range(s@, pos + 2);
                }
                if e >= pos + 66 {
                    let bytes = collect_hex(s, pos + 2, pos + 66);
                    Some((Value::AccountId(bytes), pos + 66))
                } else {
                    None
                }
            } else {
                None
            }
        },
        TypeSpec::Bytes => {
            if n - pos >= 2 && s.get_char(pos) == '0' && s.get_char(pos + 1) == 'x' {
                let e = scan_hex(s, pos + 2);
                proof {
                    lemma_scan_hex_range(s@, pos + 2);
                }
                let span = e - (pos + 2);
                if span % 2 == 0 && span / 2 <= 0xffff_ffff {
                    let bytes = collect_hex(s, pos + 2, e);
                    Some((Value::Bytes(bytes), e))
                } else {
                    None
                }
            } else {
                None
            }
        },
        TypeSpec::Composite(fields) => {
            let ghost tsm = type_model(*t)->Composite_0;
            proof {
                assert(tsm =~= type_models(fields@));
            }
            if pos < n && s.get_char(pos) == '(' {
                proof {
                    assert(decreases_to!(*t => *fields));
                    assert(decreases_to!(*fields => fields@));
                }
                match parse_fields(fields, 0, s, pos + 1) {
                    Some((vs, p)) => {
                        if p < n && s.get_char(p) == ')' {
                            proof {
                                let res = Value::Composite(vs);
                                assert(res.deep_view()->Composite_0 =~= vs.deep_view());
                            }
                            Some((Value::Composite(vs), p + 1))
                        } else {
                            None
                        }
                    },
                    None => None,
                }
            } else {
                None
            }
        },
    }
}

/// Parses fields `fields[i..]`, comma-separated, starting at `pos`; mirrors
/// [`parse_fields_at`] exactly.
#[verifier::loop_isolation(false)]
pub fn parse_fields(fields: &Vec<TypeSpec>, i: usize, s: &str, pos: usize) -> (r: Option<
    (Vec<Value>, usize),
>)
    requires
        pos <= s@.len(),
        i <= fields@.len(),
    ensures
        match parse_fields_at(type_models(fields@), i as int, s@, pos as int) {
            Some(p) => r matches Some(q) && q.0.deep_view() == p.0 && q.1 == p.1 && pos <= q.1
                <= s@.len(),
            None => r is None,
        },
    decreases fields@, fields@.len() - i,
{
    let ghost tsm = type_models(fields@);
    proof {
        lemma_parse_fields_sound(tsm, i as int, s@, pos as int);
    }
    if i == fields.len() {
        let rv: Vec<Value> = Vec::new();
        proof {
            assert(rv.deep_view() =~= Seq::<ValueModel>::empty());
        }
        return Some((rv, pos));
    }
    proof {
        assert(decreases_to!(fields@ => fields@[i as int]));
        assert(tsm[i as int] == type_model(fields@[i as int]));
        lemma_parse_sound(tsm[i as int], s@, pos as int);
    }
    match parse_value_at(&fields[i], s, pos) {
        Some((v, p)) => {
            let ghost vm = v.deep_view();
            if i + 1 == fields.len() {
                let mut rv: Vec<Value> = Vec::new();
                rv.push(v);
                proof {
                    assert(rv.deep_view() =~= seq![vm]);
                }
                Some((rv, p))
            } else {
                let n = s.unicode_len();
                if p < n && s.get_char(p) == ',' {
                    match parse_fields(fields, i + 1, s, p + 1) {
                        Some((vs, e)) => {
                            let ghost vsm = vs.deep_view();
                            let mut vs = vs;
                            vs.insert(0, v);
                            proof {
                                assert(vs.deep_view() =~= seq![vm] + vsm);
                            }
                            Some((vs, e))
                        },
                        None => None,
                    }
                } else {
                    None
                }
            }
        },
        None => None,
    }
}

/// Parses a whole argument string as a value of type `t`; the rendering
/// must span the entire string.
pub fn parse_argument(t: &TypeSpec, s: &str) -> (r: Option<Value>)
    ensures
        match parse_arg(t.deep_view(), s@) {
            Some(vm) => r matches Some(v) && v.deep_view() == vm,
            None => r is None,
        },
{
    match parse_value_at(t, s, 0) {
        Some((v, p)) => {
            if p == s.unicode_len() {
                Some(v)
            } else {
                None
            }
        },
        None => None,
    }
}


} // verus!
