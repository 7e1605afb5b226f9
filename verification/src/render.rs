//! The canonical textual rendering of structured values: the same grammar
//! the argument parser accepts, so a decoded composite value reads back as
//! it would be written.

use vstd::prelude::*;
use vstd::string::StringExecFns;

use crate::types::{value_model, Value, ValueModel};

verus! {

/// The character for one decimal digit.
pub open spec fn digit_char(d: nat) -> char {
    if d == 0 {
        '0'
    } else if d == 1 {
        '1'
    } else if d == 2 {
        '2'
    } else if d == 3 {
        '3'
    } else if d == 4 {
        '4'
    } else if d == 5 {
        '5'
    } else if d == 6 {
        '6'
    } else if d == 7 {
        '7'
    } else if d == 8 {
        '8'
    } else {
        '9'
    }
}

/// The lower-case character for one hexadecimal digit.
pub open spec fn hex_char(d: nat) -> char {
    if d < 10 {
        digit_char(d)
    } else if d == 10 {
        'a'
    } else if d == 11 {
        'b'
    } else if d == 12 {
        'c'
    } else if d == 13 {
        'd'
    } else if d == 14 {
        'e'
    } else {
        'f'
    }
}

/// The decimal rendering of `n`, most significant digit first, with no
/// leading zeros.
pub open spec fn dec_string(n: nat) -> Seq<char>
    decreases n,
{
    if n < 10 {
        seq![digit_char(n)]
    } else {
        dec_string(n / 10) + seq![digit_char(n % 10)]
    }
}

/// The lower-case hexadecimal rendering of a byte buffer, two digits per
/// byte.
pub open spec fn hex_string(bytes: Seq<u8>) -> Seq<char> {
    Seq::new(
        2 * bytes.len(),
        |i: int| if i % 2 == 0 {
            hex_char((bytes[i / 2] / 16) as nat)
        } else {
            hex_char((bytes[i / 2] % 16) as nat)
        },
    )
}

/// The canonical text of a value: `true`/`false`, decimal integers,
/// `0x`-prefixed bytes and account identifiers, parenthesised composites,
/// and `()` for the unit value.
pub open spec fn render_spec(v: ValueModel) -> Seq<char>
    decreases v, 0int,
{
    match v {
        ValueModel::Bool(b) => if b {
            seq!['t', 'r', 'u', 'e']
        } else {
            seq!['f', 'a', 'l', 's', 'e']
        },
        ValueModel::U8(x) => dec_string(x as nat),
        ValueModel::U16(x) => dec_string(x as nat),
        ValueModel::U32(x) => dec_string(x as nat),
        ValueModel::U64(x) => dec_string(x as nat),
        ValueModel::U128(x) => dec_string(x as nat),
        ValueModel::AccountId(bytes) => seq!['0', 'x'] + hex_string(bytes),
        ValueModel::Bytes(bytes) => seq!['0', 'x'] + hex_string(bytes),
        ValueModel::Composite(vs) => seq!['('] + render_fields(vs) + seq![')'],
        ValueModel::Unit => seq!['(', ')'],
    }
}

/// The comma-separated texts of a field list.
pub open spec fn render_fields(vs: Seq<ValueModel>) -> Seq<char>
    decreases vs, vs.len(),
{
    if vs.len() == 0 {
        Seq::empty()
    } else if vs.len() == 1 {
        render_spec(vs[0])
    } else {
        render_spec(vs[0]) + seq![','] + render_fields(vs.subrange(1, vs.len() as int))
    }
}

/// One decimal digit as text.
fn digit_str(d: u8) -> (r: &'static str)
    requires
        d < 10,
    ensures
        r@ == seq![digit_char(d as nat)],
{
    proof {
        reveal_strlit("0");
        reveal_strlit("1");
        reveal_strlit("2");
        reveal_strlit("3");
        reveal_strlit("4");
        reveal_strlit("5");
        reveal_strlit("6");
        reveal_strlit("7");
        reveal_strlit("8");
        reveal_strlit("9");
    }
    let r = match d {
        0 => "0",
        1 => "1",
        2 => "2",
        3 => "3",
        4 => "4",
        5 => "5",
        6 => "6",
        7 => "7",
        8 => "8",
        _ => "9",
    };
    proof {
        assert(r@ =~= seq![digit_char(d as nat)]);
    }
    r
}

/// One hexadecimal digit as text.
fn hex_str(d: u8) -> (r: &'static str)
    requires
        d < 16,
    ensures
        r@ == seq![hex_char(d as nat)],
{
    if d < 10 {
        digit_str(d)
    } else {
        proof {
            reveal_strlit("a");
            reveal_strlit("b");
            reveal_strlit("c");
            reveal_strlit("d");
            reveal_strlit("e");
            reveal_strlit("f");
        }
        let r = match d {
            10 => "a",
            11 => "b",
            12 => "c",
            13 => "d",
            14 => "e",
            _ => "f",
        };
        proof {
            assert(r@ =~= seq![hex_char(d as nat)]);
        }
        r
    }
}

/// Appends the decimal rendering of `n`.
fn append_dec(n: u128, out: &mut String)
    ensures
        final(out)@ == old(out)@ + dec_string(n as nat),
    decreases n,
{
    if n < 10 {
        out.append(digit_str(n as u8));
    } else {
        append_dec(n / 10, out);
        out.append(digit_str((n % 10) as u8));
        proof {
            assert(old(out)@ + dec_string(n as nat / 10) + seq![digit_char(n as nat % 10)]
                =~= old(out)@ + (dec_string(n as nat / 10) + seq![digit_char(n as nat % 10)]));
        }
    }
}

/// Appends the hexadecimal rendering of `bytes`.
#[verifier::loop_isolation(false)]
fn append_hex(bytes: &Vec<u8>, out: &mut String)
    ensures
        final(out)@ == old(out)@ + hex_string(bytes@),
    decreases bytes@.len(),
{
    let mut i: usize = 0;
    while i < bytes.len()
        invariant
            i <= bytes@.len(),
            out@ == old(out)@ + hex_string(bytes@.subrange(0, i as int)),
        decreases bytes@.len() - i,
    {
        let b = bytes[i];
        out.append(hex_str(b / 16));
        out.append(hex_str(b % 16));
        proof {
            let pre = bytes@.subrange(0, i as int);
            let now = bytes@.subrange(0, i + 1);
            assert(hex_string(now) =~= hex_string(pre) + seq![
                hex_char((bytes@[i as int] / 16) as nat),
                hex_char((bytes@[i as int] % 16) as nat),
            ]) by {
                assert(forall|k: int| 0 <= k < now.len() ==> #[trigger] now[k / 2] == bytes@[k
                    / 2]);
            };
            assert(old(out)@ + hex_string(pre) + seq![hex_char((bytes@[i as int] / 16) as nat)]
                + seq![hex_char((bytes@[i as int] % 16) as nat)] =~= old(out)@ + hex_string(now));
        }
        i = i + 1;
    }
    proof {
        assert(bytes@.subrange(0, bytes@.len() as int) =~= bytes@);
    }
}

/// Appends the canonical text of `v`.
#[verifier::loop_isolation(false)]
#[verifier::rlimit(60)]
fn append_value(v: &Value, out: &mut String)
    ensures
        final(out)@ == old(out)@ + render_spec(v.deep_view()),
    decreases v, 0int,
{
    match v {
        Value::Bool(b) => {
            proof {
                reveal_strlit("true");
                reveal_strlit("false");
            }
            if *b {
                out.append("true");
            } else {
                out.append("false");
            }
            proof {
                assert(out@ =~= old(out)@ + render_spec(v.deep_view()));
            }
        },
        Value::U8(x) => {
            append_dec(*x as u128, out);
        },
        Value::U16(x) => {
            append_dec(*x as u128, out);
        },
        Value::U32(x) => {
            append_dec(*x as u128, out);
        },
        Value::U64(x) => {
            append_dec(*x as u128, out);
        },
        Value::U128(x) => {
            append_dec(*x, out);
        },
        Value::AccountId(bytes) => {
            proof {
                reveal_strlit("0x");
            }
            out.append("0x");
            append_hex(bytes, out);
            proof {
                assert(out@ =~= old(out)@ + render_spec(v.deep_view()));
            }
        },
        Value::Bytes(bytes) => {
            proof {
                reveal_strlit("0x");
            }
            out.append("0x");
            append_hex(bytes, out);
            proof {
                assert(out@ =~= old(out)@ + render_spec(v.deep_view()));
            }
        },
        Value::Composite(fields) => {
            let ghost vm = value_model(*v)->Composite_0;
            proof {
                reveal_strlit("(");
                reveal_strlit(")");
                reveal_strlit(",");
                assert(vm.len() == fields@.len());
                assert(forall|j: int| 0 <= j < fields@.len() ==> #[trigger] vm[j] == value_model(
                    fields@[j],
                ));
            }
            out.append("(");
            let ghost opened = out@;
            proof {
                assert(opened + rendered_prefix(vm, 0) =~= opened);
            }
            let mut i: usize = 0;
            while i < fields.len()
                invariant
                    i <= fields@.len(),
                    out@ == opened + rendered_prefix(vm, i as int),
                decreases fields@.len() - i,
            {
                if i > 0 {
                    out.append(",");
                }
                proof {
                    assert(decreases_to!(*v => *fields));
                    assert(decreases_to!(*fields => fields@));
                    assert(decreases_to!(fields@ => fields@[i as int]));
                }
                append_value(&fields[i], out);
                proof {
                    lemma_rendered_prefix_step(vm, i as int);
                    if i > 0 {
                        assert(opened + rendered_prefix(vm, i as int) + seq![','] + render_spec(
                            vm[i as int],
                        ) =~= opened + rendered_prefix(vm, i + 1));
                    } else {
                        assert(opened + rendered_prefix(vm, 0) + render_spec(vm[0]) =~= opened
                            + rendered_prefix(vm, 1));
                    }
                }
                i = i + 1;
            }
            out.append(")");
            proof {
                lemma_rendered_prefix_full(vm);
                assert(out@ =~= old(out)@ + render_spec(v.deep_view()));
            }
        },
        Value::Unit => {
            proof {
                reveal_strlit("()");
            }
            out.append("()");
            proof {
                assert(out@ =~= old(out)@ + render_spec(v.deep_view()));
            }
        },
    }
}

/// The text of the first `i` fields, with the separators that precede and
/// join them.
spec fn rendered_prefix(vs: Seq<ValueModel>, i: int) -> Seq<char>
    decreases i,
{
    if i <= 0 {
        Seq::empty()
    } else if i == 1 {
        render_spec(vs[0])
    } else {
        rendered_prefix(vs, i - 1) + seq![','] + render_spec(vs[i - 1])
    }
}

proof fn lemma_rendered_prefix_step(vs: Seq<ValueModel>, i: int)
    requires
        0 <= i,
    ensures
        i == 0 ==> rendered_prefix(vs, 1) == render_spec(vs[0]),
        i > 0 ==> rendered_prefix(vs, i + 1) == rendered_prefix(vs, i) + seq![','] + render_spec(
            vs[i],
        ),
{
}

/// Joining all fields matches the recursive field rendering.
proof fn lemma_rendered_prefix_full(vs: Seq<ValueModel>)
    ensures
        rendered_prefix(vs, vs.len() as int) == render_fields(vs),
    decreases vs.len(),
{
    if vs.len() > 1 {
        let tail = vs.subrange(1, vs.len() as int);
        lemma_rendered_prefix_full(tail);
        lemma_rendered_prefix_shift(vs, vs.len() as int);
    }
}

/// A prefix of the joined fields equals the head field joined with a
/// prefix of the tail.
proof fn lemma_rendered_prefix_shift(vs: Seq<ValueModel>, i: int)
    requires
        2 <= i <= vs.len(),
    ensures
        rendered_prefix(vs, i) == render_spec(vs[0]) + seq![','] + rendered_prefix(
            vs.subrange(1, vs.len() as int),
            i - 1,
        ),
    decreases i,
{
    let tail = vs.subrange(1, vs.len() as int);
    if i == 2 {
        assert(tail[0] == vs[1]);
        assert(rendered_prefix(vs, 1) == render_spec(vs[0]));
        assert(rendered_prefix(tail, 1) == render_spec(tail[0]));
    } else {
        lemma_rendered_prefix_shift(vs, i - 1);
        assert(tail[i - 2] == vs[i - 1]);
        assert(rendered_prefix(tail, i - 1) == rendered_prefix(tail, i - 2) + seq![',']
            + render_spec(tail[i - 2]));
        assert((render_spec(vs[0]) + seq![','] + rendered_prefix(tail, i - 2)) + seq![',']
            + render_spec(vs[i - 1]) =~= render_spec(vs[0]) + seq![','] + (rendered_prefix(
            tail,
            i - 2,
        ) + seq![','] + render_spec(vs[i - 1])));
    }
}

impl Value {
    /// The canonical text of this value, in the same grammar the argument
    /// parser accepts.
    pub fn render(&self) -> (r: String)
        ensures
            r@ == render_spec(self.deep_view()),
    {
        let mut out = String::new();
        append_value(self, &mut out);
        proof {
            assert(Seq::<char>::empty() + render_spec(self.deep_view()) =~= render_spec(
                self.deep_view(),
            ));
        }
        out
    }
}

} // verus!
