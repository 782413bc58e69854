//! Executable application of the mapping transforms, and the decimal
//! conversion they and the converting combinator share.

use crate::sem::all_digits;
use crate::sem::apply_t;
use crate::sem::conv_i32;
use crate::sem::dec_val;
use crate::sem::flat;
use crate::sem::int_chars;
use crate::sem::is_digit;
use crate::sem::list_chars;
use crate::sem::Transform;
use crate::text::copy_range;
use crate::text::dec_chars;
use crate::text::push_chars;
use crate::value::vs_list_of;
use crate::value::vs_of;
use crate::value::Value;
use crate::value::VS;
use vstd::prelude::*;

verus! {

broadcast use vstd::std_specs::vec::axiom_vec_index_decreases, vstd::seq::axiom_seq_index_decreases, vstd::std_specs::vec::axiom_vec_decreases_to_view;

/// Ten to the `n`.
pub open spec fn pow10(n: nat) -> int
    decreases n,
{
    if n == 0 {
        1
    } else {
        10 * pow10((n - 1) as nat)
    }
}

/// A digit string that does not start with zero denotes at least ten to
/// one less than its length.
proof fn lemma_dec_val_lower(s: Seq<char>)
    requires
        all_digits(s),
        s.len() >= 1,
        s[0] as u32 != 48,
    ensures
        dec_val(s) >= pow10((s.len() - 1) as nat),
    decreases s.len(),
{
    if s.len() == 1 {
        assert(s.drop_last() =~= Seq::<char>::empty());
        assert(dec_val(Seq::<char>::empty()) == 0);
        assert(pow10(0) == 1);
        assert(is_digit(s[0]));
        assert(s.last() == s[0]);
    } else {
        lemma_dec_val_lower(s.drop_last());
        assert(is_digit(s.last()));
        assert(dec_val(s.drop_last()) * 10 >= pow10((s.len() - 2) as nat) * 10)
            by (nonlinear_arith)
            requires
                dec_val(s.drop_last()) >= pow10((s.len() - 2) as nat),
        ;
    }
}

/// Leading zeros do not change the denoted number.
proof fn lemma_dec_val_skip_zero(s: Seq<char>)
    requires
        s.len() >= 1,
        s[0] as u32 == 48,
    ensures
        dec_val(s) == dec_val(s.skip(1)),
    decreases s.len(),
{
    if s.len() == 1 {
        assert(s.skip(1) =~= Seq::<char>::empty());
        assert(s.drop_last() =~= Seq::<char>::empty());
        assert(s.last() as u32 == 48);
    } else {
        lemma_dec_val_skip_zero(s.drop_last());
        assert(s.drop_last()[0] as u32 == 48);
        assert(s.skip(1).drop_last() =~= s.drop_last().skip(1));
        assert(s.skip(1).last() == s.last());
    }
}

/// Reads a digit string as a number, exactly as [`dec_val`] does, rejecting
/// anything outside the 32-bit signed magnitude `bound`.
#[verifier::loop_isolation(false)]
fn dec_val_exec(ds: &Vec<char>, start: usize, bound: u64) -> (r: Option<u64>)
    requires
        start <= ds@.len(),
        all_digits(ds@.skip(start as int)),
        bound <= 4000000000,
    ensures
        match r {
            Some(m) => m as int == dec_val(ds@.skip(start as int)) && m <= bound,
            None => dec_val(ds@.skip(start as int)) > bound,
        },
{
    let n: usize = ds.len();
    let ghost whole = ds@.skip(start as int);
    // Skip leading zeros so that the digit count bounds the value.
    let mut z: usize = start;
    while z < n && ds[z] as u32 == 48
        invariant
            start <= z <= n,
            n == ds@.len(),
            all_digits(whole),
            whole == ds@.skip(start as int),
            dec_val(whole) == dec_val(ds@.skip(z as int)),
            forall|j: int| start <= j < z ==> #[trigger] (ds@[j] as u32) == 48,
        decreases n - z,
    {
        proof {
            lemma_dec_val_skip_zero(ds@.skip(z as int));
            assert(ds@.skip(z as int).skip(1) =~= ds@.skip(z + 1));
        }
        z = z + 1;
    }
    let eff: usize = n - z;
    proof {
        assert(ds@.skip(z as int).len() == eff as int);
        assert(all_digits(ds@.skip(z as int))) by {
            assert forall|i: int| 0 <= i < ds@.skip(z as int).len() implies is_digit(
                #[trigger] ds@.skip(z as int)[i],
            ) by {
                assert(ds@.skip(z as int)[i] == whole[i + z - start]);
            }
        }
    }
    if eff > 10 {
        proof {
            lemma_dec_val_lower(ds@.skip(z as int));
            assert(pow10((eff - 1) as nat) >= pow10(10)) by {
                lemma_pow10_mono(10, (eff - 1) as nat);
            }
            assert(pow10(10) == 10000000000) by {
                reveal_with_fuel(pow10, 11);
            }
        }
        return None;
    }
    proof {
        lemma_pow10_mono(0, 10);
        assert(ds@.skip(z as int).take(0) =~= Seq::<char>::empty());
    }
    let mut acc: u64 = 0;
    let mut i: usize = z;
    while i < n
        invariant
            z <= i <= n,
            n == ds@.len(),
            all_digits(ds@.skip(z as int)),
            n - z <= 10,
            acc as int == dec_val(ds@.skip(z as int).take(i - z)),
            (acc as int) < pow10((i - z) as nat),
            pow10((i - z) as nat) <= pow10(10),
        decreases n - i,
    {
        let c: char = ds[i];
        proof {
            assert(ds@.skip(z as int)[i - z] == c);
            assert(is_digit(c));
            assert(pow10(((i - z) + 1) as nat) == 10 * pow10((i - z) as nat));
            lemma_pow10_mono(((i - z) + 1) as nat, 10);
            assert(pow10(10) == 10000000000) by {
                reveal_with_fuel(pow10, 11);
            }
            assert((acc as int) * 10 < pow10((i - z) as nat) * 10) by (nonlinear_arith)
                requires
                    (acc as int) < pow10((i - z) as nat),
            ;
        }
        let d: u64 = (c as u32 - 48) as u64;
        acc = acc * 10 + d;
        proof {
            let pre = ds@.skip(z as int).take(i - z);
            let now = ds@.skip(z as int).take(i + 1 - z);
            assert(now =~= pre.push(c));
            assert(now.drop_last() =~= pre);
            assert(dec_val(now) == dec_val(pre) * 10 + (c as u32 - 48));
        }
        i = i + 1;
    }
    proof {
        assert(ds@.skip(z as int).take(n - z) =~= ds@.skip(z as int));
    }
    if acc <= bound {
        Some(acc)
    } else {
        None
    }
}

/// Ten to the `n` never shrinks as `n` grows.
proof fn lemma_pow10_mono(a: nat, b: nat)
    requires
        a <= b,
    ensures
        pow10(a) <= pow10(b),
        pow10(a) >= 1,
    decreases b,
{
    if a < b {
        lemma_pow10_mono(a, (b - 1) as nat);
        assert(pow10(b) == 10 * pow10((b - 1) as nat));
    } else if b > 0 {
        lemma_pow10_mono((a - 1) as nat, (b - 1) as nat);
    }
}

/// Reads `t` as an optionally signed decimal number in the 32-bit signed
/// range, exactly as [`conv_i32`] does.
#[verifier::loop_isolation(false)]
pub(crate) fn conv_exec(t: &Vec<char>) -> (r: Option<i64>)
    ensures
        match conv_i32(t@) {
            Some(n) => r matches Some(m) && m as int == n,
            None => r is None,
        },
{
    let n: usize = t.len();
    let neg: bool = n > 0 && t[0] == '-';
    let signed: bool = n > 0 && (t[0] == '-' || t[0] == '+');
    let start: usize = if signed {
        1
    } else {
        0
    };
    let ghost ds = if signed {
        t@.skip(1)
    } else {
        t@
    };
    proof {
        assert(t@.skip(0) =~= t@);
        assert(ds == t@.skip(start as int));
    }
    if n == start {
        return None;
    }
    // Every character after the sign must be a digit.
    let mut i: usize = start;
    while i < n
        invariant
            start <= i <= n,
            n == t@.len(),
            ds == t@.skip(start as int),
            forall|j: int| 0 <= j < i - start ==> is_digit(#[trigger] ds[j]),
        decreases n - i,
    {
        let c: char = t[i];
        let cu: u32 = c as u32;
        if cu < 48 || cu > 57 {
            proof {
                assert(ds[i - start] == t@[i as int]);
                assert(!is_digit(ds[i - start]));
                assert(!all_digits(ds));
            }
            return None;
        }
        proof {
            assert(ds[i - start] == t@[i as int]);
        }
        i = i + 1;
    }
    proof {
        assert(all_digits(ds));
    }
    let bound: u64 = if neg {
        2147483648
    } else {
        2147483647
    };
    match dec_val_exec(t, start, bound) {
        Some(m) => {
            if neg {
                Some(-(m as i64))
            } else {
                Some(m as i64)
            }
        },
        None => None,
    }
}

/// All characters of a value, in order, exactly as [`flat`] lists them.
pub(crate) fn flat_chars(v: &Value) -> (r: Vec<char>)
    ensures
        r@ == flat(v@),
    decreases v,
{
    match v {
        Value::Unit => Vec::new(),
        Value::Ch(c) => {
            let mut r: Vec<char> = Vec::new();
            r.push(*c);
            proof {
                assert(r@ =~= seq![*c]);
            }
            r
        },
        Value::Str(t) => copy_range(t, 0, t.len()),
        Value::Int(n) => int_chars_exec(*n),
        Value::Pair(a, b) => {
            let mut r = flat_chars(a);
            let tail = flat_chars(b);
            push_chars(&mut r, &tail);
            r
        },
        Value::List(vs) => {
            let n: usize = vs.len();
            let mut r: Vec<char> = Vec::new();
            let mut i: usize = 0;
            while i < n
                invariant
                    i <= n,
                    n == vs@.len(),
                    r@ == list_chars(vs_list_of(vs@)).take(i as int),
                decreases n - i,
            {
                match &vs[i] {
                    Value::Ch(c) => r.push(*c),
                    _ => r.push('\0'),
                }
                i = i + 1;
                proof {
                    assert(r@ =~= list_chars(vs_list_of(vs@)).take(i as int));
                }
            }
            proof {
                assert(list_chars(vs_list_of(vs@)).take(n as int) =~= list_chars(
                    vs_list_of(vs@),
                ));
            }
            r
        },
        Value::MaybeV(o) => match o {
            Some(b) => flat_chars(b),
            None => Vec::new(),
        },
    }
}

/// The decimal rendering of a 64-bit integer, with its sign.
fn int_chars_exec(n: i64) -> (r: Vec<char>)
    ensures
        r@ == int_chars(n as int),
{
    if n < 0 {
        let m: u64 = if n == i64::MIN {
            9223372036854775808u64
        } else {
            (-n) as u64
        };
        let mut r: Vec<char> = Vec::new();
        r.push('-');
        let ds = dec_chars(m);
        push_chars(&mut r, &ds);
        proof {
            assert(r@ =~= seq!['-'] + crate::text::dec_digits((-(n as int)) as nat));
        }
        r
    } else {
        dec_chars(n as u64)
    }
}

/// The ghost mirror of a value has the same outermost shape as the value.
pub(crate) proof fn lemma_vs_shape(a: Value)
    ensures
        vs_of(a) is Unit <==> a is Unit,
        vs_of(a) is Ch <==> a is Ch,
        vs_of(a) is Str <==> a is Str,
        vs_of(a) is Int <==> a is Int,
        vs_of(a) is Pair <==> a is Pair,
        vs_of(a) is List <==> a is List,
        vs_of(a) is MaybeV <==> a is MaybeV,
{
    match a {
        Value::Unit => assert(vs_of(a) is Unit),
        Value::Ch(_) => assert(vs_of(a) is Ch),
        Value::Str(_) => assert(vs_of(a) is Str),
        Value::Int(_) => assert(vs_of(a) is Int),
        Value::Pair(_, _) => assert(vs_of(a) is Pair),
        Value::List(_) => assert(vs_of(a) is List),
        Value::MaybeV(o) => match o {
            Some(_) => assert(vs_of(a) is MaybeV),
            None => assert(vs_of(a) is MaybeV),
        },
    }
}

/// Applies a transform to a successful value, exactly as [`apply_t`] does.
pub(crate) fn apply_tr(t: &Transform, v: Value) -> (r: Value)
    ensures
        r@ == apply_t(*t, v@),
{
    let ghost v0 = v@;
    proof {
        lemma_vs_shape(v);
    }
    match t {
        Transform::Flatten => Value::Str(flat_chars(&v)),
        Transform::ToNum => {
            let fc = flat_chars(&v);
            match conv_exec(&fc) {
                Some(m) => Value::Int(m),
                None => Value::Int(0),
            }
        },
        Transform::AppendLists => match v {
            Value::Pair(a, b) => {
                let ghost a0 = *a;
                let ghost b0 = *b;
                proof {
                    assert(v0 == VS::Pair(Box::new(vs_of(a0)), Box::new(vs_of(b0))));
                }
                match (*a, *b) {
                    (Value::List(mut x), Value::List(mut y)) => {
                        let ghost x0 = x@;
                        let ghost y0 = y@;
                        proof {
                            assert(vs_of(a0) == VS::List(vs_list_of(x0)));
                            assert(vs_of(b0) == VS::List(vs_list_of(y0)));
                        }
                        x.append(&mut y);
                        proof {
                            assert(vs_list_of(x0 + y0) =~= vs_list_of(x0) + vs_list_of(y0));
                            assert(apply_t(Transform::AppendLists, v0) == VS::List(
                                vs_list_of(x0) + vs_list_of(y0),
                            ));
                        }
                        Value::List(x)
                    },
                    (a2, b2) => {
                        proof {
                            lemma_vs_shape(a2);
                            lemma_vs_shape(b2);
                        }
                        Value::Pair(Box::new(a2), Box::new(b2))
                    },
                }
            },
            other => other,
        },
        Transform::SplitPhone13 => match v {
            Value::Str(tx) => if tx.len() == 13 {
                let cc = Value::present(Value::Str(copy_range(&tx, 0, 3)));
                let g1 = Value::Str(copy_range(&tx, 3, 6));
                let g2 = Value::Str(copy_range(&tx, 6, 9));
                let g3 = Value::Str(copy_range(&tx, 9, 13));
                Value::pair(cc, Value::pair(g1, Value::pair(g2, g3)))
            } else {
                Value::Str(tx)
            },
            other => other,
        },
        Transform::SplitPhone10 => match v {
            Value::Str(tx) => if tx.len() == 10 {
                let g1 = Value::Str(copy_range(&tx, 0, 3));
                let g2 = Value::Str(copy_range(&tx, 3, 6));
                let g3 = Value::Str(copy_range(&tx, 6, 10));
                Value::pair(Value::absent(), Value::pair(g1, Value::pair(g2, g3)))
            } else {
                Value::Str(tx)
            },
            other => other,
        },
        Transform::UnwrapDefault => match v {
            Value::MaybeV(o) => match o {
                Some(b) => *b,
                None => Value::Str(Vec::new()),
            },
            other => other,
        },
        Transform::UnwrapList => match v {
            Value::MaybeV(o) => match o {
                Some(b) => *b,
                None => {
                    let empty: Vec<Value> = Vec::new();
                    proof {
                        assert(vs_list_of(empty@) =~= Seq::<VS>::empty());
                    }
                    Value::List(empty)
                },
            },
            other => other,
        },
        Transform::UnwrapNum => match v {
            Value::MaybeV(o) => match o {
                Some(b) => *b,
                None => Value::Int(0),
            },
            other => other,
        },
        Transform::Replace(c) => Value::Ch(*c),
    }
}

} // verus!
