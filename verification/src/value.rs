//! The dynamic result type produced by parsers.
//!
//! A parser yields one of a small universe of shapes: a single character, a
//! run of text, an integer, a pair (from sequencing), a list (from
//! repetition), an optional value, or nothing at all.  The ghost mirror
//! [`VS`] states the same shapes over mathematical sequences.

use vstd::prelude::*;

verus! {

broadcast use vstd::std_specs::vec::axiom_vec_index_decreases, vstd::seq::axiom_seq_index_decreases, vstd::std_specs::vec::axiom_vec_decreases_to_view;

/// Ghost mirror of a parsed value, over `Seq` and `int`.
#[verifier::ext_equal]
pub enum VS {
    Unit,
    Ch(char),
    Str(Seq<char>),
    Int(int),
    Pair(Box<VS>, Box<VS>),
    List(Seq<VS>),
    MaybeV(Option<Box<VS>>),
}

/// A value produced by a successful parse.
#[derive(Debug)]
pub enum Value {
    Unit,
    Ch(char),
    Str(Vec<char>),
    Int(i64),
    Pair(Box<Value>, Box<Value>),
    List(Vec<Value>),
    MaybeV(Option<Box<Value>>),
}

pub open spec fn vs_of(v: Value) -> VS
    decreases v,
{
    match v {
        Value::Unit => VS::Unit,
        Value::Ch(c) => VS::Ch(c),
        Value::Str(t) => VS::Str(t@),
        Value::Int(n) => VS::Int(n as int),
        Value::Pair(a, b) => VS::Pair(Box::new(vs_of(*a)), Box::new(vs_of(*b))),
        Value::List(vs) => VS::List(vs_list_of(vs@)),
        Value::MaybeV(o) => match o {
            Some(b) => VS::MaybeV(Some(Box::new(vs_of(*b)))),
            None => VS::MaybeV(None),
        },
    }
}

/// The ghost mirrors of a sequence of values, elementwise.
pub open spec fn vs_list_of(vs: Seq<Value>) -> Seq<VS>
    decreases vs,
{
    Seq::new(
        vs.len(),
        |i: int|
            if 0 <= i < vs.len() {
                vs_of(vs[i])
            } else {
                VS::Unit
            },
    )
}

impl View for Value {
    type V = VS;

    open spec fn view(&self) -> VS {
        vs_of(*self)
    }
}

impl Value {
    /// The empty value, produced by lookahead assertions and end-of-input.
    pub fn unit() -> (r: Value)
        ensures
            r@ == VS::Unit,
    {
        Value::Unit
    }

    /// A single-character value.
    pub fn ch(c: char) -> (r: Value)
        ensures
            r@ == VS::Ch(c),
    {
        Value::Ch(c)
    }

    /// A text value holding the characters of `s`.
    pub fn str_of(s: &str) -> (r: Value)
        ensures
            r@ == VS::Str(s@),
    {
        Value::Str(crate::text::chars_of_str(s))
    }

    /// An integer value.
    pub fn num(n: i64) -> (r: Value)
        ensures
            r@ == VS::Int(n as int),
    {
        Value::Int(n)
    }

    /// A pair of values, as produced by sequencing.
    pub fn pair(a: Value, b: Value) -> (r: Value)
        ensures
            r@ == VS::Pair(Box::new(a@), Box::new(b@)),
    {
        Value::Pair(Box::new(a), Box::new(b))
    }

    /// A list of values, as produced by repetition.
    pub fn list(vs: Vec<Value>) -> (r: Value)
        ensures
            r@ == VS::List(vs_list_of(vs@)),
    {
        Value::List(vs)
    }

    /// A present optional value.
    pub fn present(v: Value) -> (r: Value)
        ensures
            r@ == VS::MaybeV(Some(Box::new(v@))),
    {
        Value::MaybeV(Some(Box::new(v)))
    }

    /// An absent optional value.
    pub fn absent() -> (r: Value)
        ensures
            r@ == VS::MaybeV(None),
    {
        Value::MaybeV(None)
    }

    /// The text this value holds, when it is a text value.
    pub fn as_text(&self) -> (r: Option<String>)
        ensures
            match self@ {
                VS::Str(t) => r matches Some(s) && s@ == t,
                _ => r is None,
            },
    {
        proof {
            crate::apply::lemma_vs_shape(*self);
        }
        match self {
            Value::Str(v) => Some(crate::text::string_of_chars(v)),
            _ => None,
        }
    }
}

/// Whether two values are equal, which is exactly when their ghost
/// mirrors are.
#[verifier::loop_isolation(false)]
fn value_eq(a: &Value, b: &Value) -> (r: bool)
    ensures
        r == (a@ == b@),
    decreases a,
{
    proof {
        crate::apply::lemma_vs_shape(*a);
        crate::apply::lemma_vs_shape(*b);
    }
    match (a, b) {
        (Value::Unit, Value::Unit) => true,
        (Value::Ch(x), Value::Ch(y)) => x == y,
        (Value::Str(x), Value::Str(y)) => crate::text::chars_eq(x, y),
        (Value::Int(x), Value::Int(y)) => x == y,
        (Value::Pair(x1, x2), Value::Pair(y1, y2)) => value_eq(x1, y1) && value_eq(x2, y2),
        (Value::List(xs), Value::List(ys)) => {
            let n: usize = xs.len();
            if n != ys.len() {
                proof {
                    assert(vs_list_of(xs@).len() != vs_list_of(ys@).len());
                }
                return false;
            }
            let mut i: usize = 0;
            while i < n
                invariant
                    i <= n,
                    n == xs@.len() == ys@.len(),
                    forall|j: int| 0 <= j < i ==> vs_list_of(xs@)[j] == vs_list_of(ys@)[j],
                decreases n - i,
            {
                if !value_eq(&xs[i], &ys[i]) {
                    proof {
                        assert(vs_list_of(xs@)[i as int] != vs_list_of(ys@)[i as int]);
                    }
                    return false;
                }
                i = i + 1;
            }
            proof {
                assert(vs_list_of(xs@) =~= vs_list_of(ys@));
            }
            true
        },
        (Value::MaybeV(x), Value::MaybeV(y)) => match (x, y) {
            (None, None) => true,
            (Some(xv), Some(yv)) => value_eq(xv, yv),
            _ => false,
        },
        _ => false,
    }
}

impl PartialEq for Value {
    fn eq(&self, other: &Value) -> (r: bool)
        ensures
            r == (self@ == other@),
    {
        value_eq(self, other)
    }
}

impl vstd::std_specs::cmp::PartialEqSpecImpl for Value {
    open spec fn obeys_eq_spec() -> bool {
        true
    }

    open spec fn eq_spec(&self, other: &Value) -> bool {
        self@ == other@
    }
}

} // verus!
