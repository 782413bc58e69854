//! Ghost semantics of the combinator algebra.
//!
//! [`PV`] mirrors a parser as pure data, and [`p_run`] is the mathematical
//! interpreter: given the parsers a grammar's deferred rules refer to, a
//! parser, the remaining input and a recursion budget, it says exactly which
//! outcome the engine produces.  Every executable entry point of the crate is
//! proved equal to `p_run`.

use crate::text::dec_digits;
use crate::value::VS;
use vstd::prelude::*;

verus! {

/// A character test used by predicate-based consumption.
#[derive(Clone, Copy, Debug)]
pub enum Pred {
    /// An ASCII letter.
    Alpha,
    /// An ASCII decimal digit.
    Digit,
    /// An ASCII punctuation character.
    Punct,
    /// One of the whitespace characters space, tab, carriage return and
    /// newline, exactly.
    White,
    /// Exactly the given character.
    Exact(char),
}

/// A pure transformation applied by the mapping combinator.
#[derive(Clone, Copy, Debug)]
pub enum Transform {
    /// Collect all characters of a value into a single text value.
    Flatten,
    /// Flatten, then read the text as a decimal integer; `0` when it is not one.
    ToNum,
    /// Turn a pair of lists into the concatenated list.
    AppendLists,
    /// Split thirteen digits into a country code and the three phone groups.
    SplitPhone13,
    /// Split ten digits into the three phone groups, with no country code.
    SplitPhone10,
    /// Replace an absent optional value by empty text.
    UnwrapDefault,
    /// Replace an absent optional value by an empty list.
    UnwrapList,
    /// Replace an absent optional value by the integer zero.
    UnwrapNum,
    /// Replace any value by the given character.
    Replace(char),
}

/// Ghost mirror of a parser.
#[verifier::ext_equal]
pub enum PV {
    IfTake(Pred),
    Sym(char),
    Text(Seq<char>),
    OneOf(Seq<u8>),
    NoneOf(Seq<u8>),
    AnyCh,
    EndMark,
    Apply(Box<PV>, Transform),
    Both(Box<PV>, Box<PV>),
    Either(Box<PV>, Box<PV>),
    SkipLeft(Box<PV>, Box<PV>),
    SkipRight(Box<PV>, Box<PV>),
    Many(Box<PV>, usize, Option<usize>),
    Perhaps(Box<PV>),
    Peek(Box<PV>),
    Reject(Box<PV>),
    IntoInt(Box<PV>),
    Tag(Box<PV>, Seq<char>),
    Rule(usize),
}

/// Ghost mirror of a parse error.
#[verifier::ext_equal]
pub struct ES {
    pub actual: Seq<char>,
    pub expected: Seq<char>,
    pub remaining: Seq<char>,
}

/// Outcome of running a parser: the value and the unconsumed suffix, or an error.
#[verifier::ext_equal]
pub enum RR {
    Good(VS, Seq<char>),
    Bad(ES),
}

/// Outcome of the greedy repetition loop: the values collected, the
/// remaining input, and the error that stopped the loop, if one did.
#[verifier::ext_equal]
pub struct RepOut {
    pub items: Seq<VS>,
    pub rest: Seq<char>,
    pub stop: Option<ES>,
}

/// Whether `c` passes the character test `p`.
pub open spec fn pred_ok(p: Pred, c: char) -> bool {
    match p {
        Pred::Alpha => (97 <= c as u32 <= 122) || (65 <= c as u32 <= 90),
        Pred::Digit => 48 <= c as u32 <= 57,
        Pred::Punct => (33 <= c as u32 <= 47) || (58 <= c as u32 <= 64) || (91 <= c as u32 <= 96)
            || (123 <= c as u32 <= 126),
        Pred::White => c == ' ' || c == '\t' || c == '\r' || c == '\n',
        Pred::Exact(d) => c == d,
    }
}

/// Whether the low byte of `c` is one of `opts`.
pub open spec fn byte_in(opts: Seq<u8>, c: char) -> bool {
    opts.contains(c as u8)
}

/// The first character of `s`, or the NUL sentinel when `s` is exhausted.
pub open spec fn head_or_nul(s: Seq<char>) -> char {
    if s.len() > 0 {
        s[0]
    } else {
        '\0'
    }
}

/// One quoted character of a class description.
pub open spec fn char_item(b: u8) -> Seq<char> {
    seq!['\'', b as char, '\'']
}

/// The comma-separated quoted characters of a class description.
pub open spec fn char_items(opts: Seq<u8>) -> Seq<char>
    decreases opts.len(),
{
    if opts.len() == 0 {
        Seq::empty()
    } else if opts.len() == 1 {
        char_item(opts[0])
    } else {
        char_item(opts[0]) + ", "@ + char_items(opts.skip(1))
    }
}

/// The bracketed description of a character class.
pub open spec fn char_list(opts: Seq<u8>) -> Seq<char> {
    "["@ + char_items(opts) + "]"@
}

/// The expectation text of a bounded repetition.
pub open spec fn many_label(l: Seq<char>, lo: usize, hi: Option<usize>) -> Seq<char> {
    l + " Included("@ + dec_digits(lo as nat) + ").."@ + (match hi {
        None => "Unbounded"@,
        Some(h) => "Included("@ + dec_digits(h as nat) + ")"@,
    }) + " times"@
}

/// The expectation label of a parser, used only in failure diagnostics.
pub open spec fn label_of(p: PV) -> Seq<char>
    decreases p,
{
    match p {
        PV::IfTake(_) => "result of if_take input"@,
        PV::Sym(c) => seq![c],
        PV::Text(l) => l,
        PV::OneOf(o) => "one of "@ + char_list(o),
        PV::NoneOf(o) => "none of "@ + char_list(o),
        PV::AnyCh => "any character"@,
        PV::EndMark => "EOF"@,
        PV::Apply(q, _) => label_of(*q),
        PV::Both(a, _) => label_of(*a),
        PV::Either(_, b) => label_of(*b),
        PV::SkipLeft(_, b) => label_of(*b),
        PV::SkipRight(a, _) => label_of(*a),
        PV::Many(q, lo, hi) => many_label(label_of(*q), lo, hi),
        PV::Perhaps(q) => "Optionally "@ + label_of(*q),
        PV::Peek(q) => label_of(*q),
        PV::Reject(q) => "Not "@ + label_of(*q),
        PV::IntoInt(q) => label_of(*q),
        PV::Tag(_, l) => l,
        PV::Rule(_) => "result from recursive Parser"@,
    }
}

/// The character held by a value, or the NUL sentinel.
pub open spec fn ch_of(v: VS) -> char {
    match v {
        VS::Ch(c) => c,
        _ => '\0',
    }
}

/// The characters of a list of single-character values.
pub open spec fn list_chars(vs: Seq<VS>) -> Seq<char> {
    Seq::new(vs.len(), |i: int| ch_of(vs[i]))
}

/// The decimal rendering of an integer, with its sign.
pub open spec fn int_chars(n: int) -> Seq<char> {
    if n < 0 {
        seq!['-'] + dec_digits((-n) as nat)
    } else {
        dec_digits(n as nat)
    }
}

/// All characters of a value, in order.
pub open spec fn flat(v: VS) -> Seq<char>
    decreases v,
{
    match v {
        VS::Unit => Seq::empty(),
        VS::Ch(c) => seq![c],
        VS::Str(t) => t,
        VS::Int(n) => int_chars(n),
        VS::Pair(a, b) => flat(*a) + flat(*b),
        VS::List(vs) => list_chars(vs),
        VS::MaybeV(o) => match o {
            Some(b) => flat(*b),
            None => Seq::empty(),
        },
    }
}

/// Whether `c` is a decimal digit.
pub open spec fn is_digit(c: char) -> bool {
    48 <= c as u32 <= 57
}

/// Whether every character of `t` is a decimal digit.
pub open spec fn all_digits(t: Seq<char>) -> bool {
    forall|i: int| 0 <= i < t.len() ==> is_digit(#[trigger] t[i])
}

/// The number denoted by a sequence of decimal digits.
pub open spec fn dec_val(t: Seq<char>) -> int
    decreases t.len(),
{
    if t.len() == 0 {
        0
    } else {
        dec_val(t.drop_last()) * 10 + (t.last() as u32 - 48)
    }
}

/// Reads `t` as an optionally signed decimal integer within the 32-bit
/// signed range; `None` when `t` is not such a number.
pub open spec fn conv_i32(t: Seq<char>) -> Option<int> {
    let neg = t.len() > 0 && t[0] == '-';
    let signed = t.len() > 0 && (t[0] == '-' || t[0] == '+');
    let ds = if signed {
        t.skip(1)
    } else {
        t
    };
    if ds.len() == 0 || !all_digits(ds) {
        None
    } else {
        let m = dec_val(ds);
        let n = if neg {
            -m
        } else {
            m
        };
        if -2147483648 <= n <= 2147483647 {
            Some(n)
        } else {
            None
        }
    }
}

/// What the mapping combinator does to a successful value.
pub open spec fn apply_t(t: Transform, v: VS) -> VS {
    match t {
        Transform::Flatten => VS::Str(flat(v)),
        Transform::ToNum => VS::Int(
            match conv_i32(flat(v)) {
                Some(n) => n,
                None => 0,
            },
        ),
        Transform::AppendLists => match v {
            VS::Pair(a, b) => match (*a, *b) {
                (VS::List(x), VS::List(y)) => VS::List(x + y),
                _ => v,
            },
            _ => v,
        },
        Transform::SplitPhone13 => match v {
            VS::Str(t) => if t.len() == 13 {
                VS::Pair(
                    Box::new(VS::MaybeV(Some(Box::new(VS::Str(t.subrange(0, 3)))))),
                    Box::new(
                        VS::Pair(
                            Box::new(VS::Str(t.subrange(3, 6))),
                            Box::new(
                                VS::Pair(
                                    Box::new(VS::Str(t.subrange(6, 9))),
                                    Box::new(VS::Str(t.subrange(9, 13))),
                                ),
                            ),
                        ),
                    ),
                )
            } else {
                v
            },
            _ => v,
        },
        Transform::SplitPhone10 => match v {
            VS::Str(t) => if t.len() == 10 {
                VS::Pair(
                    Box::new(VS::MaybeV(None)),
                    Box::new(
                        VS::Pair(
                            Box::new(VS::Str(t.subrange(0, 3))),
                            Box::new(
                                VS::Pair(
                                    Box::new(VS::Str(t.subrange(3, 6))),
                                    Box::new(VS::Str(t.subrange(6, 10))),
                                ),
                            ),
                        ),
                    ),
                )
            } else {
                v
            },
            _ => v,
        },
        Transform::UnwrapDefault => match v {
            VS::MaybeV(o) => match o {
                Some(b) => *b,
                None => VS::Str(Seq::empty()),
            },
            _ => v,
        },
        Transform::UnwrapList => match v {
            VS::MaybeV(o) => match o {
                Some(b) => *b,
                None => VS::List(Seq::empty()),
            },
            _ => v,
        },
        Transform::UnwrapNum => match v {
            VS::MaybeV(o) => match o {
                Some(b) => *b,
                None => VS::Int(0),
            },
            _ => v,
        },
        Transform::Replace(c) => VS::Ch(c),
    }
}

/// The error a deferred rule reports when it cannot be followed: the rule is
/// absent from the rule table, or the recursion budget is spent.
pub open spec fn rule_err(s: Seq<char>) -> ES {
    ES { actual: s, expected: "result from recursive Parser"@, remaining: s }
}

/// The error of a failed numeric conversion.
pub open spec fn conv_err(s: Seq<char>) -> ES {
    ES { actual: s, expected: "A convertible value"@, remaining: s }
}

/// Runs parser `p` on the remaining input `s`.
///
/// `rules` gives the parsers that deferred references (`PV::Rule`) denote,
/// and `fuel` bounds how many deferred references may be followed; nothing
/// else consumes fuel.
pub open spec fn p_run(rules: Seq<PV>, p: PV, s: Seq<char>, fuel: nat) -> RR
    decreases fuel, p, 0nat,
{
    match p {
        PV::IfTake(pr) => if s.len() > 0 && pred_ok(pr, s[0]) {
            RR::Good(VS::Ch(s[0]), s.skip(1))
        } else {
            RR::Bad(
                ES {
                    actual: seq![head_or_nul(s)],
                    expected: "Result of if_take input"@,
                    remaining: s,
                },
            )
        },
        PV::Sym(c) => if s.len() > 0 && s[0] == c {
            RR::Good(VS::Ch(c), s.skip(1))
        } else {
            RR::Bad(ES { actual: seq![head_or_nul(s)], expected: seq![c], remaining: s })
        },
        PV::Text(l) => if l.is_prefix_of(s) {
            RR::Good(VS::Str(l), s.skip(l.len() as int))
        } else {
            RR::Bad(
                ES {
                    actual: s.take(
                        if l.len() <= s.len() {
                            l.len() as int
                        } else {
                            s.len() as int
                        },
                    ),
                    expected: l,
                    remaining: s,
                },
            )
        },
        PV::OneOf(o) => if s.len() > 0 && byte_in(o, s[0]) {
            RR::Good(VS::Ch(s[0]), s.skip(1))
        } else {
            RR::Bad(
                ES {
                    actual: seq![head_or_nul(s)],
                    expected: "one of "@ + char_list(o),
                    remaining: s,
                },
            )
        },
        PV::NoneOf(o) => if s.len() > 0 && !byte_in(o, s[0]) {
            RR::Good(VS::Ch(s[0]), s.skip(1))
        } else {
            RR::Bad(
                ES {
                    actual: seq![head_or_nul(s)],
                    expected: "none of "@ + char_list(o),
                    remaining: s,
                },
            )
        },
        PV::AnyCh => if s.len() > 0 {
            RR::Good(VS::Ch(s[0]), s.skip(1))
        } else {
            RR::Bad(ES { actual: seq!['\0'], expected: "any character"@, remaining: s })
        },
        PV::EndMark => if s.len() == 0 {
            RR::Good(VS::Unit, s)
        } else {
            RR::Bad(ES { actual: seq![s[0]], expected: "EOF"@, remaining: s })
        },
        PV::Apply(q, t) => match p_run(rules, *q, s, fuel) {
            RR::Good(v, r) => RR::Good(apply_t(t, v), r),
            RR::Bad(e) => RR::Bad(e),
        },
        PV::Both(a, b) => match p_run(rules, *a, s, fuel) {
            RR::Good(va, r1) => match p_run(rules, *b, r1, fuel) {
                RR::Good(vb, r2) => RR::Good(VS::Pair(Box::new(va), Box::new(vb)), r2),
                RR::Bad(e) => RR::Bad(e),
            },
            RR::Bad(e) => RR::Bad(e),
        },
        PV::Either(a, b) => match p_run(rules, *a, s, fuel) {
            RR::Good(v, r) => RR::Good(v, r),
            RR::Bad(_) => p_run(rules, *b, s, fuel),
        },
        PV::SkipLeft(a, b) => match p_run(rules, *a, s, fuel) {
            RR::Good(_, r1) => p_run(rules, *b, r1, fuel),
            RR::Bad(e) => RR::Bad(e),
        },
        PV::SkipRight(a, b) => match p_run(rules, *a, s, fuel) {
            RR::Good(va, r1) => match p_run(rules, *b, r1, fuel) {
                RR::Good(_, r2) => RR::Good(va, r2),
                RR::Bad(e) => RR::Bad(e),
            },
            RR::Bad(e) => RR::Bad(e),
        },
        PV::Many(q, lo, hi) => {
            let cnt: nat = match hi {
                Some(h) => h as nat,
                None => usize::MAX as nat,
            };
            let ro = rep_run(rules, *q, s, cnt, fuel);
            if ro.items.len() < lo as nat {
                match ro.stop {
                    Some(e) => RR::Bad(
                        ES {
                            actual: e.actual,
                            expected: many_label(label_of(*q), lo, hi),
                            remaining: e.remaining,
                        },
                    ),
                    None => RR::Good(VS::List(ro.items), ro.rest),
                }
            } else {
                RR::Good(VS::List(ro.items), ro.rest)
            }
        },
        PV::Perhaps(q) => match p_run(rules, *q, s, fuel) {
            RR::Good(v, r) => RR::Good(VS::MaybeV(Some(Box::new(v))), r),
            RR::Bad(_) => RR::Good(VS::MaybeV(None), s),
        },
        PV::Peek(q) => match p_run(rules, *q, s, fuel) {
            RR::Good(_, _) => RR::Good(VS::Unit, s),
            RR::Bad(e) => RR::Bad(ES { actual: s, expected: e.expected, remaining: s }),
        },
        PV::Reject(q) => match p_run(rules, *q, s, fuel) {
            RR::Good(_, r) => RR::Bad(
                ES {
                    actual: s,
                    expected: "Not "@ + s.take(s.len() - r.len()),
                    remaining: s,
                },
            ),
            RR::Bad(_) => RR::Good(VS::Unit, s),
        },
        PV::IntoInt(q) => match p_run(rules, *q, s, fuel) {
            RR::Good(v, r) => match v {
                VS::Str(t) => match conv_i32(t) {
                    Some(n) => RR::Good(VS::Int(n), r),
                    None => RR::Bad(conv_err(s)),
                },
                _ => RR::Bad(conv_err(s)),
            },
            RR::Bad(e) => RR::Bad(e),
        },
        PV::Tag(q, l) => match p_run(rules, *q, s, fuel) {
            RR::Good(v, r) => RR::Good(v, r),
            RR::Bad(e) => RR::Bad(ES { actual: e.actual, expected: l, remaining: e.remaining }),
        },
        PV::Rule(n) => if fuel == 0 || n >= rules.len() {
            RR::Bad(rule_err(s))
        } else {
            p_run(rules, rules[n as int], s, (fuel - 1) as nat)
        },
    }
}

/// Greedily runs `p` up to `count` times, threading the remaining input.
pub open spec fn rep_run(rules: Seq<PV>, p: PV, s: Seq<char>, count: nat, fuel: nat) -> RepOut
    decreases fuel, p, count,
{
    if count == 0 {
        RepOut { items: Seq::empty(), rest: s, stop: None }
    } else {
        match p_run(rules, p, s, fuel) {
            RR::Bad(e) => RepOut { items: Seq::empty(), rest: s, stop: Some(e) },
            RR::Good(v, r) => {
                let ro = rep_run(rules, p, r, (count - 1) as nat, fuel);
                RepOut { items: seq![v] + ro.items, rest: ro.rest, stop: ro.stop }
            },
        }
    }
}

} // verus!
