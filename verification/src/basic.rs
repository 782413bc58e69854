//! Everyday grammars built from the atoms: email addresses and North
//! American phone numbers.

use crate::atoms::any;
use crate::atoms::not;
use crate::atoms::opt;
use crate::atoms::seq_no_ws;
use crate::atoms::seq_no_ws_ast;
use crate::atoms::space;
use crate::atoms::space_ast;
use crate::atoms::sym;
use crate::language::alpha;
use crate::language::alpha_ast;
use crate::language::alphanumeric;
use crate::language::alphanumeric_ast;
use crate::language::identifier;
use crate::language::identifier_ast;
use crate::language::numeral;
use crate::language::numeral_ast;
use crate::parser::Parser;
use crate::sem::Transform;
use crate::sem::PV;
use crate::text::string_of_chars;
use crate::value::Value;
use crate::value::VS;
use vstd::prelude::*;

verus! {

/// A character allowed in the part of an email address before the `@`.
pub open spec fn email_char_ast() -> PV {
    PV::Either(
        Box::new(
            PV::Either(
                Box::new(PV::Either(Box::new(alphanumeric_ast()), Box::new(PV::Sym('-')))),
                Box::new(PV::Sym('_')),
            ),
        ),
        Box::new(PV::Sym('.')),
    )
}

/// An email address: guarded to start with a letter, then address
/// characters, an `@`, and a two-part domain joined with a dot.
pub open spec fn email_ast() -> PV {
    PV::SkipLeft(
        Box::new(
            PV::Reject(
                Box::new(
                    PV::SkipLeft(
                        Box::new(PV::Reject(Box::new(alpha_ast()))),
                        Box::new(
                            PV::Apply(
                                Box::new(PV::Many(Box::new(PV::AnyCh), 0, None)),
                                Transform::Flatten,
                            ),
                        ),
                    ),
                ),
            ),
        ),
        Box::new(
            PV::Both(
                Box::new(
                    PV::Apply(
                        Box::new(PV::Many(Box::new(email_char_ast()), 0, None)),
                        Transform::Flatten,
                    ),
                ),
                Box::new(
                    PV::SkipLeft(
                        Box::new(PV::Sym('@')),
                        Box::new(
                            PV::Apply(
                                Box::new(
                                    PV::Both(
                                        Box::new(identifier_ast()),
                                        Box::new(
                                            PV::Both(
                                                Box::new(PV::Sym('.')),
                                                Box::new(identifier_ast()),
                                            ),
                                        ),
                                    ),
                                ),
                                Transform::Flatten,
                            ),
                        ),
                    ),
                ),
            ),
        ),
    )
}

/// Parses an email address, producing the pair of the part before the `@`
/// and the domain after it.
pub fn email() -> (r: Parser)
    ensures
        r@ == email_ast(),
{
    let guard = not(not(alpha()).prefixes(any().repeat(0, None).map(Transform::Flatten)));
    let addr = alphanumeric().or(sym('-')).or(sym('_')).or(sym('.')).repeat(0, None).map(
        Transform::Flatten,
    );
    let domain = identifier().and(sym('.').and(identifier())).map(Transform::Flatten);
    guard.prefixes(addr.and(sym('@').prefixes(domain)))
}

/// The ghost mirror of a phone number.
#[verifier::ext_equal]
pub struct PNV {
    pub country_code: Option<Seq<char>>,
    pub area_code: Seq<char>,
    pub prefix: Seq<char>,
    pub line_number: Seq<char>,
}

/// A North American phone number: an optional country code and the three
/// digit groups.
#[derive(Debug, Clone)]
pub struct PhoneNumber {
    pub country_code: Option<String>,
    pub area_code: String,
    pub prefix: String,
    pub line_number: String,
}

impl View for PhoneNumber {
    type V = PNV;

    open spec fn view(&self) -> PNV {
        PNV {
            country_code: match self.country_code {
                Some(c) => Some(c@),
                None => None,
            },
            area_code: self.area_code@,
            prefix: self.prefix@,
            line_number: self.line_number@,
        }
    }
}

impl PartialEq for PhoneNumber {
    fn eq(&self, other: &PhoneNumber) -> (r: bool)
        ensures
            r == (self@ == other@),
    {
        let cc_eq: bool = match (&self.country_code, &other.country_code) {
            (None, None) => true,
            (Some(x), Some(y)) => *x == *y,
            _ => false,
        };
        cc_eq && self.area_code == other.area_code && self.prefix == other.prefix
            && self.line_number == other.line_number
    }
}

impl vstd::std_specs::cmp::PartialEqSpecImpl for PhoneNumber {
    open spec fn obeys_eq_spec() -> bool {
        true
    }

    open spec fn eq_spec(&self, other: &PhoneNumber) -> bool {
        self@ == other@
    }
}

/// The phone number a parsed value denotes, when it has the shape the
/// phone grammar produces: a pair of an optional country code text and the
/// three digit-group texts.
pub open spec fn phone_of_vs(v: VS) -> Option<PNV> {
    match v {
        VS::Pair(cc, rest) => match (*cc, *rest) {
            (VS::MaybeV(c), VS::Pair(a, pl)) => match (*a, *pl) {
                (VS::Str(area), VS::Pair(p, l)) => match (*p, *l) {
                    (VS::Str(prefix), VS::Str(line)) => match c {
                        None => Some(
                            PNV {
                                country_code: None,
                                area_code: area,
                                prefix,
                                line_number: line,
                            },
                        ),
                        Some(cv) => match *cv {
                            VS::Str(cs) => Some(
                                PNV {
                                    country_code: Some(cs),
                                    area_code: area,
                                    prefix,
                                    line_number: line,
                                },
                            ),
                            _ => None,
                        },
                    },
                    _ => None,
                },
                _ => None,
            },
            _ => None,
        },
        _ => None,
    }
}

impl PhoneNumber {
    /// Reads a parsed value back as a phone number, when it has the shape
    /// the phone grammar produces.
    pub fn from_value(v: &Value) -> (r: Option<PhoneNumber>)
        ensures
            match phone_of_vs(v@) {
                Some(pn) => r matches Some(p) && p@ == pn,
                None => r is None,
            },
    {
        proof {
            reveal_with_fuel(crate::value::vs_of, 8);
        }
        match v {
            Value::Pair(cc, rest) => match (&**cc, &**rest) {
                (Value::MaybeV(c), Value::Pair(a, pl)) => match (&**a, &**pl) {
                    (Value::Str(area), Value::Pair(p, l)) => match (&**p, &**l) {
                        (Value::Str(prefix), Value::Str(line)) => match c {
                            None => Some(
                                PhoneNumber {
                                    country_code: None,
                                    area_code: string_of_chars(area),
                                    prefix: string_of_chars(prefix),
                                    line_number: string_of_chars(line),
                                },
                            ),
                            Some(cv) => match &**cv {
                                Value::Str(cs) => Some(
                                    PhoneNumber {
                                        country_code: Some(string_of_chars(cs)),
                                        area_code: string_of_chars(area),
                                        prefix: string_of_chars(prefix),
                                        line_number: string_of_chars(line),
                                    },
                                ),
                                _ => None,
                            },
                        },
                        _ => None,
                    },
                    _ => None,
                },
                _ => None,
            },
            _ => None,
        }
    }
}

/// An optional country code after a `+`: up to three digits.
pub open spec fn phone_cc_ast() -> PV {
    PV::SkipLeft(
        Box::new(seq_no_ws_ast("+"@)),
        Box::new(
            PV::Apply(
                Box::new(PV::Many(Box::new(numeral_ast()), 0, Some(3))),
                Transform::Flatten,
            ),
        ),
    )
}

/// A digit group of exactly `n` digits after an optional dash.
pub open spec fn phone_group_ast(n: usize) -> PV {
    PV::SkipLeft(
        Box::new(PV::Perhaps(Box::new(seq_no_ws_ast("-"@)))),
        Box::new(
            PV::Apply(
                Box::new(PV::Many(Box::new(numeral_ast()), n, Some(n))),
                Transform::Flatten,
            ),
        ),
    )
}

/// A run of exactly `n` digits, each preceded by optional whitespace,
/// collected into text.
pub open spec fn phone_digits_ast(n: usize) -> PV {
    PV::Apply(
        Box::new(
            PV::SkipRight(
                Box::new(
                    PV::Many(
                        Box::new(PV::SkipLeft(Box::new(space_ast()), Box::new(numeral_ast()))),
                        n,
                        Some(n),
                    ),
                ),
                Box::new(space_ast()),
            ),
        ),
        Transform::Flatten,
    )
}

/// A phone number: dash-separated groups with an optional country code, or
/// thirteen digits, or ten digits.
pub open spec fn phone_number_ast() -> PV {
    PV::Either(
        Box::new(
            PV::Either(
                Box::new(
                    PV::Tag(
                        Box::new(
                            PV::Both(
                                Box::new(PV::Perhaps(Box::new(phone_cc_ast()))),
                                Box::new(
                                    PV::Both(
                                        Box::new(phone_group_ast(3)),
                                        Box::new(
                                            PV::Both(
                                                Box::new(phone_group_ast(3)),
                                                Box::new(phone_group_ast(4)),
                                            ),
                                        ),
                                    ),
                                ),
                            ),
                        ),
                        "a valid phone number"@,
                    ),
                ),
                Box::new(
                    PV::Tag(
                        Box::new(
                            PV::Apply(Box::new(phone_digits_ast(13)), Transform::SplitPhone13),
                        ),
                        "a valid phone number"@,
                    ),
                ),
            ),
        ),
        Box::new(
            PV::Tag(
                Box::new(PV::Apply(Box::new(phone_digits_ast(10)), Transform::SplitPhone10)),
                "a valid phone number"@,
            ),
        ),
    )
}

/// Parses a phone number into the shape [`phone_of_vs`] reads back.
pub fn phone_number() -> (r: Parser)
    ensures
        r@ == phone_number_ast(),
{
    let cc = seq_no_ws("+").prefixes(numeral().repeat(0, Some(3)).map(Transform::Flatten));
    let area = opt(seq_no_ws("-")).prefixes(numeral().repeat(3, Some(3)).map(Transform::Flatten));
    let prefix = opt(seq_no_ws("-")).prefixes(
        numeral().repeat(3, Some(3)).map(Transform::Flatten),
    );
    let line = opt(seq_no_ws("-")).prefixes(numeral().repeat(4, Some(4)).map(Transform::Flatten));
    let alt1 = opt(cc).and(area.and(prefix.and(line))).label("a valid phone number");
    let alt2 = space().prefixes(numeral()).repeat(13, Some(13)).suffix(space()).map(
        Transform::Flatten,
    ).map(Transform::SplitPhone13).label("a valid phone number");
    let alt3 = space().prefixes(numeral()).repeat(10, Some(10)).suffix(space()).map(
        Transform::Flatten,
    ).map(Transform::SplitPhone10).label("a valid phone number");
    alt1.or(alt2).or(alt3)
}

} // verus!
