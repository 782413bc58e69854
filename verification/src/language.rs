//! Parsers for common language tokens: letters, digits, punctuation,
//! identifiers, quoted strings, numbers, and bracketed arrays.  All of them
//! are ordinary compositions of the atoms.

use crate::atoms::list;
use crate::atoms::list_ast;
use crate::atoms::none_of;
use crate::atoms::not;
use crate::atoms::one_of;
use crate::atoms::opt;
use crate::atoms::seq_no_ws;
use crate::atoms::seq_no_ws_ast;
use crate::atoms::space;
use crate::atoms::space_ast;
use crate::atoms::sym;
use crate::atoms::if_take;
use crate::parser::label_chars;
use crate::parser::Parser;
use crate::sem::label_of;
use crate::sem::Pred;
use crate::sem::Transform;
use crate::sem::PV;
use crate::text::chars_of_str;
use crate::text::push_chars;
use crate::text::push_str_chars;
use vstd::prelude::*;

verus! {

broadcast use crate::parser::parser_view_is_node;

/// An ASCII letter.
pub open spec fn alpha_ast() -> PV {
    PV::Tag(Box::new(PV::IfTake(Pred::Alpha)), "a letter"@)
}

/// Consumes an alphabetic character.
pub fn alpha() -> (r: Parser)
    ensures
        r@ == alpha_ast(),
{
    if_take(Pred::Alpha).label("a letter")
}

/// An ASCII decimal digit.
pub open spec fn numeral_ast() -> PV {
    PV::Tag(Box::new(PV::IfTake(Pred::Digit)), "a digit"@)
}

/// Consumes a numeric character.
pub fn numeral() -> (r: Parser)
    ensures
        r@ == numeral_ast(),
{
    if_take(Pred::Digit).label("a digit")
}

/// A letter or a digit.
pub open spec fn alphanumeric_ast() -> PV {
    PV::Tag(
        Box::new(PV::Either(Box::new(alpha_ast()), Box::new(numeral_ast()))),
        "an alphanumeric character"@,
    )
}

/// Consumes an alphanumeric character.
pub fn alphanumeric() -> (r: Parser)
    ensures
        r@ == alphanumeric_ast(),
{
    alpha().or(numeral()).label("an alphanumeric character")
}

/// An ASCII punctuation character.
pub open spec fn punctuation_ast() -> PV {
    PV::IfTake(Pred::Punct)
}

/// Consumes a punctuation character:
/// one of ! " # $ % & ' ( ) * + , - . / : ; < = > ? @ [ \ ] ^ _ ` { | } ~
pub fn punctuation() -> (r: Parser)
    ensures
        r@ == punctuation_ast(),
{
    if_take(Pred::Punct)
}

/// A character that may stand in an identifier after the first position.
pub open spec fn ident_char_ast() -> PV {
    PV::Either(Box::new(alphanumeric_ast()), Box::new(PV::Sym('_')))
}

/// Consumes one identifier character.
fn ident_char() -> (r: Parser)
    ensures
        r@ == ident_char_ast(),
{
    alphanumeric().or(sym('_'))
}

/// An identifier: one to thirty-one identifier characters, guarded so that
/// input starting with anything but a letter is rejected outright.
pub open spec fn identifier_ast() -> PV {
    PV::SkipLeft(
        Box::new(
            PV::Reject(
                Box::new(
                    PV::SkipLeft(
                        Box::new(PV::Reject(Box::new(alpha_ast()))),
                        Box::new(
                            PV::Apply(
                                Box::new(PV::Many(Box::new(ident_char_ast()), 0, None)),
                                Transform::Flatten,
                            ),
                        ),
                    ),
                ),
            ),
        ),
        Box::new(
            PV::Apply(
                Box::new(PV::Many(Box::new(ident_char_ast()), 1, Some(31))),
                Transform::Flatten,
            ),
        ),
    )
}

/// Consumes an alphanumeric identifier.
pub fn identifier() -> (r: Parser)
    ensures
        r@ == identifier_ast(),
{
    let guard = not(not(alpha()).prefixes(ident_char().repeat(0, None).map(Transform::Flatten)));
    guard.prefixes(ident_char().repeat(1, Some(31)).map(Transform::Flatten))
}

/// The ten decimal digit bytes.
pub open spec fn digits_seq() -> Seq<u8> {
    seq![48u8, 49u8, 50u8, 51u8, 52u8, 53u8, 54u8, 55u8, 56u8, 57u8]
}

/// An unsigned run of digits, collected into text.
pub open spec fn integer_ast() -> PV {
    PV::Either(
        Box::new(
            PV::Apply(
                Box::new(PV::Many(Box::new(PV::OneOf(digits_seq())), 1, None)),
                Transform::Flatten,
            ),
        ),
        Box::new(PV::Text("0"@)),
    )
}

/// Consumes an unsigned run of digits.
fn integer_parser() -> (r: Parser)
    ensures
        r@ == integer_ast(),
{
    let mut ds: Vec<u8> = Vec::new();
    let mut b: u8 = 48;
    while b < 58
        invariant
            48 <= b <= 58,
            ds@.len() == b - 48,
            forall|j: int| 0 <= j < ds@.len() ==> ds@[j] == 48 + j,
        decreases 58 - b,
    {
        ds.push(b);
        b = b + 1;
    }
    proof {
        assert(ds@ =~= digits_seq());
    }
    one_of(ds.as_slice()).repeat(1, None).map(Transform::Flatten).or(crate::atoms::seq("0"))
}

/// A number: optional minus sign, integer part and optional fraction, each
/// part preceded by optional whitespace, flattened into text.
pub open spec fn number_ast() -> PV {
    PV::Tag(
        Box::new(
            PV::Apply(
                Box::new(
                    PV::Both(
                        Box::new(
                            PV::Both(
                                Box::new(
                                    PV::SkipLeft(
                                        Box::new(space_ast()),
                                        Box::new(PV::Perhaps(Box::new(PV::Sym('-')))),
                                    ),
                                ),
                                Box::new(
                                    PV::SkipLeft(Box::new(space_ast()), Box::new(integer_ast())),
                                ),
                            ),
                        ),
                        Box::new(
                            PV::SkipRight(
                                Box::new(
                                    PV::Perhaps(
                                        Box::new(
                                            PV::Both(
                                                Box::new(PV::Sym('.')),
                                                Box::new(integer_ast()),
                                            ),
                                        ),
                                    ),
                                ),
                                Box::new(space_ast()),
                            ),
                        ),
                    ),
                ),
                Transform::Flatten,
            ),
        ),
        "a number"@,
    )
}

/// Consumes a number, producing its text without inner whitespace.
pub fn number() -> (r: Parser)
    ensures
        r@ == number_ast(),
{
    let sign = space().prefixes(opt(sym('-')));
    let intpart = space().prefixes(integer_parser());
    let frac = opt(sym('.').and(integer_parser())).suffix(space());
    sign.and(intpart).and(frac).map(Transform::Flatten).label("a number")
}

/// One escapable character after a backslash, with its replacement.
pub open spec fn special_char_ast() -> PV {
    PV::Either(
        Box::new(
            PV::Either(
                Box::new(
                    PV::Either(
                        Box::new(
                            PV::Either(
                                Box::new(
                                    PV::Either(
                                        Box::new(
                                            PV::Either(
                                                Box::new(
                                                    PV::Either(
                                                        Box::new(
                                                            PV::Either(
                                                                Box::new(PV::Sym('\\')),
                                                                Box::new(PV::Sym('/')),
                                                            ),
                                                        ),
                                                        Box::new(PV::Sym('"')),
                                                    ),
                                                ),
                                                Box::new(PV::Sym('\'')),
                                            ),
                                        ),
                                        Box::new(
                                            PV::Apply(
                                                Box::new(PV::Sym('b')),
                                                Transform::Replace('\x08'),
                                            ),
                                        ),
                                    ),
                                ),
                                Box::new(
                                    PV::Apply(Box::new(PV::Sym('f')), Transform::Replace('\x0C')),
                                ),
                            ),
                        ),
                        Box::new(PV::Apply(Box::new(PV::Sym('n')), Transform::Replace('\n'))),
                    ),
                ),
                Box::new(PV::Apply(Box::new(PV::Sym('r')), Transform::Replace('\r'))),
            ),
        ),
        Box::new(PV::Apply(Box::new(PV::Sym('t')), Transform::Replace('\t'))),
    )
}

/// A quoted string: characters other than quote and backslash, or escape
/// sequences, between double quotes, collected into text.
pub open spec fn string_ast() -> PV {
    PV::Tag(
        Box::new(
            PV::Apply(
                Box::new(
                    PV::SkipRight(
                        Box::new(
                            PV::SkipLeft(
                                Box::new(PV::Sym('"')),
                                Box::new(
                                    PV::Many(
                                        Box::new(
                                            PV::Either(
                                                Box::new(PV::NoneOf(seq![92u8, 34u8])),
                                                Box::new(
                                                    PV::SkipLeft(
                                                        Box::new(PV::Sym('\\')),
                                                        Box::new(special_char_ast()),
                                                    ),
                                                ),
                                            ),
                                        ),
                                        0,
                                        None,
                                    ),
                                ),
                            ),
                        ),
                        Box::new(PV::Sym('"')),
                    ),
                ),
                Transform::Flatten,
            ),
        ),
        "a string"@,
    )
}

/// Consumes a quoted string, producing its unescaped contents.
pub fn string() -> (r: Parser)
    ensures
        r@ == string_ast(),
{
    let special = sym('\\').or(sym('/')).or(sym('"')).or(sym('\'')).or(
        sym('b').map(Transform::Replace('\x08')),
    ).or(sym('f').map(Transform::Replace('\x0C'))).or(sym('n').map(Transform::Replace('\n'))).or(
        sym('r').map(Transform::Replace('\r')),
    ).or(sym('t').map(Transform::Replace('\t')));
    let escape = sym('\\').prefixes(special);
    let mut stops: Vec<u8> = Vec::new();
    stops.push(92);
    stops.push(34);
    proof {
        assert(stops@ =~= seq![92u8, 34u8]);
    }
    let body = none_of(stops.as_slice()).or(escape).repeat(0, None);
    sym('"').prefixes(body).suffix(sym('"')).map(Transform::Flatten).label("a string")
}

/// A common language token: a string, a number, an identifier or a single
/// punctuation character, with surrounding whitespace consumed.
pub open spec fn token_ast() -> PV {
    PV::Tag(
        Box::new(
            PV::SkipRight(
                Box::new(
                    PV::SkipLeft(
                        Box::new(space_ast()),
                        Box::new(
                            PV::Either(
                                Box::new(
                                    PV::Either(
                                        Box::new(
                                            PV::Either(
                                                Box::new(string_ast()),
                                                Box::new(number_ast()),
                                            ),
                                        ),
                                        Box::new(identifier_ast()),
                                    ),
                                ),
                                Box::new(
                                    PV::Apply(Box::new(punctuation_ast()), Transform::Flatten),
                                ),
                            ),
                        ),
                    ),
                ),
                Box::new(space_ast()),
            ),
        ),
        "one of string, number, identifier, or punctuation"@,
    )
}

/// Consumes a common language token as text.
pub fn token() -> (r: Parser)
    ensures
        r@ == token_ast(),
{
    let choice = string().or(number()).or(identifier()).or(
        punctuation().map(Transform::Flatten),
    );
    space().prefixes(choice).suffix(space()).label(
        "one of string, number, identifier, or punctuation",
    )
}

/// A bracketed array of items separated by commas, with the bracket
/// literals taken with surrounding whitespace.
pub open spec fn array_ast(begin: Seq<char>, item: PV, end: Seq<char>) -> PV {
    PV::Tag(
        Box::new(
            PV::SkipRight(
                Box::new(
                    PV::SkipLeft(
                        Box::new(seq_no_ws_ast(begin)),
                        Box::new(list_ast(item, seq_no_ws_ast(","@))),
                    ),
                ),
                Box::new(seq_no_ws_ast(end)),
            ),
        ),
        "An array of 0 or more "@ + label_of(item) + "(s)"@,
    )
}

/// Consumes an array of items between `begin` and `end`, producing the
/// list of item values.
pub fn array(begin: &str, item: Parser, end: &str) -> (r: Parser)
    ensures
        r@ == array_ast(begin@, item@, end@),
{
    let mut lab = chars_of_str("An array of 0 or more ");
    let il = label_chars(&item.node);
    push_chars(&mut lab, &il);
    push_str_chars(&mut lab, "(s)");
    let core = seq_no_ws(begin).prefixes(list(item, seq_no_ws(","))).suffix(seq_no_ws(end));
    core.label_vec(lab)
}

} // verus!
