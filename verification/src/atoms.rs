//! The primitive atoms and structural combinators needed for writing any
//! parser: single characters, literals, classes, whitespace, end of input,
//! lookahead assertions, optional and separated repetition, and deferred
//! rules for self-referential grammars.

use crate::parser::pv_of;
use crate::parser::Node;
use crate::parser::Parser;
use crate::sem::Pred;
use crate::sem::Transform;
use crate::sem::PV;
use crate::text::chars_of_str;
use vstd::prelude::*;

verus! {

broadcast use crate::parser::parser_view_is_node;

/// Consumes one character if it passes the test `if_fn`.
pub fn if_take(if_fn: Pred) -> (r: Parser)
    ensures
        r@ == PV::IfTake(if_fn),
{
    Parser::new(Node::IfTake(if_fn))
}

/// Consumes exactly the character `symbol`.
pub fn sym(symbol: char) -> (r: Parser)
    ensures
        r@ == PV::Sym(symbol),
{
    Parser::new(Node::Sym(symbol))
}

/// Consumes exactly the literal `sequence`.
pub fn seq(sequence: &str) -> (r: Parser)
    ensures
        r@ == PV::Text(sequence@),
{
    Parser::new(Node::Text(chars_of_str(sequence)))
}

/// The whitespace parser: zero or more of exactly the characters space,
/// tab, carriage return and newline, always succeeding with the consumed
/// text.
pub open spec fn space_ast() -> PV {
    PV::Tag(
        Box::new(
            PV::Apply(
                Box::new(PV::Many(Box::new(PV::IfTake(Pred::White)), 0, None)),
                Transform::Flatten,
            ),
        ),
        "whitespace"@,
    )
}

/// Consumes a run of whitespace, possibly empty, producing the consumed text.
pub fn space() -> (r: Parser)
    ensures
        r@ == space_ast(),
{
    if_take(Pred::White).repeat(0, None).map(Transform::Flatten).label("whitespace")
}

/// The literal `l` with surrounding whitespace ignored.
pub open spec fn seq_no_ws_ast(l: Seq<char>) -> PV {
    PV::SkipRight(
        Box::new(PV::SkipLeft(Box::new(space_ast()), Box::new(PV::Text(l)))),
        Box::new(space_ast()),
    )
}

/// Consumes the literal `sequence`, ignoring whitespace before and after it.
pub fn seq_no_ws(sequence: &str) -> (r: Parser)
    ensures
        r@ == seq_no_ws_ast(sequence@),
{
    space().prefixes(seq(sequence)).suffix(space())
}

/// Wraps `parser` so it always succeeds: its value when it matches, an
/// absent marker otherwise, consuming nothing in the failing case.
pub fn opt(parser: Parser) -> (r: Parser)
    ensures
        r@ == PV::Perhaps(Box::new(parser@)),
{
    let ghost p0 = parser;
    let b = Box::new(parser.node);
    proof {
        crate::parser::parser_view_is_node(p0);
        assert(pv_of(*b) == p0@);
    }
    Parser::new(Node::Perhaps(b))
}

/// Consumes any single character; fails only at the end of the input.
pub fn any() -> (r: Parser)
    ensures
        r@ == PV::AnyCh,
{
    Parser::new(Node::AnyCh)
}

/// Consumes one character whose low byte is among `options`.
pub fn one_of(options: &[u8]) -> (r: Parser)
    ensures
        r@ == PV::OneOf(options@),
{
    Parser::new(Node::OneOf(vstd::slice::slice_to_vec(options)))
}

/// Consumes one character whose low byte is not among `options`.
pub fn none_of(options: &[u8]) -> (r: Parser)
    ensures
        r@ == PV::NoneOf(options@),
{
    Parser::new(Node::NoneOf(vstd::slice::slice_to_vec(options)))
}

/// Consumes nothing; succeeds exactly when `parser` fails here, and
/// otherwise fails reporting the input that unexpectedly matched.
pub fn not(parser: Parser) -> (r: Parser)
    ensures
        r@ == PV::Reject(Box::new(parser@)),
{
    let ghost p0 = parser;
    let b = Box::new(parser.node);
    proof {
        crate::parser::parser_view_is_node(p0);
        assert(pv_of(*b) == p0@);
    }
    Parser::new(Node::Reject(b))
}

/// Consumes nothing; succeeds exactly when `parser` would succeed here.
pub fn is(parser: Parser) -> (r: Parser)
    ensures
        r@ == PV::Peek(Box::new(parser@)),
{
    let ghost p0 = parser;
    let b = Box::new(parser.node);
    proof {
        crate::parser::parser_view_is_node(p0);
        assert(pv_of(*b) == p0@);
    }
    Parser::new(Node::Peek(b))
}

/// End of input, after skipping leading whitespace: succeeds, consuming no
/// character, exactly when nothing but whitespace remains.
pub open spec fn eof_ast() -> PV {
    PV::SkipLeft(Box::new(space_ast()), Box::new(PV::EndMark))
}

/// Succeeds exactly at the end of the input, skipping leading whitespace.
pub fn eof() -> (r: Parser)
    ensures
        r@ == eof_ast(),
{
    space().prefixes(Parser::new(Node::EndMark))
}

/// Zero or more `p` separated by `sep`, tolerating a trailing separator:
/// first every `p` followed by a separator, then at most one bare `p`.
pub open spec fn list_ast(p: PV, sep: PV) -> PV {
    PV::Apply(
        Box::new(
            PV::Both(
                Box::new(
                    PV::Many(Box::new(PV::SkipRight(Box::new(p), Box::new(sep))), 0, None),
                ),
                Box::new(PV::Many(Box::new(p), 0, Some(1))),
            ),
        ),
        Transform::AppendLists,
    )
}

/// Consumes a list of items separated by `sep`, with or without a trailing
/// separator, producing the list of item values.
pub fn list(parser: Parser, sep: Parser) -> (r: Parser)
    ensures
        r@ == list_ast(parser@, sep@),
{
    let again = parser.duplicate();
    parser.suffix(sep).repeat(0, None).and(again.repeat(0, Some(1))).map(Transform::AppendLists)
}

/// A deferred reference to rule number `rule` of the table handed to
/// [`Parser::parse_with`], so that grammars may refer to themselves.
pub fn rec(rule: usize) -> (r: Parser)
    ensures
        r@ == PV::Rule(rule),
{
    Parser::new(Node::Rule(rule))
}

} // verus!
