//! The `Parser` and `Error` types and the combinator methods.
//!
//! A [`Parser`] holds a tree of combinator nodes; running it is interpreted
//! by a single recursive procedure whose behaviour is pinned, case by case,
//! to the ghost interpreter [`crate::sem::p_run`].  Composing parsers never
//! mutates the components: every method builds a new tree.

use crate::sem::char_list;
use crate::sem::label_of;
use crate::sem::many_label;
use crate::sem::ES;
use crate::sem::PV;
use crate::sem::Pred;
use crate::sem::Transform;
use crate::sem::RR;
use crate::text::chars_of_str;
use crate::text::copy_range;
use crate::text::dec_chars;
use crate::text::push_chars;
use crate::text::push_str_chars;
use crate::text::string_of_chars;
use crate::value::Value;
use vstd::prelude::*;

verus! {

/// One combinator node of a parser tree.
#[derive(Debug)]
pub enum Node {
    IfTake(Pred),
    Sym(char),
    Text(Vec<char>),
    OneOf(Vec<u8>),
    NoneOf(Vec<u8>),
    AnyCh,
    EndMark,
    Apply(Box<Node>, Transform),
    Both(Box<Node>, Box<Node>),
    Either(Box<Node>, Box<Node>),
    SkipLeft(Box<Node>, Box<Node>),
    SkipRight(Box<Node>, Box<Node>),
    Many(Box<Node>, usize, Option<usize>),
    Perhaps(Box<Node>),
    Peek(Box<Node>),
    Reject(Box<Node>),
    IntoInt(Box<Node>),
    Tag(Box<Node>, Vec<char>),
    Rule(usize),
}

/// The ghost mirror of a combinator node.
pub open spec fn pv_of(n: Node) -> PV
    decreases n,
{
    match n {
        Node::IfTake(p) => PV::IfTake(p),
        Node::Sym(c) => PV::Sym(c),
        Node::Text(l) => PV::Text(l@),
        Node::OneOf(o) => PV::OneOf(o@),
        Node::NoneOf(o) => PV::NoneOf(o@),
        Node::AnyCh => PV::AnyCh,
        Node::EndMark => PV::EndMark,
        Node::Apply(q, t) => PV::Apply(Box::new(pv_of(*q)), t),
        Node::Both(a, b) => PV::Both(Box::new(pv_of(*a)), Box::new(pv_of(*b))),
        Node::Either(a, b) => PV::Either(Box::new(pv_of(*a)), Box::new(pv_of(*b))),
        Node::SkipLeft(a, b) => PV::SkipLeft(Box::new(pv_of(*a)), Box::new(pv_of(*b))),
        Node::SkipRight(a, b) => PV::SkipRight(Box::new(pv_of(*a)), Box::new(pv_of(*b))),
        Node::Many(q, lo, hi) => PV::Many(Box::new(pv_of(*q)), lo, hi),
        Node::Perhaps(q) => PV::Perhaps(Box::new(pv_of(*q))),
        Node::Peek(q) => PV::Peek(Box::new(pv_of(*q))),
        Node::Reject(q) => PV::Reject(Box::new(pv_of(*q))),
        Node::IntoInt(q) => PV::IntoInt(Box::new(pv_of(*q))),
        Node::Tag(q, l) => PV::Tag(Box::new(pv_of(*q)), l@),
        Node::Rule(n) => PV::Rule(n),
    }
}

/// An immutable, shareable parser: a function value from an input string to
/// an outcome, represented as a tree of combinator nodes.
#[derive(Debug)]
pub struct Parser {
    pub(crate) node: Node,
}

impl View for Parser {
    type V = PV;

    closed spec fn view(&self) -> PV {
        pv_of(self.node)
    }
}

impl Parser {
    /// Creates a new parser from a combinator node.  This is mainly used
    /// to define the atomic combinators.
    pub fn new(node: Node) -> (r: Parser)
        ensures
            r@ == pv_of(node),
    {
        Parser { node }
    }
}

/// A parser's ghost mirror is the mirror of its node.
pub(crate) broadcast proof fn parser_view_is_node(p: Parser)
    ensures
        #[trigger] pv_of(p.node) == p@,
{
}

/// A structured parse failure: what was found, what was expected, and the
/// input remaining at the point of failure.  Errors are ordinary values,
/// never exceptions.
#[derive(Debug)]
pub struct Error {
    actual: Vec<char>,
    expected: Vec<char>,
    remaining_input: Vec<char>,
}

impl View for Error {
    type V = ES;

    closed spec fn view(&self) -> ES {
        ES { actual: self.actual@, expected: self.expected@, remaining: self.remaining_input@ }
    }
}

impl Error {
    /// Builds the failed outcome that reports `actual` where `expected` was
    /// wanted, with `remaining_input` left to parse.
    pub fn new(actual: &str, expected: &str, remaining_input: &str) -> (r: Result<Value, Error>)
        ensures
            r matches Err(e) && e@ == (ES {
                actual: actual@,
                expected: expected@,
                remaining: remaining_input@,
            }),
    {
        Err(
            Error {
                actual: chars_of_str(actual),
                expected: chars_of_str(expected),
                remaining_input: chars_of_str(remaining_input),
            },
        )
    }
}

impl PartialEq for Error {
    fn eq(&self, other: &Error) -> (r: bool)
        ensures
            r == (self@ == other@),
    {
        let r = crate::text::chars_eq(&self.actual, &other.actual) && crate::text::chars_eq(
            &self.expected,
            &other.expected,
        ) && crate::text::chars_eq(&self.remaining_input, &other.remaining_input);
        proof {
            if self@ == other@ {
                assert(self.actual@ == other.actual@);
            }
        }
        r
    }
}

impl vstd::std_specs::cmp::PartialEqSpecImpl for Error {
    open spec fn obeys_eq_spec() -> bool {
        true
    }

    open spec fn eq_spec(&self, other: &Error) -> bool {
        self@ == other@
    }
}

/// The remaining input with newlines removed, as shown in a rendered error.
pub open spec fn strip_newlines(s: Seq<char>) -> Seq<char> {
    s.filter(|c: char| c != '\n')
}

/// The human-readable rendering of a parse error.
pub open spec fn render_of(e: ES) -> Seq<char> {
    "Expected `"@ + e.expected + "` but found `"@ + e.actual + "` when parsing `"@
        + strip_newlines(e.remaining) + "`"@
}

/// One step of the newline-stripping proof: appending one character.
proof fn lemma_strip_push(s: Seq<char>, c: char)
    ensures
        strip_newlines(s.push(c)) == if c != '\n' {
            strip_newlines(s).push(c)
        } else {
            strip_newlines(s)
        },
{
    assert(s.push(c).drop_last() =~= s);
    reveal(Seq::filter);
}

impl Error {
    /// The human-readable account of this failure:
    /// ``Expected `..` but found `..` when parsing `..` ``, with newlines
    /// stripped from the remaining input.
    pub fn render(&self) -> (r: String)
        ensures
            r@ == render_of(self@),
    {
        let mut out = chars_of_str("Expected `");
        push_chars(&mut out, &self.expected);
        push_str_chars(&mut out, "` but found `");
        push_chars(&mut out, &self.actual);
        push_str_chars(&mut out, "` when parsing `");
        let n: usize = self.remaining_input.len();
        let mut i: usize = 0;
        let ghost mid = out@;
        while i < n
            invariant
                i <= n,
                n == self.remaining_input@.len(),
                out@ == mid + strip_newlines(self.remaining_input@.take(i as int)),
            decreases n - i,
        {
            let c: char = self.remaining_input[i];
            proof {
                lemma_strip_push(self.remaining_input@.take(i as int), c);
                assert(self.remaining_input@.take(i + 1) =~= self.remaining_input@.take(
                    i as int,
                ).push(c));
            }
            if c != '\n' {
                out.push(c);
            }
            i = i + 1;
        }
        proof {
            assert(self.remaining_input@.take(n as int) =~= self.remaining_input@);
        }
        push_str_chars(&mut out, "`");
        string_of_chars(&out)
    }
}

/// The result of invoking a parser: the parsed value and the remaining
/// input on success, or an [`Error`].
pub type Output = Result<(Value, String), Error>;

/// A fresh copy of a byte vector.
fn copy_bytes(v: &Vec<u8>) -> (r: Vec<u8>)
    ensures
        r@ == v@,
{
    let n: usize = v.len();
    let mut r: Vec<u8> = Vec::new();
    let mut i: usize = 0;
    while i < n
        invariant
            i <= n,
            n == v@.len(),
            r@ == v@.take(i as int),
        decreases n - i,
    {
        r.push(v[i]);
        i = i + 1;
        proof {
            assert(r@ =~= v@.take(i as int));
        }
    }
    proof {
        assert(v@.take(n as int) =~= v@);
    }
    r
}

/// A fresh copy of a character vector.
fn copy_chars(v: &Vec<char>) -> (r: Vec<char>)
    ensures
        r@ == v@,
{
    copy_range(v, 0, v.len())
}

/// A deep copy of a combinator node.
pub(crate) fn dup_node(n: &Node) -> (r: Node)
    ensures
        pv_of(r) == pv_of(*n),
    decreases n,
{
    match n {
        Node::IfTake(p) => Node::IfTake(*p),
        Node::Sym(c) => Node::Sym(*c),
        Node::Text(l) => Node::Text(copy_chars(l)),
        Node::OneOf(o) => Node::OneOf(copy_bytes(o)),
        Node::NoneOf(o) => Node::NoneOf(copy_bytes(o)),
        Node::AnyCh => Node::AnyCh,
        Node::EndMark => Node::EndMark,
        Node::Apply(q, t) => Node::Apply(Box::new(dup_node(q)), *t),
        Node::Both(a, b) => Node::Both(Box::new(dup_node(a)), Box::new(dup_node(b))),
        Node::Either(a, b) => Node::Either(Box::new(dup_node(a)), Box::new(dup_node(b))),
        Node::SkipLeft(a, b) => Node::SkipLeft(Box::new(dup_node(a)), Box::new(dup_node(b))),
        Node::SkipRight(a, b) => Node::SkipRight(Box::new(dup_node(a)), Box::new(dup_node(b))),
        Node::Many(q, lo, hi) => Node::Many(Box::new(dup_node(q)), *lo, *hi),
        Node::Perhaps(q) => Node::Perhaps(Box::new(dup_node(q))),
        Node::Peek(q) => Node::Peek(Box::new(dup_node(q))),
        Node::Reject(q) => Node::Reject(Box::new(dup_node(q))),
        Node::IntoInt(q) => Node::IntoInt(Box::new(dup_node(q))),
        Node::Tag(q, l) => Node::Tag(Box::new(dup_node(q)), copy_chars(l)),
        Node::Rule(k) => Node::Rule(*k),
    }
}

/// One step of the class-description proof: appending one more option.
proof fn lemma_char_items_push(s: Seq<u8>, b: u8)
    requires
        s.len() >= 1,
    ensures
        crate::sem::char_items(s.push(b)) == crate::sem::char_items(s) + ", "@
            + crate::sem::char_item(b),
    decreases s.len(),
{
    if s.len() == 1 {
        assert(s.push(b).skip(1) =~= seq![b]);
        assert(crate::sem::char_items(seq![b]) == crate::sem::char_item(b));
    } else {
        lemma_char_items_push(s.skip(1), b);
        assert(s.push(b).skip(1) =~= s.skip(1).push(b));
        assert(s.push(b)[0] == s[0]);
    }
}

/// The bracketed description of a character class, as characters.
fn char_list_chars(o: &Vec<u8>) -> (r: Vec<char>)
    ensures
        r@ == char_list(o@),
{
    let n: usize = o.len();
    let mut items: Vec<char> = Vec::new();
    let mut i: usize = 0;
    while i < n
        invariant
            i <= n,
            n == o@.len(),
            items@ == crate::sem::char_items(o@.take(i as int)),
        decreases n - i,
    {
        if i > 0 {
            push_str_chars(&mut items, ", ");
        }
        items.push('\'');
        items.push(o[i] as char);
        items.push('\'');
        proof {
            let pre = o@.take(i as int);
            assert(o@.take(i + 1) =~= pre.push(o@[i as int]));
            if i > 0 {
                lemma_char_items_push(pre, o@[i as int]);
                assert(items@ =~= crate::sem::char_items(pre) + ", "@ + crate::sem::char_item(
                    o@[i as int],
                ));
            } else {
                assert(items@ =~= crate::sem::char_item(o@[i as int]));
                assert(o@.take(1).len() == 1);
            }
        }
        i = i + 1;
    }
    let mut r: Vec<char> = Vec::new();
    push_str_chars(&mut r, "[");
    push_chars(&mut r, &items);
    push_str_chars(&mut r, "]");
    proof {
        assert(o@.take(n as int) =~= o@);
        assert(r@ =~= char_list(o@));
    }
    r
}

/// The expectation label of a node, as characters.
pub(crate) fn label_chars(n: &Node) -> (r: Vec<char>)
    ensures
        r@ == label_of(pv_of(*n)),
    decreases n, 0nat,
{
    match n {
        Node::IfTake(_) => chars_of_str("result of if_take input"),
        Node::Sym(c) => {
            let mut r: Vec<char> = Vec::new();
            r.push(*c);
            proof {
                assert(r@ =~= seq![*c]);
            }
            r
        },
        Node::Text(l) => copy_chars(l),
        Node::OneOf(o) => {
            let mut r = chars_of_str("one of ");
            let cl = char_list_chars(o);
            push_chars(&mut r, &cl);
            r
        },
        Node::NoneOf(o) => {
            let mut r = chars_of_str("none of ");
            let cl = char_list_chars(o);
            push_chars(&mut r, &cl);
            r
        },
        Node::AnyCh => chars_of_str("any character"),
        Node::EndMark => chars_of_str("EOF"),
        Node::Apply(q, _) => label_chars(q),
        Node::Both(a, _) => label_chars(a),
        Node::Either(_, b) => label_chars(b),
        Node::SkipLeft(_, b) => label_chars(b),
        Node::SkipRight(a, _) => label_chars(a),
        Node::Many(q, lo, hi) => many_label_chars(q, *lo, *hi),
        Node::Perhaps(q) => {
            let mut r = chars_of_str("Optionally ");
            let tail = label_chars(q);
            push_chars(&mut r, &tail);
            r
        },
        Node::Peek(q) => label_chars(q),
        Node::Reject(q) => {
            let mut r = chars_of_str("Not ");
            let tail = label_chars(q);
            push_chars(&mut r, &tail);
            r
        },
        Node::IntoInt(q) => label_chars(q),
        Node::Tag(_, l) => copy_chars(l),
        Node::Rule(_) => chars_of_str("result from recursive Parser"),
    }
}

/// The expectation text of a bounded repetition, as characters.
pub(crate) fn many_label_chars(q: &Node, lo: usize, hi: Option<usize>) -> (r: Vec<char>)
    ensures
        r@ == many_label(label_of(pv_of(*q)), lo, hi),
    decreases q, 1nat,
{
    let mut r = label_chars(q);
    push_str_chars(&mut r, " Included(");
    let lod = dec_chars(lo as u64);
    push_chars(&mut r, &lod);
    push_str_chars(&mut r, ")..");
    match hi {
        None => push_str_chars(&mut r, "Unbounded"),
        Some(h) => {
            push_str_chars(&mut r, "Included(");
            let hid = dec_chars(h as u64);
            push_chars(&mut r, &hid);
            push_str_chars(&mut r, ")");
        },
    }
    push_str_chars(&mut r, " times");
    r
}

impl Parser {
    /// The expectation label: a human-readable description of what this
    /// parser matches, used only in failure diagnostics.
    pub fn expectation(&self) -> (r: String)
        ensures
            r@ == label_of(self@),
    {
        let cs = label_chars(&self.node);
        string_of_chars(&cs)
    }
}

/// The ghost mirrors of a table of deferred rules.
pub open spec fn views_of(rs: Seq<Parser>) -> Seq<PV> {
    rs.map_values(|p: Parser| p@)
}

/// A fresh copy of the input from `pos` on.
fn tail_of(s: &Vec<char>, pos: usize) -> (r: Vec<char>)
    requires
        pos <= s@.len(),
    ensures
        r@ == s@.skip(pos as int),
{
    let r = copy_range(s, pos, s.len());
    proof {
        assert(s@.subrange(pos as int, s@.len() as int) =~= s@.skip(pos as int));
    }
    r
}

/// The single reported character at `pos`: the next one, or the NUL
/// sentinel at the end of the input.
fn head_vec(s: &Vec<char>, pos: usize) -> (r: Vec<char>)
    requires
        pos <= s@.len(),
    ensures
        r@ == seq![crate::sem::head_or_nul(s@.skip(pos as int))],
{
    let mut r: Vec<char> = Vec::new();
    if pos < s.len() {
        r.push(s[pos]);
    } else {
        r.push('\0');
    }
    proof {
        assert(r@ =~= seq![crate::sem::head_or_nul(s@.skip(pos as int))]);
    }
    r
}

/// Whether `c` passes the character test `p`, exactly as
/// [`crate::sem::pred_ok`] says.
fn pred_exec(p: &Pred, c: char) -> (r: bool)
    ensures
        r == crate::sem::pred_ok(*p, c),
{
    let cu: u32 = c as u32;
    match p {
        Pred::Alpha => (97 <= cu && cu <= 122) || (65 <= cu && cu <= 90),
        Pred::Digit => 48 <= cu && cu <= 57,
        Pred::Punct => (33 <= cu && cu <= 47) || (58 <= cu && cu <= 64) || (91 <= cu && cu <= 96)
            || (123 <= cu && cu <= 126),
        Pred::White => c == ' ' || c == '\t' || c == '\r' || c == '\n',
        Pred::Exact(d) => c == *d,
    }
}

/// Whether the low byte of `c` is one of `o`, exactly as
/// [`crate::sem::byte_in`] says.
fn byte_in_exec(o: &Vec<u8>, c: char) -> (r: bool)
    ensures
        r == crate::sem::byte_in(o@, c),
{
    let b: u8 = c as u8;
    let n: usize = o.len();
    let mut i: usize = 0;
    while i < n
        invariant
            i <= n,
            n == o@.len(),
            b == c as u8,
            forall|j: int| 0 <= j < i ==> o@[j] != b,
        decreases n - i,
    {
        if o[i] == b {
            return true;
        }
        i = i + 1;
    }
    false
}

/// Runs the parser `node` on `s` from position `pos`, producing exactly the
/// outcome of the ghost interpreter [`p_run`] on the remaining input.
///
/// `rules` are the parsers that deferred references denote, and `fuel`
/// bounds how many deferred references may be followed.
#[verifier::loop_isolation(false)]
fn run(rules: &Vec<Parser>, node: &Node, s: &Vec<char>, pos: usize, fuel: usize) -> (r: Result<
    (Value, usize),
    Error,
>)
    requires
        pos <= s@.len(),
    ensures
        ({
            let out = crate::sem::p_run(
                views_of(rules@),
                pv_of(*node),
                s@.skip(pos as int),
                fuel as nat,
            );
            match r {
                Ok((v, q)) => pos <= q <= s@.len() && out == (RR::Good(v@, s@.skip(q as int))),
                Err(e) => out == RR::Bad(e@),
            }
        }),
    decreases fuel, node,
{
    let ghost rv = views_of(rules@);
    let ghost srem = s@.skip(pos as int);
    proof {
        assert(srem.len() == s@.len() - pos);
    }
    match node {
        Node::IfTake(p) => {
            if pos < s.len() {
                let c: char = s[pos];
                if pred_exec(p, c) {
                    proof {
                        assert(srem[0] == c);
                        assert(srem.skip(1) =~= s@.skip(pos + 1));
                    }
                    return Ok((Value::Ch(c), pos + 1));
                }
            }
            Err(
                Error {
                    actual: head_vec(s, pos),
                    expected: chars_of_str("Result of if_take input"),
                    remaining_input: tail_of(s, pos),
                },
            )
        },
        Node::Sym(c) => {
            if pos < s.len() && s[pos] == *c {
                proof {
                    assert(srem[0] == *c);
                    assert(srem.skip(1) =~= s@.skip(pos + 1));
                }
                return Ok((Value::Ch(*c), pos + 1));
            }
            let mut ex: Vec<char> = Vec::new();
            ex.push(*c);
            proof {
                assert(ex@ =~= seq![*c]);
            }
            Err(
                Error {
                    actual: head_vec(s, pos),
                    expected: ex,
                    remaining_input: tail_of(s, pos),
                },
            )
        },
        Node::Text(l) => {
            let n: usize = l.len();
            let avail: usize = s.len() - pos;
            let mut i: usize = 0;
            let mut matched: bool = true;
            while matched && i < n
                invariant
                    i <= n,
                    matched ==> i <= avail && forall|j: int|
                        0 <= j < i ==> s@[pos + j] == l@[j],
                    !matched ==> !l@.is_prefix_of(srem),
                decreases n - i, (if matched {
                    1int
                } else {
                    0int
                }),
            {
                if i < avail && s[pos + i] == l[i] {
                    i = i + 1;
                } else {
                    proof {
                        if l@.is_prefix_of(srem) {
                            assert(srem[i as int] == s@[pos + i]);
                            assert(l@[i as int] == srem.subrange(0, l@.len() as int)[i as int]);
                        }
                    }
                    matched = false;
                }
            }
            if matched {
                proof {
                    assert(l@.is_prefix_of(srem)) by {
                        assert forall|j: int| 0 <= j < l@.len() implies srem.subrange(
                            0,
                            l@.len() as int,
                        )[j] == l@[j] by {
                            assert(srem[j] == s@[pos + j]);
                        }
                        assert(l@ =~= srem.subrange(0, l@.len() as int));
                    }
                    assert(srem.skip(l@.len() as int) =~= s@.skip(pos + n));
                }
                Ok((Value::Str(copy_chars(l)), pos + n))
            } else {
                let m: usize = if n <= avail {
                    n
                } else {
                    avail
                };
                let actual = copy_range(s, pos, pos + m);
                proof {
                    assert(actual@ =~= srem.take(
                        if l@.len() <= srem.len() {
                            l@.len() as int
                        } else {
                            srem.len() as int
                        },
                    ));
                }
                Err(
                    Error {
                        actual,
                        expected: copy_chars(l),
                        remaining_input: tail_of(s, pos),
                    },
                )
            }
        },
        Node::OneOf(o) => {
            if pos < s.len() {
                let c: char = s[pos];
                if byte_in_exec(o, c) {
                    proof {
                        assert(srem[0] == c);
                        assert(srem.skip(1) =~= s@.skip(pos + 1));
                    }
                    return Ok((Value::Ch(c), pos + 1));
                }
            }
            Err(
                Error {
                    actual: head_vec(s, pos),
                    expected: label_chars(node),
                    remaining_input: tail_of(s, pos),
                },
            )
        },
        Node::NoneOf(o) => {
            if pos < s.len() {
                let c: char = s[pos];
                if !byte_in_exec(o, c) {
                    proof {
                        assert(srem[0] == c);
                        assert(srem.skip(1) =~= s@.skip(pos + 1));
                    }
                    return Ok((Value::Ch(c), pos + 1));
                }
            }
            Err(
                Error {
                    actual: head_vec(s, pos),
                    expected: label_chars(node),
                    remaining_input: tail_of(s, pos),
                },
            )
        },
        Node::AnyCh => {
            if pos < s.len() {
                let c: char = s[pos];
                proof {
                    assert(srem[0] == c);
                    assert(srem.skip(1) =~= s@.skip(pos + 1));
                }
                return Ok((Value::Ch(c), pos + 1));
            }
            let mut nul: Vec<char> = Vec::new();
            nul.push('\0');
            proof {
                assert(nul@ =~= seq!['\0']);
            }
            Err(
                Error {
                    actual: nul,
                    expected: chars_of_str("any character"),
                    remaining_input: tail_of(s, pos),
                },
            )
        },
        Node::EndMark => {
            if pos >= s.len() {
                return Ok((Value::Unit, pos));
            }
            let c: char = s[pos];
            proof {
                assert(srem[0] == c);
            }
            let mut actual: Vec<char> = Vec::new();
            actual.push(c);
            proof {
                assert(actual@ =~= seq![c]);
            }
            Err(
                Error {
                    actual,
                    expected: chars_of_str("EOF"),
                    remaining_input: tail_of(s, pos),
                },
            )
        },
        Node::Apply(q, tr) => match run(rules, q, s, pos, fuel) {
            Ok((v, q2)) => Ok((crate::apply::apply_tr(tr, v), q2)),
            Err(e) => Err(e),
        },
        Node::Both(a, b) => match run(rules, a, s, pos, fuel) {
            Ok((va, q1)) => match run(rules, b, s, q1, fuel) {
                Ok((vb, q2)) => Ok((Value::Pair(Box::new(va), Box::new(vb)), q2)),
                Err(e) => Err(e),
            },
            Err(e) => Err(e),
        },
        Node::Either(a, b) => match run(rules, a, s, pos, fuel) {
            Ok(x) => Ok(x),
            Err(_) => run(rules, b, s, pos, fuel),
        },
        Node::SkipLeft(a, b) => match run(rules, a, s, pos, fuel) {
            Ok((_, q1)) => run(rules, b, s, q1, fuel),
            Err(e) => Err(e),
        },
        Node::SkipRight(a, b) => match run(rules, a, s, pos, fuel) {
            Ok((va, q1)) => match run(rules, b, s, q1, fuel) {
                Ok((_, q2)) => Ok((va, q2)),
                Err(e) => Err(e),
            },
            Err(e) => Err(e),
        },
        Node::Many(q, lo, hi) => {
            let himax: usize = match hi {
                Some(h) => *h,
                None => usize::MAX,
            };
            let ghost cnt: nat = himax as nat;
            let ghost qv = pv_of(**q);
            let mut k: usize = 0;
            let mut cur: usize = pos;
            let mut acc: Vec<Value> = Vec::new();
            let mut failed: Option<Error> = None;
            proof {
                assert(crate::value::vs_list_of(acc@) =~= Seq::<crate::value::VS>::empty());
            }
            while k < himax && failed.is_none()
                invariant
                    pos <= cur <= s@.len(),
                    k <= himax,
                    acc@.len() == k as int,
                    match failed {
                        None => crate::sem::rep_run(rv, qv, srem, cnt, fuel as nat)
                            == (crate::sem::RepOut {
                            items: crate::value::vs_list_of(acc@) + crate::sem::rep_run(
                                rv,
                                qv,
                                s@.skip(cur as int),
                                (cnt - k) as nat,
                                fuel as nat,
                            ).items,
                            rest: crate::sem::rep_run(
                                rv,
                                qv,
                                s@.skip(cur as int),
                                (cnt - k) as nat,
                                fuel as nat,
                            ).rest,
                            stop: crate::sem::rep_run(
                                rv,
                                qv,
                                s@.skip(cur as int),
                                (cnt - k) as nat,
                                fuel as nat,
                            ).stop,
                        }),
                        Some(e) => crate::sem::rep_run(rv, qv, srem, cnt, fuel as nat)
                            == (crate::sem::RepOut {
                            items: crate::value::vs_list_of(acc@),
                            rest: s@.skip(cur as int),
                            stop: Some(e@),
                        }),
                    },
                decreases himax - k, (if failed.is_none() {
                    1int
                } else {
                    0int
                }),
            {
                let ghost pre = crate::value::vs_list_of(acc@);
                let ghost roc = crate::sem::rep_run(
                    rv,
                    qv,
                    s@.skip(cur as int),
                    (cnt - k) as nat,
                    fuel as nat,
                );
                match run(rules, q, s, cur, fuel) {
                    Ok((v, q2)) => {
                        proof {
                            let ghost ron = crate::sem::rep_run(
                                rv,
                                qv,
                                s@.skip(q2 as int),
                                (cnt - (k + 1)) as nat,
                                fuel as nat,
                            );
                            assert(roc.items == seq![v@] + ron.items);
                            assert(crate::value::vs_list_of(acc@.push(v)) =~= pre + seq![v@]);
                            assert(pre + (seq![v@] + ron.items) =~= (pre + seq![v@])
                                + ron.items);
                        }
                        acc.push(v);
                        cur = q2;
                        k = k + 1;
                    },
                    Err(e) => {
                        proof {
                            assert(roc.items =~= Seq::<crate::value::VS>::empty());
                            assert(pre + roc.items =~= pre);
                        }
                        failed = Some(e);
                    },
                }
            }
            match failed {
                Some(e) => {
                    if k < *lo {
                        let expected = many_label_chars(q, *lo, *hi);
                        let Error { actual, expected: _, remaining_input } = e;
                        Err(Error { actual, expected, remaining_input })
                    } else {
                        proof {
                            assert(crate::sem::rep_run(rv, qv, srem, cnt, fuel as nat).items.len()
                                >= *lo as nat);
                        }
                        Ok((Value::List(acc), cur))
                    }
                },
                None => {
                    proof {
                        assert(k == himax);
                        assert(crate::sem::rep_run(
                            rv,
                            qv,
                            s@.skip(cur as int),
                            0nat,
                            fuel as nat,
                        ).items =~= Seq::<crate::value::VS>::empty());
                        assert(crate::value::vs_list_of(acc@) + Seq::<crate::value::VS>::empty()
                            =~= crate::value::vs_list_of(acc@));
                    }
                    Ok((Value::List(acc), cur))
                },
            }
        },
        Node::Perhaps(q) => match run(rules, q, s, pos, fuel) {
            Ok((v, q2)) => Ok((Value::MaybeV(Some(Box::new(v))), q2)),
            Err(_) => Ok((Value::MaybeV(None), pos)),
        },
        Node::Peek(q) => match run(rules, q, s, pos, fuel) {
            Ok(_) => Ok((Value::Unit, pos)),
            Err(e) => {
                let Error { actual: _, expected, remaining_input: _ } = e;
                Err(
                    Error {
                        actual: tail_of(s, pos),
                        expected,
                        remaining_input: tail_of(s, pos),
                    },
                )
            },
        },
        Node::Reject(q) => match run(rules, q, s, pos, fuel) {
            Ok((_, q2)) => {
                let mut expected = chars_of_str("Not ");
                let consumed = copy_range(s, pos, q2);
                push_chars(&mut expected, &consumed);
                proof {
                    assert(consumed@ =~= srem.take(srem.len() - s@.skip(q2 as int).len()));
                }
                Err(
                    Error {
                        actual: tail_of(s, pos),
                        expected,
                        remaining_input: tail_of(s, pos),
                    },
                )
            },
            Err(_) => Ok((Value::Unit, pos)),
        },
        Node::IntoInt(q) => match run(rules, q, s, pos, fuel) {
            Ok((v, q2)) => {
                proof {
                    crate::apply::lemma_vs_shape(v);
                }
                match v {
                    Value::Str(t) => match crate::apply::conv_exec(&t) {
                        Some(m) => Ok((Value::Int(m), q2)),
                        None => Err(
                            Error {
                                actual: tail_of(s, pos),
                                expected: chars_of_str("A convertible value"),
                                remaining_input: tail_of(s, pos),
                            },
                        ),
                    },
                    _ => Err(
                        Error {
                            actual: tail_of(s, pos),
                            expected: chars_of_str("A convertible value"),
                            remaining_input: tail_of(s, pos),
                        },
                    ),
                }
            },
            Err(e) => Err(e),
        },
        Node::Tag(q, l) => match run(rules, q, s, pos, fuel) {
            Ok(x) => Ok(x),
            Err(e) => {
                let Error { actual, expected: _, remaining_input } = e;
                Err(Error { actual, expected: copy_chars(l), remaining_input })
            },
        },
        Node::Rule(k) => {
            if fuel == 0 || *k >= rules.len() {
                Err(
                    Error {
                        actual: tail_of(s, pos),
                        expected: chars_of_str("result from recursive Parser"),
                        remaining_input: tail_of(s, pos),
                    },
                )
            } else {
                let out = run(rules, &rules[*k].node, s, pos, fuel - 1);
                proof {
                    assert(rv[*k as int] == rules@[*k as int]@);
                }
                out
            }
        },
    }
}

impl Parser {
    /// Parses `input` with this parser, returning the parsed value or the
    /// error describing the failure.  The unconsumed suffix is dropped.
    ///
    /// Deferred rules are given an empty rule table here; grammars that use
    /// them are run with [`Parser::parse_with`].
    pub fn parse(&self, input: &str) -> (r: Result<Value, Error>)
        ensures
            ({
                let out = crate::sem::p_run(Seq::empty(), self@, input@, 0);
                &&& (r matches Ok(v) ==> out matches RR::Good(w, rest) && w == v@)
                &&& (r matches Err(e) ==> out == RR::Bad(e@))
            }),
    {
        let cs = chars_of_str(input);
        let empty_rules: Vec<Parser> = Vec::new();
        proof {
            assert(views_of(empty_rules@) =~= Seq::<PV>::empty());
            assert(cs@.skip(0) =~= input@);
        }
        match run(&empty_rules, &self.node, &cs, 0, 0) {
            Ok((v, _)) => Ok(v),
            Err(e) => Err(e),
        }
    }

    /// Parses `input`, returning the parsed value together with the
    /// unconsumed remaining input.  This is what composed parsers use to
    /// thread the input through each step.
    pub fn parse_internal(&self, input: &str) -> (r: Output)
        ensures
            ({
                let out = crate::sem::p_run(Seq::empty(), self@, input@, 0);
                &&& (r matches Ok(p) ==> out == RR::Good(p.0@, p.1@))
                &&& (r matches Err(e) ==> out == RR::Bad(e@))
            }),
    {
        let cs = chars_of_str(input);
        let empty_rules: Vec<Parser> = Vec::new();
        proof {
            assert(views_of(empty_rules@) =~= Seq::<PV>::empty());
            assert(cs@.skip(0) =~= input@);
        }
        match run(&empty_rules, &self.node, &cs, 0, 0) {
            Ok((v, q)) => {
                let rest = tail_of(&cs, q);
                Ok((v, string_of_chars(&rest)))
            },
            Err(e) => Err(e),
        }
    }

    /// Parses `input` with a table of deferred rules and a recursion budget:
    /// each deferred reference follows its rule, spending one unit of fuel.
    pub fn parse_with(&self, rules: &Vec<Parser>, input: &str, fuel: usize) -> (r: Result<
        Value,
        Error,
    >)
        ensures
            ({
                let out = crate::sem::p_run(views_of(rules@), self@, input@, fuel as nat);
                &&& (r matches Ok(v) ==> out matches RR::Good(w, rest) && w == v@)
                &&& (r matches Err(e) ==> out == RR::Bad(e@))
            }),
    {
        let cs = chars_of_str(input);
        proof {
            assert(cs@.skip(0) =~= input@);
        }
        match run(rules, &self.node, &cs, 0, fuel) {
            Ok((v, _)) => Ok(v),
            Err(e) => Err(e),
        }
    }

    /// Applies a pure transform to this parser's value; failures and the
    /// remaining input pass through unchanged.
    pub fn map(self, t: Transform) -> (r: Parser)
        ensures
            r@ == PV::Apply(Box::new(self@), t),
    {
        Parser { node: Node::Apply(Box::new(self.node), t) }
    }

    /// Requires this parser and then `operand` on what remains, keeping only
    /// `operand`'s value.
    pub fn prefixes(self, operand: Parser) -> (r: Parser)
        ensures
            r@ == PV::SkipLeft(Box::new(self@), Box::new(operand@)),
    {
        Parser { node: Node::SkipLeft(Box::new(self.node), Box::new(operand.node)) }
    }

    /// Requires this parser and then `operand` on what remains, keeping only
    /// this parser's value.
    pub fn suffix(self, operand: Parser) -> (r: Parser)
        ensures
            r@ == PV::SkipRight(Box::new(self@), Box::new(operand@)),
    {
        Parser { node: Node::SkipRight(Box::new(self.node), Box::new(operand.node)) }
    }

    /// Runs this parser and then `operand` on what remains, pairing their
    /// values; it succeeds only if both succeed.
    pub fn and(self, operand: Parser) -> (r: Parser)
        ensures
            r@ == PV::Both(Box::new(self@), Box::new(operand@)),
    {
        Parser { node: Node::Both(Box::new(self.node), Box::new(operand.node)) }
    }

    /// Tries this parser; on failure tries `operand` against the same input.
    pub fn or(self, operand: Parser) -> (r: Parser)
        ensures
            r@ == PV::Either(Box::new(self@), Box::new(operand@)),
    {
        Parser { node: Node::Either(Box::new(self.node), Box::new(operand.node)) }
    }

    /// Repeats this parser greedily between `lo` and `hi` times inclusive;
    /// `None` leaves the repetition unbounded above.
    pub fn repeat(self, lo: usize, hi: Option<usize>) -> (r: Parser)
        ensures
            r@ == PV::Many(Box::new(self@), lo, hi),
    {
        Parser { node: Node::Many(Box::new(self.node), lo, hi) }
    }

    /// Reads this parser's text value as an optionally signed decimal
    /// integer in the 32-bit signed range, failing when it is not one.
    pub fn convert(self) -> (r: Parser)
        ensures
            r@ == PV::IntoInt(Box::new(self@)),
    {
        Parser { node: Node::IntoInt(Box::new(self.node)) }
    }

    /// Replaces this parser's expectation text without altering its
    /// matching behaviour.
    pub fn label(self, text: &str) -> (r: Parser)
        ensures
            r@ == PV::Tag(Box::new(self@), text@),
    {
        Parser { node: Node::Tag(Box::new(self.node), chars_of_str(text)) }
    }

    /// Replaces this parser's expectation text by an already-built one.
    pub(crate) fn label_vec(self, l: Vec<char>) -> (r: Parser)
        ensures
            r@ == PV::Tag(Box::new(self@), l@),
    {
        Parser { node: Node::Tag(Box::new(self.node), l) }
    }

    /// A structurally identical copy of this parser; composition never
    /// mutates components, so both behave alike.
    pub fn duplicate(&self) -> (r: Parser)
        ensures
            r@ == self@,
    {
        Parser { node: dup_node(&self.node) }
    }
}

} // verus!
