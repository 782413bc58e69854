use comb::atoms::none_of;
use comb::atoms::one_of;
use comb::atoms::rec;
use comb::atoms::space;
use comb::atoms::sym;
use comb::language::array;
use comb::language::number;
use comb::language::numeral;
use comb::transform::collect;
use comb::Error;
use comb::Value;

#[test]
fn single_symbol_scenario() {
    // Matching a single character against "abc": value 'a', remaining "bc".
    assert_eq!(
        sym('a').parse_internal("abc"),
        Ok((Value::ch('a'), String::from("bc")))
    );
}

#[test]
fn literal_scenario() {
    // Matching the literal "foo" against "foobar".
    assert_eq!(
        comb::atoms::seq("foo").parse_internal("foobar"),
        Ok((Value::str_of("foo"), String::from("bar")))
    );
}

#[test]
fn alternation_scenario() {
    // The left alternative fails, the right one is tried on the original
    // input.
    assert_eq!(
        sym('a').or(sym('b')).parse_internal("bcd"),
        Ok((Value::ch('b'), String::from("cd")))
    );
    // When both fail, the reported error is the right side's.
    assert_eq!(
        sym('a').or(sym('b')).parse("zzz"),
        Error::new("z", "b", "zzz")
    );
}

#[test]
fn repetition_scenario() {
    // Repetition bounded [2, 4] against five matches stops at the bound.
    assert_eq!(
        sym('a').repeat(2, Some(4)).parse_internal("aaaaa"),
        Ok((
            Value::list(vec![
                Value::ch('a'),
                Value::ch('a'),
                Value::ch('a'),
                Value::ch('a'),
            ]),
            String::from("a")
        ))
    );
    // Below the lower bound the repetition fails with the bound in the
    // expectation.
    assert_eq!(
        sym('a').repeat(2, Some(4)).parse("a"),
        Error::new("\0", "a Included(2)..Included(4) times", "")
    );
}

#[test]
fn separated_list_scenario() {
    // A separated list tolerates a trailing separator.
    let digits = || numeral().repeat(1, None).map(collect());
    assert_eq!(
        comb::atoms::list(digits(), sym(',')).parse_internal("1,2,3,"),
        Ok((
            Value::list(vec![
                Value::str_of("1"),
                Value::str_of("2"),
                Value::str_of("3"),
            ]),
            String::from("")
        ))
    );
}

#[test]
fn numeric_scenario() {
    // A numeric grammar parsing "-12.5" yields negative twelve point five.
    let v = number().parse("-12.5").unwrap();
    assert_eq!(v, Value::str_of("-12.5"));
    let f: f64 = v.as_text().unwrap().parse().unwrap();
    assert_eq!(f, -12.5);
}

#[test]
fn sequence_threading_cases() {
    assert_eq!(
        sym('a').and(sym('b')).parse_internal("abc"),
        Ok((Value::pair(Value::ch('a'), Value::ch('b')), String::from("c")))
    );
    // A left failure is never masked by the right side.
    assert_eq!(sym('a').and(sym('b')).parse("xb"), Error::new("x", "a", "xb"));
    // A right failure reports the input after the left side consumed.
    assert_eq!(sym('a').and(sym('b')).parse("ax"), Error::new("x", "b", "x"));
}

#[test]
fn map_keeps_failure_and_remaining() {
    // Mapping a failing parser yields the identical failure.
    assert_eq!(
        sym('a').map(collect()).parse("b"),
        sym('a').parse("b")
    );
    // Mapping a successful parser never changes the remaining input.
    assert_eq!(
        one_of(b"xy").map(collect()).parse_internal("xyz").unwrap().1,
        one_of(b"xy").parse_internal("xyz").unwrap().1
    );
}

#[test]
fn relabel_changes_only_expected() {
    assert_eq!(sym('a').label("AY").parse("b"), Error::new("b", "AY", "b"));
    assert_eq!(
        sym('a').label("AY").parse_internal("abc"),
        sym('a').parse_internal("abc")
    );
}

#[test]
fn literal_mismatch_reports_present_prefix() {
    // The mismatch report holds the longest comparable prefix present.
    assert_eq!(
        comb::atoms::seq("toast").parse("tea"),
        Error::new("tea", "toast", "tea")
    );
    assert_eq!(
        comb::atoms::seq("tea").parse("toast"),
        Error::new("toa", "tea", "toast")
    );
}

#[test]
fn class_errors_name_their_characters() {
    assert_eq!(
        one_of(b"ab").parse("zz"),
        Error::new("z", "one of ['a', 'b']", "zz")
    );
    assert_eq!(
        none_of(b"ab").parse("a"),
        Error::new("a", "none of ['a', 'b']", "a")
    );
}

#[test]
fn empty_input_edges() {
    assert_eq!(space().parse(""), Ok(Value::str_of("")));
    assert_eq!(comb::atoms::seq("").parse(""), Ok(Value::str_of("")));
    assert_eq!(comb::atoms::any().parse(""), Error::new("\0", "any character", ""));
}

#[test]
fn end_of_input_is_strict() {
    // End of input succeeds exactly when only whitespace remains; a NUL
    // character is an ordinary remaining character.
    assert_eq!(comb::atoms::eof().parse(" \t\r\n"), Ok(Value::unit()));
    assert_eq!(comb::atoms::eof().parse("\0"), Error::new("\0", "EOF", "\0"));
}

#[test]
fn whitespace_is_exactly_four_characters() {
    // A character whose low byte is a space byte is not whitespace.
    assert_eq!(
        space().parse_internal("\u{120}x"),
        Ok((Value::str_of(""), String::from("\u{120}x")))
    );
    assert_eq!(
        space().parse_internal(" \t\r\nx"),
        Ok((Value::str_of(" \t\r\n"), String::from("x")))
    );
}

#[test]
fn conversion_accepts_leading_plus() {
    let signed_digits = || one_of(b"+-0123456789").repeat(1, None).map(collect());
    assert_eq!(
        signed_digits().convert().parse("+5"),
        Ok(Value::num(5))
    );
    assert_eq!(
        signed_digits().map(comb::transform::to_number()).parse("+5"),
        Ok(Value::num(5))
    );
    // A bare sign is not a number.
    assert_eq!(
        signed_digits().convert().parse("+"),
        Error::new("+", "A convertible value", "+")
    );
}

#[test]
fn deferred_rule_without_table_fails() {
    assert_eq!(
        rec(0).parse("x"),
        Error::new("x", "result from recursive Parser", "x")
    );
}

#[test]
fn recursive_grammar_via_rules() {
    // A self-referential grammar: a value is a number or an array of
    // values.  The rule table closes the cycle.
    let value = || number().or(array("[", rec(0), "]"));
    let rules = vec![value()];
    assert_eq!(
        value().parse_with(&rules, "[1, [2, 3], 4]", 16),
        Ok(Value::list(vec![
            Value::str_of("1"),
            Value::list(vec![Value::str_of("2"), Value::str_of("3")]),
            Value::str_of("4"),
        ]))
    );
    // The recursion budget bounds how deep deferred references may go:
    // with none, the item rule cannot be entered and the array reports
    // its own expectation.
    assert_eq!(
        value().parse_with(&rules, "[1]", 0),
        Error::new(
            "1",
            "An array of 0 or more result from recursive Parser(s)",
            "1]"
        )
    );
}

#[test]
fn expectation_labels() {
    assert_eq!(sym('a').expectation(), String::from("a"));
    assert_eq!(number().expectation(), String::from("a number"));
    assert_eq!(
        array("[", number(), "]").expectation(),
        String::from("An array of 0 or more a number(s)")
    );
    assert_eq!(
        sym('a').label("the first letter").expectation(),
        String::from("the first letter")
    );
}

#[test]
fn error_rendering_strips_newlines() {
    let e = sym('t').parse("hey\nyou").unwrap_err();
    assert_eq!(
        e.render(),
        String::from("Expected `t` but found `h` when parsing `heyyou`")
    );
}

#[test]
fn lookahead_consumes_nothing() {
    assert_eq!(
        comb::atoms::is(sym('a')).parse_internal("abc"),
        Ok((Value::unit(), String::from("abc")))
    );
    assert_eq!(
        comb::atoms::not(sym('b')).parse_internal("abc"),
        Ok((Value::unit(), String::from("abc")))
    );
}

#[test]
fn optional_consumes_nothing_on_failure() {
    assert_eq!(
        comb::atoms::opt(sym('a')).parse_internal("bc"),
        Ok((Value::absent(), String::from("bc")))
    );
    assert_eq!(
        comb::atoms::opt(sym('b')).parse_internal("bc"),
        Ok((Value::present(Value::ch('b')), String::from("c")))
    );
}

#[test]
fn sentence_like_grammar() {
    // Words separated by optional commas, closed by punctuation: a small
    // grammar assembled from the same pieces the examples use.
    let word = || {
        space()
            .prefixes(comb::language::alpha().repeat(1, None))
            .suffix(space())
            .map(collect())
    };
    let sentence = || {
        word()
            .suffix(comb::atoms::opt(comb::atoms::seq_no_ws(",")))
            .repeat(1, None)
            .and(one_of(b".?!").map(comb::transform::to_string()))
    };
    assert_eq!(
        sentence().repeat(1, None).parse("\nThis is a sentence. This is another one!\n"),
        Ok(Value::list(vec![
            Value::pair(
                Value::list(vec![
                    Value::str_of("This"),
                    Value::str_of("is"),
                    Value::str_of("a"),
                    Value::str_of("sentence"),
                ]),
                Value::str_of(".")
            ),
            Value::pair(
                Value::list(vec![
                    Value::str_of("This"),
                    Value::str_of("is"),
                    Value::str_of("another"),
                    Value::str_of("one"),
                ]),
                Value::str_of("!")
            ),
        ]))
    );
}

#[test]
fn conversion_bounds() {
    // The converting combinator accepts exactly the 32-bit signed range.
    assert_eq!(
        number().convert().parse("2147483647"),
        Ok(Value::num(2147483647))
    );
    assert_eq!(
        number().convert().parse("-2147483648"),
        Ok(Value::num(-2147483648))
    );
    assert_eq!(
        number().convert().parse("2147483648"),
        Error::new("2147483648", "A convertible value", "2147483648")
    );
    assert_eq!(
        number().convert().parse("00042"),
        Ok(Value::num(42))
    );
}
