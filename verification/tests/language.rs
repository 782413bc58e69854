use comb::language::array;
use comb::language::identifier;
use comb::language::number;
use comb::language::punctuation;
use comb::language::string;
use comb::language::token;
use comb::Error;
use comb::Value;

#[test]
fn token_test() {
    assert_eq!(
        token().repeat(0, None).parse(
            r#"

fn main() {
    println!("Hello world!");
}

"#
        ),
        Ok(Value::list(vec![
            Value::str_of("fn"),
            Value::str_of("main"),
            Value::str_of("("),
            Value::str_of(")"),
            Value::str_of("{"),
            Value::str_of("println"),
            Value::str_of("!"),
            Value::str_of("("),
            Value::str_of("Hello world!"),
            Value::str_of(")"),
            Value::str_of(";"),
            Value::str_of("}"),
        ]))
    );
}

#[test]
fn punctuation_test() {
    assert_eq!(punctuation().parse("("), Ok(Value::ch('(')));
    assert_eq!(punctuation().parse(")"), Ok(Value::ch(')')));
    assert_eq!(punctuation().parse("}"), Ok(Value::ch('}')));
    assert_eq!(punctuation().parse("{"), Ok(Value::ch('{')));
    assert_eq!(punctuation().parse("["), Ok(Value::ch('[')));
    assert_eq!(punctuation().parse("]"), Ok(Value::ch(']')));

    assert_eq!(punctuation().parse("*"), Ok(Value::ch('*')));
    assert_eq!(punctuation().parse("+"), Ok(Value::ch('+')));
    assert_eq!(punctuation().parse("-"), Ok(Value::ch('-')));
    assert_eq!(punctuation().parse("/"), Ok(Value::ch('/')));
    assert_eq!(punctuation().parse(","), Ok(Value::ch(',')));
    assert_eq!(punctuation().parse("?"), Ok(Value::ch('?')));
    assert_eq!(punctuation().parse("."), Ok(Value::ch('.')));

    assert_eq!(
        punctuation().parse("a"),
        Error::new("a", "Result of if_take input", "a")
    );
}

#[test]
fn identifier_test() {
    assert_eq!(identifier().parse("testing"), Ok(Value::str_of("testing")));
    assert_eq!(
        identifier().parse("testing1"),
        Ok(Value::str_of("testing1"))
    );
    assert_eq!(
        identifier().parse("123testing"),
        Error::new("123testing", "Not 123testing", "123testing")
    );
    assert_eq!(
        identifier().parse("testing13412341234"),
        Ok(Value::str_of("testing13412341234"))
    );
    assert_eq!(
        identifier().parse("testin{}{}{g13412341234"),
        Ok(Value::str_of("testin"))
    );
}

#[test]
fn number_test() {
    assert_eq!(
        number().parse(" 12312.01  "),
        Ok(Value::str_of("12312.01"))
    );
    assert_eq!(
        number().parse(" - 12312.01  "),
        Ok(Value::str_of("-12312.01"))
    );

    assert_eq!(number().parse(" - 1  "), Ok(Value::str_of("-1")));
    assert_eq!(number().parse(" - 0  "), Ok(Value::str_of("-0")));
    assert_eq!(number().parse("  0  "), Ok(Value::str_of("0")));
    assert_eq!(number().parse("  01  "), Ok(Value::str_of("01")));
    assert_eq!(number().parse("  1.0112  "), Ok(Value::str_of("1.0112")));
    assert_eq!(number().parse("  1.  "), Ok(Value::str_of("1")));

    assert_eq!(number().convert().parse("123"), Ok(Value::num(123)));

    assert_eq!(number().convert().parse("123"), Ok(Value::num(123)));

    assert_eq!(
        number().convert().parse("12.33"),
        Error::new("12.33", "A convertible value", "12.33")
    );
}

#[test]
fn array_test() {
    assert_eq!(
        array("[", number(), "]").parse("[1, 3, 5.7, 8]"),
        Ok(Value::list(vec![
            Value::str_of("1"),
            Value::str_of("3"),
            Value::str_of("5.7"),
            Value::str_of("8"),
        ]))
    );

    assert_eq!(
        array("[", string(), "]").parse(
            r#"
[
    "hey jude",
    "don\'t make it \"bad\"",
    "\ttake a sad song",
    "and make it\n \"better\"",
    "\\reg\\ex",
]
"#
        ),
        Ok(Value::list(vec![
            Value::str_of("hey jude"),
            Value::str_of("don\'t make it \"bad\""),
            Value::str_of("\ttake a sad song"),
            Value::str_of("and make it\n \"better\""),
            Value::str_of("\\reg\\ex"),
        ]))
    );
}

#[test]
fn string_test() {
    assert_eq!(
        string().parse("\"hey jude\""),
        Ok(Value::str_of("hey jude"))
    );

    assert_eq!(
        string().parse("\"don\'t make it \\\"bad\\\"\""),
        Ok(Value::str_of("don\'t make it \"bad\""))
    );

    assert_eq!(
        string().parse("\"\\ttake a sad song\""),
        Ok(Value::str_of("\ttake a sad song"))
    );

    assert_eq!(
        string().parse("\"and make it\\n \\\"better\\\"\""),
        Ok(Value::str_of("and make it\n \"better\""))
    );
}
