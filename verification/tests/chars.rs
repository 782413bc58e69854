use comb::atoms::any;
use comb::atoms::eof;
use comb::atoms::if_take;
use comb::atoms::is;
use comb::atoms::none_of;
use comb::atoms::not;
use comb::atoms::sym;
use comb::sem::Pred;
use comb::transform::collect;
use comb::Error;
use comb::Value;

#[test]
fn is_test() {
    assert_eq!(is(sym('a')).parse("aaa"), Ok(Value::unit()));

    assert_eq!(
        not(sym('t')).parse("test"),
        Error::new("test", "Not t", "test")
    );

    assert_eq!(not(sym('t')).parse("hey"), Ok(Value::unit()));

    assert_eq!(is(sym('t')).parse("hey"), Error::new("hey", "t", "hey"));
}

#[test]
fn if_take_test() {
    assert_eq!(
        if_take(Pred::Exact('a')).repeat(1, None).parse("aaaaatest"),
        Ok(Value::list(vec![
            Value::ch('a'),
            Value::ch('a'),
            Value::ch('a'),
            Value::ch('a'),
            Value::ch('a'),
        ]))
    );

    // Test EOF
    assert_eq!(
        if_take(Pred::Exact('a')).repeat(1, None).parse(""),
        Error::new(
            "\0",
            "result of if_take input Included(1)..Unbounded times",
            ""
        )
    );
}

#[test]
fn eof_test() {
    assert_eq!(eof().parse("wow bro"), Error::new("w", "EOF", "wow bro"));
    assert_eq!(eof().parse(""), Ok(Value::unit()));
}

#[test]
fn none_of_test() {
    assert_eq!(none_of(b"test").parse("wow bro"), Ok(Value::ch('w')));
    assert_eq!(
        none_of(b"test").parse(""),
        Error::new(
            "\0",
            &format!("none of {:?}", vec!['t', 'e', 's', 't']),
            ""
        )
    );
}

#[test]
fn sym_test() {
    assert_eq!(sym('b').parse("btest"), Ok(Value::ch('b')));

    assert_eq!(sym('t').parse(""), Error::new("\0", "t", ""));
}

#[test]
fn seq_test() {
    assert_eq!(
        comb::atoms::seq("test").parse("testing"),
        Ok(Value::str_of("test"))
    );
}

#[test]
fn chars_any_test() {
    assert_eq!(
        any()
            .repeat(0, None)
            .map(collect())
            .parse("asdfaksdjhfaksjd{}{}(*&!*&@%&h 12309\n \r\t")
            .unwrap(),
        Value::str_of("asdfaksdjhfaksjd{}{}(*&!*&@%&h 12309\n \r\t")
    );
}
