use comb::atoms::opt;
use comb::atoms::sym;
use comb::language::number;
use comb::language::punctuation;
use comb::language::string;
use comb::transform::collect;
use comb::transform::to_number;
use comb::transform::to_string;
use comb::transform::unwrap_opt;
use comb::transform::unwrap_opt_list;
use comb::transform::unwrap_opt_number;
use comb::Value;

#[test]
fn collect_test() {
    assert_eq!(
        sym('a')
            .repeat(0, None)
            .map(collect())
            .parse("aaaahey jude"),
        Ok(Value::str_of("aaaa"))
    )
}

#[test]
fn to_string_test() {
    assert_eq!(
        punctuation().map(to_string()).parse("(aaaahey jude"),
        Ok(Value::str_of("("))
    )
}

#[test]
fn to_number_test() {
    // The engine's numbers are integers; the fractional inputs of the
    // original float conversion are not integers and fall back to zero.
    assert_eq!(
        number().map(to_number()).parse("19871293"),
        Ok(Value::num(19871293))
    );

    assert_eq!(
        number().map(to_number()).parse("19871293.19823"),
        Ok(Value::num(0))
    );

    assert_eq!(
        number().map(to_number()).parse(" - 19871293.19823"),
        Ok(Value::num(0))
    );
}

#[test]
fn unwrap_opt_list_test() {
    // An absent repetition falls back to the empty list.
    assert_eq!(
        opt(sym('a').repeat(1, None))
            .map(unwrap_opt_list())
            .parse("bbb"),
        Ok(Value::list(vec![]))
    );
    assert_eq!(
        opt(sym('a').repeat(1, None))
            .map(unwrap_opt_list())
            .parse("ab"),
        Ok(Value::list(vec![Value::ch('a')]))
    );
}

#[test]
fn unwrap_opt_number_test() {
    // An absent number falls back to zero.
    assert_eq!(
        opt(number().convert())
            .map(unwrap_opt_number())
            .parse("x"),
        Ok(Value::num(0))
    );
    assert_eq!(
        opt(number().convert())
            .map(unwrap_opt_number())
            .parse("7"),
        Ok(Value::num(7))
    );
}

#[test]
fn unwrap_opt_test() {
    assert_eq!(
        opt(string()).map(unwrap_opt()).parse("1298712.9"),
        Ok(Value::str_of(""))
    );
    assert_eq!(
        opt(string()).map(unwrap_opt()).parse("\"1298712.9\""),
        Ok(Value::str_of("1298712.9"))
    );
}
