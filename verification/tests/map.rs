use comb::atoms::one_of;
use comb::transform::to_number;
use comb::Value;

#[test]
fn map_test() {
    assert_eq!(
        one_of(b"1234567890")
            .repeat(0, None)
            .map(to_number())
            .parse("1234")
            .unwrap(),
        one_of(b"1234567890")
            .repeat(0, None)
            .map(to_number())
            .parse("1234")
            .unwrap(),
    );

    assert_eq!(
        one_of(b"1234567890")
            .repeat(0, None)
            .map(to_number())
            .parse("1234")
            .unwrap(),
        Value::num(1234)
    );
}
