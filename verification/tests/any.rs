use comb::atoms::any;
use comb::transform::collect;
use comb::Value;

#[test]
fn any_any_test() {
    assert_eq!(
        any()
            .repeat(0, None)
            .map(collect())
            .parse("asdfaksdjhfaksjd{}{}(*&!*&@%&h 12309\n \r\t")
            .unwrap(),
        Value::str_of("asdfaksdjhfaksjd{}{}(*&!*&@%&h 12309\n \r\t")
    );
}
