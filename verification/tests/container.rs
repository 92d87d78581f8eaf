use rig_core::one_or_many::EmptyInputError;
use rig_core::one_or_many::OneOrMany;

#[test]
fn from_sequence_round_trip() {
    let items = vec!["a".to_string(), "b".to_string(), "c".to_string()];
    let c = OneOrMany::from_sequence(items.clone()).unwrap();
    assert_eq!(c.all(), items);
}

#[test]
fn from_sequence_single_element() {
    let items = vec!["only".to_string()];
    let c = OneOrMany::from_sequence(items.clone()).unwrap();
    assert_eq!(c.first(), "only".to_string());
    assert_eq!(c.rest(), Vec::<String>::new());
    assert_eq!(c.all(), items);
}

#[test]
fn from_sequence_empty_fails() {
    let r = OneOrMany::<String>::from_sequence(Vec::new());
    assert_eq!(r.unwrap_err(), EmptyInputError);
}

#[test]
fn from_single_first_and_rest() {
    let c = OneOrMany::from_single("one".to_string());
    assert_eq!(c.first(), "one".to_string());
    assert_eq!(c.rest(), Vec::<String>::new());
    assert_eq!(c.all(), vec!["one".to_string()]);
}

#[test]
fn first_and_rest_keep_order() {
    let c = OneOrMany::from_sequence(vec![1i64, 2, 3, 4]).unwrap();
    assert_eq!(c.first(), 1);
    assert_eq!(c.rest(), vec![2, 3, 4]);
    assert_eq!(c.all(), vec![1, 2, 3, 4]);
}

#[test]
fn merge_concatenates_in_order() {
    let c1 = OneOrMany::from_sequence(vec!["a1".to_string(), "a2".to_string()]).unwrap();
    let c2 = OneOrMany::from_single("b1".to_string());
    let mut expected = c1.all();
    expected.extend(c2.all());
    let merged = OneOrMany::merge(vec![c1, c2]).unwrap();
    assert_eq!(merged.all(), expected);
    assert_eq!(
        merged.all(),
        vec!["a1".to_string(), "a2".to_string(), "b1".to_string()]
    );
}

#[test]
fn merge_is_associative_over_concatenation() {
    let cs = || {
        (
            OneOrMany::from_sequence(vec![10i32, 11]).unwrap(),
            OneOrMany::from_single(20i32),
            OneOrMany::from_sequence(vec![30i32, 31, 32]).unwrap(),
        )
    };
    let (c1, c2, c3) = cs();
    let flat = OneOrMany::merge(vec![c1, c2, c3]).unwrap();
    let (c1, c2, c3) = cs();
    let left = OneOrMany::merge(vec![c1, c2]).unwrap();
    let nested = OneOrMany::merge(vec![left, c3]).unwrap();
    assert_eq!(flat.all(), nested.all());
    assert_eq!(flat.all(), vec![10, 11, 20, 30, 31, 32]);
}

#[test]
fn merge_of_nothing_fails() {
    let r = OneOrMany::<String>::merge(Vec::new());
    assert_eq!(r.unwrap_err(), EmptyInputError);
}
