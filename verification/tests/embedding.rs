use rig_core::embeddable::Embeddable;

#[test]
fn integer_forty_two() {
    let c = 42i32.embeddable().unwrap();
    assert_eq!(c.all(), vec!["42".to_string()]);
}

#[test]
fn integer_zero_and_negative() {
    assert_eq!(0i16.embeddable().unwrap().all(), vec!["0".to_string()]);
    assert_eq!((-7i8).embeddable().unwrap().all(), vec!["-7".to_string()]);
    assert_eq!(
        i8::MIN.embeddable().unwrap().all(),
        vec!["-128".to_string()]
    );
    assert_eq!(
        i64::MIN.embeddable().unwrap().all(),
        vec!["-9223372036854775808".to_string()]
    );
}

#[test]
fn integer_extremes_i128() {
    assert_eq!(
        i128::MAX.embeddable().unwrap().all(),
        vec!["170141183460469231731687303715884105727".to_string()]
    );
    assert_eq!(
        i128::MIN.embeddable().unwrap().all(),
        vec!["-170141183460469231731687303715884105728".to_string()]
    );
}

#[test]
fn booleans() {
    assert_eq!(true.embeddable().unwrap().all(), vec!["true".to_string()]);
    assert_eq!(false.embeddable().unwrap().all(), vec!["false".to_string()]);
}

#[test]
fn characters() {
    assert_eq!('x'.embeddable().unwrap().all(), vec!["x".to_string()]);
    assert_eq!('9'.embeddable().unwrap().all(), vec!["9".to_string()]);
}

#[test]
fn strings_embed_as_themselves() {
    let s = "used as a greeting".to_string();
    let c = s.embeddable().unwrap();
    assert_eq!(c.first(), s);
    assert_eq!(c.rest(), Vec::<String>::new());
}

#[test]
fn json_value_canonical_form() {
    let mut m = serde_json::Map::new();
    m.insert(
        "a".to_string(),
        serde_json::Value::Number(serde_json::Number::from(1)),
    );
    let v = serde_json::Value::Object(m);
    let c = v.embeddable().unwrap();
    assert_eq!(c.all(), vec!["{\"a\":1}".to_string()]);
}

#[test]
fn json_number_and_string() {
    let v = serde_json::Value::Number(serde_json::Number::from(42));
    assert_eq!(v.embeddable().unwrap().all(), vec!["42".to_string()]);
    let v = serde_json::Value::String("hi".to_string());
    assert_eq!(v.embeddable().unwrap().all(), vec!["\"hi\"".to_string()]);
}

#[test]
fn sequence_flattens_in_order() {
    let items = vec!["a".to_string(), "b".to_string()];
    let c = items.embeddable().unwrap();
    assert_eq!(c.all(), vec!["a".to_string(), "b".to_string()]);
}

#[test]
fn nested_sequence_flattens_in_order() {
    let a = vec!["a1".to_string(), "a2".to_string()];
    let b = vec!["b1".to_string()];
    let c = vec![a, b].embeddable().unwrap();
    assert_eq!(
        c.all(),
        vec!["a1".to_string(), "a2".to_string(), "b1".to_string()]
    );
}

#[test]
fn sequence_of_json_values() {
    let one = serde_json::Value::Bool(true);
    let two = serde_json::Value::Null;
    let c = vec![one, two].embeddable().unwrap();
    assert_eq!(c.all(), vec!["true".to_string(), "null".to_string()]);
}

#[test]
fn sequence_of_integers() {
    let c = vec![1i32, -2, 3].embeddable().unwrap();
    assert_eq!(
        c.all(),
        vec!["1".to_string(), "-2".to_string(), "3".to_string()]
    );
}
