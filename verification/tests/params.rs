use rsagent::params::{ParamMap, ParamValue};

#[test]
fn get_after_insert_gives_the_value_back() {
    let mut m = ParamMap::new();
    assert_eq!(m.get("a"), None);
    m.insert("a", ParamValue::Integer(1));
    m.insert("b", ParamValue::Str("x".into()));
    assert_eq!(m.get("a"), Some(&ParamValue::Integer(1)));
    m.insert("a", ParamValue::Other);
    assert_eq!(m.get("a"), Some(&ParamValue::Other));
    assert_eq!(m.get("b"), Some(&ParamValue::Str("x".into())));
}

#[test]
fn value_accessors() {
    assert_eq!(ParamValue::Str("s".into()).as_str(), Some("s"));
    assert_eq!(ParamValue::Integer(4).as_str(), None);
    assert_eq!(ParamValue::Integer(4).as_integer(), Some(4));
    let arr = ParamValue::Array(vec![Some("a".into()), None]);
    assert_eq!(arr.as_array(), Some(&vec![Some("a".to_string()), None]));
    assert_eq!(arr.copy(), arr);
    let mut m = ParamMap::new();
    m.insert("k", arr.clone());
    assert_eq!(m.copy(), m);
}
