use starlark_env::{ListRef, TypeValues, Value};

#[test]
fn type_value_lookup_by_runtime_type() {
    let mut t = TypeValues::default();
    t.add_type_value("list", "append", Value::Int(1));
    t.add_type_value("list", "pop", Value::Int(2));
    t.add_type_value("string", "upper", Value::Int(3));
    let l = Value::List(ListRef { id: 0, frozen: false });
    assert_eq!(t.get_type_value(&l, "append"), Some(Value::Int(1)));
    assert_eq!(t.get_type_value(&l, "upper"), None);
    assert_eq!(t.get_type_value(&Value::Str("s".to_string()), "upper"), Some(Value::Int(3)));
    assert_eq!(t.get_type_value(&Value::Int(0), "append"), None);
}

#[test]
fn type_value_upsert_replaces() {
    let mut t = TypeValues::default();
    t.add_type_value("int", "bit_length", Value::Int(1));
    t.add_type_value("int", "bit_length", Value::Int(2));
    assert_eq!(t.get_type_value(&Value::Int(4), "bit_length"), Some(Value::Int(2)));
    assert_eq!(t.list_type_value(&Value::Int(4)), vec!["bit_length".to_string()]);
}

#[test]
fn list_type_value_lists_each_attribute_once() {
    let mut t = TypeValues::default();
    assert!(t.list_type_value(&Value::Bool(true)).is_empty());
    t.add_type_value("bool", "a", Value::NoneValue);
    t.add_type_value("bool", "b", Value::NoneValue);
    t.add_type_value("bool", "a", Value::Int(1));
    let mut names = t.list_type_value(&Value::Bool(false));
    names.sort();
    assert_eq!(names, vec!["a".to_string(), "b".to_string()]);
    assert!(t.list_type_value(&Value::NoneValue).is_empty());
    assert_eq!(t.heap().name, "type_values");
}

#[test]
fn runtime_type_names() {
    assert_eq!(Value::NoneValue.runtime_type_name(), "NoneType");
    assert_eq!(Value::Bool(true).runtime_type_name(), "bool");
    assert_eq!(Value::Int(1).runtime_type_name(), "int");
    assert_eq!(Value::Str(String::new()).runtime_type_name(), "string");
    assert_eq!(Value::List(ListRef { id: 1, frozen: true }).runtime_type_name(), "list");
}
