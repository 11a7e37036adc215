use image_search::json::Json;

#[test]
fn get_is_for_arrays_only() {
    let array = Json::Array(vec![Json::Bool(true), Json::Null]);
    assert!(matches!(array.get(0), Some(Json::Bool(true))));
    assert!(matches!(array.get(1), Some(Json::Null)));
    assert!(array.get(2).is_none());
    assert!(array.get(usize::MAX).is_none());
    assert!(Json::Null.get(0).is_none());
    assert!(Json::Text("abc".to_string()).get(0).is_none());
    assert!(Json::Object(vec![("0".to_string(), Json::Null)]).get(0).is_none());
}

#[test]
fn last_is_for_arrays_that_have_an_element() {
    let array = Json::Array(vec![Json::Bool(true), Json::Number(Some(5))]);
    assert_eq!(array.last().unwrap().as_i64(), Some(5));
    assert!(Json::Array(vec![]).last().is_none());
    assert!(Json::Number(Some(1)).last().is_none());
}

#[test]
fn lookup_is_for_objects_only() {
    let object = Json::Object(vec![
        ("a".to_string(), Json::Number(Some(1))),
        ("b".to_string(), Json::Number(Some(2))),
    ]);
    assert_eq!(object.lookup("a").unwrap().as_i64(), Some(1));
    assert_eq!(object.lookup("b").unwrap().as_i64(), Some(2));
    assert!(object.lookup("c").is_none());
    assert!(object.lookup("").is_none());
    assert!(Json::Array(vec![Json::Null]).lookup("a").is_none());
    assert!(Json::Object(vec![]).lookup("a").is_none());
}

#[test]
fn lookup_takes_the_first_of_equal_keys() {
    let object = Json::Object(vec![
        ("a".to_string(), Json::Number(Some(1))),
        ("a".to_string(), Json::Number(Some(2))),
    ]);
    assert_eq!(object.lookup("a").unwrap().as_i64(), Some(1));
}

#[test]
fn typed_reads_refuse_other_types() {
    assert_eq!(Json::Text("7".to_string()).as_i64(), None);
    assert_eq!(Json::Number(Some(7)).as_str(), None);
    assert_eq!(Json::Bool(true).as_i64(), None);
    assert!(Json::Object(vec![]).as_array().is_none());
    assert_eq!(Json::Array(vec![]).as_array().map(|items| items.len()), Some(0));
    assert_eq!(Json::Text(String::new()).as_str(), Some(""));
}
