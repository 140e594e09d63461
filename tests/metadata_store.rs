use next_weight_file::{attr_string, is_fill_name, AttrValue, JsonData, NwtError};

#[test]
fn global_attrs_keep_duplicates_and_first_wins() {
    let mut j = JsonData::new();
    j.add_global_attr("a".to_string(), "1".to_string());
    j.add_global_attr("a".to_string(), "2".to_string());
    j.add_global_attr("b".to_string(), "3".to_string());
    assert_eq!(j.get_global_attrs().len(), 3);
    assert_eq!(j.get_global_attr(&"a".to_string()), Ok("1".to_string()));
    assert_eq!(j.get_global_attr(&"b".to_string()), Ok("3".to_string()));
    assert_eq!(j.get_global_attr(&"c".to_string()), Err(NwtError::NotFound));
}

#[test]
fn variable_attrs_register_variable() {
    let mut j = JsonData::new();
    j.add_variable_attr(&"lat".to_string(), "units".to_string(), "deg".to_string());
    j.add_variable_attr(&"lat".to_string(), "units".to_string(), "rad".to_string());
    assert_eq!(j.get_var_attr(&"lat".to_string(), &"units".to_string()), Ok("deg".to_string()));
    assert_eq!(j.get_var_attr(&"lat".to_string(), &"long".to_string()), Err(NwtError::NotFound));
    assert_eq!(j.get_var_attr(&"lon".to_string(), &"units".to_string()), Err(NwtError::NotFound));
    assert_eq!(j.get_variables().len(), 1);
    assert_eq!(j.get_var_attrs(&"lat".to_string()).unwrap().len(), 2);
}

#[test]
fn add_variable_registers_empty_and_keeps_known() {
    let mut j = JsonData::new();
    j.add_variable(&"x".to_string());
    assert_eq!(j.get_var_attrs(&"x".to_string()).unwrap().len(), 0);
    j.add_variable_attr(&"x".to_string(), "k".to_string(), "v".to_string());
    j.add_variable(&"x".to_string());
    assert_eq!(j.get_var_attrs(&"x".to_string()).unwrap().len(), 1);
    assert_eq!(j.get_var_attr(&"x".to_string(), &"k".to_string()), Ok("v".to_string()));
    assert_eq!(j.get_variables().len(), 1);
    assert!(j.get_var_attrs(&"y".to_string()).is_none());
}

#[test]
fn polyids_keep_order() {
    let mut j = JsonData::new();
    j.add_polyid("p2".to_string());
    j.add_polyid("p1".to_string());
    assert_eq!(j.get_polyids(), &vec!["p2".to_string(), "p1".to_string()]);
}

#[test]
fn attribute_values() {
    assert_eq!(attr_string(&AttrValue::Str("s".to_string())), Some("s".to_string()));
    assert_eq!(
        attr_string(&AttrValue::Strs(vec!["x".to_string(), "y".to_string()])),
        Some("x".to_string())
    );
    assert_eq!(attr_string(&AttrValue::Strs(Vec::new())), None);
    assert_eq!(attr_string(&AttrValue::Other), None);
    assert!(is_fill_name(&"_FillValue".to_string()));
    assert!(!is_fill_name(&"_FillValues".to_string()));
}
