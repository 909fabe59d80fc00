use dist_system::names::{holds_name, merge_names, names_absent};

fn names(list: &[&str]) -> Vec<String> {
    list.iter().map(|s| s.to_string()).collect()
}

#[test]
fn holds_name_finds_what_is_there() {
    let set = names(&["n1", "n2"]);
    assert!(holds_name(&set, &"n2".to_string()));
    assert!(!holds_name(&set, &"n3".to_string()));
    assert!(!holds_name(&Vec::new(), &"n1".to_string()));
}

#[test]
fn merge_names_is_a_union_in_order() {
    assert_eq!(
        merge_names(&names(&["n1", "n2", "n1"]), &names(&["n3", "n2", "n4"])),
        names(&["n1", "n2", "n3", "n4"])
    );
    assert_eq!(merge_names(&Vec::new(), &names(&["a", "a"])), names(&["a"]));
}

#[test]
fn names_absent_keeps_the_rest_in_order() {
    assert_eq!(
        names_absent(&names(&["n1", "n2", "n3", "n2"]), &names(&["n2"])),
        names(&["n1", "n3"])
    );
    assert_eq!(names_absent(&names(&["n1", "n1"]), &Vec::new()), names(&["n1", "n1"]));
    assert_eq!(names_absent(&names(&["n1"]), &names(&["n1", "n2"])), Vec::<String>::new());
}
