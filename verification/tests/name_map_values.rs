use nicotine::name_map::NameMap;
use nicotine::preview_positions::PreviewPositions;

fn names<V>(m: &NameMap<V>) -> Vec<String> {
    (0..m.len()).map(|i| m.name_at(i).clone()).collect()
}

#[test]
fn a_new_name_goes_to_the_end_and_a_known_one_keeps_its_place() {
    let mut m: NameMap<u32> = NameMap::new();
    m.insert("a".to_string(), 1);
    m.insert("b".to_string(), 2);
    m.insert("a".to_string(), 3);
    assert_eq!(names(&m), ["a", "b"]);
    assert_eq!(m.get("a"), Some(&3));
    assert_eq!(*m.value_at(1), 2);
    assert_eq!(m.position("b"), Some(1));
    assert_eq!(m.position("c"), None);
    m.set_value_at(1, 9);
    assert_eq!(m.get("b"), Some(&9));
}

#[test]
fn removed_names_are_gone_and_the_others_stay_in_order() {
    let mut m: NameMap<u32> = NameMap::new();
    for (i, n) in ["a", "b", "c", "d"].iter().enumerate() {
        m.insert(n.to_string(), i as u32);
    }
    m.remove("b");
    m.remove("nobody");
    assert_eq!(names(&m), ["a", "c", "d"]);
    assert!(!m.contains_key("b"));
    m.retain_names(&vec!["d".to_string(), "a".to_string(), "x".to_string()]);
    assert_eq!(names(&m), ["a", "d"]);
    let copy = m.clone();
    assert_eq!(names(&copy), ["a", "d"]);
    assert_eq!(copy.get("d"), Some(&3));
}

#[test]
fn a_position_that_was_set_is_found() {
    let mut p = PreviewPositions::default();
    assert_eq!(p.get("Alpha"), None);
    p.set("Alpha".to_string(), 10, -20);
    p.set("Beta".to_string(), 1, 2);
    p.set("Alpha".to_string(), 30, 40);
    assert_eq!(p.get("Alpha"), Some((30, 40)));
    assert_eq!(p.get("Beta"), Some((1, 2)));
    assert_eq!(p.list_position, None);
}
