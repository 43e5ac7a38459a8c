use task_manager::TaskManager;

fn is_lower_hex(c: char) -> bool {
    matches!(c, '0'..='9' | 'a'..='f')
}

#[test]
fn created_id_has_the_hyphenated_shape() {
    let mut store = TaskManager::new();
    for n in 0..50 {
        let id = store.create_task(format!("task {}", n)).id;
        let chars: Vec<char> = id.chars().collect();
        assert_eq!(chars.len(), 36);
        for (i, c) in chars.iter().enumerate() {
            if i == 8 || i == 13 || i == 18 || i == 23 {
                assert_eq!(*c, '-');
            } else {
                assert!(is_lower_hex(*c));
            }
        }
        assert_eq!(chars[14], '4');
        assert!(matches!(chars[19], '8' | '9' | 'a' | 'b'));
    }
}

#[test]
fn created_id_parses_as_a_random_uuid() {
    let mut store = TaskManager::new();
    let id = store.create_task("Buy milk".to_string()).id;
    let parsed = uuid::Uuid::parse_str(&id).expect("a UUID");
    assert_eq!(parsed.get_version_num(), 4);
    assert_eq!(parsed.get_variant(), uuid::Variant::RFC4122);
    assert_eq!(parsed.to_string(), id);
}

#[test]
fn created_ids_are_pairwise_distinct() {
    let mut store = TaskManager::new();
    let mut ids = Vec::new();
    for _ in 0..1000 {
        ids.push(store.create_task("again".to_string()).id);
    }
    ids.sort();
    ids.dedup();
    assert_eq!(ids.len(), 1000);
}

#[test]
fn separate_stores_draw_separate_ids() {
    let mut one = TaskManager::new();
    let mut two = TaskManager::new();
    let a = one.create_task("same".to_string());
    let b = two.create_task("same".to_string());
    assert_ne!(a.id, b.id);
}
