use ferrisbot::member::UserManagement;

#[test]
fn should_start_empty() {
    let management = UserManagement::new();
    assert!(management.bot_db.bot_memory.user_map.is_empty());
    assert!(management.bot_db.bot_memory.administrators.is_empty());
    assert!(management.bot_db.bot_memory.managed_chat_id.is_none());
}

#[test]
fn should_add_and_replace_users_by_id() {
    let mut management = UserManagement::new();
    management.add_user(1, "kate", "Kate", 100);
    management.add_user(2, "kevin", "Kevin", 200);
    assert_eq!(management.bot_db.bot_memory.user_map.len(), 2);

    // adding with an existing id replaces the record in place
    management.add_user(1, "kate_new", "Katharina", 300);
    assert_eq!(management.bot_db.bot_memory.user_map.len(), 2);
    let first = &management.bot_db.bot_memory.user_map[0];
    assert_eq!(first.user_id, 1);
    assert_eq!(first.username, "kate_new");
    assert_eq!(first.firstname, "Katharina");
    assert_eq!(first.last_activity_unix_time, 300);
}

#[test]
fn should_remove_users_by_id() {
    let mut management = UserManagement::new();
    management.add_user(1, "kate", "Kate", 100);
    management.add_user(2, "kevin", "Kevin", 200);

    management.remove_user(1);
    assert_eq!(management.bot_db.bot_memory.user_map.len(), 1);
    assert_eq!(management.bot_db.bot_memory.user_map[0].user_id, 2);

    // removing an unknown id changes nothing
    management.remove_user(7);
    assert_eq!(management.bot_db.bot_memory.user_map.len(), 1);
}

#[test]
fn should_find_users_by_name() {
    let mut management = UserManagement::new();
    management.add_user(1, "kate", "Kate", 100);
    management.add_user(2, "kevin", "Kevin", 200);

    assert!(management.contains_username("kevin"));
    assert!(!management.contains_username("sabine"));

    let found = management.get_user_by_name("kate").expect("kate is stored");
    assert_eq!(found.0, 1);
    assert_eq!(found.1.user_id, 1);
    assert_eq!(found.1.firstname, "Kate");
    assert!(management.get_user_by_name("steffen").is_none());
}

#[test]
fn should_update_activity_of_known_id_in_place() {
    let mut management = UserManagement::new();
    management.add_user(1, "kate", "Kate", 100);
    management.update_user_activity("kate2", "Katharina", 1, 500);

    assert_eq!(management.bot_db.bot_memory.user_map.len(), 1);
    let record = &management.bot_db.bot_memory.user_map[0];
    assert_eq!(record.user_id, 1);
    assert_eq!(record.username, "kate2");
    assert_eq!(record.last_activity_unix_time, 500);
}

#[test]
fn should_update_activity_of_renumbered_user_by_name() {
    let mut management = UserManagement::new();
    management.add_user(1, "kate", "Kate", 100);
    management.add_user(2, "kevin", "Kevin", 200);

    // same username under a new id: the old record is dropped first
    management.update_user_activity("kate", "Kate", 9, 700);
    assert_eq!(management.bot_db.bot_memory.user_map.len(), 2);
    assert!(management.get_user_by_name("kate").is_some());
    assert_eq!(management.get_user_by_name("kate").unwrap().0, 9);
}

#[test]
fn should_append_record_for_unknown_user_on_update() {
    let mut management = UserManagement::new();
    management.update_user_activity("sabine", "Sabine", 5, 900);
    assert_eq!(management.bot_db.bot_memory.user_map.len(), 1);
    assert_eq!(management.bot_db.bot_memory.user_map[0].user_id, 5);
}

#[test]
fn should_collect_inactive_users() {
    let mut management = UserManagement::new();
    management.add_user(1, "kate", "Kate", 1_000);
    management.add_user(2, "kevin", "Kevin", 4_000);
    management.add_user(3, "sabine", "Sabine", 4_500);

    // now = 5000, threshold 1000 seconds: strictly older records only
    let inactive = management.get_inactive_users_since(5_000, 1_000);
    assert_eq!(inactive.len(), 1);
    assert_eq!(inactive[0].user_id, 1);

    // the comparison is strict: exactly 1000 seconds is not inactive
    let boundary = management.get_inactive_users_since(5_000, 999);
    assert_eq!(boundary.len(), 2);
    assert_eq!(boundary[0].user_id, 1);
    assert_eq!(boundary[1].user_id, 2);
}

#[test]
fn should_manage_administrators_and_roles() {
    let mut management = UserManagement::new();
    assert!(!management.is_administrator("kate"));
    assert_eq!(management.determine_user_role("kate"), "Regular User");

    management.register_administrator("kate".to_string());
    assert!(management.is_administrator("kate"));
    assert_eq!(management.determine_user_role("kate"), "Admin");
    assert_eq!(management.determine_user_role("kevin"), "Regular User");

    management.clear_administrators();
    assert!(!management.is_administrator("kate"));
}

#[test]
fn should_set_managed_chat_id() {
    let mut management = UserManagement::new();
    management.set_managed_chat_id(Some("12345".to_string()));
    assert_eq!(management.bot_db.bot_memory.managed_chat_id.as_deref(), Some("12345"));
    management.set_managed_chat_id(None);
    assert!(management.bot_db.bot_memory.managed_chat_id.is_none());
}
