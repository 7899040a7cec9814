use globalchat::commands::{create, delete, join, leave, Reply};
use globalchat::registry::{
    add_channel_to_globalchat, create_globalchat, delete_globalchat, delete_globalchat_channel,
    get_globalchat_channels, get_globalchat_name_by_channel_id, Registry, RegistryError,
};

fn sorted(mut v: Vec<i64>) -> Vec<i64> {
    v.sort();
    v
}

#[test]
fn create_then_join_then_lookup_finds_name() {
    let mut reg = Registry::new();
    assert_eq!(create_globalchat(&mut reg, "lobby".to_string(), 7), Ok(()));
    assert_eq!(add_channel_to_globalchat(&mut reg, "lobby".to_string(), 100), Ok(()));
    assert_eq!(get_globalchat_name_by_channel_id(&reg, 100), Some("lobby".to_string()));
    assert_eq!(get_globalchat_name_by_channel_id(&reg, 101), None);
}

#[test]
fn duplicate_name_is_a_conflict() {
    let mut reg = Registry::new();
    assert_eq!(create_globalchat(&mut reg, "lobby".to_string(), 7), Ok(()));
    assert_eq!(create_globalchat(&mut reg, "lobby".to_string(), 8), Err(RegistryError::Conflict));
    // names are case-sensitive
    assert_eq!(create_globalchat(&mut reg, "Lobby".to_string(), 8), Ok(()));
}

#[test]
fn join_unknown_network_is_not_found() {
    let mut reg = Registry::new();
    assert_eq!(add_channel_to_globalchat(&mut reg, "nowhere".to_string(), 1), Err(RegistryError::NotFound));
    assert_eq!(get_globalchat_name_by_channel_id(&reg, 1), None);
}

#[test]
fn channel_in_two_networks_is_a_conflict() {
    let mut reg = Registry::new();
    create_globalchat(&mut reg, "a".to_string(), 1).unwrap();
    create_globalchat(&mut reg, "b".to_string(), 1).unwrap();
    add_channel_to_globalchat(&mut reg, "a".to_string(), 5).unwrap();
    assert_eq!(add_channel_to_globalchat(&mut reg, "b".to_string(), 5), Err(RegistryError::Conflict));
    assert_eq!(add_channel_to_globalchat(&mut reg, "a".to_string(), 5), Err(RegistryError::Conflict));
    assert_eq!(get_globalchat_name_by_channel_id(&reg, 5), Some("a".to_string()));
}

#[test]
fn list_members_includes_every_channel() {
    let mut reg = Registry::new();
    create_globalchat(&mut reg, "a".to_string(), 1).unwrap();
    create_globalchat(&mut reg, "b".to_string(), 1).unwrap();
    for c in [10, 20, 30] {
        add_channel_to_globalchat(&mut reg, "a".to_string(), c).unwrap();
    }
    add_channel_to_globalchat(&mut reg, "b".to_string(), 40).unwrap();
    assert_eq!(sorted(get_globalchat_channels(&reg, "a".to_string())), vec![10, 20, 30]);
    assert_eq!(get_globalchat_channels(&reg, "b".to_string()), vec![40]);
    assert_eq!(get_globalchat_channels(&reg, "c".to_string()), Vec::<i64>::new());
}

#[test]
fn remove_member_and_absent_member() {
    let mut reg = Registry::new();
    create_globalchat(&mut reg, "a".to_string(), 1).unwrap();
    add_channel_to_globalchat(&mut reg, "a".to_string(), 10).unwrap();
    add_channel_to_globalchat(&mut reg, "a".to_string(), 20).unwrap();
    delete_globalchat_channel(&mut reg, 10);
    assert_eq!(get_globalchat_name_by_channel_id(&reg, 10), None);
    assert_eq!(get_globalchat_channels(&reg, "a".to_string()), vec![20]);
    delete_globalchat_channel(&mut reg, 99);
    assert_eq!(get_globalchat_channels(&reg, "a".to_string()), vec![20]);
}

#[test]
fn delete_by_non_owner_keeps_network() {
    let mut reg = Registry::new();
    create_globalchat(&mut reg, "a".to_string(), 1).unwrap();
    add_channel_to_globalchat(&mut reg, "a".to_string(), 10).unwrap();
    assert!(!delete_globalchat(&mut reg, "a".to_string(), 2));
    assert_eq!(get_globalchat_name_by_channel_id(&reg, 10), Some("a".to_string()));
    assert!(!delete_globalchat(&mut reg, "missing".to_string(), 1));
}

#[test]
fn delete_by_owner_cascades_to_members() {
    let mut reg = Registry::new();
    create_globalchat(&mut reg, "a".to_string(), 1).unwrap();
    create_globalchat(&mut reg, "b".to_string(), 2).unwrap();
    for c in [10, 20, 30] {
        add_channel_to_globalchat(&mut reg, "a".to_string(), c).unwrap();
    }
    add_channel_to_globalchat(&mut reg, "b".to_string(), 40).unwrap();
    assert!(delete_globalchat(&mut reg, "a".to_string(), 1));
    for c in [10, 20, 30] {
        assert_eq!(get_globalchat_name_by_channel_id(&reg, c), None);
    }
    assert_eq!(get_globalchat_name_by_channel_id(&reg, 40), Some("b".to_string()));
    assert_eq!(get_globalchat_channels(&reg, "a".to_string()), Vec::<i64>::new());
    // the name is free again, and the channels may join elsewhere
    assert_eq!(add_channel_to_globalchat(&mut reg, "b".to_string(), 10), Ok(()));
    assert_eq!(create_globalchat(&mut reg, "a".to_string(), 3), Ok(()));
}

#[test]
fn commands_reply_and_refuse() {
    let mut reg = Registry::new();
    assert_eq!(create(&mut reg, 10, 1, "a".to_string()), Ok(Reply::Created));
    assert_eq!(get_globalchat_name_by_channel_id(&reg, 10), Some("a".to_string()));
    assert_eq!(create(&mut reg, 11, 1, "a".to_string()), Err(RegistryError::Conflict));
    assert_eq!(create(&mut reg, 10, 1, "b".to_string()), Err(RegistryError::Conflict));
    assert_eq!(join(&mut reg, 11, "a".to_string()), Ok(Reply::Joined));
    assert_eq!(join(&mut reg, 12, "x".to_string()), Err(RegistryError::NotFound));
    assert_eq!(delete(&mut reg, "a".to_string(), 2), Err(RegistryError::Unauthorized));
    assert_eq!(delete(&mut reg, "x".to_string(), 1), Err(RegistryError::NotFound));
    assert_eq!(leave(&mut reg, 11), Ok(Reply::Left));
    assert_eq!(get_globalchat_name_by_channel_id(&reg, 11), None);
    assert_eq!(delete(&mut reg, "a".to_string(), 1), Ok(Reply::Deleted));
    assert_eq!(get_globalchat_name_by_channel_id(&reg, 10), None);
    assert_eq!(Reply::Created.text(), "作成しました");
    assert_eq!(Reply::Deleted.text(), "削除しました");
    assert!(!RegistryError::Unauthorized.text().is_empty());
}
