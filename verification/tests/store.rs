use moonstone::checkin::{Authenticate, CheckOut, TokenUpdate};
use moonstone::command::{CommandResults, CommandStatus};
use moonstone::enrollment::{EnrollId, EnrollType, Enrollment};
use moonstone::error::StoreError;
use moonstone::memory::MemoryStorage;
use moonstone::storage::{
    BootstrapTokenStore, CertAuthStore, CheckinStore, CommandStore, PushCertStore, PushStore,
    QueueStatus,
};

fn device(id: &str) -> EnrollId {
    EnrollId { enroll_type: EnrollType::Device, id: id.to_string(), parent_id: None }
}

fn authenticate(topic: &str) -> Authenticate {
    Authenticate {
        enrollment: Enrollment::default(),
        topic: topic.to_string(),
        build_version: None,
        os_version: None,
        product_name: None,
        serial_number: None,
        device_name: None,
        model: None,
        model_name: None,
        raw: b"<auth/>".to_vec(),
    }
}

fn token_update(magic: &str, token: &[u8]) -> TokenUpdate {
    TokenUpdate {
        enrollment: Enrollment::default(),
        topic: "com.apple.mgmt.X".to_string(),
        token: token.to_vec(),
        push_magic: magic.to_string(),
        unlock_token: None,
        awaiting_configuration: false,
        raw: b"<tu/>".to_vec(),
    }
}

fn results(uuid: &str, status: CommandStatus) -> CommandResults {
    CommandResults {
        enrollment: Enrollment::default(),
        command_uuid: uuid.to_string(),
        status,
        error_chain: vec![],
        raw: b"<r/>".to_vec(),
    }
}

#[test]
fn unknown_enrollment_is_disabled() {
    let store = MemoryStorage::new();
    assert_eq!(store.is_disabled(&device("ABC")), Ok(true));
    assert!(store.get_push_info(&device("ABC")).unwrap().is_none());
}

#[test]
fn authenticate_then_token_update_enables() {
    let mut store = MemoryStorage::new();
    let id = device("ABC");
    store.store_authenticate(&id, &authenticate("com.apple.mgmt.T")).unwrap();
    assert_eq!(store.is_disabled(&id), Ok(true));
    assert!(store.get_push_info(&id).unwrap().is_none());
    store.store_token_update(&id, &token_update("M", &[0xAA, 0xBB])).unwrap();
    assert_eq!(store.is_disabled(&id), Ok(false));
    let info = store.get_push_info(&id).unwrap().unwrap();
    assert_eq!(info.token, vec![0xAA, 0xBB]);
    assert_eq!(info.push_magic, "M");
    assert_eq!(info.topic, "com.apple.mgmt.T");
    assert_eq!(info.token_hex(), "aabb");
}

#[test]
fn token_update_for_unknown_enrollment_creates_nothing() {
    let mut store = MemoryStorage::new();
    let id = device("ABC");
    store.store_token_update(&id, &token_update("M", &[1])).unwrap();
    assert_eq!(store.is_disabled(&id), Ok(true));
    assert!(store.get_push_info(&id).unwrap().is_none());
}

#[test]
fn checkout_and_disable() {
    let mut store = MemoryStorage::new();
    let id = device("ABC");
    store.store_authenticate(&id, &authenticate("t")).unwrap();
    store.store_token_update(&id, &token_update("M", &[1])).unwrap();
    let msg = CheckOut { enrollment: Enrollment::default(), topic: "t".into(), raw: vec![] };
    store.store_checkout(&id, &msg).unwrap();
    assert_eq!(store.is_disabled(&id), Ok(true));
    assert!(store.get_push_info(&id).unwrap().is_none());
    store.store_token_update(&id, &token_update("M2", &[2])).unwrap();
    assert_eq!(store.is_disabled(&id), Ok(false));
    store.disable(&id).unwrap();
    assert_eq!(store.is_disabled(&id), Ok(true));
    store.disable(&device("nobody")).unwrap();
}

#[test]
fn reauthenticate_keeps_credentials_but_disables() {
    let mut store = MemoryStorage::new();
    let id = device("ABC");
    store.store_authenticate(&id, &authenticate("t1")).unwrap();
    store.store_token_update(&id, &token_update("M", &[9])).unwrap();
    store.store_authenticate(&id, &authenticate("t2")).unwrap();
    assert_eq!(store.is_disabled(&id), Ok(true));
    assert!(store.get_push_info(&id).unwrap().is_none());
    store.store_token_update(&id, &token_update("N", &[7])).unwrap();
    let info = store.get_push_info(&id).unwrap().unwrap();
    assert_eq!(info.topic, "t2");
    assert_eq!(info.push_magic, "N");
    assert_eq!(info.token, vec![7]);
}

#[test]
fn queue_is_first_in_first_out() {
    let mut store = MemoryStorage::new();
    let id = device("ABC");
    let u1 = store.enqueue_command(&id, b"one").unwrap();
    let u2 = store.enqueue_command(&id, b"two").unwrap();
    let u3 = store.enqueue_command(&device("XYZ"), b"other").unwrap();
    assert_eq!(u1.len(), 36);
    assert_ne!(u1, u2);
    assert_eq!(store.queue_len("ABC"), 2);
    assert_eq!(store.queue_len("XYZ"), 1);

    let first = store.next_command(&id).unwrap().unwrap();
    assert_eq!(first.uuid, u1);
    assert_eq!(first.command, b"one");
    let second = store.next_command(&id).unwrap().unwrap();
    assert_eq!(second.uuid, u2);
    assert_eq!(second.command, b"two");
    assert!(second.created_at >= first.created_at);
    assert!(store.next_command(&id).unwrap().is_none());

    let other = store.next_command(&device("XYZ")).unwrap().unwrap();
    assert_eq!(other.uuid, u3);
}

#[test]
fn no_command_is_handed_out_twice() {
    let mut store = MemoryStorage::new();
    let id = device("ABC");
    let u = store.enqueue_command(&id, b"cmd").unwrap();
    assert_eq!(store.next_command(&id).unwrap().unwrap().uuid, u);
    assert!(store.next_command(&id).unwrap().is_none());
    assert_eq!(store.command_status("ABC", &u), Some(QueueStatus::Pending));
    store.store_result(&id, &results(&u, CommandStatus::Acknowledged)).unwrap();
    assert_eq!(store.command_status("ABC", &u), Some(QueueStatus::Acknowledged));
    assert!(store.next_command(&id).unwrap().is_none());
    assert_eq!(store.queue_len("ABC"), 1);
}

#[test]
fn a_result_takes_a_row_out_of_pending_before_delivery() {
    let mut store = MemoryStorage::new();
    let id = device("ABC");
    let u1 = store.enqueue_command(&id, b"one").unwrap();
    let u2 = store.enqueue_command(&id, b"two").unwrap();
    store.store_result(&id, &results(&u1, CommandStatus::Error)).unwrap();
    assert_eq!(store.command_status("ABC", &u1), Some(QueueStatus::Error));
    assert_eq!(store.next_command(&id).unwrap().unwrap().uuid, u2);
    store.store_result(&id, &results("no-such-uuid", CommandStatus::NotNow)).unwrap();
    assert_eq!(store.command_status("ABC", "no-such-uuid"), None);
    // a result for another enrollment's uuid does not touch this one
    store.store_result(&device("XYZ"), &results(&u2, CommandStatus::CommandFormatError)).unwrap();
    assert_eq!(store.command_status("ABC", &u2), Some(QueueStatus::Pending));
}

#[test]
fn authenticate_drops_the_queue() {
    let mut store = MemoryStorage::new();
    let id = device("ABC");
    let other = device("XYZ");
    store.enqueue_command(&id, b"1").unwrap();
    store.enqueue_command(&other, b"x").unwrap();
    store.enqueue_command(&id, b"2").unwrap();
    store.enqueue_command(&id, b"3").unwrap();
    assert_eq!(store.queue_len("ABC"), 3);
    store.store_authenticate(&id, &authenticate("t")).unwrap();
    assert_eq!(store.queue_len("ABC"), 0);
    assert_eq!(store.queue_len("XYZ"), 1);
    assert!(store.next_command(&id).unwrap().is_none());
    assert_eq!(store.next_command(&other).unwrap().unwrap().command, b"x");
}

#[test]
fn clear_queue_removes_only_that_enrollment() {
    let mut store = MemoryStorage::new();
    store.enqueue_command(&device("A"), b"1").unwrap();
    store.enqueue_command(&device("B"), b"2").unwrap();
    store.clear_queue(&device("A")).unwrap();
    assert_eq!(store.queue_len("A"), 0);
    assert_eq!(store.queue_len("B"), 1);
}

#[test]
fn a_uuid_is_queued_once_per_enrollment() {
    let mut store = MemoryStorage::new();
    let id = device("ABC");
    let u = "11111111-2222-4333-8444-555555555555".to_string();
    assert_eq!(store.enqueue_with(&id, b"a", u.clone(), 1), Ok(u.clone()));
    assert_eq!(store.enqueue_with(&id, b"b", u.clone(), 2), Err(StoreError::Constraint));
    assert_eq!(store.queue_len("ABC"), 1);
    assert!(store.has_uuid("ABC", &u));
    assert!(!store.has_uuid("XYZ", &u));
    assert_eq!(store.enqueue_with(&device("XYZ"), b"c", u.clone(), 3), Ok(u.clone()));
    let q = store.next_command(&id).unwrap().unwrap();
    assert_eq!(q.created_at, 1);
    assert_eq!(q.command, b"a");
}

#[test]
fn bootstrap_token_set_get_delete() {
    let mut store = MemoryStorage::new();
    let id = device("ABC");
    assert_eq!(store.get_bootstrap_token(&id), Ok(None));
    store.store_bootstrap_token(&id, b"tok").unwrap();
    assert_eq!(store.get_bootstrap_token(&id), Ok(Some(b"tok".to_vec())));
    store.store_bootstrap_token(&id, b"new").unwrap();
    assert_eq!(store.get_bootstrap_token(&id), Ok(Some(b"new".to_vec())));
    assert_eq!(store.get_bootstrap_token(&device("XYZ")), Ok(None));
    store.delete_bootstrap_token(&id).unwrap();
    assert_eq!(store.get_bootstrap_token(&id), Ok(None));
    store.delete_bootstrap_token(&id).unwrap();
}

#[test]
fn push_certs_by_topic() {
    let mut store = MemoryStorage::new();
    assert_eq!(store.get_push_cert("t"), Ok(None));
    store.store_push_cert("t", "CERT", "KEY").unwrap();
    assert_eq!(store.get_push_cert("t"), Ok(Some(("CERT".to_string(), "KEY".to_string()))));
    store.store_push_cert("t", "CERT2", "KEY2").unwrap();
    assert_eq!(store.get_push_cert("t"), Ok(Some(("CERT2".to_string(), "KEY2".to_string()))));
    assert_eq!(store.get_push_cert("u"), Ok(None));
}

#[test]
fn cert_bindings() {
    let mut store = MemoryStorage::new();
    let id = device("ABC");
    assert_eq!(store.has_cert_auth(&id, &[1, 2, 3]), Ok(false));
    store.associate_cert(&id, &[1, 2, 3]).unwrap();
    assert_eq!(store.has_cert_auth(&id, &[1, 2, 3]), Ok(true));
    assert_eq!(store.has_cert_auth(&id, &[1, 2]), Ok(false));
    assert_eq!(store.has_cert_auth(&device("XYZ"), &[1, 2, 3]), Ok(false));
    store.associate_cert(&id, &[9]).unwrap();
    assert_eq!(store.has_cert_auth(&id, &[1, 2, 3]), Ok(true));
    assert_eq!(store.has_cert_auth(&id, &[9]), Ok(true));
}

#[test]
fn push_infos_for_several_enrollments() {
    let mut store = MemoryStorage::new();
    let a = device("A");
    let b = device("B");
    let c = device("C");
    for id in [&a, &b, &c] {
        store.store_authenticate(id, &authenticate("t")).unwrap();
    }
    store.store_token_update(&a, &token_update("MA", &[1])).unwrap();
    store.store_token_update(&c, &token_update("MC", &[3])).unwrap();
    let unknown = device("nobody");
    let infos = store.get_push_infos(&[&a, &b, &c, &a, &unknown]).unwrap();
    let mut magics: Vec<String> = infos.iter().map(|i| i.push_magic.clone()).collect();
    magics.sort();
    assert_eq!(magics, vec!["MA", "MC"]);
    assert!(store.get_push_infos(&[]).unwrap().is_empty());
}
