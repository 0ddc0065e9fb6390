use moonstone::api::enqueue_inner;
use moonstone::cert::cert_hash;
use moonstone::certauth::CertAuthService;
use moonstone::checkin::{
    Authenticate, CheckOut, CheckinMessage, DeclarativeManagement, GetBootstrapToken, GetToken,
    SetBootstrapToken, TokenUpdate, UserAuthenticate,
};
use moonstone::command::{CommandResults, CommandStatus, QueuedCommand};
use moonstone::enrollment::{EnrollId, EnrollType, Enrollment};
use moonstone::error::{MdmError, StoreError};
use moonstone::handlers::{
    extract_certificate, handle_checkin_inner, handle_command_inner, respond, CertSources,
    CheckinReply,
};
use moonstone::memory::MemoryStorage;
use moonstone::multi::MultiService;
use moonstone::nanomdm::NanoMdm;
use moonstone::push::PushInfo;
use moonstone::request::Request;
use moonstone::service::{Checkin, CommandAndReportResults};
use moonstone::storage::{
    BootstrapTokenStore, CertAuthStore, CheckinStore, CommandStore, PushCertStore, PushStore,
    QueueStatus, StoreModel, StoreState,
};

fn udid(id: &str) -> Enrollment {
    Enrollment { udid: Some(id.to_string()), ..Default::default() }
}

fn authenticate(id: &str) -> Authenticate {
    Authenticate {
        enrollment: udid(id),
        topic: "com.apple.mgmt.External.1234".to_string(),
        build_version: None,
        os_version: None,
        product_name: None,
        serial_number: None,
        device_name: None,
        model: None,
        model_name: None,
        raw: b"<authenticate/>".to_vec(),
    }
}

fn token_update(id: &str) -> TokenUpdate {
    TokenUpdate {
        enrollment: udid(id),
        topic: "com.apple.mgmt.External.1234".to_string(),
        token: vec![0xAA, 0xBB],
        push_magic: "M".to_string(),
        unlock_token: None,
        awaiting_configuration: false,
        raw: b"<tokenupdate/>".to_vec(),
    }
}

fn checkout(id: &str) -> CheckOut {
    CheckOut { enrollment: udid(id), topic: "t".to_string(), raw: vec![] }
}

fn report(id: &str, uuid: &str, status: CommandStatus) -> CommandResults {
    CommandResults {
        enrollment: udid(id),
        command_uuid: uuid.to_string(),
        status,
        error_chain: vec![],
        raw: b"<report/>".to_vec(),
    }
}

fn device(id: &str) -> EnrollId {
    EnrollId { enroll_type: EnrollType::Device, id: id.to_string(), parent_id: None }
}

fn with_peer(cert: &[u8]) -> CertSources {
    CertSources {
        peer_certificate: Some(cert.to_vec()),
        mdm_signature: None,
        x_ssl_client_cert: None,
        x_client_cert: None,
        ssl_client_cert: None,
    }
}

fn no_cert() -> CertSources {
    CertSources {
        peer_certificate: None,
        mdm_signature: None,
        x_ssl_client_cert: None,
        x_client_cert: None,
        ssl_client_cert: None,
    }
}

type Server = CertAuthService<MemoryStorage, NanoMdm<MemoryStorage>>;

fn server() -> Server {
    CertAuthService::new(MemoryStorage::new(), NanoMdm::new(MemoryStorage::new()))
}

const C1: &[u8] = b"certificate one";
const C2: &[u8] = b"certificate two";

fn enroll(server: &mut Server, id: &str) {
    let r = handle_checkin_inner(server, &with_peer(C1), &CheckinMessage::Authenticate(authenticate(id)));
    assert!(matches!(r, Ok(CheckinReply::Empty)));
    let r = handle_checkin_inner(server, &with_peer(C1), &CheckinMessage::TokenUpdate(token_update(id)));
    assert!(matches!(r, Ok(CheckinReply::Empty)));
}

#[test]
fn fresh_enrollment() {
    let mut server = server();
    enroll(&mut server, "ABC");
    let info = server.inner.store.get_push_info(&device("ABC")).unwrap().unwrap();
    assert_eq!(info.token, vec![0xAA, 0xBB]);
    assert_eq!(info.push_magic, "M");
    assert_eq!(info.topic, "com.apple.mgmt.External.1234");
    assert_eq!(server.inner.store.is_disabled(&device("ABC")), Ok(false));
    assert_eq!(server.store.has_cert_auth(&device("ABC"), &cert_hash(C1)), Ok(true));
}

#[test]
fn authenticate_disables_and_empties_the_queue() {
    let mut server = server();
    enroll(&mut server, "ABC");
    for body in [b"1", b"2", b"3"] {
        server.inner.store.enqueue_command(&device("ABC"), body).unwrap();
    }
    assert_eq!(server.inner.store.queue_len("ABC"), 3);
    server.inner.store.store_bootstrap_token(&device("ABC"), b"bt").unwrap();
    let r = handle_checkin_inner(&mut server, &with_peer(C1), &CheckinMessage::Authenticate(authenticate("ABC")));
    assert!(matches!(r, Ok(CheckinReply::Empty)));
    assert_eq!(server.inner.store.queue_len("ABC"), 0);
    assert_eq!(server.inner.store.is_disabled(&device("ABC")), Ok(true));
    assert_eq!(server.inner.store.get_bootstrap_token(&device("ABC")), Ok(None));
}

#[test]
fn cert_pinning() {
    let mut server = server();
    enroll(&mut server, "ABC");
    let msg = CheckinMessage::CheckOut(checkout("ABC"));
    let r = handle_checkin_inner(&mut server, &with_peer(C2), &msg);
    assert_eq!(r.as_ref().err(), Some(&MdmError::Unauthorized));
    assert_eq!(respond(r.map(|_| vec![])), (401, vec![]));
    assert_eq!(server.inner.store.is_disabled(&device("ABC")), Ok(false));

    let r = handle_checkin_inner(&mut server, &no_cert(), &msg);
    assert_eq!(r.err(), Some(MdmError::Unauthorized));

    let r = handle_checkin_inner(&mut server, &with_peer(C1), &msg);
    assert!(matches!(r, Ok(CheckinReply::Empty)));
    assert_eq!(respond(Ok(vec![])), (200, vec![]));
    assert_eq!(server.inner.store.is_disabled(&device("ABC")), Ok(true));
}

#[test]
fn certificate_of_another_enrollment_is_refused() {
    let mut server = server();
    enroll(&mut server, "ABC");
    let r = handle_checkin_inner(&mut server, &with_peer(C2), &CheckinMessage::Authenticate(authenticate("XYZ")));
    assert!(r.is_ok());
    let r = handle_checkin_inner(&mut server, &with_peer(C2), &CheckinMessage::TokenUpdate(token_update("ABC")));
    assert_eq!(r.err(), Some(MdmError::Unauthorized));
    let r = handle_checkin_inner(&mut server, &with_peer(C1), &CheckinMessage::TokenUpdate(token_update("XYZ")));
    assert_eq!(r.err(), Some(MdmError::Unauthorized));
}

#[test]
fn unresolved_identity_is_rejected() {
    let mut server = server();
    let msg = CheckinMessage::TokenUpdate(TokenUpdate {
        enrollment: Enrollment::default(),
        ..token_update("ignored")
    });
    let r = handle_checkin_inner(&mut server, &with_peer(C1), &msg);
    assert_eq!(r.as_ref().err(), Some(&MdmError::UnresolvedIdentity));
    assert_eq!(respond(r.map(|_| vec![])), (400, vec![]));

    let mut bare = NanoMdm::new(MemoryStorage::new());
    let msg = CheckinMessage::Authenticate(Authenticate {
        enrollment: Enrollment::default(),
        ..authenticate("ignored")
    });
    let r = handle_checkin_inner(&mut bare, &no_cert(), &msg);
    assert_eq!(r.err(), Some(MdmError::UnresolvedIdentity));
}

#[test]
fn command_delivery() {
    let mut server = server();
    enroll(&mut server, "ABC");
    let body = b"<plist>DeviceInformation</plist>";
    let queued = enqueue_inner(&mut server.inner.store, "ABC", body, "DeviceInformation").unwrap();
    assert_eq!(queued.request_type, "DeviceInformation");
    let u = queued.command_uuid;

    let first = handle_command_inner(&mut server, &with_peer(C1), &report("ABC", "", CommandStatus::Idle));
    let q: QueuedCommand = first.unwrap().unwrap();
    assert_eq!(q.uuid, u);
    assert_eq!(q.command, body);

    let again = handle_command_inner(&mut server, &with_peer(C1), &report("ABC", "", CommandStatus::Idle));
    assert!(again.unwrap().is_none());

    let ack = handle_command_inner(&mut server, &with_peer(C1), &report("ABC", &u, CommandStatus::Acknowledged));
    assert!(ack.unwrap().is_none());
    assert_eq!(server.inner.store.command_status("ABC", &u), Some(QueueStatus::Acknowledged));
}

#[test]
fn idle_report_stores_no_result() {
    let mut mdm = NanoMdm::new(MemoryStorage::new());
    let u = mdm.store.enqueue_command(&device("ABC"), b"cmd").unwrap();
    let req = Request::new().with_enroll_id(device("ABC"));
    // An Idle report that names a command does not settle it.
    let q = mdm.command_and_report_results(&req, &report("ABC", &u, CommandStatus::Idle)).unwrap();
    assert_eq!(q.unwrap().uuid, u);
    assert_eq!(mdm.store.command_status("ABC", &u), Some(QueueStatus::Pending));
    let q = mdm.command_and_report_results(&req, &report("ABC", &u, CommandStatus::NotNow)).unwrap();
    assert!(q.is_none());
    assert_eq!(mdm.store.command_status("ABC", &u), Some(QueueStatus::NotNow));
}

#[test]
fn command_report_needs_the_pinned_certificate() {
    let mut server = server();
    enroll(&mut server, "ABC");
    let u = server.inner.store.enqueue_command(&device("ABC"), b"cmd").unwrap();
    let r = handle_command_inner(&mut server, &with_peer(C2), &report("ABC", "", CommandStatus::Idle));
    assert_eq!(r.err(), Some(MdmError::Unauthorized));
    // nothing was handed out
    let r = handle_command_inner(&mut server, &with_peer(C1), &report("ABC", "", CommandStatus::Idle));
    assert_eq!(r.unwrap().unwrap().uuid, u);
}

#[test]
fn bootstrap_token_round_trip() {
    let mut mdm = NanoMdm::new(MemoryStorage::new());
    let req = Request::new().with_enroll_id(device("ABC"));
    let get = GetBootstrapToken { enrollment: udid("ABC"), raw: vec![] };
    assert!(mdm.get_bootstrap_token(&req, &get).unwrap().is_none());
    let set = SetBootstrapToken { enrollment: udid("ABC"), bootstrap_token: b"secret".to_vec(), raw: vec![] };
    mdm.set_bootstrap_token(&req, &set).unwrap();
    assert_eq!(mdm.get_bootstrap_token(&req, &get).unwrap().unwrap().bootstrap_token, b"secret");
    let r = handle_checkin_inner(&mut mdm, &no_cert(), &CheckinMessage::GetBootstrapToken(get));
    match r {
        Ok(CheckinReply::BootstrapToken(resp)) => assert_eq!(resp.bootstrap_token, b"secret"),
        other => panic!("unexpected reply {:?}", other),
    }
}

#[test]
fn operations_without_effect_answer_empty() {
    let mut mdm = NanoMdm::new(MemoryStorage::new());
    let req = Request::new().with_enroll_id(device("ABC"));
    let ua = UserAuthenticate { enrollment: udid("ABC"), digest_response: None, raw: vec![] };
    assert_eq!(mdm.user_authenticate(&req, &ua), Ok(None));
    let dm = DeclarativeManagement { enrollment: udid("ABC"), endpoint: None, data: None, raw: vec![] };
    assert_eq!(mdm.declarative_management(&req, &dm), Ok(None));
    let gt = GetToken { enrollment: udid("ABC"), token_service_type: "x".into(), raw: vec![] };
    assert!(mdm.get_token(&req, &gt).unwrap().is_none());
    let unresolved = Request::new();
    assert_eq!(mdm.user_authenticate(&unresolved, &ua), Err(MdmError::UnresolvedIdentity));
    assert_eq!(mdm.declarative_management(&unresolved, &dm), Err(MdmError::UnresolvedIdentity));
    assert_eq!(mdm.get_token(&unresolved, &gt).err(), Some(MdmError::UnresolvedIdentity));
}

/// A store whose every operation fails.
struct Down;

impl StoreModel for Down {
    fn state(&self) -> StoreState {
        unreachable!("the model is ghost")
    }

    fn infallible() -> bool {
        false
    }
}

impl CheckinStore for Down {
    fn store_authenticate(&mut self, _: &EnrollId, _: &Authenticate) -> Result<(), StoreError> {
        Err(StoreError::Unavailable)
    }
    fn store_token_update(&mut self, _: &EnrollId, _: &TokenUpdate) -> Result<(), StoreError> {
        Err(StoreError::Unavailable)
    }
    fn store_checkout(&mut self, _: &EnrollId, _: &CheckOut) -> Result<(), StoreError> {
        Err(StoreError::Unavailable)
    }
    fn is_disabled(&self, _: &EnrollId) -> Result<bool, StoreError> {
        Err(StoreError::Unavailable)
    }
    fn disable(&mut self, _: &EnrollId) -> Result<(), StoreError> {
        Err(StoreError::Unavailable)
    }
}

impl CommandStore for Down {
    fn enqueue_command(&mut self, _: &EnrollId, _: &[u8]) -> Result<String, StoreError> {
        Err(StoreError::Unavailable)
    }
    fn next_command(&mut self, _: &EnrollId) -> Result<Option<QueuedCommand>, StoreError> {
        Err(StoreError::Unavailable)
    }
    fn store_result(&mut self, _: &EnrollId, _: &CommandResults) -> Result<(), StoreError> {
        Err(StoreError::Unavailable)
    }
    fn clear_queue(&mut self, _: &EnrollId) -> Result<(), StoreError> {
        Err(StoreError::Unavailable)
    }
}

impl BootstrapTokenStore for Down {
    fn store_bootstrap_token(&mut self, _: &EnrollId, _: &[u8]) -> Result<(), StoreError> {
        Err(StoreError::Unavailable)
    }
    fn get_bootstrap_token(&self, _: &EnrollId) -> Result<Option<Vec<u8>>, StoreError> {
        Err(StoreError::Unavailable)
    }
    fn delete_bootstrap_token(&mut self, _: &EnrollId) -> Result<(), StoreError> {
        Err(StoreError::Unavailable)
    }
}

impl PushStore for Down {
    fn get_push_info(&self, _: &EnrollId) -> Result<Option<PushInfo>, StoreError> {
        Err(StoreError::Unavailable)
    }
    fn get_push_infos(&self, _: &[&EnrollId]) -> Result<Vec<PushInfo>, StoreError> {
        Err(StoreError::Unavailable)
    }
}

impl PushCertStore for Down {
    fn store_push_cert(&mut self, _: &str, _: &str, _: &str) -> Result<(), StoreError> {
        Err(StoreError::Unavailable)
    }
    fn get_push_cert(&self, _: &str) -> Result<Option<(String, String)>, StoreError> {
        Err(StoreError::Unavailable)
    }
}

impl CertAuthStore for Down {
    fn associate_cert(&mut self, _: &EnrollId, _: &[u8]) -> Result<(), StoreError> {
        Err(StoreError::Unavailable)
    }
    fn has_cert_auth(&self, _: &EnrollId, _: &[u8]) -> Result<bool, StoreError> {
        Err(StoreError::Unavailable)
    }
}

#[test]
fn storage_failure_is_a_500() {
    let mut mdm = NanoMdm::new(Down);
    let req = Request::new().with_enroll_id(device("ABC"));
    let r = mdm.authenticate(&req, &authenticate("ABC"));
    assert_eq!(r, Err(MdmError::Storage(StoreError::Unavailable)));
    assert_eq!(respond(r.map(|_| vec![])), (500, vec![]));
    assert_eq!(
        mdm.command_and_report_results(&req, &report("ABC", "", CommandStatus::Idle)).err(),
        Some(MdmError::Storage(StoreError::Unavailable))
    );
    let mut guarded = CertAuthService::new(Down, NanoMdm::new(MemoryStorage::new()));
    let req = req.with_certificate(C1.to_vec());
    assert_eq!(guarded.authenticate(&req, &authenticate("ABC")), Err(MdmError::Storage(StoreError::Unavailable)));
    assert_eq!(guarded.inner.store.is_disabled(&device("ABC")), Ok(true));
    assert_eq!(guarded.token_update(&req, &token_update("ABC")), Err(MdmError::Storage(StoreError::Unavailable)));
}

#[test]
fn secondary_failures_are_never_surfaced() {
    let mut multi = MultiService::new(NanoMdm::new(MemoryStorage::new()), vec![NanoMdm::new(Down)])
        .with_secondary(NanoMdm::new(Down));
    assert_eq!(multi.secondary.len(), 2);
    let req = Request::new().with_enroll_id(device("ABC"));
    assert_eq!(multi.authenticate(&req, &authenticate("ABC")), Ok(()));
    assert_eq!(multi.token_update(&req, &token_update("ABC")), Ok(()));
    assert_eq!(multi.primary.store.is_disabled(&device("ABC")), Ok(false));
    assert_eq!(multi.checkout(&req, &checkout("ABC")), Ok(()));
    assert_eq!(multi.primary.store.is_disabled(&device("ABC")), Ok(true));
    let r = multi.command_and_report_results(&req, &report("ABC", "", CommandStatus::Idle));
    assert_eq!(r.map(|q| q.is_none()), Ok(true));
}

#[test]
fn primary_failure_propagates_and_stops_the_fan_out() {
    let mut multi = MultiService::new(NanoMdm::new(Down), vec![NanoMdm::new(MemoryStorage::new())]);
    let req = Request::new().with_enroll_id(device("ABC"));
    multi.secondary[0].store.enqueue_command(&device("ABC"), b"x").unwrap();
    assert_eq!(
        multi.authenticate(&req, &authenticate("ABC")),
        Err(MdmError::Storage(StoreError::Unavailable))
    );
    // the secondary did not see the Authenticate: its queue is intact
    assert_eq!(multi.secondary[0].store.queue_len("ABC"), 1);
}

#[test]
fn secondaries_observe_lifecycle_but_not_queries() {
    let mut multi = MultiService::new(
        NanoMdm::new(MemoryStorage::new()),
        vec![NanoMdm::new(MemoryStorage::new())],
    );
    let req = Request::new().with_enroll_id(device("ABC"));
    multi.authenticate(&req, &authenticate("ABC")).unwrap();
    multi.token_update(&req, &token_update("ABC")).unwrap();
    assert_eq!(multi.secondary[0].store.is_disabled(&device("ABC")), Ok(false));
    let set = SetBootstrapToken { enrollment: udid("ABC"), bootstrap_token: b"s".to_vec(), raw: vec![] };
    multi.set_bootstrap_token(&req, &set).unwrap();
    assert_eq!(multi.secondary[0].store.get_bootstrap_token(&device("ABC")), Ok(Some(b"s".to_vec())));
    // a command queued with the secondary is not taken by a poll of the primary ... 
    let u = multi.secondary[0].store.enqueue_command(&device("ABC"), b"x").unwrap();
    let r = multi.command_and_report_results(&req, &report("ABC", "", CommandStatus::Idle)).unwrap();
    assert!(r.is_none());
    // ... but the report is fanned out, so the secondary handed its own row out
    assert!(multi.secondary[0].store.next_command(&device("ABC")).unwrap().is_none());
    assert!(multi.secondary[0].store.has_uuid("ABC", &u));
}

#[test]
fn certificate_sources_in_order() {
    let mut src = no_cert();
    assert_eq!(extract_certificate(&src), Ok(None));
    src.ssl_client_cert = Some(":dGVzdA==:".to_string());
    assert_eq!(extract_certificate(&src), Ok(Some(b"test".to_vec())));
    src.x_client_cert = Some(":b25l:".to_string());
    assert_eq!(extract_certificate(&src), Ok(Some(b"one".to_vec())));
    src.x_ssl_client_cert = Some(":not base64!:".to_string());
    assert_eq!(extract_certificate(&src), Err(MdmError::Parse));
    src.mdm_signature = Some("AAAA".to_string());
    assert_eq!(extract_certificate(&src), Ok(None));
    src.peer_certificate = Some(vec![1, 2, 3]);
    assert_eq!(extract_certificate(&src), Ok(Some(vec![1, 2, 3])));
}
