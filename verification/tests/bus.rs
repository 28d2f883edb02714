use heimdall::address::{Address, AddressError};
use heimdall::bus::{action_name, channel_name, ChangeEvent, ChangeKind, NotifyError, NotifyPayload};
use heimdall::config::{parse_addresses, Config, ConfigError, WatchConfig};
use heimdall::dashboard::{App, Step};
use heimdall::monitor::{MonitorError, ProgramAccount, ProgramMonitor};

const SYSTEM: &str = "11111111111111111111111111111111";
const TOKEN: &str = "TokenkegQfeZyiNwAJbNbGKPFXCWuBvf9Ss623VQ5DA";

#[test]
fn channels_and_actions() {
    assert_eq!(channel_name(ChangeKind::ListingChanged), "account_updates");
    assert_eq!(channel_name(ChangeKind::UserAssetsChanged), "user_updates");
    assert_eq!(action_name(ChangeKind::ListingChanged), "account_update");
    assert_eq!(action_name(ChangeKind::UserAssetsChanged), "user_update");
}

#[test]
fn notification_is_a_json_object() {
    let event =
        ChangeEvent { subject: Address::new([0u8; 32]), kind: ChangeKind::UserAssetsChanged };
    let payload = event.payload();
    assert_eq!(payload.account, SYSTEM);
    assert_eq!(payload.action, "user_update");
    assert_eq!(
        payload.to_json(),
        "{\"account\":\"11111111111111111111111111111111\",\"action\":\"user_update\"}"
    );
}

#[test]
fn notification_escapes_what_json_must_escape() {
    let payload = NotifyPayload { account: String::from("a\"b\\c\n"), action: String::from("x") };
    let text = payload.to_json();
    let parsed: serde_json::Value = serde_json::from_str(&text).unwrap();
    assert_eq!(parsed.get("account").unwrap().as_str(), Some("a\"b\\c\n"));
    assert_eq!(parsed.get("action").unwrap().as_str(), Some("x"));
}

#[test]
fn event_round_trip_through_the_payload() {
    let subject = Address::parse(TOKEN).unwrap();
    let event = ChangeEvent { subject, kind: ChangeKind::ListingChanged };
    let back = ChangeEvent::from_payload(&event.payload()).unwrap();
    assert_eq!(back.subject.bytes, subject.bytes);
    assert_eq!(back.kind, ChangeKind::ListingChanged);
}

#[test]
fn payload_with_unknown_action_is_refused() {
    let payload = NotifyPayload { account: String::from(TOKEN), action: String::from("delete") };
    assert_eq!(ChangeEvent::from_payload(&payload).unwrap_err(), NotifyError::UnknownAction);
    let both =
        NotifyPayload { account: String::from("not an address"), action: String::from("") };
    assert_eq!(ChangeEvent::from_payload(&both).unwrap_err(), NotifyError::UnknownAction);
}

#[test]
fn payload_with_invalid_account_is_refused() {
    let payload =
        NotifyPayload { account: String::from("0OIl"), action: String::from("user_update") };
    assert_eq!(
        ChangeEvent::from_payload(&payload).unwrap_err(),
        NotifyError::InvalidAccount(AddressError::NotBase58)
    );
    let short =
        NotifyPayload { account: String::from("abc"), action: String::from("account_update") };
    assert_eq!(
        ChangeEvent::from_payload(&short).unwrap_err(),
        NotifyError::InvalidAccount(AddressError::WrongLength)
    );
}

#[test]
fn watch_lists_of_a_configuration() {
    let config = Config {
        database_url: String::from("postgres://localhost/heimdall"),
        programs: Some(vec![String::from(TOKEN)]),
        tracked_users: Some(vec![String::from(SYSTEM), String::from(TOKEN)]),
    };
    let watch = WatchConfig::from_config(&config).unwrap();
    assert_eq!(watch.database_endpoint, "postgres://localhost/heimdall");
    assert_eq!(watch.programs.len(), 1);
    assert_eq!(watch.programs[0].to_text(), TOKEN);
    assert_eq!(watch.users.len(), 2);
    assert_eq!(watch.users[0].bytes, [0u8; 32]);
    assert_eq!(watch.users[1].to_text(), TOKEN);
}

#[test]
fn absent_lists_are_empty() {
    let config = Config { database_url: String::from("db"), programs: None, tracked_users: None };
    let watch = WatchConfig::from_config(&config).unwrap();
    assert!(watch.programs.is_empty());
    assert!(watch.users.is_empty());
}

#[test]
fn invalid_program_is_reported_first() {
    let config = Config {
        database_url: String::from("db"),
        programs: Some(vec![String::from(TOKEN), String::from("abc")]),
        tracked_users: Some(vec![String::from("0")]),
    };
    assert_eq!(
        WatchConfig::from_config(&config).unwrap_err(),
        ConfigError::InvalidProgram { index: 1, reason: AddressError::WrongLength }
    );
}

#[test]
fn invalid_user_is_reported() {
    let config = Config {
        database_url: String::from("db"),
        programs: Some(vec![String::from(TOKEN)]),
        tracked_users: Some(vec![String::from(SYSTEM), String::from("0")]),
    };
    assert_eq!(
        WatchConfig::from_config(&config).unwrap_err(),
        ConfigError::InvalidUser { index: 1, reason: AddressError::NotBase58 }
    );
}

#[test]
fn parse_addresses_names_the_first_invalid_text() {
    let texts = vec![String::from(SYSTEM), String::from("l"), String::from("abc")];
    assert_eq!(parse_addresses(&texts).unwrap_err(), (1, AddressError::NotBase58));
    assert_eq!(parse_addresses(&Vec::new()).unwrap().len(), 0);
}

#[test]
fn monitor_endpoints() {
    assert_eq!(ProgramMonitor::new().endpoint, "https://api.devnet.solana.com");
    assert_eq!(ProgramMonitor::new_with_endpoint("http://localhost:8899").endpoint,
        "http://localhost:8899");
}

#[test]
fn monitor_bytecode() {
    let monitor = ProgramMonitor::new();
    let program = ProgramAccount { executable: true, data: vec![1, 2, 3] };
    assert!(monitor.verify_program_exists(Some(&program)));
    assert_eq!(monitor.fetch_program_bytecode(Some(program)).unwrap(), vec![1, 2, 3]);
    let wallet = ProgramAccount { executable: false, data: vec![1] };
    assert!(!monitor.verify_program_exists(Some(&wallet)));
    assert_eq!(
        monitor.fetch_program_bytecode(Some(wallet)).unwrap_err(),
        MonitorError::NotExecutable
    );
    let empty = ProgramAccount { executable: true, data: Vec::new() };
    assert_eq!(
        monitor.fetch_program_bytecode(Some(empty)).unwrap_err(),
        MonitorError::NoBytecode
    );
    assert_eq!(monitor.fetch_program_bytecode(None).unwrap_err(), MonitorError::FetchFailed);
    assert!(!monitor.verify_program_exists(None));
}

#[test]
fn dashboard_draws_until_asked_to_leave() {
    let mut app = App::new();
    assert!(!app.exit);
    assert_eq!(app.run(), Step::Draw);
    assert_eq!(app.render(), "Process overview");
    app.quit();
    assert_eq!(app.run(), Step::Stop);
}
