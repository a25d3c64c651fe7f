use awth_butler::cache::{fingerprint, ClientRegistration, SsoToken, TokenCache, CacheRecord};
use awth_butler::config::AwsConfigSections;
use awth_butler::credentials::{get_profile_status, CredentialStore, RoleCredentials};
use awth_butler::error::{trace_err_ret, Error, ErrorKind};
use awth_butler::flow::{
    client_credentials, poll_budget, token_from_grant, authorization_parts, CancelSignal,
    DeviceAuthorization, DeviceFlow, FlowAction, FlowEvent, Phase,
};
use awth_butler::process::ProcessState;
use awth_butler::refresh::commit_role_credentials;
use awth_butler::status::fetch_butler_config;
use awth_butler::time::{expiration_after, is_fresh, parse_aws_date_robust};

const CONFIG: &str = "[profile dev]\nsso_session = work\nsso_account_id = 111\nsso_role_name = Admin\n\n[sso-session work]\nsso_region = us-east-1\nsso_start_url = https://x.awsapps.com/start\n";

const URL: &str = "https://x.awsapps.com/start";
const T0: i64 = 1_700_000_000_000;

fn registration() -> ClientRegistration {
    ClientRegistration {
        client_id: Some("cid".to_string()),
        client_secret: Some("csecret".to_string()),
        client_secret_expires_at: 1_700_003_600,
    }
}

fn token(exp: i64) -> SsoToken {
    SsoToken { access_token: "at-1".to_string(), refresh_token: Some("rt-1".to_string()), expiration: exp }
}

fn creds(exp: i64) -> RoleCredentials {
    RoleCredentials {
        access_key_id: Some("AKID".to_string()),
        secret_access_key: Some("SECRET".to_string()),
        session_token: Some("TOKEN".to_string()),
        expiration: exp,
    }
}

fn record_with_session(name: &str, access: &str) -> CacheRecord {
    CacheRecord {
        start_url: None,
        region: None,
        access_token: Some(access.to_string()),
        client_id: None,
        client_secret: None,
        registration_expires_at: None,
        expires_at: Some("2024-01-01T00:00:00Z".to_string()),
        refresh_token: None,
        session_name: Some(name.to_string()),
    }
}

#[test]
fn parse_splits_profiles_and_sessions() {
    let cfg = AwsConfigSections::parse(CONFIG).unwrap();
    assert_eq!(cfg.profiles.len(), 1);
    assert_eq!(cfg.sessions.len(), 1);
    assert_eq!(cfg.profiles[0].name(), "dev");
    assert_eq!(cfg.sessions[0].name(), "work");
    assert_eq!(cfg.profiles[0].get("sso_session"), Some("work"));
    assert_eq!(cfg.sessions[0].get("sso_region"), Some("us-east-1"));
}

#[test]
fn property_lookup_ignores_ascii_case() {
    let cfg = AwsConfigSections::parse("[profile p]\nSSO_Region = eu-west-1\n").unwrap();
    assert_eq!(cfg.profiles[0].get("sso_region"), Some("eu-west-1"));
    assert_eq!(cfg.profiles[0].get("SSO_REGION"), Some("eu-west-1"));
    assert_eq!(cfg.profiles[0].get("region"), None);
}

#[test]
fn parse_ignores_other_sections_and_keeps_last_duplicate() {
    let text = "[default]\nregion = x\n[profile a]\nk = 1\nk = 2\n[services s]\nz = 1\n[profile a]\nk = 3\n";
    let cfg = AwsConfigSections::parse(text).unwrap();
    assert_eq!(cfg.profiles.len(), 1);
    assert_eq!(cfg.sessions.len(), 0);
    assert_eq!(cfg.profiles[0].get("k"), Some("3"));
}

#[test]
fn parse_rejects_bad_ini() {
    let r = AwsConfigSections::parse("[profile a\nk = 1\n");
    assert!(matches!(r, Err(Error::ConfigUnparsable)));
}

#[test]
fn fingerprint_is_sha1_hex_with_json_suffix() {
    assert_eq!(fingerprint(URL), "3947de8b16688092197fa616c34e01335f21d256.json");
    assert_eq!(fingerprint("work"), "e274eeff768c6396088ec6eb091f4bf4d47ab1e0.json");
    assert_eq!(fingerprint(""), "da39a3ee5e6b4b0d3255bfef95601890afd80709.json");
}

#[test]
fn fingerprint_deterministic_and_distinct() {
    assert_eq!(fingerprint(URL), fingerprint(URL));
    assert_ne!(fingerprint(URL), fingerprint("work"));
    assert_ne!(fingerprint("https://a.awsapps.com/start"), fingerprint("https://b.awsapps.com/start"));
}

#[test]
fn store_writes_both_keys_and_lookup_round_trips() {
    let mut cache = TokenCache::new();
    let keys = cache.store(Some("work"), URL, "us-east-1", &registration(), &token(T0 + 123)).unwrap();
    assert_eq!(keys, vec![fingerprint(URL), fingerprint("work")]);
    assert_eq!(cache.files.len(), 2);
    let rec = &cache.files[0].1;
    assert_eq!(rec.expires_at.as_deref(), Some("2023-11-14T22:13:20Z"));
    assert_eq!(rec.registration_expires_at.as_deref(), Some("2023-11-14T23:13:20Z"));
    assert_eq!(rec.client_id.as_deref(), Some("cid"));
    assert_eq!(rec.session_name.as_deref(), Some("work"));
    let tok = cache.lookup("work").unwrap().unwrap();
    assert_eq!(tok.access_token, "at-1");
    assert_eq!(tok.refresh_token.as_deref(), Some("rt-1"));
    assert_eq!(tok.expiration, T0);
}

#[test]
fn store_without_session_writes_one_key() {
    let mut cache = TokenCache::new();
    let keys = cache.store(None, URL, "us-east-1", &registration(), &token(T0)).unwrap();
    assert_eq!(keys, vec![fingerprint(URL)]);
    assert_eq!(cache.files.len(), 1);
    assert!(cache.lookup("work").unwrap().is_none());
}

#[test]
fn store_twice_is_store_once() {
    let mut once = TokenCache::new();
    once.store(Some("work"), URL, "us-east-1", &registration(), &token(T0)).unwrap();
    let mut twice = TokenCache::new();
    twice.store(Some("work"), URL, "us-east-1", &registration(), &token(T0)).unwrap();
    twice.store(Some("work"), URL, "us-east-1", &registration(), &token(T0)).unwrap();
    assert_eq!(once.files.len(), twice.files.len());
    for (a, b) in once.files.iter().zip(twice.files.iter()) {
        assert_eq!(a.0, b.0);
        assert_eq!(a.1.access_token, b.1.access_token);
        assert_eq!(a.1.expires_at, b.1.expires_at);
    }
}

#[test]
fn store_rejects_timestamp_out_of_range() {
    let mut cache = TokenCache::new();
    let mut reg = registration();
    reg.client_secret_expires_at = i64::MAX;
    let r = cache.store(Some("work"), URL, "us-east-1", &reg, &token(T0));
    assert_eq!(r, Err(Error::InvalidTimestamp));
    assert_eq!(cache.files.len(), 0);
}

#[test]
fn lookup_takes_first_match_and_reports_bad_records() {
    let mut cache = TokenCache::new();
    cache.files.push(("a.json".to_string(), record_with_session("other", "x")));
    cache.files.push(("b.json".to_string(), record_with_session("work", "first")));
    cache.files.push(("c.json".to_string(), record_with_session("work", "second")));
    assert_eq!(cache.lookup("work").unwrap().unwrap().access_token, "first");
    assert!(cache.lookup("none").unwrap().is_none());

    let mut bad = TokenCache::new();
    let mut rec = record_with_session("work", "x");
    rec.access_token = None;
    bad.files.push(("a.json".to_string(), rec));
    assert_eq!(bad.lookup("work").err(), Some(Error::CacheEntryInvalid));

    let mut bad_date = TokenCache::new();
    let mut rec = record_with_session("work", "x");
    rec.expires_at = Some("yesterday".to_string());
    bad_date.files.push(("a.json".to_string(), rec));
    assert_eq!(bad_date.lookup("work").err(), Some(Error::CacheDateInvalid));
}

#[test]
fn put_then_get_round_trips() {
    let mut store = CredentialStore::new();
    store.put("dev", &creds(T0)).unwrap();
    assert_eq!(store.get("dev"), Ok(Some(T0)));
    assert_eq!(store.get("prod"), Ok(None));
    assert_eq!(get_profile_status(&store, "dev"), "2023-11-14T22:13:20+00:00");
    assert_eq!(get_profile_status(&store, "prod"), "Never Authenticated");
}

#[test]
fn put_writes_all_fields_and_survives_render() {
    let mut store = CredentialStore::load("[other]\naws_access_key_id = O\n").unwrap();
    store.put("dev", &creds(T0)).unwrap();
    let text = store.render();
    let back = CredentialStore::load(&text).unwrap();
    assert_eq!(back.get("dev"), Ok(Some(T0)));
    let dev = back.sections.iter().find(|s| s.name.as_deref() == Some("dev")).unwrap();
    let get = |k: &str| dev.properties.iter().find(|p| p.0 == k).map(|p| p.1.clone());
    assert_eq!(get("aws_access_key_id").as_deref(), Some("AKID"));
    assert_eq!(get("aws_secret_access_key").as_deref(), Some("SECRET"));
    assert_eq!(get("aws_session_token").as_deref(), Some("TOKEN"));
    assert_eq!(get("aws_security_token").as_deref(), Some("TOKEN"));
    assert!(back.sections.iter().any(|s| s.name.as_deref() == Some("other")));
}

#[test]
fn get_reads_each_accepted_format() {
    let texts = [
        "2023-11-14T22:13:20+00:00",
        "2023-11-14T22:13:20+0000",
        "2023-11-14T22:13:20Z",
        "2023-11-14 22:13:20+00:00",
        "2023-11-14 22:13:20+0000",
    ];
    for t in texts.iter() {
        let store = CredentialStore::load(&format!("[dev]\naws_session_expiration = {}\n", t)).unwrap();
        assert_eq!(store.get("dev"), Ok(Some(T0)), "format {}", t);
    }
    assert_eq!(parse_aws_date_robust("2023-11-15T00:13:20+02:00"), Some(T0));
    assert_eq!(parse_aws_date_robust("14/11/2023"), None);
}

#[test]
fn get_errors() {
    let store = CredentialStore::load("[dev]\naws_access_key_id = A\n").unwrap();
    assert_eq!(store.get("dev"), Err(Error::MissingExpiration));
    let store = CredentialStore::load("[dev]\naws_session_expiration = soon\n").unwrap();
    assert_eq!(store.get("dev"), Err(Error::UnparsableExpiration));
}

#[test]
fn load_rejects_bad_credentials_text() {
    assert!(matches!(CredentialStore::load("[dev\nx = 1\n"), Err(Error::CredentialsUnparsable)));
}

#[test]
fn put_errors_leave_store_unchanged() {
    let mut store = CredentialStore::new();
    let mut c = creds(T0);
    c.session_token = None;
    assert_eq!(store.put("dev", &c), Err(Error::MissingSessionToken));
    let mut c = creds(T0);
    c.access_key_id = None;
    assert_eq!(store.put("dev", &c), Err(Error::MissingAccessKeyId));
    let mut c = creds(T0);
    c.secret_access_key = None;
    assert_eq!(store.put("dev", &c), Err(Error::MissingSecretAccessKey));
    assert_eq!(store.put("dev", &creds(i64::MAX)), Err(Error::InvalidTimestamp));
    assert_eq!(store.sections.len(), 0);
}

#[test]
fn freshness_is_strict() {
    assert!(!is_fresh(Some(T0), T0));
    assert!(is_fresh(Some(T0 + 1), T0));
    assert!(!is_fresh(Some(T0 - 1), T0));
    assert!(!is_fresh(None, T0));
}

#[test]
fn expiration_after_adds_seconds() {
    assert_eq!(expiration_after(T0, 3600), T0 + 3_600_000);
    assert_eq!(expiration_after(T0, -5), T0);
    assert_eq!(expiration_after(i64::MAX - 10, 1), i64::MAX);
}

#[test]
fn fan_out_failure_commits_nothing() {
    let cfg = AwsConfigSections::parse(
        "[profile a]\nsso_session = work\nsso_account_id = 1\nsso_role_name = R\n[profile b]\nsso_session = work\nsso_account_id = 2\nsso_role_name = R\n",
    )
    .unwrap();
    let reqs = cfg.session_role_requests("work").unwrap();
    assert_eq!(reqs.len(), 2);
    assert_eq!(reqs[0].profile_name, "a");
    assert_eq!(reqs[1].account_id, "2");
    let mut store = CredentialStore::new();
    let r = commit_role_credentials(&mut store, &reqs, &vec![Ok(creds(T0)), Err(Error::RequestFailed)]);
    assert_eq!(r, Err(Error::RequestFailed));
    assert_eq!(store.get("a"), Ok(None));
    assert_eq!(store.get("b"), Ok(None));
    let r = commit_role_credentials(&mut store, &reqs, &vec![Ok(creds(T0)), Ok(creds(T0 + 1000))]);
    assert_eq!(r, Ok(()));
    assert_eq!(store.get("a"), Ok(Some(T0)));
    assert_eq!(store.get("b"), Ok(Some(T0 + 1000)));
}

#[test]
fn session_requests_need_account_and_role() {
    let cfg = AwsConfigSections::parse("[profile a]\nsso_session = work\nsso_role_name = R\n").unwrap();
    assert!(matches!(cfg.session_role_requests("work"), Err(Error::MissingAccountId)));
    let cfg = AwsConfigSections::parse("[profile a]\nsso_session = work\nsso_account_id = 1\n").unwrap();
    assert!(matches!(cfg.session_role_requests("work"), Err(Error::MissingRoleName)));
    assert_eq!(cfg.session_role_requests("home").unwrap().len(), 0);
}

#[test]
fn session_target_and_errors() {
    let cfg = AwsConfigSections::parse(CONFIG).unwrap();
    let t = cfg.session_target("work").unwrap();
    assert_eq!(t.region, "us-east-1");
    assert_eq!(t.start_url, URL);
    assert!(matches!(cfg.session_target("home"), Err(Error::SessionNotFound)));
    let cfg = AwsConfigSections::parse("[sso-session s]\nsso_start_url = u\n").unwrap();
    assert!(matches!(cfg.session_target("s"), Err(Error::MissingRegion)));
    let cfg = AwsConfigSections::parse("[sso-session s]\nsso_region = r\n").unwrap();
    assert!(matches!(cfg.session_target("s"), Err(Error::MissingStartUrl)));
}

#[test]
fn legacy_profile_persists_under_its_own_name() {
    let cfg = AwsConfigSections::parse(
        "[profile old]\nsso_start_url = https://y.awsapps.com/start\nsso_region = eu-west-1\nsso_account_id = 222\nsso_role_name = Reader\n[profile dev]\nsso_session = work\nsso_account_id = 111\nsso_role_name = Admin\n",
    )
    .unwrap();
    let (target, req) = cfg.legacy_target("old").unwrap();
    assert_eq!(target.region, "eu-west-1");
    assert_eq!(target.start_url, "https://y.awsapps.com/start");
    assert_eq!(req.profile_name, "old");
    assert_eq!(req.account_id, "222");
    assert_eq!(req.role_name, "Reader");
    let mut store = CredentialStore::new();
    commit_role_credentials(&mut store, &vec![req], &vec![Ok(creds(T0))]).unwrap();
    assert_eq!(store.sections.len(), 1);
    assert_eq!(store.get("old"), Ok(Some(T0)));
    assert_eq!(store.get("dev"), Ok(None));
    assert!(matches!(cfg.legacy_target("none"), Err(Error::ProfileNotFound)));
    assert!(matches!(cfg.legacy_target("dev"), Err(Error::MissingRegion)));
}

#[test]
fn status_before_any_login() {
    let cfg = AwsConfigSections::parse(CONFIG).unwrap();
    let view = fetch_butler_config(&cfg, &TokenCache::new(), &CredentialStore::new(), T0).unwrap();
    assert_eq!(view.sessions.len(), 1);
    assert_eq!(view.sessions[0].session_name, "work");
    assert!(!view.sessions[0].fresh);
    assert_eq!(view.sessions[0].session_expiration, None);
    assert_eq!(view.sessions[0].profile_names, vec!["dev".to_string()]);
    assert_eq!(view.sso_profiles.len(), 1);
    assert_eq!(view.sso_profiles[0].session_name, "work");
    assert!(!view.sso_profiles[0].fresh);
    assert_eq!(view.legacy_profiles.len(), 0);
}

#[test]
fn status_after_login() {
    let cfg = AwsConfigSections::parse(CONFIG).unwrap();
    let mut cache = TokenCache::new();
    cache.store(Some("work"), URL, "us-east-1", &registration(), &token(T0 + 3_600_000)).unwrap();
    let mut store = CredentialStore::new();
    store.put("dev", &creds(T0)).unwrap();
    let view = fetch_butler_config(&cfg, &cache, &store, T0).unwrap();
    assert!(view.sessions[0].fresh);
    assert_eq!(view.sessions[0].session_expiration, Some(T0 + 3_600_000));
    assert_eq!(view.sso_profiles[0].profile_expiration, Some(T0));
    assert!(!view.sso_profiles[0].fresh);
}

fn polling_flow(interval: i32) -> DeviceFlow {
    let mut f = DeviceFlow::new();
    assert_eq!(f.action(), FlowAction::RegisterClient);
    assert_eq!(f.step(FlowEvent::Registered), FlowAction::StartAuthorization);
    assert_eq!(f.step(FlowEvent::Authorized { interval }), FlowAction::Present);
    f
}

#[test]
fn flow_issues_token() {
    let mut f = polling_flow(5);
    assert_eq!(f.budget, 12);
    assert_eq!(f.step(FlowEvent::Presented), FlowAction::CheckCancel);
    assert_eq!(f.step(FlowEvent::Signal(CancelSignal::Empty)), FlowAction::CreateToken);
    assert_eq!(f.step(FlowEvent::TokenPending), FlowAction::Sleep(5));
    assert_eq!(f.step(FlowEvent::Woke), FlowAction::CheckCancel);
    assert_eq!(f.step(FlowEvent::Signal(CancelSignal::Empty)), FlowAction::CreateToken);
    assert_eq!(f.step(FlowEvent::TokenGranted), FlowAction::Finish);
    assert_eq!(f.phase, Phase::TokenIssued);
    assert_eq!(f.outcome(), Some(Ok(())));
}

#[test]
fn flow_cancelled_while_polling() {
    let mut f = polling_flow(5);
    f.step(FlowEvent::Presented);
    f.step(FlowEvent::Signal(CancelSignal::Empty));
    let attempts = f.attempts;
    // The cancellation arrives while this exchange is in flight.
    assert_eq!(f.step(FlowEvent::TokenPending), FlowAction::Sleep(5));
    assert_eq!(f.step(FlowEvent::Woke), FlowAction::CheckCancel);
    assert_eq!(f.step(FlowEvent::Signal(CancelSignal::Cancelled)), FlowAction::Finish);
    assert_eq!(f.attempts, attempts);
    assert_eq!(f.outcome(), Some(Err(Error::UserCancelled)));
    assert_eq!(f.step(FlowEvent::TokenGranted), FlowAction::Finish);
    assert_eq!(f.phase, Phase::UserCancelled);
}

#[test]
fn flow_times_out_after_budget() {
    let mut f = polling_flow(30);
    assert_eq!(f.budget, 2);
    f.step(FlowEvent::Presented);
    for _ in 0..2 {
        assert_eq!(f.step(FlowEvent::Signal(CancelSignal::Empty)), FlowAction::CreateToken);
        assert_eq!(f.step(FlowEvent::TokenPending), FlowAction::Sleep(30));
        f.step(FlowEvent::Woke);
    }
    assert_eq!(f.outcome(), Some(Err(Error::Timeout)));
}

#[test]
fn flow_zero_budget_and_failures() {
    let mut f = polling_flow(0);
    assert_eq!(f.step(FlowEvent::Presented), FlowAction::Finish);
    assert_eq!(f.outcome(), Some(Err(Error::Timeout)));
    let mut f = polling_flow(90);
    assert_eq!(f.budget, 0);
    let mut f = polling_flow(5);
    f.step(FlowEvent::Presented);
    f.step(FlowEvent::Signal(CancelSignal::Disconnected));
    assert_eq!(f.outcome(), Some(Err(Error::Disconnected)));
    let mut g = DeviceFlow::new();
    g.step(FlowEvent::Failed(Error::RequestFailed));
    assert_eq!(g.outcome(), Some(Err(Error::RequestFailed)));
    assert_eq!(poll_budget(7), 8);
    assert_eq!(poll_budget(-1), 0);
}

#[test]
fn response_field_checks() {
    assert_eq!(client_credentials(&registration()), Ok(("cid".to_string(), "csecret".to_string())));
    let mut r = registration();
    r.client_secret = None;
    assert_eq!(client_credentials(&r), Err(Error::MissingClientSecret));
    r.client_id = None;
    assert_eq!(client_credentials(&r), Err(Error::MissingClientId));
    let auth = DeviceAuthorization { verification_uri_complete: None, device_code: Some("d".to_string()), interval: 5 };
    assert_eq!(authorization_parts(&auth), Err(Error::MissingVerificationUri));
    let auth = DeviceAuthorization { verification_uri_complete: Some("u".to_string()), device_code: None, interval: 5 };
    assert_eq!(authorization_parts(&auth), Err(Error::MissingDeviceCode));
    let t = token_from_grant(Some("a".to_string()), None, 60, T0).unwrap();
    assert_eq!(t.expiration, T0 + 60_000);
    assert!(matches!(token_from_grant(None, None, 60, T0), Err(Error::MissingAccessToken)));
}

#[test]
fn process_state_kill_decision() {
    let mut p = ProcessState::new("2.0".to_string());
    assert!(!p.kill_running_login(7));
    p.start_login(7);
    assert!(!p.kill_running_login(8));
    assert_eq!(p.pid, 0);
    p.start_login(7);
    assert!(p.kill_running_login(7));
    assert!(!p.running);
}

#[test]
fn error_kinds_and_messages() {
    assert_eq!(Error::ConfigFileMissing.kind(), ErrorKind::Config);
    assert_eq!(Error::CacheEntryInvalid.kind(), ErrorKind::Cache);
    assert_eq!(Error::MissingExpiration.kind(), ErrorKind::Credentials);
    assert_eq!(Error::UserCancelled.kind(), ErrorKind::Auth);
    assert_eq!(Error::Timeout.message(), "Unable to complete SSO login flow!");
    assert_eq!(trace_err_ret("boom"), "boom");
}
