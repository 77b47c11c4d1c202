//! End-to-end runs: the client's sessions driven, command by command,
//! against the verified in-memory control service. No replies are written by
//! hand here; every reply comes from the service itself.

use toxiproxy_rust::channel::{decode_ack, decode_toxic_list, ClientError, Command, Reply};
use toxiproxy_rust::client::Client;
use toxiproxy_rust::proxy::{Proxy, ProxyPack};
use toxiproxy_rust::service::InMemoryService;
use toxiproxy_rust::session::{ClearStep, ClearToxics, FindStep, ScopeStep};
use toxiproxy_rust::toxic::{ToxicPack, Toxicity};

fn fresh_service() -> InMemoryService {
    InMemoryService::new("2.12.0".to_string())
}

fn client() -> Client {
    Client::new("http://127.0.0.1:8474".to_string())
}

/// Registers the example proxy on the service.
fn seed_socket(service: &mut InMemoryService) {
    let cmd = client().populate(vec![ProxyPack::new(
        "socket".into(),
        "localhost:2001".into(),
        "localhost:2000".into(),
    )]);
    let reply = service.handle(&cmd);
    let handles = Client::populate_result(reply).expect("populate against the service");
    assert_eq!(1, handles.len());
}

/// Runs a fetch-with-clean-baseline session against the service.
fn drive_find(service: &mut InMemoryService, name: &str) -> Result<Proxy, ClientError> {
    let (mut session, mut cmd) = client().find_proxy(name);
    loop {
        let reply = service.handle(&cmd);
        let (next, step) = session.advance(reply);
        session = next;
        match step {
            FindStep::Send(c) => cmd = c,
            FindStep::Done(result) => return result,
        }
    }
}

/// Runs a clean-up session against the service.
fn drive_clear(
    service: &mut InMemoryService,
    clear: ClearToxics,
    first: Command,
) -> Result<(), ClientError> {
    let mut session = clear;
    let mut cmd = first;
    loop {
        let reply = service.handle(&cmd);
        let (next, step) = session.advance(reply);
        session = next;
        match step {
            ClearStep::Send(c) => cmd = c,
            ClearStep::Done(result) => return result,
        }
    }
}

/// The toxics the service currently lists on a proxy.
fn listed_toxics(service: &mut InMemoryService, name: &str) -> Vec<ToxicPack> {
    let reply = service.handle(&Command::ListToxics(name.to_string()));
    decode_toxic_list(&name.to_string(), reply).expect("toxic listing against the service")
}

#[test]
fn service_populate_fetch_roundtrip() {
    let mut service = fresh_service();
    seed_socket(&mut service);

    let fetched = drive_find(&mut service, "socket").expect("fetch after populate");
    assert_eq!("socket", fetched.proxy_pack.name);
    assert_eq!("localhost:2001", fetched.proxy_pack.listen);
    assert_eq!("localhost:2000", fetched.proxy_pack.upstream);
    assert!(fetched.proxy_pack.enabled);
}

#[test]
fn service_find_proxy_clears_pre_existing_toxics() {
    let mut service = fresh_service();
    seed_socket(&mut service);

    // A previous unrelated run left toxics behind.
    let leftover = ToxicPack::timeout("upstream".into(), 5000, Toxicity::always());
    let reply = service.handle(&Command::AddToxic("socket".into(), leftover));
    assert!(decode_ack(reply).is_ok());
    assert_eq!(1, listed_toxics(&mut service, "socket").len());

    // The fetch clears them before handing back the handle.
    let fetched = drive_find(&mut service, "socket").expect("fetch with clean baseline");
    assert!(fetched.proxy_pack.toxics.is_empty());
    assert!(listed_toxics(&mut service, "socket").is_empty());
}

#[test]
fn service_apply_then_clear_leaves_no_toxics() {
    let mut service = fresh_service();
    seed_socket(&mut service);

    let handle = drive_find(&mut service, "socket").expect("fetch");
    let handle = handle.with_latency("downstream".into(), 2000, 0, Toxicity::always());

    let (mut apply, mut step) = handle.apply();
    loop {
        match step {
            ScopeStep::Send(cmd) => {
                let reply = service.handle(&cmd);
                let (next, next_step) = apply.advance(reply);
                apply = next;
                step = next_step;
            },
            ScopeStep::RunBody => break,
            ScopeStep::Done(result) => panic!("submission aborted: {:?}", result),
        }
    }

    // Inside the body: exactly one toxic, the declared latency.
    let inside = listed_toxics(&mut service, "socket");
    assert_eq!(1, inside.len());
    assert_eq!("latency_downstream", inside[0].name);
    assert_eq!(
        vec![("latency".to_string(), 2000), ("jitter".to_string(), 0)],
        inside[0].attributes
    );

    // After the body: the clean-up removes everything it listed.
    let (clear, first) = apply.body_done();
    assert!(drive_clear(&mut service, clear, first).is_ok());
    assert!(listed_toxics(&mut service, "socket").is_empty());
}

#[test]
fn service_down_scope_disables_then_restores() {
    let mut service = fresh_service();
    seed_socket(&mut service);

    let handle = drive_find(&mut service, "socket").expect("fetch");
    assert!(handle.proxy_pack.enabled);

    let (down, disable_cmd) = handle.with_down();
    let reply = service.handle(&disable_cmd);
    let (down, step) = down.advance(reply);
    assert!(matches!(step, ScopeStep::RunBody));

    // Inside the body: a re-fetch shows the proxy disabled.
    let inside = drive_find(&mut service, "socket").expect("fetch while down");
    assert!(!inside.proxy_pack.enabled);

    let (down, enable_cmd) = down.body_done();
    let reply = service.handle(&enable_cmd);
    let (_down, step) = down.advance(reply);
    assert!(matches!(step, ScopeStep::Done(Ok(()))));

    // After the scope: a re-fetch shows the proxy enabled again.
    let after = drive_find(&mut service, "socket").expect("fetch after down");
    assert!(after.proxy_pack.enabled);
}

#[test]
fn service_disable_is_idempotent() {
    let mut service = fresh_service();
    seed_socket(&mut service);

    let reply = service.handle(&Command::SetEnabled("socket".into(), false));
    assert!(decode_ack(reply).is_ok());
    let reply = service.handle(&Command::SetEnabled("socket".into(), false));
    assert!(decode_ack(reply).is_ok());

    let fetched = drive_find(&mut service, "socket").expect("fetch");
    assert!(!fetched.proxy_pack.enabled);

    // Enabling an already-enabled proxy is likewise without further effect.
    let reply = service.handle(&Command::SetEnabled("socket".into(), true));
    assert!(decode_ack(reply).is_ok());
    let reply = service.handle(&Command::SetEnabled("socket".into(), true));
    assert!(decode_ack(reply).is_ok());
    let fetched = drive_find(&mut service, "socket").expect("fetch");
    assert!(fetched.proxy_pack.enabled);
}

#[test]
fn service_missing_proxy_is_missing_resource() {
    let mut service = fresh_service();
    seed_socket(&mut service);

    match drive_find(&mut service, "nonexistent") {
        Err(ClientError::MissingResource(name)) => assert_eq!("nonexistent", name),
        other => panic!("expected a missing resource, got {:?}", other),
    }
}

#[test]
fn service_remove_proxy_removes_it() {
    let mut service = fresh_service();
    seed_socket(&mut service);

    let reply = service.handle(&Command::RemoveProxy("socket".into()));
    assert!(decode_ack(reply).is_ok());
    assert!(matches!(
        drive_find(&mut service, "socket"),
        Err(ClientError::MissingResource(_))
    ));
}

#[test]
fn service_reset_restores_the_clean_slate() {
    let mut service = fresh_service();
    seed_socket(&mut service);

    let toxic = ToxicPack::bandwidth("downstream".into(), 32, Toxicity::always());
    let reply = service.handle(&Command::AddToxic("socket".into(), toxic));
    assert!(decode_ack(reply).is_ok());
    let reply = service.handle(&Command::SetEnabled("socket".into(), false));
    assert!(decode_ack(reply).is_ok());

    let reply = service.handle(&client().reset());
    assert!(decode_ack(reply).is_ok());

    let fetched = drive_find(&mut service, "socket").expect("fetch after reset");
    assert!(fetched.proxy_pack.enabled);
    assert!(listed_toxics(&mut service, "socket").is_empty());
}

#[test]
fn service_reports_its_version() {
    let mut service = fresh_service();
    let reply = service.handle(&client().version());
    assert_eq!("2.12.0", Client::version_result(reply).expect("version"));
}

#[test]
fn service_lists_all_proxies() {
    let mut service = fresh_service();
    seed_socket(&mut service);

    let reply = service.handle(&client().all());
    let table = Client::all_result(reply).expect("listing");
    assert_eq!(1, table.len());
    assert!(table.iter().any(|entry| entry.0 == "socket"));
}

#[test]
fn service_replaces_toxic_of_same_name() {
    let mut service = fresh_service();
    seed_socket(&mut service);

    let first = ToxicPack::latency("downstream".into(), 1000, 0, Toxicity::always());
    let reply = service.handle(&Command::AddToxic("socket".into(), first));
    assert!(decode_ack(reply).is_ok());
    let second = ToxicPack::latency("downstream".into(), 2000, 5, Toxicity::always());
    let reply = service.handle(&Command::AddToxic("socket".into(), second));
    assert!(decode_ack(reply).is_ok());

    let listed = listed_toxics(&mut service, "socket");
    assert_eq!(1, listed.len());
    assert_eq!("latency_downstream", listed[0].name);
    assert_eq!(
        vec![("latency".to_string(), 2000), ("jitter".to_string(), 5)],
        listed[0].attributes
    );
}
