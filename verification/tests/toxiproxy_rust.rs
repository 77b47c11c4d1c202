//! Client scenarios driven against replies a conforming control service
//! gives. The transport is out of the library; each session
//! or decision is fed the reply the documented wire contract prescribes for
//! its command, and the observable outcomes are asserted.

use toxiproxy_rust::channel::{decode_ack, decode_proxy, decode_toxic_list, Command, Payload, Reply};
use toxiproxy_rust::client::Client;
use toxiproxy_rust::proxy::{Proxy, ProxyPack};
use toxiproxy_rust::session::{ClearStep, FindStep, ScopeStep};
use toxiproxy_rust::toxic::Toxicity;

fn example_client() -> Client {
    Client::new("http://127.0.0.1:8474".to_string())
}

fn example_pack() -> ProxyPack {
    ProxyPack::new(
        "socket".into(),
        "localhost:2001".into(),
        "localhost:2000".into(),
    )
}

fn ok_reply(status: u16) -> Reply {
    Reply::Answered { status, payload: Payload::Empty }
}

/// Drives a fetch session to completion against a service that knows the
/// example proxy (with the given enabled flag) and has no toxics on it.
fn find_example(enabled: bool) -> Result<Proxy, toxiproxy_rust::channel::ClientError> {
    let client = example_client();
    let (session, _fetch) = client.find_proxy("socket");
    let mut pack = example_pack();
    pack.enabled = enabled;
    let (session, step) = session.advance(Reply::Answered {
        status: 200,
        payload: Payload::OneProxy(pack),
    });
    let list_cmd = match step {
        FindStep::Send(c) => c,
        FindStep::Done(_) => panic!("expected the toxic listing to follow the fetch"),
    };
    assert!(matches!(list_cmd, Command::ListToxics(_)));
    let (_session, step) = session.advance(Reply::Answered {
        status: 200,
        payload: Payload::ToxicEntries(vec![]),
    });
    match step {
        FindStep::Done(result) => result,
        FindStep::Send(_) => panic!("expected the session to finish after an empty listing"),
    }
}

#[test]
fn test_reset() {
    let client = example_client();
    let cmd = client.reset();
    assert!(matches!(cmd, Command::ResetState));
    assert_eq!("/reset", cmd.path());
    let result = decode_ack(ok_reply(204));
    assert!(result.is_ok());
}

#[test]
fn test_populate() {
    let client = example_client();
    let cmd = client.populate(vec![example_pack()]);
    assert_eq!("/populate", cmd.path());
    // A conforming service stores and returns the submitted configurations.
    let result = Client::populate_result(Reply::Answered {
        status: 201,
        payload: Payload::PopulatedProxies(Some(vec![example_pack()])),
    });

    assert!(result.is_ok());

    assert_eq!(1, result.as_ref().unwrap().len());
    assert_eq!("socket", result.as_ref().unwrap()[0].proxy_pack.name);
}

#[test]
fn test_all() {
    let client = example_client();
    let cmd = client.all();
    assert_eq!("/proxies", cmd.path());
    let result = Client::all_result(Reply::Answered {
        status: 200,
        payload: Payload::ProxyEntries(vec![("socket".to_string(), example_pack())]),
    });
    assert!(result.is_ok());
    assert_eq!(1, result.as_ref().unwrap().len());
}

#[test]
fn test_version() {
    let client = example_client();
    let cmd = client.version();
    assert_eq!("/version", cmd.path());
    let result = Client::version_result(Reply::Answered {
        status: 200,
        payload: Payload::Text("2.12.0".to_string()),
    });
    assert!(result.is_ok());
}

#[test]
fn test_find_proxy() {
    let result = find_example(true);
    assert!(result.is_ok());

    assert_eq!("socket", result.as_ref().unwrap().proxy_pack.name);
}

#[test]
fn test_find_proxy_invalid() {
    let client = example_client();
    let (session, _fetch) = client.find_proxy("bad-proxy");
    let (_session, step) = session.advance(ok_reply(404));
    let result = match step {
        FindStep::Done(result) => result,
        FindStep::Send(_) => panic!("a missing proxy ends the session at once"),
    };
    assert!(result.is_err());
}

#[test]
fn test_proxy_down() {
    let result = find_example(true);
    assert!(result.is_ok());
    assert!(result.as_ref().unwrap().proxy_pack.enabled);

    let (down, disable_cmd) = result.as_ref().unwrap().with_down();
    assert!(matches!(disable_cmd, Command::SetEnabled(_, false)));
    let (down, step) = down.advance(ok_reply(200));
    assert!(matches!(step, ScopeStep::RunBody));

    // Inside the body: re-fetching against the now-disabled service state
    // shows the proxy disabled.
    let inside = find_example(false);
    assert!(inside.is_ok());
    assert!(!inside.as_ref().unwrap().proxy_pack.enabled);

    let (down, enable_cmd) = down.body_done();
    assert!(matches!(enable_cmd, Command::SetEnabled(_, true)));
    let (_down, step) = down.advance(ok_reply(200));
    assert!(matches!(step, ScopeStep::Done(Ok(()))));

    // After the scope: re-fetching shows the proxy enabled again.
    let after = find_example(true);
    assert!(after.is_ok());
    assert!(after.as_ref().unwrap().proxy_pack.enabled);
}

#[test]
fn test_proxy_apply_with_latency() {
    let proxy_result = find_example(true);
    assert!(proxy_result.is_ok());

    // Freshly fetched: no toxics.
    let proxy_toxics = decode_toxic_list(
        &"socket".to_string(),
        Reply::Answered { status: 200, payload: Payload::ToxicEntries(vec![]) },
    );
    assert!(proxy_toxics.is_ok());
    assert_eq!(0, proxy_toxics.as_ref().unwrap().len());

    let handle = proxy_result
        .unwrap()
        .with_latency("downstream".into(), 2000, 0, Toxicity::always());
    let (apply, step) = handle.apply();
    let create_cmd = match step {
        ScopeStep::Send(c) => c,
        _ => panic!("the declared toxic is submitted first"),
    };
    let submitted = match create_cmd {
        Command::AddToxic(ref name, ref toxic) => {
            assert_eq!("socket", name);
            toxic
        },
        _ => panic!("expected a toxic creation"),
    };
    assert_eq!("latency_downstream", submitted.name);
    let submitted = toxiproxy_rust::toxic::ToxicPack::latency(
        "downstream".into(),
        2000,
        0,
        Toxicity::always(),
    );
    let (apply, step) = apply.advance(ok_reply(200));
    assert!(matches!(step, ScopeStep::RunBody));

    // Inside the body: the service now lists exactly one toxic on the proxy.
    let all = Client::all_result(Reply::Answered {
        status: 200,
        payload: Payload::ProxyEntries(vec![("socket".to_string(), example_pack())]),
    });
    assert!(all.is_ok());
    let found = all.as_ref().unwrap().iter().any(|entry| entry.0 == "socket");
    assert!(found);

    let proxy_toxics = decode_toxic_list(
        &"socket".to_string(),
        Reply::Answered {
            status: 200,
            payload: Payload::ToxicEntries(vec![toxiproxy_rust::toxic::ToxicPack::latency(
                "downstream".into(),
                2000,
                0,
                Toxicity::always(),
            )]),
        },
    );
    assert!(proxy_toxics.is_ok());
    assert_eq!(1, proxy_toxics.as_ref().unwrap().len());

    // After the body: the clean-up lists and deletes the one toxic.
    let (clear, list_cmd) = apply.body_done();
    assert!(matches!(list_cmd, Command::ListToxics(_)));
    let (clear, step) = clear.advance(Reply::Answered {
        status: 200,
        payload: Payload::ToxicEntries(vec![submitted]),
    });
    let delete_cmd = match step {
        ClearStep::Send(c) => c,
        ClearStep::Done(_) => panic!("one delete per listed toxic"),
    };
    match delete_cmd {
        Command::RemoveToxic(ref name, ref toxic) => {
            assert_eq!("socket", name);
            assert_eq!("latency_downstream", toxic);
        },
        _ => panic!("expected a toxic removal"),
    }
    let (_clear, step) = clear.advance(ok_reply(204));
    assert!(matches!(step, ClearStep::Done(Ok(()))));

    // Afterwards the listing is empty again.
    let proxy_toxics = decode_toxic_list(
        &"socket".to_string(),
        Reply::Answered { status: 200, payload: Payload::ToxicEntries(vec![]) },
    );
    assert!(proxy_toxics.is_ok());
    assert_eq!(0, proxy_toxics.as_ref().unwrap().len());
}

#[test]
fn test_proxy_apply_with_latency_as_separate_calls_for_test() {
    let proxy_result = find_example(true);
    assert!(proxy_result.is_ok());

    let proxy_toxics = decode_toxic_list(
        &"socket".to_string(),
        Reply::Answered { status: 200, payload: Payload::ToxicEntries(vec![]) },
    );
    assert!(proxy_toxics.is_ok());
    assert_eq!(0, proxy_toxics.as_ref().unwrap().len());

    // Declare and submit the toxic, but run no clean-up.
    let handle = proxy_result
        .unwrap()
        .with_latency("downstream".into(), 2000, 0, Toxicity::always());
    let (apply, step) = handle.apply();
    assert!(matches!(step, ScopeStep::Send(Command::AddToxic(_, _))));
    let (_apply, step) = apply.advance(ok_reply(200));
    assert!(matches!(step, ScopeStep::RunBody));

    // The service now lists the submitted toxic on the proxy.
    let all = Client::all_result(Reply::Answered {
        status: 200,
        payload: Payload::ProxyEntries(vec![("socket".to_string(), example_pack())]),
    });
    assert!(all.is_ok());
    let found = all.as_ref().unwrap().iter().any(|entry| entry.0 == "socket");
    assert!(found);

    let proxy_toxics = decode_toxic_list(
        &"socket".to_string(),
        Reply::Answered {
            status: 200,
            payload: Payload::ToxicEntries(vec![toxiproxy_rust::toxic::ToxicPack::latency(
                "downstream".into(),
                2000,
                0,
                Toxicity::always(),
            )]),
        },
    );
    assert!(proxy_toxics.is_ok());
    assert_eq!(1, proxy_toxics.as_ref().unwrap().len());
}

#[test]
fn test_disable_twice_stays_disabled() {
    // Disabling twice behaves as disabling once: both updates are the same
    // command, and each is acknowledged without further effect.
    let result = find_example(true);
    let handle = result.unwrap();
    let (down1, first) = handle.with_down();
    let (_down1, _) = down1.advance(ok_reply(200));
    let (down2, second) = handle.with_down();
    assert_eq!(first.path(), second.path());
    assert!(matches!(first, Command::SetEnabled(_, false)));
    assert!(matches!(second, Command::SetEnabled(_, false)));
    let (_down2, step) = down2.advance(ok_reply(200));
    assert!(matches!(step, ScopeStep::RunBody));
    let inside = find_example(false);
    assert!(!inside.unwrap().proxy_pack.enabled);
}

#[test]
fn test_missing_proxy_is_not_transport_failure() {
    let client = example_client();
    let (session, _fetch) = client.find_proxy("nonexistent");
    let (_session, step) = session.advance(ok_reply(404));
    let result = match step {
        FindStep::Done(result) => result,
        FindStep::Send(_) => panic!("a missing proxy ends the session at once"),
    };
    match result {
        Err(toxiproxy_rust::channel::ClientError::MissingResource(name)) => {
            assert_eq!("nonexistent", name);
        },
        Err(_) => panic!("a missing proxy is a missing resource, not a transport failure"),
        Ok(_) => panic!("an unknown name cannot be fetched"),
    }
}

#[test]
fn test_decode_proxy_disabled_state() {
    let mut pack = example_pack();
    pack.enabled = false;
    let fetched = decode_proxy(
        &"socket".to_string(),
        Reply::Answered { status: 200, payload: Payload::OneProxy(pack) },
    );
    assert!(fetched.is_ok());
    assert!(!fetched.unwrap().enabled);
}
