//! Unit tests for the protocol pieces: descriptor construction, the wire
//! table of verbs and paths, the reply decisions, and the concrete
//! populate-find-apply-clear scenario.

use toxiproxy_rust::channel::{
    decode_ack, decode_populated, decode_proxy, decode_proxy_table, decode_toxic_list,
    decode_version, ClientError, Command, HttpClient, Payload, Reply, Verb,
};
use toxiproxy_rust::client::Client;
use toxiproxy_rust::proxy::ProxyPack;
use toxiproxy_rust::session::{ClearStep, FindStep, ScopeStep};
use toxiproxy_rust::toxic::{ToxicPack, Toxicity, TOXICITY_UNIT};

#[test]
fn toxic_name_is_derived_from_kind_and_stream() {
    let toxic = ToxicPack::new(
        "latency".into(),
        "upstream".into(),
        Toxicity::always(),
        vec![],
    );
    assert_eq!("latency_upstream", toxic.name);
    assert_eq!("latency", toxic.kind);
    assert_eq!("upstream", toxic.stream);
}

#[test]
fn latency_toxic_attributes() {
    let toxic = ToxicPack::latency("downstream".into(), 2000, 150, Toxicity::always());
    assert_eq!("latency_downstream", toxic.name);
    assert_eq!(
        vec![("latency".to_string(), 2000), ("jitter".to_string(), 150)],
        toxic.attributes
    );
    assert_eq!(TOXICITY_UNIT, toxic.toxicity.millionths);
}

#[test]
fn bandwidth_toxic_attributes() {
    let toxic = ToxicPack::bandwidth("upstream".into(), 500, Toxicity::new(500_000));
    assert_eq!("bandwidth_upstream", toxic.name);
    assert_eq!(vec![("rate".to_string(), 500)], toxic.attributes);
    assert_eq!(500_000, toxic.toxicity.millionths);
}

#[test]
fn slow_close_toxic_attributes() {
    let toxic = ToxicPack::slow_close("downstream".into(), 750, Toxicity::always());
    assert_eq!("slow_close_downstream", toxic.name);
    assert_eq!(vec![("delay".to_string(), 750)], toxic.attributes);
}

#[test]
fn timeout_toxic_attributes() {
    let toxic = ToxicPack::timeout("downstream".into(), 5000, Toxicity::always());
    assert_eq!("timeout_downstream", toxic.name);
    assert_eq!(vec![("timeout".to_string(), 5000)], toxic.attributes);
}

#[test]
fn slicer_toxic_attributes() {
    let toxic = ToxicPack::slicer("downstream".into(), 1024, 128, 500, Toxicity::always());
    assert_eq!("slicer_downstream", toxic.name);
    assert_eq!(
        vec![
            ("average_size".to_string(), 1024),
            ("size_variation".to_string(), 128),
            ("delay".to_string(), 500),
        ],
        toxic.attributes
    );
}

#[test]
fn limit_data_toxic_attributes() {
    let toxic = ToxicPack::limit_data("upstream".into(), 2048, Toxicity::always());
    assert_eq!("limit_data_upstream", toxic.name);
    assert_eq!(vec![("bytes".to_string(), 2048)], toxic.attributes);
}

#[test]
fn proxy_pack_starts_enabled_with_no_toxics() {
    let pack = ProxyPack::new(
        "socket".into(),
        "localhost:2001".into(),
        "localhost:2000".into(),
    );
    assert_eq!("socket", pack.name);
    assert_eq!("localhost:2001", pack.listen);
    assert_eq!("localhost:2000", pack.upstream);
    assert!(pack.enabled);
    assert!(pack.toxics.is_empty());
}

#[test]
fn wire_table_verbs_and_paths() {
    let pack = ProxyPack::new("a".into(), "l".into(), "u".into());
    let toxic = ToxicPack::latency("downstream".into(), 1, 0, Toxicity::always());

    let cases: Vec<(Command, Verb, &str)> = vec![
        (Command::Populate(vec![pack]), Verb::Post, "/populate"),
        (Command::ResetState, Verb::Post, "/reset"),
        (Command::ListProxies, Verb::Get, "/proxies"),
        (Command::FetchProxy("socket".into()), Verb::Get, "/proxies/socket"),
        (Command::SetEnabled("socket".into(), false), Verb::Post, "/proxies/socket"),
        (Command::RemoveProxy("socket".into()), Verb::Delete, "/proxies/socket"),
        (Command::ListToxics("socket".into()), Verb::Get, "/proxies/socket/toxics"),
        (Command::AddToxic("socket".into(), toxic), Verb::Post, "/proxies/socket/toxics"),
        (
            Command::RemoveToxic("socket".into(), "latency_downstream".into()),
            Verb::Delete,
            "/proxies/socket/toxics/latency_downstream",
        ),
        (Command::FetchVersion, Verb::Get, "/version"),
    ];
    for (cmd, verb, path) in cases {
        assert_eq!(verb, cmd.verb());
        assert_eq!(path, cmd.path());
    }
}

#[test]
fn uri_with_path_appends_the_path() {
    let http = HttpClient::new("http://127.0.0.1:8474".to_string());
    assert_eq!(
        "http://127.0.0.1:8474/proxies/socket",
        http.uri_with_path("/proxies/socket")
    );
}

#[test]
fn transport_failure_carries_its_cause() {
    let result = decode_ack(Reply::Dropped("connection refused".to_string()));
    match result {
        Err(ClientError::Transport(cause)) => assert_eq!("connection refused", cause),
        _ => panic!("a dropped exchange is a transport failure"),
    }
}

#[test]
fn any_answered_status_acknowledges_an_update() {
    assert!(decode_ack(Reply::Answered { status: 200, payload: Payload::Empty }).is_ok());
    assert!(decode_ack(Reply::Answered { status: 404, payload: Payload::Empty }).is_ok());
    assert!(decode_ack(Reply::Answered { status: 500, payload: Payload::Empty }).is_ok());
}

#[test]
fn fetch_distinguishes_missing_from_malformed() {
    let name = "socket".to_string();
    match decode_proxy(&name, Reply::Answered { status: 404, payload: Payload::Empty }) {
        Err(ClientError::MissingResource(n)) => assert_eq!("socket", n),
        _ => panic!("a missing status is a missing resource"),
    }
    match decode_proxy(
        &name,
        Reply::Answered { status: 200, payload: Payload::Undecodable("bad json".to_string()) },
    ) {
        Err(ClientError::Serialization(cause)) => assert_eq!("bad json", cause),
        _ => panic!("an undecodable body is a serialization failure"),
    }
    match decode_proxy(&name, Reply::Answered { status: 200, payload: Payload::Empty }) {
        Err(ClientError::Serialization(_)) => {},
        _ => panic!("a body of the wrong shape is a serialization failure"),
    }
    match decode_proxy(&name, Reply::Dropped("reset by peer".to_string())) {
        Err(ClientError::Transport(_)) => {},
        _ => panic!("a dropped exchange is a transport failure"),
    }
}

#[test]
fn toxic_listing_decodes_entries() {
    let name = "socket".to_string();
    let toxics = vec![ToxicPack::latency("downstream".into(), 2000, 0, Toxicity::always())];
    let result = decode_toxic_list(
        &name,
        Reply::Answered { status: 200, payload: Payload::ToxicEntries(toxics) },
    );
    assert!(result.is_ok());
    let listed = result.unwrap();
    assert_eq!(1, listed.len());
    assert_eq!("latency_downstream", listed[0].name);
}

#[test]
fn populate_without_proxy_list_key_is_empty() {
    let result = decode_populated(Reply::Answered {
        status: 200,
        payload: Payload::PopulatedProxies(None),
    });
    assert!(result.is_ok());
    assert!(result.unwrap().is_empty());
}

#[test]
fn proxy_table_decodes_entries() {
    let entries = vec![(
        "socket".to_string(),
        ProxyPack::new("socket".into(), "l".into(), "u".into()),
    )];
    let result = decode_proxy_table(Reply::Answered {
        status: 200,
        payload: Payload::ProxyEntries(entries),
    });
    assert!(result.is_ok());
    assert_eq!("socket", result.unwrap()[0].0);
}

#[test]
fn version_returns_the_body_text() {
    let result = decode_version(Reply::Answered {
        status: 200,
        payload: Payload::Text("2.12.0".to_string()),
    });
    assert_eq!("2.12.0", result.unwrap());
}

#[test]
fn error_descriptions_name_the_failure() {
    assert_eq!(
        "transport failure: timed out",
        ClientError::Transport("timed out".to_string()).describe()
    );
    assert_eq!(
        "bad response: truncated",
        ClientError::Serialization("truncated".to_string()).describe()
    );
    assert_eq!(
        "channel lock failed: poisoned",
        ClientError::Coordination("poisoned".to_string()).describe()
    );
    assert_eq!(
        "not found: socket",
        ClientError::MissingResource("socket".to_string()).describe()
    );
}

#[test]
fn toxicity_is_a_ratio_in_millionths() {
    assert_eq!(TOXICITY_UNIT, Toxicity::always().millionths);
    assert_eq!(800_000, Toxicity::new(800_000).millionths);
    assert_eq!(0, Toxicity::new(0).millionths);
}

/// The concrete end-to-end scenario: populate one proxy, fetch it with a
/// clean baseline, declare a latency toxic, run a body under it (during
/// which exactly one toxic named `latency_downstream` is registered), and
/// end with an empty toxic list.
#[test]
fn scenario_populate_find_apply_clear() {
    let client = Client::new("http://127.0.0.1:8474".to_string());

    // Populate: one configuration in, one handle out, named "socket".
    let submitted = vec![ProxyPack::new(
        "socket".into(),
        "localhost:2001".into(),
        "localhost:2000".into(),
    )];
    let _cmd = client.populate(submitted);
    let populated = Client::populate_result(Reply::Answered {
        status: 201,
        payload: Payload::PopulatedProxies(Some(vec![ProxyPack::new(
            "socket".into(),
            "localhost:2001".into(),
            "localhost:2000".into(),
        )])),
    })
    .unwrap();
    assert_eq!(1, populated.len());
    assert_eq!("socket", populated[0].proxy_pack.name);
    assert_eq!("localhost:2001", populated[0].proxy_pack.listen);
    assert_eq!("localhost:2000", populated[0].proxy_pack.upstream);

    // all(): a mapping of size one containing the key "socket".
    let table = Client::all_result(Reply::Answered {
        status: 200,
        payload: Payload::ProxyEntries(vec![(
            "socket".to_string(),
            ProxyPack::new("socket".into(), "localhost:2001".into(), "localhost:2000".into()),
        )]),
    })
    .unwrap();
    assert_eq!(1, table.len());
    assert!(table.iter().any(|entry| entry.0 == "socket"));

    // find_proxy: fetch, then clear; the handle starts with no toxics.
    let (session, _fetch) = client.find_proxy("socket");
    let (session, step) = session.advance(Reply::Answered {
        status: 200,
        payload: Payload::OneProxy(ProxyPack::new(
            "socket".into(),
            "localhost:2001".into(),
            "localhost:2000".into(),
        )),
    });
    assert!(matches!(step, FindStep::Send(Command::ListToxics(_))));
    let (_session, step) = session.advance(Reply::Answered {
        status: 200,
        payload: Payload::ToxicEntries(vec![]),
    });
    let handle = match step {
        FindStep::Done(Ok(handle)) => handle,
        _ => panic!("the fetch completes after the empty listing"),
    };
    assert!(handle.proxy_pack.toxics.is_empty());

    // Declare the latency toxic and run the scoped apply.
    let handle = handle.with_latency("downstream".into(), 2000, 0, Toxicity::always());
    let (apply, step) = handle.apply();
    let toxic = match step {
        ScopeStep::Send(Command::AddToxic(name, toxic)) => {
            assert_eq!("socket", name);
            toxic
        },
        _ => panic!("the declared toxic is submitted before the body"),
    };
    assert_eq!("latency_downstream", toxic.name);
    assert_eq!(
        vec![("latency".to_string(), 2000), ("jitter".to_string(), 0)],
        toxic.attributes
    );
    let (apply, step) = apply.advance(Reply::Answered { status: 200, payload: Payload::Empty });
    assert!(matches!(step, ScopeStep::RunBody));

    // Had the body inspected the proxy, it would have seen exactly this one
    // toxic; afterwards the clean-up removes it.
    let (clear, _list) = apply.body_done();
    let (clear, step) = clear.advance(Reply::Answered {
        status: 200,
        payload: Payload::ToxicEntries(vec![toxic]),
    });
    assert!(matches!(step, ClearStep::Send(Command::RemoveToxic(_, _))));
    let (_clear, step) = clear.advance(Reply::Answered { status: 204, payload: Payload::Empty });
    assert!(matches!(step, ClearStep::Done(Ok(()))));

    // listToxics afterwards: empty.
    let after = decode_toxic_list(
        &"socket".to_string(),
        Reply::Answered { status: 200, payload: Payload::ToxicEntries(vec![]) },
    )
    .unwrap();
    assert!(after.is_empty());
}
