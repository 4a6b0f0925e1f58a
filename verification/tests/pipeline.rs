use reesolve::data::LookupOutcome;
use reesolve::data::RawError;
use reesolve::data::RawRecord;
use reesolve::data::RecordKind;
use reesolve::data::ResolveResponse;
use reesolve::data::ResultsCache;
use reesolve::error::ReeError;
use reesolve::input::make_path;
use reesolve::input::Input;
use reesolve::resolver::Resolver;
use reesolve::resolver::RunState;
use reesolve::OutputFormat;

fn a_record(name: &str, addr: &str, ttl: u32) -> RawRecord {
    RawRecord {
        name: name.to_string(),
        kind: RecordKind::A,
        address: Some(addr.to_string()),
        cname_target: None,
        ttl,
    }
}

#[test]
fn plan_has_one_task_per_host_and_nameserver() {
    let resolver = Resolver::default();
    let hosts = vec!["a.example".to_string(), "b.example".to_string()];
    let plan = resolver.plan_lookups(&hosts);
    assert_eq!(plan.len(), 2 * 8);
    assert_eq!(plan[0].host, "a.example");
    assert_eq!(plan[0].nameserver, "8.8.8.8");
    assert_eq!(plan[7].nameserver, "2606:4700:4700::1001");
    assert_eq!(plan[8].host, "b.example");
    assert_eq!(plan[8].nameserver, "8.8.8.8");
}

#[test]
fn enumerate_ns_covers_custom_nameservers() {
    let resolver = Resolver::default().load_resolvers(vec![
        "9.9.9.9".to_string(),
        "149.112.112.112".to_string(),
    ]);
    let tasks = resolver.enumerate_ns(&"host.example".to_string());
    assert_eq!(tasks.len(), 2);
    assert_eq!(tasks[0].nameserver, "9.9.9.9");
    assert_eq!(tasks[1].nameserver, "149.112.112.112");
    assert!(tasks.iter().all(|t| t.host == "host.example"));
}

#[test]
fn alias_record_keeps_originating_query() {
    let raw = RawRecord {
        name: "www.example.com.".to_string(),
        kind: RecordKind::Cname,
        address: None,
        cname_target: Some("edge.cdn.example.".to_string()),
        ttl: 60,
    };
    let record = ResolveResponse::new(raw, &"www.example.com.".to_string());
    match record {
        ResolveResponse::Alias { query, name, kind, ttl, is_wildcard } => {
            assert_eq!(query, "www.example.com.");
            assert_eq!(name, "edge.cdn.example.");
            assert_eq!(kind, "CNAME");
            assert_eq!(ttl, 60);
            assert!(!is_wildcard);
        }
        other => panic!("expected an alias record, got {:?}", other),
    }
}

#[test]
fn address_record_key_is_address_text() {
    let record = ResolveResponse::new(a_record("example.com.", "93.184.216.34", 300), &"example.com.".to_string());
    assert_eq!(record.key(), "93.184.216.34");
}

#[test]
fn same_address_from_two_nameservers_collapses() {
    let mut cache = ResultsCache::new();
    let q = "example.com.".to_string();
    let mut batch = vec![
        ResolveResponse::new(a_record("example.com.", "93.184.216.34", 300), &q),
        ResolveResponse::new(a_record("example.com.", "93.184.216.34", 300), &q),
    ];
    cache.insert(&mut batch);
    assert_eq!(cache.num_results(), 1);
    assert!(batch.is_empty());
}

#[test]
fn later_record_with_same_key_wins() {
    let mut cache = ResultsCache::new();
    let q = "example.com.".to_string();
    let mut batch = vec![
        ResolveResponse::new(a_record("old.example.", "10.0.0.1", 100), &q),
        ResolveResponse::new(a_record("new.example.", "10.0.0.1", 200), &q),
    ];
    cache.insert(&mut batch);
    assert_eq!(cache.num_results(), 1);
    match &cache.records()[0] {
        ResolveResponse::Address { name, ttl, .. } => {
            assert_eq!(name, "new.example.");
            assert_eq!(*ttl, 200);
        }
        other => panic!("expected an address record, got {:?}", other),
    }
}

#[test]
fn error_classification_keeps_informative_codes_only() {
    match ResolveResponse::from_error(RawError::Message("server misbehaved".to_string())) {
        Some(ResolveResponse::Error { query, response_code }) => {
            assert_eq!(query, "");
            assert_eq!(response_code, "server misbehaved");
        }
        other => panic!("expected an error record, got {:?}", other),
    }
    match ResolveResponse::from_error(RawError::NoRecords {
        query: "missing.example.".to_string(),
        response_code: "NXDOMAIN".to_string(),
    }) {
        Some(ResolveResponse::Error { query, response_code }) => {
            assert_eq!(query, "missing.example.");
            assert_eq!(response_code, "NXDOMAIN");
        }
        other => panic!("expected an error record, got {:?}", other),
    }
    match ResolveResponse::from_error(RawError::ProtoMessage("bad rcode".to_string())) {
        Some(ResolveResponse::Error { query, response_code }) => {
            assert_eq!(query, "");
            assert_eq!(response_code, "bad rcode");
        }
        other => panic!("expected an error record, got {:?}", other),
    }
    assert!(ResolveResponse::from_error(RawError::Io).is_none());
    assert!(ResolveResponse::from_error(RawError::Timeout).is_none());
    assert!(ResolveResponse::from_error(RawError::ProtoOther).is_none());
}

#[test]
fn deliver_response_batches_all_answer_records() {
    let outcome = LookupOutcome::Answer {
        query: "example.com.".to_string(),
        records: vec![
            a_record("example.com.", "93.184.216.34", 300),
            RawRecord {
                name: "example.com.".to_string(),
                kind: RecordKind::Other("TXT".to_string()),
                address: None,
                cname_target: None,
                ttl: 120,
            },
        ],
    };
    let batch = Resolver::deliver_response(outcome).expect("answers are always forwarded");
    assert_eq!(batch.len(), 2);
    match &batch[1] {
        ResolveResponse::Other { name, kind, ttl, is_wildcard } => {
            assert_eq!(name, "example.com.");
            assert_eq!(kind, "TXT");
            assert_eq!(*ttl, 120);
            assert!(!is_wildcard);
        }
        other => panic!("expected an other record, got {:?}", other),
    }
}

#[test]
fn deliver_response_drops_transport_failures() {
    assert!(Resolver::deliver_response(LookupOutcome::Failure(RawError::Timeout)).is_none());
    assert!(Resolver::deliver_response(LookupOutcome::Failure(RawError::Io)).is_none());
}

#[test]
fn cache_responses_flushes_everything_whatever_the_batching() {
    let q = "example.com.".to_string();
    let batches = vec![
        vec![
            ResolveResponse::new(a_record("example.com.", "10.0.0.1", 30), &q),
            ResolveResponse::new(a_record("example.com.", "10.0.0.2", 30), &q),
            ResolveResponse::new(a_record("example.com.", "10.0.0.3", 30), &q),
        ],
        vec![ResolveResponse::new(a_record("example.com.", "10.0.0.4", 30), &q)],
        vec![],
        vec![ResolveResponse::new(a_record("example.com.", "10.0.0.5", 30), &q)],
    ];
    // A threshold of 2 is skipped over by the first batch of 3: with the
    // reach-or-exceed test nothing may be lost.
    let mut cache = ResultsCache::new();
    Resolver::cache_responses(batches, 2, &mut cache, 100);
    assert_eq!(cache.num_results(), 5);
}

#[test]
fn nxdomain_failure_becomes_one_stored_record() {
    let resolver = Resolver::default();
    let outcomes = vec![LookupOutcome::Failure(RawError::NoRecords {
        query: "missing.example.".to_string(),
        response_code: "NXDOMAIN".to_string(),
    })];
    let run = resolver.resolve(outcomes);
    assert_eq!(run.count, 1);
    assert_eq!(
        run.output,
        "[{\"query\":\"missing.example.\",\"response_code\":\"NXDOMAIN\"}]"
    );
}

#[test]
fn resolve_ignores_silent_failures() {
    let resolver = Resolver::default();
    let outcomes = vec![
        LookupOutcome::Failure(RawError::Timeout),
        LookupOutcome::Failure(RawError::Io),
    ];
    let run = resolver.resolve(outcomes);
    assert_eq!(run.count, 0);
    assert_eq!(run.output, "[]");
}

#[test]
fn set_wildcard_marks_the_stored_record() {
    let mut cache = ResultsCache::new();
    let q = "sub.example.com.".to_string();
    let mut batch = vec![ResolveResponse::new(a_record("sub.example.com.", "10.1.1.1", 60), &q)];
    cache.insert(&mut batch);
    cache.set_wildcard(&"10.1.1.1".to_string());
    match &cache.records()[0] {
        ResolveResponse::Address { is_wildcard, .. } => assert!(*is_wildcard),
        other => panic!("expected an address record, got {:?}", other),
    }
}

#[test]
fn builder_methods_set_the_configuration() {
    let resolver = Resolver::default()
        .timeout(10)
        .output("csv", "out".to_string(), false);
    assert_eq!(resolver.timeout_secs(), 10);
    assert_eq!(resolver.format(), OutputFormat::Csv);
    assert_eq!(resolver.output_path(), "out");
    assert!(!resolver.stdout());

    let resolver = Resolver::default().output("json", "records".to_string(), true);
    assert_eq!(resolver.format(), OutputFormat::Json);
    assert!(resolver.stdout());

    // Any format name other than csv selects JSON.
    let resolver = Resolver::default().output("", "records".to_string(), true);
    assert_eq!(resolver.format(), OutputFormat::Json);
}

#[test]
fn default_nameserver_set_is_google_and_cloudflare() {
    let resolver = Resolver::default();
    let ns = resolver.nameservers();
    assert_eq!(
        ns.as_slice(),
        &[
            "8.8.8.8".to_string(),
            "8.8.4.4".to_string(),
            "2001:4860:4860::8888".to_string(),
            "2001:4860:4860::8844".to_string(),
            "1.1.1.1".to_string(),
            "1.0.0.1".to_string(),
            "2606:4700:4700::1111".to_string(),
            "2606:4700:4700::1001".to_string(),
        ]
    );
    assert_eq!(resolver.timeout_secs(), 5);
}

#[test]
fn run_state_advances_in_order_and_stays_done() {
    let mut state = RunState::Idle;
    let expected = [
        RunState::FanningOut,
        RunState::Draining,
        RunState::Flushing,
        RunState::Serialized,
        RunState::Done,
        RunState::Done,
    ];
    for want in expected {
        state = state.advance();
        assert_eq!(state, want);
    }
}

#[test]
fn input_hands_the_host_list_back() {
    let input = Input::new(vec!["a.example".to_string(), "b.example".to_string()]);
    assert_eq!(input.hosts(), vec!["a.example".to_string(), "b.example".to_string()]);
}

#[test]
fn make_path_appends_the_format_extension() {
    assert_eq!(make_path("records", "json"), "records.json");
    assert_eq!(make_path("out/scan", "csv"), "out/scan.csv");
}

#[test]
fn error_message_carries_the_description() {
    assert_eq!(ReeError::Io("cannot open hosts.txt".to_string()).message(), "cannot open hosts.txt");
    assert_eq!(ReeError::SendErr("receiver gone".to_string()).message(), "receiver gone");
}

#[test]
fn empty_answer_is_still_forwarded_as_a_batch() {
    let outcome = LookupOutcome::Answer {
        query: "example.com.".to_string(),
        records: vec![],
    };
    let batch = Resolver::deliver_response(outcome).expect("answers are always forwarded");
    assert!(batch.is_empty());
    let run = Resolver::default().resolve(vec![LookupOutcome::Answer {
        query: "example.com.".to_string(),
        records: vec![],
    }]);
    assert_eq!(run.count, 0);
    assert_eq!(run.output, "[]");
}
