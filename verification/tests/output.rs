use reesolve::data::LookupOutcome;
use reesolve::data::RawRecord;
use reesolve::data::RecordKind;
use reesolve::data::ResolveResponse;
use reesolve::data::ResultsCache;
use reesolve::resolver::Resolver;
use reesolve::OutputFormat;

fn single_a_outcome(query: &str, name: &str, addr: &str, ttl: u32) -> LookupOutcome {
    LookupOutcome::Answer {
        query: query.to_string(),
        records: vec![RawRecord {
            name: name.to_string(),
            kind: RecordKind::A,
            address: Some(addr.to_string()),
            cname_target: None,
            ttl,
        }],
    }
}

#[test]
fn single_a_record_json_output() {
    let resolver = Resolver::default();
    let run = resolver.resolve(vec![single_a_outcome(
        "example.com",
        "example.com",
        "93.184.216.34",
        300,
    )]);
    assert_eq!(run.count, 1);
    assert_eq!(
        run.output,
        "[{\"name\":\"example.com\",\"ip\":\"93.184.216.34\",\"type\":\"A\",\"ttl\":300,\"is_wildcard\":false}]"
    );
}

#[test]
fn same_target_against_two_nameservers_stores_once() {
    let resolver = Resolver::default();
    let outcomes = vec![
        single_a_outcome("example.com", "example.com", "93.184.216.34", 300),
        single_a_outcome("example.com", "example.com", "93.184.216.34", 300),
    ];
    let run = resolver.resolve(outcomes);
    assert_eq!(run.count, 1);
}

#[test]
fn empty_target_list_yields_empty_documents() {
    let json = Resolver::default().resolve(vec![]);
    assert_eq!(json.count, 0);
    assert_eq!(json.output, "[]");

    let csv = Resolver::default()
        .output("csv", "records".to_string(), true)
        .resolve(vec![]);
    assert_eq!(csv.count, 0);
    assert_eq!(csv.output, "query,name,ip,type,ttl,is_wildcard,response_code\n");
}

#[test]
fn serialization_is_idempotent() {
    let mut cache = ResultsCache::new();
    let q = "example.com.".to_string();
    let mut batch = vec![
        ResolveResponse::new(
            RawRecord {
                name: "example.com.".to_string(),
                kind: RecordKind::A,
                address: Some("93.184.216.34".to_string()),
                cname_target: None,
                ttl: 300,
            },
            &q,
        ),
        ResolveResponse::new(
            RawRecord {
                name: "www.example.com.".to_string(),
                kind: RecordKind::Cname,
                address: None,
                cname_target: Some("example.com.".to_string()),
                ttl: 60,
            },
            &q,
        ),
    ];
    cache.insert(&mut batch);
    assert_eq!(
        cache.results(&OutputFormat::Json),
        cache.results(&OutputFormat::Json)
    );
    assert_eq!(
        cache.results(&OutputFormat::Csv),
        cache.results(&OutputFormat::Csv)
    );
}

#[test]
fn csv_output_has_header_and_one_row_per_record() {
    let resolver = Resolver::default().output("csv", "records".to_string(), true);
    let run = resolver.resolve(vec![single_a_outcome(
        "example.com",
        "example.com",
        "1.2.3.4",
        300,
    )]);
    assert_eq!(
        run.output,
        "query,name,ip,type,ttl,is_wildcard,response_code\n,example.com,1.2.3.4,A,300,false,\n"
    );
}

#[test]
fn json_field_names_follow_the_renames() {
    let resolver = Resolver::default();
    let run = resolver.resolve(vec![single_a_outcome(
        "example.com",
        "example.com",
        "93.184.216.34",
        300,
    )]);
    let parsed: serde_json::Value = serde_json::from_str(&run.output).expect("output is valid JSON");
    let arr = parsed.as_array().expect("output is a JSON array");
    assert_eq!(arr.len(), 1);
    let obj = arr[0].as_object().expect("record is a JSON object");
    assert_eq!(obj["name"], "example.com");
    assert_eq!(obj["ip"], "93.184.216.34");
    assert_eq!(obj["type"], "A");
    assert_eq!(obj["ttl"], 300);
    assert_eq!(obj["is_wildcard"], false);
    assert!(!obj.contains_key("kind"));
    assert!(!obj.contains_key("value"));
}

#[test]
fn alias_json_round_trips_all_fields() {
    let outcome = LookupOutcome::Answer {
        query: "www.example.com.".to_string(),
        records: vec![RawRecord {
            name: "www.example.com.".to_string(),
            kind: RecordKind::Cname,
            address: None,
            cname_target: Some("edge.cdn.example.".to_string()),
            ttl: 60,
        }],
    };
    let run = Resolver::default().resolve(vec![outcome]);
    let parsed: serde_json::Value = serde_json::from_str(&run.output).expect("output is valid JSON");
    let obj = parsed.as_array().expect("array")[0].as_object().expect("object");
    assert_eq!(obj["query"], "www.example.com.");
    assert_eq!(obj["name"], "edge.cdn.example.");
    assert_eq!(obj["type"], "CNAME");
    assert_eq!(obj["ttl"], 60);
    assert_eq!(obj["is_wildcard"], false);
}

#[test]
fn json_escapes_special_characters() {
    let outcome = LookupOutcome::Answer {
        query: "q".to_string(),
        records: vec![RawRecord {
            name: "we\"ird\\host\nname".to_string(),
            kind: RecordKind::Other("TXT".to_string()),
            address: None,
            cname_target: None,
            ttl: 1,
        }],
    };
    let run = Resolver::default().resolve(vec![outcome]);
    let parsed: serde_json::Value = serde_json::from_str(&run.output).expect("output is valid JSON");
    let obj = parsed.as_array().expect("array")[0].as_object().expect("object");
    assert_eq!(obj["name"], "we\"ird\\host\nname");
}

#[test]
fn csv_quotes_cells_with_separators() {
    let outcome = LookupOutcome::Answer {
        query: "q".to_string(),
        records: vec![RawRecord {
            name: "a,b\"c".to_string(),
            kind: RecordKind::Other("TXT".to_string()),
            address: None,
            cname_target: None,
            ttl: 1,
        }],
    };
    let run = Resolver::default()
        .output("csv", "records".to_string(), true)
        .resolve(vec![outcome]);
    let mut reader = csv::Reader::from_reader(run.output.as_bytes());
    let headers = reader.headers().expect("header row").clone();
    assert_eq!(
        headers,
        csv::StringRecord::from(vec![
            "query",
            "name",
            "ip",
            "type",
            "ttl",
            "is_wildcard",
            "response_code"
        ])
    );
    let rows: Vec<csv::StringRecord> = reader.records().map(|r| r.expect("row")).collect();
    assert_eq!(rows.len(), 1);
    assert_eq!(&rows[0][1], "a,b\"c");
    assert_eq!(&rows[0][3], "TXT");
}

#[test]
fn missing_address_is_recorded_as_empty() {
    let outcome = LookupOutcome::Answer {
        query: "example.com".to_string(),
        records: vec![RawRecord {
            name: "example.com".to_string(),
            kind: RecordKind::AAAA,
            address: None,
            cname_target: None,
            ttl: 30,
        }],
    };
    let run = Resolver::default().resolve(vec![outcome]);
    assert_eq!(
        run.output,
        "[{\"name\":\"example.com\",\"ip\":\"\",\"type\":\"AAAA\",\"ttl\":30,\"is_wildcard\":false}]"
    );
}
