use dns::utils::{normalize_system_output, parse_dns_answer, parse_dns_config, DnsError};

#[test]
fn parse_dns_answer_reads_first_answer() {
    let body = r#"{"Answer":[{"data":"1.2.3.4"},{"data":"5.6.7.8"}]}"#;
    let response = parse_dns_answer(body).expect("a first answer record must be read");
    assert_eq!(response.ip_address, "1.2.3.4");
}

#[test]
fn parse_dns_answer_full_envelope() {
    let body = r#"{"Status":0,"Answer":[{"name":"a.com.","type":1,"TTL":300,"data":"93.184.216.34"}]}"#;
    match parse_dns_answer(body) {
        Ok(response) => assert_eq!(response.ip_address, "93.184.216.34"),
        Err(_) => panic!("a valid envelope must parse"),
    }
}

#[test]
fn parse_dns_answer_rejects_invalid_json() {
    match parse_dns_answer("not json at all") {
        Ok(_) => panic!("malformed JSON must be rejected"),
        Err(e) => assert_eq!(e, DnsError::InvalidJson),
    }
}

#[test]
fn parse_dns_answer_reports_missing_answer() {
    // A missing first answer record is a failure of the remote tier, so
    // that resolution falls through to the system resolver.
    for body in [
        r#"{"Status":3}"#,
        r#"{"Answer":[]}"#,
        r#"{"Answer":[{"ttl":60}]}"#,
        r#"{"Answer":[{"data":42}]}"#,
    ] {
        match parse_dns_answer(body) {
            Ok(_) => panic!("an envelope without an answer must fail"),
            Err(e) => assert_eq!(e, DnsError::NoAnswer),
        }
    }
}

#[test]
fn parse_dns_config_reads_records_in_order() {
    let body = r#"[{"domain":"a.example","ip":"1.1.1.1"},{"domain":"b.example","ip":"2.2.2.2"}]"#;
    let records = parse_dns_config(body).expect("a valid table must parse");
    assert_eq!(
        records,
        vec![
            ("a.example".to_string(), "1.1.1.1".to_string()),
            ("b.example".to_string(), "2.2.2.2".to_string()),
        ]
    );
    assert_eq!(parse_dns_config("[]"), Ok(Vec::new()));
}

#[test]
fn parse_dns_config_rejects_bad_shapes() {
    assert_eq!(parse_dns_config("{oops"), Err(DnsError::InvalidJson));
    assert_eq!(parse_dns_config(r#"{"domain":"a","ip":"b"}"#), Err(DnsError::InvalidRecord));
    assert_eq!(parse_dns_config(r#"[{"domain":"a"}]"#), Err(DnsError::InvalidRecord));
    assert_eq!(parse_dns_config(r#"[{"domain":"a","ip":7}]"#), Err(DnsError::InvalidRecord));
}

#[test]
fn normalize_system_output_trims() {
    assert_eq!(
        normalize_system_output("  93.184.216.34\n"),
        Some("93.184.216.34".to_string())
    );
    assert_eq!(normalize_system_output("1.2.3.4"), Some("1.2.3.4".to_string()));
    assert_eq!(
        normalize_system_output("\t10.0.0.1 \r\n"),
        Some("10.0.0.1".to_string())
    );
    // Interior whitespace stays: only the ends are trimmed.
    assert_eq!(normalize_system_output(" a b "), Some("a b".to_string()));
}

#[test]
fn normalize_system_output_rejects_empty() {
    // Empty output is no IP: a failure of the system tier.
    assert_eq!(normalize_system_output(""), None);
    assert_eq!(normalize_system_output("\n"), None);
    assert_eq!(normalize_system_output("  \t\r\n"), None);
}
