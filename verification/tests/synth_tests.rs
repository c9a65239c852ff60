use mumble_config::catalog::build_catalog;
use mumble_config::overrides::filter_config_overrides;
use mumble_config::overrides::str_starts_with;
use mumble_config::synth::header;
use mumble_config::synth::stanza;
use mumble_config::synth::synthesize;

const TEMPLATE: &str = ";database=\n;ice=\"tcp -h 127.0.0.1 -p 6502\"\n;welcometext=\nport=64738\n;users=100\n;serverpassword=\n";

#[test]
fn defaults_alone_give_exact_document() {
    let catalog = build_catalog(TEMPLATE);
    let out = synthesize(&catalog, &vec![], &vec![], false);
    let expected = format!(
        "{}database=/data/mumble-server.sqlite\nice=\"tcp -h 127.0.0.1 -p 6502\"\nwelcometext=\"<br />Welcome to this server, running the official Mumble Docker image.<br />Enjoy your stay!<br />\"\nport=64738\nusers=100\n{}",
        header(),
        stanza()
    );
    assert_eq!(out.document, expected);
}

#[test]
fn port_default_applied_iff_no_override() {
    let catalog = build_catalog(TEMPLATE);
    let out = synthesize(&catalog, &vec![], &vec![], false);
    assert!(out.document.contains("port=64738\n"));
    let overrides = vec![("MUMBLE_CONFIG_PORT".to_string(), "12345".to_string())];
    let out = synthesize(&catalog, &overrides, &vec![], false);
    assert!(out.document.contains("port=12345\n"));
    assert!(!out.document.contains("port=64738"));
}

#[test]
fn sensitive_value_masked_in_log_but_written_to_document() {
    let catalog = build_catalog(TEMPLATE);
    let overrides = vec![("MUMBLE_CONFIG_SERVERPASSWORD".to_string(), "hunter2".to_string())];
    let out = synthesize(&catalog, &overrides, &vec![], false);
    assert!(out.document.contains("serverpassword=hunter2\n"));
    assert!(out.log.iter().any(|l| l == "Setting config \"serverpassword\" to: *********"));
    assert!(out.log.iter().all(|l| !l.contains("hunter2")));
}

#[test]
fn non_sensitive_value_shown_in_log() {
    let catalog = build_catalog(TEMPLATE);
    let overrides = vec![("MUMBLE_CONFIG_PORT".to_string(), "12345".to_string())];
    let out = synthesize(&catalog, &overrides, &vec![], false);
    assert!(out.log.iter().any(|l| l == "Setting config \"port\" to: 12345"));
}

#[test]
fn unmatched_override_dropped_with_notice() {
    let catalog = build_catalog(TEMPLATE);
    let overrides = vec![("MUMBLE_CONFIG_NOPE".to_string(), "zzz".to_string())];
    let out = synthesize(&catalog, &overrides, &vec![], false);
    assert!(!out.document.contains("zzz"));
    assert!(out.log.iter().any(|l| l == "Could not find config option for variable MUMBLE_CONFIG_NOPE"));
    let out = synthesize(&catalog, &vec![], &overrides, false);
    assert!(out.log.iter().any(|l| l == "Could not find config option for secret MUMBLE_CONFIG_NOPE"));
}

#[test]
fn synthesis_is_deterministic() {
    let catalog = build_catalog(TEMPLATE);
    let env = vec![
        ("MUMBLE_CONFIG_PORT".to_string(), "12345".to_string()),
        ("MUMBLE_CONFIG_WELCOMETEXT".to_string(), "\"hi\"".to_string()),
    ];
    let secrets = vec![("MUMBLE_CONFIG_SERVERPASSWORD".to_string(), "s3cret".to_string())];
    let first = synthesize(&catalog, &env, &secrets, true);
    let second = synthesize(&catalog, &env, &secrets, true);
    assert_eq!(first.document, second.document);
    assert_eq!(first.log, second.log);
}

#[test]
fn legacy_database_file_selects_legacy_default() {
    let catalog = build_catalog(TEMPLATE);
    let out = synthesize(&catalog, &vec![], &vec![], true);
    assert!(out.document.contains("database=/data/murmur.sqlite\n"));
    assert!(!out.document.contains("database=/data/mumble-server.sqlite"));
    let out = synthesize(&catalog, &vec![], &vec![], false);
    assert!(out.document.contains("database=/data/mumble-server.sqlite\n"));
    assert!(!out.document.contains("database=/data/murmur.sqlite"));
}

#[test]
fn environment_overrides_resolve_before_secrets() {
    let catalog = build_catalog(TEMPLATE);
    let env = vec![("MUMBLE_CONFIG_PORT".to_string(), "1111".to_string())];
    let secrets = vec![("MUMBLE_CONFIG_PORT".to_string(), "2222".to_string())];
    let out = synthesize(&catalog, &env, &secrets, false);
    let first = out.document.find("port=1111\n").unwrap();
    let second = out.document.find("port=2222\n").unwrap();
    assert!(first < second);
    assert!(!out.document.contains("port=64738"));
}

#[test]
fn document_has_header_and_stanza() {
    let catalog = build_catalog(TEMPLATE);
    let out = synthesize(&catalog, &vec![], &vec![], false);
    assert!(out.document.starts_with(header()));
    assert!(out.document.ends_with(stanza()));
    assert!(out.document.ends_with("\n[Ice]\nIce.Warn.UnknownProperties=1\nIce.MessageSizeMax=65536"));
}

#[test]
fn defaults_are_applied_even_with_empty_catalog() {
    let catalog = build_catalog("");
    let out = synthesize(&catalog, &vec![], &vec![], false);
    assert!(out.document.contains("port=64738\n"));
    assert!(out.document.contains("users=100\n"));
    assert!(out.document.contains("database=/data/mumble-server.sqlite\n"));
}

#[test]
fn filter_keeps_only_prefixed_identifiers() {
    let pairs = vec![
        ("MUMBLE_CONFIG_PORT".to_string(), "1".to_string()),
        ("PATH".to_string(), "/usr/bin".to_string()),
        ("MUMBLE_SUPERUSER_PASSWORD".to_string(), "x".to_string()),
        ("MUMBLE_CONFIG_USERS".to_string(), "5".to_string()),
    ];
    let kept = filter_config_overrides(&pairs);
    assert_eq!(kept.len(), 2);
    assert_eq!(kept[0].0, "MUMBLE_CONFIG_PORT");
    assert_eq!(kept[1].0, "MUMBLE_CONFIG_USERS");
}

#[test]
fn prefix_test_is_exact() {
    assert!(str_starts_with("MUMBLE_CONFIG_PORT", "MUMBLE_CONFIG_"));
    assert!(str_starts_with("MUMBLE_CONFIG_", "MUMBLE_CONFIG_"));
    assert!(!str_starts_with("MUMBLE_CONFIG", "MUMBLE_CONFIG_"));
    assert!(!str_starts_with("XMUMBLE_CONFIG_Y", "MUMBLE_CONFIG_"));
}
