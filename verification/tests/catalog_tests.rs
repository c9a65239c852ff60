use mumble_config::catalog::build_catalog;
use mumble_config::catalog::catalog_collisions;
use mumble_config::catalog::config_prefix;
use mumble_config::catalog::lookup_option;
use mumble_config::names::is_sensitive;
use mumble_config::names::normalize_name;
use mumble_config::names::sensitive_configs;
use mumble_config::names::slice_contains;

#[test]
fn normalize_uppercases_and_strips_underscores() {
    assert_eq!(normalize_name("db_password"), "DBPASSWORD");
    assert_eq!(normalize_name("sslPassPhrase"), "SSLPASSPHRASE");
    assert_eq!(normalize_name("ice"), "ICE");
    assert_eq!(normalize_name("port"), "PORT");
    assert_eq!(normalize_name("_"), "");
    assert_eq!(normalize_name(""), "");
    assert_eq!(normalize_name("a_b_c9"), "ABC9");
}

#[test]
fn catalog_from_plain_declarations() {
    let catalog = build_catalog("port=64738\nusers=100\n");
    let names: Vec<&str> = catalog.iter().map(|e| e.name.as_str()).collect();
    assert_eq!(names, vec!["port", "users"]);
    assert_eq!(catalog[0].key, "MUMBLE_CONFIG_PORT");
    assert_eq!(catalog[1].key, "MUMBLE_CONFIG_USERS");
}

#[test]
fn catalog_counts_commented_declarations() {
    let catalog = build_catalog(";serverpassword=\n#db_password=secret\n; welcometext=hi\n");
    let names: Vec<&str> = catalog.iter().map(|e| e.name.as_str()).collect();
    assert_eq!(names, vec!["serverpassword", "db_password", "welcometext"]);
    assert_eq!(catalog[1].key, "MUMBLE_CONFIG_DBPASSWORD");
}

#[test]
fn catalog_skips_unparsable_lines() {
    let catalog = build_catalog("[Ice]\n\nno equals here\nbad name=1\n=value\n;;x=1\nok=1\n");
    let names: Vec<&str> = catalog.iter().map(|e| e.name.as_str()).collect();
    assert_eq!(names, vec!["ok"]);
}

#[test]
fn catalog_accepts_spaces_after_marker() {
    let catalog = build_catalog("#   spaced_out=1\n   indented=2\n");
    let names: Vec<&str> = catalog.iter().map(|e| e.name.as_str()).collect();
    assert_eq!(names, vec!["spaced_out", "indented"]);
}

#[test]
fn lookup_matches_prefixed_normalized_key() {
    let catalog = build_catalog("port=64738\nserver_password=\n");
    let hit = lookup_option(&catalog, "MUMBLE_CONFIG_PORT");
    assert_eq!(hit.as_deref(), Some("port"));
    let hit = lookup_option(&catalog, "MUMBLE_CONFIG_SERVERPASSWORD");
    assert_eq!(hit.as_deref(), Some("server_password"));
    assert!(lookup_option(&catalog, "MUMBLE_CONFIG_MISSING").is_none());
    assert!(lookup_option(&catalog, "port").is_none());
}

#[test]
fn colliding_names_resolve_to_later_declaration() {
    let catalog = build_catalog("ab_c=1\nA_BC=2\n");
    let hit = lookup_option(&catalog, "MUMBLE_CONFIG_ABC");
    assert_eq!(hit.as_deref(), Some("A_BC"));
    let collisions = catalog_collisions(&catalog);
    assert_eq!(collisions, vec!["A_BC".to_string()]);
}

#[test]
fn no_collisions_on_distinct_keys() {
    let catalog = build_catalog("port=64738\nusers=100\nwelcometext=\n");
    assert!(catalog_collisions(&catalog).is_empty());
}

#[test]
fn duplicate_declaration_is_not_a_collision() {
    let catalog = build_catalog("port=64738\n;port=64738\n");
    assert!(catalog_collisions(&catalog).is_empty());
    assert_eq!(lookup_option(&catalog, "MUMBLE_CONFIG_PORT").as_deref(), Some("port"));
}

#[test]
fn sensitive_options_are_recognized() {
    assert!(is_sensitive("dbPassword"));
    assert!(is_sensitive("icesecretread"));
    assert!(is_sensitive("icesecretwrite"));
    assert!(is_sensitive("serverpassword"));
    assert!(is_sensitive("registerpassword"));
    assert!(is_sensitive("sslPassPhrase"));
    assert!(!is_sensitive("port"));
    assert!(!is_sensitive("DBPASSWORD"));
}

#[test]
fn slice_contains_finds_exact_match() {
    let sensitive = sensitive_configs();
    assert!(slice_contains(&sensitive, "serverpassword"));
    assert!(!slice_contains(&sensitive, "welcometext"));
}

#[test]
fn last_line_without_newline_is_parsed() {
    let catalog = build_catalog("users=100\nport=64738");
    let names: Vec<&str> = catalog.iter().map(|e| e.name.as_str()).collect();
    assert_eq!(names, vec!["users", "port"]);
}

#[test]
fn empty_template_declares_nothing() {
    assert!(build_catalog("").is_empty());
    assert!(build_catalog("\n\n").is_empty());
}

#[test]
fn prefix_constant_is_fixed() {
    assert_eq!(config_prefix(), "MUMBLE_CONFIG_");
}
