use mumble_config::launch::build_server_invocation;
use mumble_config::launch::build_set_password_invocation;
use mumble_config::launch::choose_superuser_credential;
use mumble_config::launch::plan_config;
use mumble_config::launch::ConfigPlan;

#[test]
fn custom_config_path_bypasses_generation() {
    let plan = plan_config(Some("/etc/custom.ini".to_string()));
    match plan {
        ConfigPlan::UseCustom(path) => assert_eq!(path, "/etc/custom.ini"),
        ConfigPlan::Generate(_) => panic!("custom path must be used verbatim"),
    }
}

#[test]
fn absent_custom_path_generates_at_default_path() {
    let plan = plan_config(None);
    match plan {
        ConfigPlan::UseCustom(_) => panic!("nothing was supplied"),
        ConfigPlan::Generate(path) => assert_eq!(path, "/data/mumble_server_config.ini"),
    }
}

#[test]
fn server_invocation_appends_ini_and_path() {
    let args = vec!["/usr/bin/mumble-server".to_string(), "-v".to_string()];
    let invocation = build_server_invocation(&args, "/data/conf.ini".to_string());
    assert_eq!(invocation, vec!["/usr/bin/mumble-server", "-v", "-ini", "/data/conf.ini"]);
}

#[test]
fn set_password_invocation_appends_supw_and_credential() {
    let base = vec!["/usr/bin/mumble-server".to_string(), "-ini".to_string(), "/data/conf.ini".to_string()];
    let invocation = build_set_password_invocation(&base, "s3cret".to_string());
    assert_eq!(
        invocation,
        vec!["/usr/bin/mumble-server", "-ini", "/data/conf.ini", "-supw", "s3cret"]
    );
}

#[test]
fn secret_file_credential_wins_over_environment() {
    let chosen = choose_superuser_credential(
        Some("from-file".to_string()),
        Some("from-env".to_string()),
    );
    assert_eq!(chosen.as_deref(), Some("from-file"));
}

#[test]
fn environment_credential_used_when_no_secret_file() {
    let chosen = choose_superuser_credential(None, Some("from-env".to_string()));
    assert_eq!(chosen.as_deref(), Some("from-env"));
    assert_eq!(choose_superuser_credential(None, None), None);
}
