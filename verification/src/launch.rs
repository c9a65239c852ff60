//! Launch decisions: which config path to use, how the server invocation
//! is assembled, and which source supplies the superuser credential.

use vstd::prelude::*;
use crate::synth::str_views;

verus! {

/// The fixed path the generated config file is written to.
pub open spec fn spec_default_config_path() -> Seq<char> {
    "/data/mumble_server_config.ini"@
}

/// What to do about the config file: use a caller-supplied path verbatim,
/// skipping synthesis entirely, or generate the file at the default path.
pub enum ConfigPlan {
    UseCustom(String),
    Generate(String),
}

/// Decide the config plan. A custom config path supplied from outside
/// bypasses template parsing, override collection, and the file write;
/// otherwise the file is generated at the fixed default path.
pub fn plan_config(custom_config_path: Option<String>) -> (r: ConfigPlan)
    ensures
        match r {
            ConfigPlan::UseCustom(c) => custom_config_path matches Some(p) && c@ == p@,
            ConfigPlan::Generate(d) => custom_config_path is None && d@
                == spec_default_config_path(),
        },
{
    match custom_config_path {
        Some(p) => ConfigPlan::UseCustom(p),
        None => ConfigPlan::Generate("/data/mumble_server_config.ini".to_owned()),
    }
}

fn clone_strings(v: &Vec<String>) -> (r: Vec<String>)
    ensures
        r@ == v@,
{
    let n = v.len();
    let mut r: Vec<String> = Vec::new();
    let mut i: usize = 0;
    while i < n
        invariant
            n == v@.len(),
            i <= n,
            r@ == v@.take(i as int),
        decreases n - i,
    {
        r.push(v[i].clone());
        proof {
            assert(v@.take(i + 1 as int) =~= v@.take(i as int).push(v@[i as int]));
        }
        i += 1;
    }
    proof {
        assert(v@.take(n as int) =~= v@);
    }
    r
}

/// The final server invocation: the forwarded arguments with `-ini` and
/// the config path appended.
pub fn build_server_invocation(args: &Vec<String>, config_file: String) -> (r: Vec<String>)
    ensures
        str_views(r@) == str_views(args@) + seq!["-ini"@, config_file@],
{
    let mut r = clone_strings(args);
    r.push("-ini".to_owned());
    r.push(config_file);
    proof {
        assert(str_views(r@) =~= str_views(args@) + seq!["-ini"@, config_file@]);
    }
    r
}

/// The one-time privileged invocation that sets the superuser password:
/// the base invocation with `-supw` and the credential appended.
pub fn build_set_password_invocation(server_invocation: &Vec<String>, password: String) -> (r: Vec<
    String,
>)
    ensures
        str_views(r@) == str_views(server_invocation@) + seq!["-supw"@, password@],
{
    let mut r = clone_strings(server_invocation);
    r.push("-supw".to_owned());
    r.push(password);
    proof {
        assert(str_views(r@) =~= str_views(server_invocation@) + seq!["-supw"@, password@]);
    }
    r
}

/// Choose the superuser credential: the secret file's contents when that
/// file exists, else the environment variable's value, else none. The
/// secret file alone decides whether the environment variable is
/// consulted.
pub fn choose_superuser_credential(secret_file: Option<String>, env_var: Option<String>) -> (r:
    Option<String>)
    ensures
        match secret_file {
            Some(s) => r matches Some(c) && c@ == s@,
            None => match env_var {
                Some(e) => r matches Some(c) && c@ == e@,
                None => r is None,
            },
        },
{
    match secret_file {
        Some(s) => Some(s),
        None => env_var,
    }
}

} // verus!
