//! Well-known locations shared by the daemon and the command line, below the
//! directories that the environment gives. Paths are those of Unix: a slash separates their
//! components, and a backslash is a character of a name.
use vstd::prelude::*;

use crate::text::chars_of;

verus! {

/// A name below a directory, with one separator between them where the directory lacks
/// one.
pub open spec fn path_join(dir: Seq<char>, name: Seq<char>) -> Seq<char> {
    if dir.len() == 0 || dir.last() == '/' {
        dir + name
    } else {
        dir + seq!['/'] + name
    }
}

/// A name below a directory.
pub fn join_path(dir: &str, name: &str) -> (r: String)
    ensures
        r@ == path_join(dir@, name@),
{
    let chars = chars_of(dir);
    let n = chars.len();
    let mut out = dir.to_owned();
    if n > 0 && chars[n - 1] != '/' {
        out.push('/');
    }
    out.append(name);
    assert(out@ =~= path_join(dir@, name@));
    out
}

/// The directory of the sockets: the one that is set, else one below the home directory.
pub open spec fn runtime_dir_of(set: Option<Seq<char>>, home: Seq<char>) -> Seq<char> {
    match set {
        Some(dir) => dir,
        None => path_join(path_join(home, ".gatehouse"@), "run"@),
    }
}

/// The directory of the sockets: the one that `GATEHOUSE_RUNTIME_DIR` sets, else one below
/// the home directory.
pub fn runtime_dir(set: Option<&str>, home: &str) -> (r: String)
    ensures
        r@ == runtime_dir_of(crate::text::opt_str(set), home@),
{
    match set {
        Some(dir) => dir.to_owned(),
        None => join_path(join_path(home, ".gatehouse").as_str(), "run"),
    }
}

/// A directory of the program: the one that is set, else one below the user's directory of
/// that kind.
pub open spec fn own_dir_of(set: Option<Seq<char>>, base: Seq<char>) -> Seq<char> {
    match set {
        Some(dir) => dir,
        None => path_join(base, "gatehouse"@),
    }
}

/// The directory of the configuration: the one that `GATEHOUSE_CONFIG_DIR` sets, else one
/// below the user's configuration directory.
pub fn config_dir(set: Option<&str>, base: &str) -> (r: String)
    ensures
        r@ == own_dir_of(crate::text::opt_str(set), base@),
{
    match set {
        Some(dir) => dir.to_owned(),
        None => join_path(base, "gatehouse"),
    }
}

/// The directory of the data: the one that `GATEHOUSE_DATA_DIR` sets, else one below the
/// user's data directory.
pub fn data_dir(set: Option<&str>, base: &str) -> (r: String)
    ensures
        r@ == own_dir_of(crate::text::opt_str(set), base@),
{
    match set {
        Some(dir) => dir.to_owned(),
        None => join_path(base, "gatehouse"),
    }
}

/// The socket that a sandbox sees: it takes requests and nothing else.
pub open spec fn agent_sock_place(dir: Seq<char>) -> Seq<char> {
    path_join(dir, "agent.sock"@)
}

/// The socket that a sandbox sees: it takes requests and nothing else.
pub fn agent_sock(runtime_dir: &str) -> (r: String)
    ensures
        r@ == agent_sock_place(runtime_dir@),
        r@ == path_join(runtime_dir@, "agent.sock"@),
{
    join_path(runtime_dir, "agent.sock")
}

/// The operator's socket: approve, deny, grant, status.
pub open spec fn ctl_sock_place(dir: Seq<char>) -> Seq<char> {
    path_join(dir, "ctl.sock"@)
}

/// The operator's socket: approve, deny, grant, status.
pub fn ctl_sock(runtime_dir: &str) -> (r: String)
    ensures
        r@ == ctl_sock_place(runtime_dir@),
        r@ == path_join(runtime_dir@, "ctl.sock"@),
{
    join_path(runtime_dir, "ctl.sock")
}

/// Where the daemon advertises its approval page. It lies in the runtime directory, so
/// only the operator can read it.
pub open spec fn http_info_place(dir: Seq<char>) -> Seq<char> {
    path_join(dir, "http.json"@)
}

/// Where the daemon advertises its approval page. It lies in the runtime directory, so
/// only the operator can read it.
pub fn http_info_path(runtime_dir: &str) -> (r: String)
    ensures
        r@ == http_info_place(runtime_dir@),
        r@ == path_join(runtime_dir@, "http.json"@),
{
    join_path(runtime_dir, "http.json")
}

/// The policy file.
pub open spec fn policy_place(dir: Seq<char>) -> Seq<char> {
    path_join(dir, "policy.toml"@)
}

/// The policy file.
pub fn policy_path(config_dir: &str) -> (r: String)
    ensures
        r@ == policy_place(config_dir@),
        r@ == path_join(config_dir@, "policy.toml"@),
{
    join_path(config_dir, "policy.toml")
}

/// The pointer to a relay in the configuration.
pub open spec fn relay_toml_place(dir: Seq<char>) -> Seq<char> {
    path_join(dir, "relay.toml"@)
}

/// The pointer to a relay in the configuration.
pub fn relay_toml_path(config_dir: &str) -> (r: String)
    ensures
        r@ == relay_toml_place(config_dir@),
        r@ == path_join(config_dir@, "relay.toml"@),
{
    join_path(config_dir, "relay.toml")
}

/// The audit log.
pub open spec fn audit_place(dir: Seq<char>) -> Seq<char> {
    path_join(dir, "audit.jsonl"@)
}

/// The audit log.
pub fn audit_path(data_dir: &str) -> (r: String)
    ensures
        r@ == audit_place(data_dir@),
        r@ == path_join(data_dir@, "audit.jsonl"@),
{
    join_path(data_dir, "audit.jsonl")
}

/// The enrolled passkeys.
pub open spec fn passkeys_place(dir: Seq<char>) -> Seq<char> {
    path_join(dir, "passkeys.json"@)
}

/// The enrolled passkeys.
pub fn passkeys_path(data_dir: &str) -> (r: String)
    ensures
        r@ == passkeys_place(data_dir@),
        r@ == path_join(data_dir@, "passkeys.json"@),
{
    join_path(data_dir, "passkeys.json")
}

/// The passkeys enrolled from a phone.
pub open spec fn phone_passkeys_place(dir: Seq<char>) -> Seq<char> {
    path_join(dir, "passkeys-phone.json"@)
}

/// The passkeys enrolled from a phone.
pub fn phone_passkeys_path(data_dir: &str) -> (r: String)
    ensures
        r@ == phone_passkeys_place(data_dir@),
        r@ == path_join(data_dir@, "passkeys-phone.json"@),
{
    join_path(data_dir, "passkeys-phone.json")
}

/// The devices enrolled at the relay.
pub open spec fn devices_place(dir: Seq<char>) -> Seq<char> {
    path_join(dir, "devices.json"@)
}

/// The devices enrolled at the relay.
pub fn devices_path(data_dir: &str) -> (r: String)
    ensures
        r@ == devices_place(data_dir@),
        r@ == path_join(data_dir@, "devices.json"@),
{
    join_path(data_dir, "devices.json")
}

/// The credential with which the daemon dials a relay.
pub open spec fn device_cred_place(dir: Seq<char>) -> Seq<char> {
    path_join(dir, "device.json"@)
}

/// The credential with which the daemon dials a relay.
pub fn device_cred_path(data_dir: &str) -> (r: String)
    ensures
        r@ == device_cred_place(data_dir@),
        r@ == path_join(data_dir@, "device.json"@),
{
    join_path(data_dir, "device.json")
}

/// The directory of the relay's certificates.
pub open spec fn relay_dir_place(dir: Seq<char>) -> Seq<char> {
    path_join(dir, "relay"@)
}

/// The directory of the relay's certificates.
pub fn relay_dir(data_dir: &str) -> (r: String)
    ensures
        r@ == relay_dir_place(data_dir@),
        r@ == path_join(data_dir@, "relay"@),
{
    join_path(data_dir, "relay")
}

/// The configuration of the relay.
pub fn relay_config_path(data_dir: &str) -> (r: String)
    ensures
        r@ == path_join(path_join(data_dir@, "relay"@), "config.json"@),
{
    join_path(relay_dir(data_dir).as_str(), "config.json")
}

/// The devices that take push notifications.
pub open spec fn apns_devices_place(dir: Seq<char>) -> Seq<char> {
    path_join(dir, "apns-devices.json"@)
}

/// The devices that take push notifications.
pub fn apns_devices_path(data_dir: &str) -> (r: String)
    ensures
        r@ == apns_devices_place(data_dir@),
        r@ == path_join(data_dir@, "apns-devices.json"@),
{
    join_path(data_dir, "apns-devices.json")
}

/// The key that encrypts push tokens at rest.
pub open spec fn apns_key_place(dir: Seq<char>) -> Seq<char> {
    path_join(dir, "apns.key"@)
}

/// The key that encrypts push tokens at rest.
pub fn apns_key_path(data_dir: &str) -> (r: String)
    ensures
        r@ == apns_key_place(data_dir@),
        r@ == path_join(data_dir@, "apns.key"@),
{
    join_path(data_dir, "apns.key")
}

}
