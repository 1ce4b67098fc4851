//! The messages between the daemon and the relay, and what both keep about devices.
//!
//! The phone talks HTTPS to the relay; the relay forwards each call to the daemon. Ceremonies
//! and passkey verification always happen on the daemon, so a relay cannot forge an approval
//! without a valid assertion, and cannot redirect one onto another request because the
//! challenge is derived from the request digest.
use vstd::prelude::*;

use crate::json::Json;
use crate::text::{cut_end, opt_text, trim_end_matches};

verus! {

/// What a relay may ask of a daemon.
#[derive(Clone, Copy, Debug, PartialEq, Eq, Structural)]
pub enum RelayMethod {
    Pending,
    RegisterStart,
    RegisterFinish,
    ApproveStart,
    ApproveFinish,
    Deny,
}

/// One call from a relay to a daemon.
pub enum RelayToDaemon {
    Rpc { id: String, method: RelayMethod, body: Json },
}

/// Replies and events from a daemon to a relay.
pub enum DaemonToRelay {
    Hello { enrolled: usize, device_id: Option<String> },
    RpcOk { id: String, body: Json },
    RpcErr { id: String, message: String },
}

/// The settings of a relay. The certificates lie beside this file.
#[derive(Clone, Debug)]
pub struct RelayConfig {
    pub rp_id: String,
    pub origin: String,
    /// The bearer token that phones present.
    pub phone_token: String,
    /// The address for phones, written when the relay is set up.
    pub listen: String,
    /// The address for daemons, written when the relay is set up.
    pub daemon_listen: String,
    /// How phones reach this relay: `tailscale`, `custom`, `localhost` or `hosted`.
    pub transport: Option<String>,
    /// How daemons authenticate: `mtls`, the default, `token` or `both`.
    pub daemon_auth: Option<String>,
}

/// One enrolled device that may dial the relay.
///
/// It has two independent secrets, both its own: `token` authenticates the daemon's link,
/// `phone_token` authenticates that device's phone. Neither is shared between devices.
#[derive(Clone, Debug)]
pub struct DeviceRecord {
    pub device_id: String,
    pub token: String,
    pub phone_token: String,
    pub label: String,
    pub created_at: i64,
}

/// The credentials with which a daemon dials a relay by token.
#[derive(Clone, Debug)]
pub struct DeviceCred {
    pub device_id: String,
    pub token: String,
    /// The base address of the daemon link, without `/ws`.
    pub endpoint: String,
    pub rp_id: String,
    pub origin: String,
    /// This device's own phone bearer, never the one of the whole relay.
    pub phone_token: Option<String>,
}

/// The pointer to a relay in the configuration directory.
#[derive(Clone, Debug)]
pub struct RelayToml {
    pub endpoint: Option<String>,
    pub device_id: Option<String>,
    pub token: Option<String>,
}

/// What the settings of a relay say.
#[verifier::ext_equal]
pub struct RelayConfigSpec {
    pub rp_id: Seq<char>,
    pub origin: Seq<char>,
    pub phone_token: Seq<char>,
    pub listen: Seq<char>,
    pub daemon_listen: Seq<char>,
    pub transport: Option<Seq<char>>,
    pub daemon_auth: Option<Seq<char>>,
}

impl View for RelayConfig {
    type V = RelayConfigSpec;

    open spec fn view(&self) -> RelayConfigSpec {
        RelayConfigSpec {
            rp_id: self.rp_id@,
            origin: self.origin@,
            phone_token: self.phone_token@,
            listen: self.listen@,
            daemon_listen: self.daemon_listen@,
            transport: opt_text(self.transport),
            daemon_auth: opt_text(self.daemon_auth),
        }
    }
}

/// What is known of an enrolled device.
#[verifier::ext_equal]
pub struct DeviceSpec {
    pub device_id: Seq<char>,
    pub token: Seq<char>,
    pub phone_token: Seq<char>,
    pub label: Seq<char>,
    pub created_at: i64,
}

impl View for DeviceRecord {
    type V = DeviceSpec;

    open spec fn view(&self) -> DeviceSpec {
        DeviceSpec {
            device_id: self.device_id@,
            token: self.token@,
            phone_token: self.phone_token@,
            label: self.label@,
            created_at: self.created_at,
        }
    }
}

/// What the credentials of a device say.
#[verifier::ext_equal]
pub struct DeviceCredSpec {
    pub device_id: Seq<char>,
    pub token: Seq<char>,
    pub endpoint: Seq<char>,
    pub rp_id: Seq<char>,
    pub origin: Seq<char>,
    pub phone_token: Option<Seq<char>>,
}

impl View for DeviceCred {
    type V = DeviceCredSpec;

    open spec fn view(&self) -> DeviceCredSpec {
        DeviceCredSpec {
            device_id: self.device_id@,
            token: self.token@,
            endpoint: self.endpoint@,
            rp_id: self.rp_id@,
            origin: self.origin@,
            phone_token: opt_text(self.phone_token),
        }
    }
}

/// The address that a phone opens for one device.
pub open spec fn device_url(origin: Seq<char>, phone_token: Seq<char>, device: Seq<char>) -> Seq<
    char,
> {
    origin + "/?t="@ + phone_token + "&d="@ + device
}

/// The address that a phone opens for one device.
pub fn device_url_text(origin: &str, phone_token: &str, device: &str) -> (r: String)
    ensures
        r@ == device_url(origin@, phone_token@, device@),
{
    let mut out = origin.to_owned();
    out.append("/?t=");
    out.append(phone_token);
    out.append("&d=");
    out.append(device);
    out
}

impl DeviceRecord {
    /// A copy of the record.
    pub fn copy(&self) -> (r: DeviceRecord)
        ensures
            r@ == self@,
    {
        DeviceRecord {
            device_id: self.device_id.clone(),
            token: self.token.clone(),
            phone_token: self.phone_token.clone(),
            label: self.label.clone(),
            created_at: self.created_at,
        }
    }
}

impl DeviceCred {
    /// The address that this device's phone opens, if the phone bearer is known.
    pub fn phone_url(&self) -> (r: Option<String>)
        ensures
            opt_text(r) == (match self@.phone_token {
                Some(t) => Some(device_url(cut_end(self@.origin, '/'), t, self@.device_id)),
                None => None,
            }),
    {
        match &self.phone_token {
            Some(t) => Some(
                device_url_text(
                    trim_end_matches(self.origin.as_str(), '/').as_str(),
                    t.as_str(),
                    self.device_id.as_str(),
                ),
            ),
            None => None,
        }
    }

    /// The settings of the relay as this device knows them.
    pub fn as_relay_config(&self) -> (r: RelayConfig)
        ensures
            r@ == (RelayConfigSpec {
                rp_id: self@.rp_id,
                origin: self@.origin,
                phone_token: match self@.phone_token {
                    Some(t) => t,
                    None => Seq::empty(),
                },
                listen: Seq::empty(),
                daemon_listen: Seq::empty(),
                transport: Some("hosted"@),
                daemon_auth: Some("token"@),
            }),
    {
        RelayConfig {
            rp_id: self.rp_id.clone(),
            origin: self.origin.clone(),
            phone_token: match &self.phone_token {
                Some(t) => t.clone(),
                None => String::new(),
            },
            listen: String::new(),
            daemon_listen: String::new(),
            transport: Some("hosted".to_owned()),
            daemon_auth: Some("token".to_owned()),
        }
    }
}

}
