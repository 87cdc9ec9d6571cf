//! User accounts: passwords, devices, keys, tokens and profiles.

use crate::json::{Json, JsonView};
use crate::matrix::{server_name, server_name_of};
use crate::order::same_str;
use crate::store::{Column, KeyView};
use vstd::prelude::*;

pub mod account;
pub mod devices;
pub mod keys;
pub mod profile;
pub mod to_device;
pub mod tokens;

verus! {

/// The optional text, as a value.
pub open spec fn maybe(text: Option<String>) -> Option<Seq<char>> {
    match text {
        Some(t) => Some(t@),
        None => None,
    }
}

#[derive(Debug)]
pub struct UserSuspension {
    /// Whether the user is currently suspended
    pub suspended: bool,
    /// When the user was suspended (Unix timestamp in milliseconds)
    pub suspended_at: u64,
    /// User ID of who suspended this user
    pub suspended_by: String,
}

/// A row that holds a suspension, or something that is none.
pub enum SuspensionRow {
    Suspension(UserSuspension),
    Malformed,
}

#[verifier::ext_equal]
pub struct SuspensionView {
    pub suspended: bool,
    pub suspended_at: u64,
    pub suspended_by: Seq<char>,
}

impl View for UserSuspension {
    type V = SuspensionView;

    open spec fn view(&self) -> SuspensionView {
        SuspensionView {
            suspended: self.suspended,
            suspended_at: self.suspended_at,
            suspended_by: self.suspended_by@,
        }
    }
}

impl View for SuspensionRow {
    type V = Option<SuspensionView>;

    open spec fn view(&self) -> Option<SuspensionView> {
        match self {
            SuspensionRow::Suspension(s) => Some(s@),
            SuspensionRow::Malformed => None,
        }
    }
}

/// A device of a user.
#[derive(Debug)]
pub struct Device {
    pub device_id: String,
    pub display_name: Option<String>,
    pub last_seen_ip: Option<String>,
    /// In milliseconds since the epoch.
    pub last_seen_ts: Option<u64>,
}

#[verifier::ext_equal]
pub struct DeviceView {
    pub device_id: Seq<char>,
    pub display_name: Option<Seq<char>>,
    pub last_seen_ip: Option<Seq<char>>,
    pub last_seen_ts: Option<u64>,
}

impl View for Device {
    type V = DeviceView;

    open spec fn view(&self) -> DeviceView {
        DeviceView {
            device_id: self.device_id@,
            display_name: maybe(self.display_name),
            last_seen_ip: maybe(self.last_seen_ip),
            last_seen_ts: self.last_seen_ts,
        }
    }
}

/// A user and a device.
pub struct UserDevice {
    pub user_id: String,
    pub device_id: String,
}

impl View for UserDevice {
    type V = (Seq<char>, Seq<char>);

    open spec fn view(&self) -> (Seq<char>, Seq<char>) {
        (self.user_id@, self.device_id@)
    }
}

/// A user for whom something is good until some time.
pub struct Expiring {
    /// In milliseconds since the epoch.
    pub expires_at: u64,
    pub user_id: String,
}

impl View for Expiring {
    type V = (u64, Seq<char>);

    open spec fn view(&self) -> (u64, Seq<char>) {
        (self.expires_at, self.user_id@)
    }
}

/// A key that is handed out when no one-time key is left.
pub struct FallbackKey {
    pub used: bool,
    pub key_id: String,
    pub key: Json,
}

#[verifier::ext_equal]
pub struct FallbackKeyView {
    pub used: bool,
    pub key_id: Seq<char>,
    pub key: JsonView,
}

impl View for FallbackKey {
    type V = FallbackKeyView;

    open spec fn view(&self) -> FallbackKeyView {
        FallbackKeyView { used: self.used, key_id: self.key_id@, key: self.key@ }
    }
}

/// A device that is kept for a user while they have no other.
pub struct DehydratedDevice {
    pub device_id: String,
    pub device_data: Json,
}

impl View for DehydratedDevice {
    type V = (Seq<char>, JsonView);

    open spec fn view(&self) -> (Seq<char>, JsonView) {
        (self.device_id@, self.device_data@)
    }
}

/// The columns. What a row is keyed by stands in front of the underscore of its name.
pub struct Data {
    pub keychangeid_userid: Column<String>,
    pub keyid_key: Column<Json>,
    pub onetimekeyid_onetimekeys: Column<Json>,
    pub fallbackkeyid_fallbackkey: Column<FallbackKey>,
    pub openidtoken_expiresatuserid: Column<Expiring>,
    pub logintoken_expiresatuserid: Column<Expiring>,
    pub todeviceid_events: Column<Json>,
    pub token_userdeviceid: Column<UserDevice>,
    pub userdeviceid_tokenexpires: Column<u64>,
    pub userdeviceid_metadata: Column<Device>,
    pub userdeviceid_token: Column<String>,
    pub userfilterid_filter: Column<Json>,
    pub userid_avatarurl: Column<String>,
    pub userid_blurhash: Column<String>,
    pub userid_dehydrateddevice: Column<DehydratedDevice>,
    pub userid_devicelistversion: Column<u64>,
    pub userid_displayname: Column<String>,
    pub userid_lastonetimekeyupdate: Column<u64>,
    pub userid_masterkeyid: Column<String>,
    pub userid_password: Column<String>,
    pub userid_suspension: Column<SuspensionRow>,
    pub userid_lock: Column<SuspensionRow>,
    pub userid_logindisabled: Column<()>,
    pub userid_selfsigningkeyid: Column<String>,
    pub userid_usersigningkeyid: Column<String>,
    pub useridprofilekey_value: Column<Json>,
}

/// What the columns hold.
#[verifier::ext_equal]
pub struct DataView {
    /// Which user's keys changed: by user or room, and count.
    pub key_changes: Map<KeyView, Seq<char>>,
    /// Device and cross-signing keys: by user, and device or key ID.
    pub keys: Map<KeyView, JsonView>,
    /// By user, device and key ID.
    pub one_time_keys: Map<KeyView, JsonView>,
    /// By user, device and algorithm.
    pub fallback_keys: Map<KeyView, FallbackKeyView>,
    /// By token: when it expires, and whose it is.
    pub openid_tokens: Map<KeyView, (u64, Seq<char>)>,
    /// By token: when it expires, and whose it is.
    pub login_tokens: Map<KeyView, (u64, Seq<char>)>,
    /// By user, device and count.
    pub to_device: Map<KeyView, JsonView>,
    /// By access token: the user and the device.
    pub tokens: Map<KeyView, (Seq<char>, Seq<char>)>,
    /// By user and device, in seconds since the epoch.
    pub token_expiries: Map<KeyView, u64>,
    /// By user and device.
    pub devices: Map<KeyView, DeviceView>,
    /// By user and device.
    pub device_tokens: Map<KeyView, Seq<char>>,
    /// By user and filter ID.
    pub filters: Map<KeyView, JsonView>,
    pub avatar_urls: Map<KeyView, Seq<char>>,
    pub blurhashes: Map<KeyView, Seq<char>>,
    /// By user: the ID and the data of the dehydrated device.
    pub dehydrated_devices: Map<KeyView, (Seq<char>, JsonView)>,
    pub device_list_versions: Map<KeyView, u64>,
    pub displaynames: Map<KeyView, Seq<char>>,
    pub one_time_key_updates: Map<KeyView, u64>,
    /// By user: the ID of the master key.
    pub master_keys: Map<KeyView, Seq<char>>,
    /// By user: the hash of the password, empty where the account is deactivated.
    pub passwords: Map<KeyView, Seq<char>>,
    pub suspensions: Map<KeyView, Option<SuspensionView>>,
    pub locks: Map<KeyView, Option<SuspensionView>>,
    pub logins_disabled: Map<KeyView, ()>,
    /// By user: the ID of the self-signing key.
    pub self_signing_keys: Map<KeyView, Seq<char>>,
    /// By user: the ID of the user-signing key.
    pub user_signing_keys: Map<KeyView, Seq<char>>,
    /// By user and profile key.
    pub profiles: Map<KeyView, JsonView>,
}

impl View for Data {
    type V = DataView;

    open spec fn view(&self) -> DataView {
        DataView {
            key_changes: self.keychangeid_userid@,
            keys: self.keyid_key@,
            one_time_keys: self.onetimekeyid_onetimekeys@,
            fallback_keys: self.fallbackkeyid_fallbackkey@,
            openid_tokens: self.openidtoken_expiresatuserid@,
            login_tokens: self.logintoken_expiresatuserid@,
            to_device: self.todeviceid_events@,
            tokens: self.token_userdeviceid@,
            token_expiries: self.userdeviceid_tokenexpires@,
            devices: self.userdeviceid_metadata@,
            device_tokens: self.userdeviceid_token@,
            filters: self.userfilterid_filter@,
            avatar_urls: self.userid_avatarurl@,
            blurhashes: self.userid_blurhash@,
            dehydrated_devices: self.userid_dehydrateddevice@,
            device_list_versions: self.userid_devicelistversion@,
            displaynames: self.userid_displayname@,
            one_time_key_updates: self.userid_lastonetimekeyupdate@,
            master_keys: self.userid_masterkeyid@,
            passwords: self.userid_password@,
            suspensions: self.userid_suspension@,
            locks: self.userid_lock@,
            logins_disabled: self.userid_logindisabled@,
            self_signing_keys: self.userid_selfsigningkeyid@,
            user_signing_keys: self.userid_usersigningkeyid@,
            profiles: self.useridprofilekey_value@,
        }
    }
}

/// The columns hold nothing.
pub open spec fn no_rows() -> DataView {
    DataView {
        key_changes: Map::empty(),
        keys: Map::empty(),
        one_time_keys: Map::empty(),
        fallback_keys: Map::empty(),
        openid_tokens: Map::empty(),
        login_tokens: Map::empty(),
        to_device: Map::empty(),
        tokens: Map::empty(),
        token_expiries: Map::empty(),
        devices: Map::empty(),
        device_tokens: Map::empty(),
        filters: Map::empty(),
        avatar_urls: Map::empty(),
        blurhashes: Map::empty(),
        dehydrated_devices: Map::empty(),
        device_list_versions: Map::empty(),
        displaynames: Map::empty(),
        one_time_key_updates: Map::empty(),
        master_keys: Map::empty(),
        passwords: Map::empty(),
        suspensions: Map::empty(),
        locks: Map::empty(),
        logins_disabled: Map::empty(),
        self_signing_keys: Map::empty(),
        user_signing_keys: Map::empty(),
        profiles: Map::empty(),
    }
}

impl Data {
    pub fn new() -> (r: Data)
        ensures
            r@ == no_rows(),
    {
        Data {
            keychangeid_userid: Column::new(),
            keyid_key: Column::new(),
            onetimekeyid_onetimekeys: Column::new(),
            fallbackkeyid_fallbackkey: Column::new(),
            openidtoken_expiresatuserid: Column::new(),
            logintoken_expiresatuserid: Column::new(),
            todeviceid_events: Column::new(),
            token_userdeviceid: Column::new(),
            userdeviceid_tokenexpires: Column::new(),
            userdeviceid_metadata: Column::new(),
            userdeviceid_token: Column::new(),
            userfilterid_filter: Column::new(),
            userid_avatarurl: Column::new(),
            userid_blurhash: Column::new(),
            userid_dehydrateddevice: Column::new(),
            userid_devicelistversion: Column::new(),
            userid_displayname: Column::new(),
            userid_lastonetimekeyupdate: Column::new(),
            userid_masterkeyid: Column::new(),
            userid_password: Column::new(),
            userid_suspension: Column::new(),
            userid_lock: Column::new(),
            userid_logindisabled: Column::new(),
            userid_selfsigningkeyid: Column::new(),
            userid_usersigningkeyid: Column::new(),
            useridprofilekey_value: Column::new(),
        }
    }
}

/// The users of this server.
pub struct Service {
    pub server_name: String,
    pub db: Data,
}

impl View for Service {
    type V = DataView;

    open spec fn view(&self) -> DataView {
        self.db@
    }
}

impl Service {
    pub fn new(server_name: String) -> (r: Service)
        ensures
            r.server_name == server_name,
            r@ == no_rows(),
    {
        Service { server_name, db: Data::new() }
    }

    /// The user is one of this server's.
    pub open spec fn is_local(&self, user_id: Seq<char>) -> bool {
        server_name(user_id) == Some(self.server_name@)
    }

    pub fn user_is_local(&self, user_id: &str) -> (r: bool)
        ensures
            r == self.is_local(user_id@),
    {
        match server_name_of(user_id) {
            Some(name) => same_str(name.as_str(), self.server_name.as_str()),
            None => false,
        }
    }
}

fn duplicate_text(text: &Option<String>) -> (r: Option<String>)
    ensures
        r == *text,
{
    match text {
        Some(t) => Some(t.clone()),
        None => None,
    }
}

impl Device {
    pub fn duplicate(&self) -> (r: Device)
        ensures
            r == *self,
    {
        Device {
            device_id: self.device_id.clone(),
            display_name: duplicate_text(&self.display_name),
            last_seen_ip: duplicate_text(&self.last_seen_ip),
            last_seen_ts: self.last_seen_ts,
        }
    }
}

/// A user is local exactly if the server in their ID is this one; and a database begins empty.
pub proof fn law_local_users(service: Service, user_id: Seq<char>, key: KeyView)
    ensures
        service.is_local(user_id) <==> (server_name(user_id) matches Some(server) && server
            == service.server_name@),
        !no_rows().passwords.contains_key(key),
        !no_rows().devices.contains_key(key),
        !no_rows().tokens.contains_key(key),
        !no_rows().keys.contains_key(key),
        !no_rows().one_time_keys.contains_key(key),
        !no_rows().to_device.contains_key(key),
{
}

/// What is told of a suspension is what is kept of it.
pub proof fn law_told_of_user_suspension(it: UserSuspension)
    ensures
        it@.suspended == it.suspended,
        it@.suspended_at == it.suspended_at,
        it@.suspended_by == it.suspended_by@,
{
}

/// What is told of a device is what is kept of it.
pub proof fn law_told_of_device(it: Device)
    ensures
        it@.device_id == it.device_id@,
        it@.display_name == maybe(it.display_name),
        it@.last_seen_ip == maybe(it.last_seen_ip),
        it@.last_seen_ts == it.last_seen_ts,
{
}

} // verus!
