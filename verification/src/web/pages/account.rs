//! The account page, and the pages for a user's email address, devices and keys.

use crate::matrix::{localpart, localpart_of};
use crate::oauth;
use crate::oauth::{ticket_key, OAuthTicket, ServiceView};
use crate::order::same_str;
use crate::store::{key2, key_before, key_views, lemma_key_irreflexive, lists, KeyView};
use crate::text::glue;
use crate::time::younger_than;
use crate::users;
use crate::users::{Device, DeviceView};
use crate::web::session::{LoginQuery, LoginTarget, User, RECENT_LOGIN_THRESHOLD};
use crate::web::{FieldErrorView, ValidationErrors, WebError, ROUTE_PREFIX};
use vstd::prelude::*;

verus! {

/// The user may stay on a page that asks for a recent login.
pub open spec fn is_recent(user: User, now: u128) -> bool {
    user.0 matches Some(session) && younger_than(now, session.last_login, RECENT_LOGIN_THRESHOLD)
}

/// The login page that the user is sent to instead.
pub open spec fn to_login(user: User, next: LoginTarget) -> WebError {
    WebError::LoginRequired(LoginQuery { next, reauthenticate: user.0 is Some })
}

/// A device was seen no earlier than another. One that was never seen comes last.
pub open spec fn not_before(a: DeviceView, b: DeviceView) -> bool {
    match (a.last_seen_ts, b.last_seen_ts) {
        (_, None) => true,
        (None, Some(_)) => false,
        (Some(x), Some(y)) => x >= y,
    }
}

pub open spec fn device_views(devices: Seq<Device>) -> Seq<DeviceView> {
    devices.map_values(|d: Device| d@)
}

/// The devices that the page shows.
pub open spec fn shown(devices: Seq<DeviceView>, dehydrated: Option<Seq<char>>) -> Seq<DeviceView> {
    devices.filter(|d: DeviceView| dehydrated != Some(d.device_id))
}

/// The devices stand in the order in which they were last seen, the latest first.
pub open spec fn latest_first(devices: Seq<DeviceView>) -> bool {
    forall|i: int, j: int|
        0 <= i < j < devices.len() ==> not_before(#[trigger] devices[i], #[trigger] devices[j])
}

fn is_not_before(a: &Device, b: &Device) -> (r: bool)
    ensures
        r == not_before(a@, b@),
{
    match b.last_seen_ts {
        None => true,
        Some(y) => match a.last_seen_ts {
            None => false,
            Some(x) => x >= y,
        },
    }
}

fn place(sorted: &mut Vec<Device>, device: Device)
    requires
        latest_first(device_views(old(sorted)@)),
    ensures
        latest_first(device_views(final(sorted)@)),
        device_views(final(sorted)@).to_multiset() == device_views(old(sorted)@).to_multiset().insert(
            device@,
        ),
{
    let ghost before = device_views(sorted@);
    let mut i: usize = 0;
    while i < sorted.len() && is_not_before(&sorted[i], &device)
        invariant
            i <= sorted@.len(),
            before == device_views(sorted@),
            forall|j: int| 0 <= j < i ==> not_before(#[trigger] before[j], device@),
        decreases sorted@.len() - i,
    {
        proof {
            assert(before[i as int] == sorted@[i as int]@);
        }
        i = i + 1;
    }
    proof {
        if i < sorted@.len() {
            assert(before[i as int] == sorted@[i as int]@);
        }
        assert(before.insert(i as int, device@) =~= device_views(
            sorted@.insert(i as int, device),
        ));
        vstd::seq_lib::to_multiset_insert(before, i as int, device@);
    }
    sorted.insert(i, device);
    proof {
        let after = device_views(sorted@);
        assert(after == before.insert(i as int, device@));
        assert forall|a: int, b: int| 0 <= a < b < after.len() implies not_before(
            #[trigger] after[a],
            #[trigger] after[b],
        ) by {
            if a < i && b > i {
                assert(not_before(before[a], before[b - 1]));
            } else if a > i {
                assert(not_before(before[a - 1], before[b - 1]));
            } else if b < i {
                assert(not_before(before[a], before[b]));
            } else if b == i {
                assert(not_before(before[a], device@));
            } else {
                if b - 1 > i {
                    assert(not_before(before[i as int], before[b - 1]));
                }
            }
        }
    }
}

/// The devices that the account page shows, the one seen latest first. The dehydrated device
/// is not among them.
pub fn account_devices(devices: Vec<Device>, dehydrated_device_id: Option<&str>) -> (r: Vec<Device>)
    ensures
        latest_first(device_views(r@)),
        device_views(r@).to_multiset() == shown(
            device_views(devices@),
            match dehydrated_device_id {
                Some(id) => Some(id@),
                None => None,
            },
        ).to_multiset(),
{
    let ghost views = device_views(devices@);
    let ghost dehydrated = match dehydrated_device_id {
        Some(id) => Some(id@),
        None => None,
    };
    let mut out: Vec<Device> = Vec::new();
    let mut i: usize = 0;
    proof {
        assert(shown(views.take(0), dehydrated) =~= Seq::<DeviceView>::empty()) by {
            reveal(Seq::filter);
        }
        assert(device_views(out@) =~= Seq::<DeviceView>::empty());
    }
    while i < devices.len()
        invariant
            i <= devices@.len(),
            views == device_views(devices@),
            dehydrated == match dehydrated_device_id {
                Some(id) => Some(id@),
                None => None,
            },
            latest_first(device_views(out@)),
            device_views(out@).to_multiset() == shown(
                views.take(i as int),
                dehydrated,
            ).to_multiset(),
        decreases devices@.len() - i,
    {
        let keep = match dehydrated_device_id {
            Some(id) => !same_str(devices[i].device_id.as_str(), id),
            None => true,
        };
        proof {
            reveal(Seq::filter);
            assert(views.take(i + 1).drop_last() =~= views.take(i as int));
            assert(views.take(i + 1).last() == devices@[i as int]@);
            vstd::seq_lib::to_multiset_build(shown(views.take(i as int), dehydrated), devices@[i as int]@);
        }
        if keep {
            place(&mut out, devices[i].duplicate());
        }
        i = i + 1;
    }
    proof {
        assert(views.take(i as int) =~= views);
    }
    out
}

/// What a link into the account pages asks for.
#[derive(Clone, Copy, Debug, PartialEq, Eq, Structural)]
pub enum AccountManagementAction {
    AccountDeactivate,
    CrossSigningReset,
    DeviceDelete,
    DeviceView,
    DevicesList,
    Profile,
    Other,
}

/// Where a link into the account pages leads, below the account page.
pub open spec fn deeplink(
    action: Option<AccountManagementAction>,
    device_id: Option<Seq<char>>,
) -> Result<Seq<char>, Seq<char>> {
    match action {
        Some(AccountManagementAction::AccountDeactivate) => Ok("deactivate"@),
        Some(AccountManagementAction::CrossSigningReset) => Ok("cross_signing_reset"@),
        Some(AccountManagementAction::DeviceDelete) => match device_id {
            Some(id) => Ok("device/"@ + id + "/delete"@),
            None => Err("A device ID is required for this action"@),
        },
        Some(AccountManagementAction::DeviceView) => match device_id {
            Some(id) => Ok("device/"@ + id + "/"@),
            None => Err("A device ID is required for this action"@),
        },
        Some(AccountManagementAction::DevicesList) => Ok("#devices"@),
        Some(AccountManagementAction::Profile) | None => Ok(""@),
        Some(AccountManagementAction::Other) => Err("Unknown action"@),
    }
}

/// Where a link into the account pages leads.
pub fn account_deeplink(action: Option<AccountManagementAction>, device_id: Option<&str>) -> (r:
    Result<String, WebError>)
    ensures
        match deeplink(
            action,
            match device_id {
                Some(id) => Some(id@),
                None => None,
            },
        ) {
            Ok(target) => r matches Ok(location) && location@ == ROUTE_PREFIX@ + "/account/"@
                + target,
            Err(message) => r matches Err(WebError::BadRequest(text)) && text@ == message,
        },
{
    let base = glue(ROUTE_PREFIX, "/account/");
    let action = match action {
        Some(action) => action,
        None => AccountManagementAction::Profile,
    };
    let target = match action {
        AccountManagementAction::AccountDeactivate => "deactivate".to_owned(),
        AccountManagementAction::CrossSigningReset => "cross_signing_reset".to_owned(),
        AccountManagementAction::DeviceDelete => match device_id {
            Some(id) => {
                let device = glue("device/", id);
                glue(device.as_str(), "/delete")
            },
            None => {
                return Err(
                    WebError::BadRequest("A device ID is required for this action".to_owned()),
                );
            },
        },
        AccountManagementAction::DeviceView => match device_id {
            Some(id) => {
                let device = glue("device/", id);
                glue(device.as_str(), "/")
            },
            None => {
                return Err(
                    WebError::BadRequest("A device ID is required for this action".to_owned()),
                );
            },
        },
        AccountManagementAction::DevicesList => "#devices".to_owned(),
        AccountManagementAction::Profile => "".to_owned(),
        AccountManagementAction::Other => {
            return Err(WebError::BadRequest("Unknown action".to_owned()));
        },
    };
    Ok(glue(base.as_str(), target.as_str()))
}

/// What the page for a reset of a user's keys does.
pub enum CrossSigningResetBody {
    Form,
    Success,
}

/// The page for a reset of a user's keys: it issues the ticket that clients need for that.
pub fn route_cross_signing_reset(
    oauth: &mut oauth::Service,
    user: User,
    submitted: bool,
    now: u128,
) -> (r: Result<CrossSigningResetBody, WebError>)
    requires
        user.0 matches Some(session) ==> session.user_id@.len() > 0 && session.user_id@[0] == '@',
    ensures
        if !is_recent(user, now) {
            r == Err::<CrossSigningResetBody, WebError>(
                to_login(user, LoginTarget::CrossSigningReset),
            ) && final(oauth)@ == old(oauth)@
        } else if submitted {
            r == Ok::<CrossSigningResetBody, WebError>(CrossSigningResetBody::Success)
                && final(oauth)@ == (ServiceView {
                tickets: old(oauth)@.tickets.insert(
                    ticket_key(
                        localpart(user.0->Some_0.user_id@),
                        OAuthTicket::CrossSigningReset,
                    ),
                    now,
                ),
                ..old(oauth)@
            })
        } else {
            r == Ok::<CrossSigningResetBody, WebError>(CrossSigningResetBody::Form)
                && final(oauth)@ == old(oauth)@
        },
{
    let user_id = match user.expect_recent(LoginTarget::CrossSigningReset, now) {
        Ok(user_id) => user_id,
        Err(error) => {
            return Err(error);
        },
    };
    if submitted {
        let own = localpart_of(user_id.as_str());
        oauth.issue_ticket(own.as_str(), OAuthTicket::CrossSigningReset, now);
        Ok(CrossSigningResetBody::Success)
    } else {
        Ok(CrossSigningResetBody::Form)
    }
}

/// The user has no other device.
pub open spec fn only_device(
    users: users::DataView,
    user_id: Seq<char>,
    device_id: Seq<char>,
) -> bool {
    forall|k: KeyView| #[trigger]
        users.devices.contains_key(k) && k.first == user_id ==> k == key2(user_id, device_id)
}

/// What the page for removing a device does.
pub enum RemoveDeviceBody {
    /// It asks, and tells whether the device is the user's last one.
    Form { last_device: bool },
    Success,
}

/// What removing a device of a user gives.
pub open spec fn device_page(
    users: users::DataView,
    oauth: oauth::ServiceView,
    user_id: Seq<char>,
    device_id: Seq<char>,
    submitted: bool,
    rooms: Seq<String>,
    count: u64,
    users_after: users::DataView,
    oauth_after: oauth::ServiceView,
    r: Result<RemoveDeviceBody, WebError>,
) -> bool {
    if !users.devices.contains_key(key2(user_id, device_id)) {
        &&& r matches Err(WebError::BadRequest(text)) && text@ == "Unknown device"@
        &&& users_after == users
        &&& oauth_after == oauth
    } else if submitted {
        &&& r == Ok::<RemoveDeviceBody, WebError>(RemoveDeviceBody::Success)
        &&& users_after == users.without_device(user_id, device_id, rooms, count)
        &&& oauth_after == oauth.without_session(user_id, device_id)
    } else {
        &&& r == Ok::<RemoveDeviceBody, WebError>(
            RemoveDeviceBody::Form { last_device: only_device(users, user_id, device_id) },
        )
        &&& users_after == users
        &&& oauth_after == oauth
    }
}

/// The page for removing a device, for a user who is logged in. `encrypted_rooms` are those
/// that the user shares with others, and `count` is the next value of the server's counter.
pub fn route_remove_device(
    users: &mut users::Service,
    oauth: &mut oauth::Service,
    user: User,
    device_id: &str,
    submitted: bool,
    encrypted_rooms: &Vec<String>,
    count: u64,
) -> (r: Result<RemoveDeviceBody, WebError>)
    ensures
        final(users).server_name == old(users).server_name,
        match user.0 {
            None => {
                &&& r matches Err(
                    WebError::LoginRequired(
                        LoginQuery {
                            next: LoginTarget::RemoveDevice { device },
                            reauthenticate: false,
                        },
                    ),
                ) && device@ == device_id@
                &&& final(users)@ == old(users)@
                &&& final(oauth)@ == old(oauth)@
            },
            Some(session) => device_page(
                old(users)@,
                old(oauth)@,
                session.user_id@,
                device_id@,
                submitted,
                encrypted_rooms@,
                count,
                final(users)@,
                final(oauth)@,
                r,
            ),
        },
{
    let next = LoginTarget::RemoveDevice { device: device_id.to_owned() };
    let user_id = match user.expect(next) {
        Ok(user_id) => user_id,
        Err(error) => {
            return Err(error);
        },
    };
    remove_device(users, oauth, user_id.as_str(), device_id, submitted, encrypted_rooms, count)
}

fn remove_device(
    users: &mut users::Service,
    oauth: &mut oauth::Service,
    user_id: &str,
    device_id: &str,
    submitted: bool,
    encrypted_rooms: &Vec<String>,
    count: u64,
) -> (r: Result<RemoveDeviceBody, WebError>)
    ensures
        final(users).server_name == old(users).server_name,
        device_page(
            old(users)@,
            old(oauth)@,
            user_id@,
            device_id@,
            submitted,
            encrypted_rooms@,
            count,
            final(users)@,
            final(oauth)@,
            r,
        ),
{
    if users.get_device_metadata(user_id, device_id).is_none() {
        return Err(WebError::BadRequest("Unknown device".to_owned()));
    }
    if submitted {
        users.remove_device(oauth, user_id, device_id, encrypted_rooms, count);
        Ok(RemoveDeviceBody::Success)
    } else {
        let ids = users.all_device_ids(user_id);
        let last_device = ids.len() <= 1;
        proof {
            let devices = users@.devices;
            let views = key_views(ids@);
            let wanted = |k: KeyView| devices.contains_key(k) && k.first == user_id@;
            let own = key2(user_id@, device_id@);
            assert(lists(views, wanted));
            assert(wanted(own));
            assert(views.contains(own));
            let i = choose|i: int| 0 <= i < views.len() && views[i] == own;
            if last_device {
                assert forall|k: KeyView| #[trigger]
                    devices.contains_key(k) && k.first == user_id@ implies k == own by {
                    assert(wanted(k));
                    assert(views.contains(k));
                }
            } else {
                let j: int = if i == 0 {
                    1
                } else {
                    0
                };
                assert(views.contains(views[j]));
                assert(wanted(views[j]));
                if views[j] == own {
                    lemma_key_irreflexive(own);
                    if i < j {
                        assert(key_before(views[i], views[j]));
                    } else {
                        assert(key_before(views[j], views[i]));
                    }
                }
            }
        }
        Ok(RemoveDeviceBody::Form { last_device })
    }
}

/// What the page for deactivating an account does next.
pub enum DeactivateStep {
    /// It asks, and says what was wrong with the answer.
    Form(ValidationErrors),
    /// Whether the password is right has to be found out.
    CheckPassword,
    /// The account is to be deactivated, and the browser session to be ended.
    Deactivate { user_id: String },
}

/// The form for deactivating an account is complete.
pub open spec fn deactivate_errors(confirmed: bool) -> Seq<FieldErrorView> {
    if confirmed {
        Seq::empty()
    } else {
        seq![
            FieldErrorView {
                field: "confirm",
                code: "required",
                message: "This checkbox must be checked"@,
            },
        ]
    }
}

/// The page for deactivating an account. `form` tells, of a form that was sent, whether its
/// box is checked; `password_right` whether its password is right, once that is known.
pub fn route_deactivate(user: User, form: Option<bool>, password_right: Option<bool>, now: u128) -> (r:
    Result<DeactivateStep, WebError>)
    ensures
        if !is_recent(user, now) {
            r == Err::<DeactivateStep, WebError>(to_login(user, LoginTarget::Deactivate))
        } else {
            match (form, password_right) {
                (None, _) => r matches Ok(DeactivateStep::Form(errors)) && errors@.len() == 0,
                (Some(false), _) => r matches Ok(DeactivateStep::Form(errors)) && errors@
                    == deactivate_errors(false),
                (Some(true), None) => r == Ok::<DeactivateStep, WebError>(
                    DeactivateStep::CheckPassword,
                ),
                (Some(true), Some(false)) => r matches Ok(DeactivateStep::Form(errors)) && errors@
                    == seq![
                    FieldErrorView {
                        field: "password",
                        code: "wrong",
                        message: "Incorrect password"@,
                    },
                ],
                (Some(true), Some(true)) => r == Ok::<DeactivateStep, WebError>(
                    DeactivateStep::Deactivate { user_id: user.0->Some_0.user_id },
                ),
            }
        },
{
    let user_id = match user.expect_recent(LoginTarget::Deactivate, now) {
        Ok(user_id) => user_id,
        Err(error) => {
            return Err(error);
        },
    };
    let confirmed = match form {
        None => {
            return Ok(DeactivateStep::Form(ValidationErrors::new()));
        },
        Some(confirmed) => confirmed,
    };
    if !confirmed {
        return Ok(
            DeactivateStep::Form(
                ValidationErrors::one("confirm", "required", "This checkbox must be checked"),
            ),
        );
    }
    match password_right {
        None => Ok(DeactivateStep::CheckPassword),
        Some(right) => if right {
            Ok(DeactivateStep::Deactivate { user_id })
        } else {
            Ok(
                DeactivateStep::Form(
                    ValidationErrors::one("password", "wrong", "Incorrect password"),
                ),
            )
        },
    }
}

/// What the page for asking for another email address does next.
pub enum ChangeEmailRequestStep {
    Form,
    /// An email has to be sent.
    SendEmail,
    /// The user has to follow the link in the email.
    ValidationPending { session_id: String },
}

/// The page for asking for another email address. `sent` is the validation session of the
/// email, if it could be sent, once that is known, and `random_id` is used in place of one,
/// to not give that away.
pub fn route_change_email_request(
    user: User,
    submitted: bool,
    sent: Option<Option<String>>,
    random_id: String,
    now: u128,
) -> (r: Result<ChangeEmailRequestStep, WebError>)
    ensures
        r == if !is_recent(user, now) {
            Err::<ChangeEmailRequestStep, WebError>(to_login(user, LoginTarget::ChangeEmail))
        } else if !submitted {
            Ok(ChangeEmailRequestStep::Form)
        } else {
            match sent {
                None => Ok(ChangeEmailRequestStep::SendEmail),
                Some(Some(session_id)) => Ok(
                    ChangeEmailRequestStep::ValidationPending { session_id },
                ),
                Some(None) => Ok(
                    ChangeEmailRequestStep::ValidationPending { session_id: random_id },
                ),
            }
        },
{
    match user.expect_recent(LoginTarget::ChangeEmail, now) {
        Ok(_) => {},
        Err(error) => {
            return Err(error);
        },
    }
    if !submitted {
        return Ok(ChangeEmailRequestStep::Form);
    }
    match sent {
        None => Ok(ChangeEmailRequestStep::SendEmail),
        Some(Some(session_id)) => Ok(ChangeEmailRequestStep::ValidationPending { session_id }),
        Some(None) => Ok(ChangeEmailRequestStep::ValidationPending { session_id: random_id }),
    }
}

/// What the page that follows the link in an email does next.
pub enum ChangeEmailStep {
    /// Whether the link has been followed has to be found out.
    CheckSession,
    /// The link has not been followed.
    ValidationPending,
    /// The address of the validation session is to become the user's.
    Associate { user_id: String },
    Success,
}

/// The page that follows the link in an email. `may_change` is whether users may change
/// their address, `validated` whether the link has been followed, and `associated` whether
/// the address has become the user's, or why not.
pub fn get_change_email(
    user: User,
    may_change: bool,
    validated: Option<bool>,
    associated: Option<Result<(), String>>,
) -> (r: Result<ChangeEmailStep, WebError>)
    ensures
        match user.0 {
            None => r == Err::<ChangeEmailStep, WebError>(
                to_login(user, LoginTarget::ChangeEmail),
            ),
            Some(session) => if !may_change {
                r matches Err(WebError::Forbidden(text)) && text@
                    == "You may not change your email address."@
            } else {
                match (validated, associated) {
                    (None, _) => r == Ok::<ChangeEmailStep, WebError>(
                        ChangeEmailStep::CheckSession,
                    ),
                    (Some(false), _) => r == Ok::<ChangeEmailStep, WebError>(
                        ChangeEmailStep::ValidationPending,
                    ),
                    (Some(true), None) => r == Ok::<ChangeEmailStep, WebError>(
                        ChangeEmailStep::Associate { user_id: session.user_id },
                    ),
                    (Some(true), Some(Err(message))) => r == Err::<ChangeEmailStep, WebError>(
                        WebError::BadRequest(message),
                    ),
                    (Some(true), Some(Ok(_))) => r == Ok::<ChangeEmailStep, WebError>(
                        ChangeEmailStep::Success,
                    ),
                }
            },
        },
{
    let user_id = match user.expect(LoginTarget::ChangeEmail) {
        Ok(user_id) => user_id,
        Err(error) => {
            return Err(error);
        },
    };
    if !may_change {
        return Err(WebError::Forbidden("You may not change your email address.".to_owned()));
    }
    match validated {
        None => Ok(ChangeEmailStep::CheckSession),
        Some(valid) => if !valid {
            Ok(ChangeEmailStep::ValidationPending)
        } else {
            match associated {
                None => Ok(ChangeEmailStep::Associate { user_id }),
                Some(Err(message)) => Err(WebError::BadRequest(message)),
                Some(Ok(_)) => Ok(ChangeEmailStep::Success),
            }
        },
    }
}

/// The page for removing the email address: the user whose address is to be removed.
pub fn post_delete_email(user: User, may_remove: bool) -> (r: Result<String, WebError>)
    ensures
        match user.0 {
            None => r == Err::<String, WebError>(to_login(user, LoginTarget::ChangeEmail)),
            Some(session) => if !may_remove {
                r matches Err(WebError::Forbidden(text)) && text@
                    == "You may not remove your email address."@
            } else {
                r == Ok::<String, WebError>(session.user_id)
            },
        },
{
    let user_id = match user.expect(LoginTarget::ChangeEmail) {
        Ok(user_id) => user_id,
        Err(error) => {
            return Err(error);
        },
    };
    if !may_remove {
        return Err(WebError::Forbidden("You may not remove your email address.".to_owned()));
    }
    Ok(user_id)
}

/// A login is recent if it is less than ten minutes ago, and who is not logged in has none. To log
/// in again is asked of those who are logged in.
pub proof fn law_recent_logins(user: User, now: u128, next: LoginTarget)
    ensures
        is_recent(user, now) <==> (user.0 matches Some(session) && session.last_login <= now && now
            - session.last_login < 600000000000),
        to_login(user, next) matches WebError::LoginRequired(query) && query.next == next
            && query.reauthenticate == (user.0 is Some),
{
}

/// Devices are shown the last seen first, those never seen at the end, and without the dehydrated
/// one.
pub proof fn law_shown_devices(
    devices: Seq<DeviceView>,
    dehydrated: Option<Seq<char>>,
    device: DeviceView,
    a: DeviceView,
    b: DeviceView,
)
    ensures
        shown(devices, dehydrated).contains(device) <==> devices.contains(device) && dehydrated
            != Some(device.device_id),
        not_before(a, b) <==> b.last_seen_ts is None || (a.last_seen_ts is Some
            && a.last_seen_ts->Some_0 >= b.last_seen_ts->Some_0),
{
    broadcast use vstd::seq_lib::group_filter_ensures;

    let keep = |d: DeviceView| dehydrated != Some(d.device_id);
    if shown(devices, dehydrated).contains(device) {
        assert(keep(device));
        devices.lemma_filter_contains_rev(keep, device);
    }
    if devices.contains(device) && dehydrated != Some(device.device_id) {
        assert(keep(device));
    }
}

/// Where the actions of account management lead. Those about a device need one.
pub proof fn law_deeplinks(device_id: Option<Seq<char>>)
    ensures
        deeplink(None, device_id) == Ok::<Seq<char>, Seq<char>>(""@),
        deeplink(Some(AccountManagementAction::Profile), device_id) == Ok::<Seq<char>, Seq<char>>(
            ""@,
        ),
        deeplink(Some(AccountManagementAction::AccountDeactivate), device_id) == Ok::<
            Seq<char>,
            Seq<char>,
        >("deactivate"@),
        deeplink(Some(AccountManagementAction::CrossSigningReset), device_id) == Ok::<
            Seq<char>,
            Seq<char>,
        >("cross_signing_reset"@),
        deeplink(Some(AccountManagementAction::DevicesList), device_id) == Ok::<
            Seq<char>,
            Seq<char>,
        >("#devices"@),
        deeplink(Some(AccountManagementAction::Other), device_id) == Err::<Seq<char>, Seq<char>>(
            "Unknown action"@,
        ),
        device_id matches Some(id) ==> {
            &&& deeplink(Some(AccountManagementAction::DeviceDelete), device_id) == Ok::<
                Seq<char>,
                Seq<char>,
            >("device/"@ + id + "/delete"@)
            &&& deeplink(Some(AccountManagementAction::DeviceView), device_id) == Ok::<
                Seq<char>,
                Seq<char>,
            >("device/"@ + id + "/"@)
        },
        device_id is None ==> {
            &&& deeplink(Some(AccountManagementAction::DeviceDelete), device_id) == Err::<
                Seq<char>,
                Seq<char>,
            >("A device ID is required for this action"@)
            &&& deeplink(Some(AccountManagementAction::DeviceView), device_id) == Err::<
                Seq<char>,
                Seq<char>,
            >("A device ID is required for this action"@)
        },
{
}

/// The page of a device: one that the user does not have is refused. Sending the form removes the
/// device and its session; until then nothing changes, and the page says whether it is the last.
pub proof fn law_device_page(
    users: users::DataView,
    oauth: oauth::ServiceView,
    user_id: Seq<char>,
    device_id: Seq<char>,
    submitted: bool,
    rooms: Seq<String>,
    count: u64,
    users_after: users::DataView,
    oauth_after: oauth::ServiceView,
    r: Result<RemoveDeviceBody, WebError>,
    other: Seq<char>,
)
    requires
        device_page(
            users,
            oauth,
            user_id,
            device_id,
            submitted,
            rooms,
            count,
            users_after,
            oauth_after,
            r,
        ),
    ensures
        ({
            let key = key2(user_id, device_id);
            let known = users.devices.contains_key(key);
            &&& !known ==> (r matches Err(WebError::BadRequest(text)) && text@
                == "Unknown device"@)
            &&& !known || !submitted ==> users_after == users && oauth_after == oauth
            &&& known && submitted ==> {
                &&& r == Ok::<RemoveDeviceBody, WebError>(RemoveDeviceBody::Success)
                &&& !users_after.devices.contains_key(key)
                &&& !oauth_after.sessions.contains_key(key)
            }
            &&& known && !submitted ==> (r matches Ok(RemoveDeviceBody::Form { last_device }) && (
            other != device_id && users.devices.contains_key(key2(user_id, other))
                ==> !last_device))
            &&& known && !submitted && (forall|k: KeyView| #[trigger]
                users.devices.contains_key(k) && k.first == user_id ==> k == key) ==> (r matches Ok(
                RemoveDeviceBody::Form { last_device },
            ) && last_device)
            &&& known && submitted && other != device_id ==> users_after.devices.contains_key(
                key2(user_id, other),
            ) == users.devices.contains_key(key2(user_id, other))
        }),
{
    assert(key2(user_id, other).second == other && key2(user_id, other).first == user_id);
    assert(key2(user_id, device_id).second == device_id);
}

/// Deactivating has to be confirmed.
pub proof fn law_deactivation_is_confirmed(confirmed: bool)
    ensures
        deactivate_errors(confirmed).len() == 0 <==> confirmed,
        !confirmed ==> deactivate_errors(confirmed) == seq![
            FieldErrorView {
                field: "confirm",
                code: "required",
                message: "This checkbox must be checked"@,
            },
        ],
{
}

/// In a list that shows the latest first, no device was seen before one that follows it.
pub proof fn law_latest_first(devices: Seq<DeviceView>, i: int, j: int)
    requires
        latest_first(devices),
        0 <= i < j < devices.len(),
    ensures
        devices[j].last_seen_ts matches Some(later) ==> (devices[i].last_seen_ts matches Some(
            earlier,
        ) && later <= earlier),
{
    assert(not_before(devices[i], devices[j]));
}

} // verus!
