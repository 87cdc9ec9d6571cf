//! Access tokens, and the tokens that stand for a user for a while.

use crate::error::{Error, ErrorKind};
use crate::store::{key1, key2, Key, KeyView};
use crate::time::{
    plus, saturating_product, saturating_sum, secs, secs_of, times, NANOS_PER_SEC,
};
use crate::users::{DataView, Expiring, Service, UserDevice};
use vstd::prelude::*;

verus! {

impl DataView {
    /// The user and the device that an access token belongs to, unless it has expired.
    pub open spec fn token_owner(self, token: Seq<char>, now: u128) -> Option<
        (Seq<char>, Seq<char>),
    > {
        if !self.tokens.contains_key(key1(token)) {
            None
        } else {
            let owner = self.tokens[key1(token)];
            let key = key2(owner.0, owner.1);
            if self.token_expiries.contains_key(key) && now > self.token_expiries[key]
                * NANOS_PER_SEC {
                None
            } else {
                Some(owner)
            }
        }
    }

    /// The user whom an OpenID token stands for at a time, or why it stands for nobody.
    pub open spec fn openid_owner(self, token: Seq<char>, now_ms: u64) -> Result<
        Seq<char>,
        Error,
    > {
        if !self.openid_tokens.contains_key(key1(token)) {
            Err(Error::Request(ErrorKind::Unauthorized, "OpenID token is unrecognised"))
        } else if self.openid_tokens[key1(token)].0 < now_ms {
            Err(Error::Request(ErrorKind::Unauthorized, "OpenID token is expired"))
        } else {
            Ok(self.openid_tokens[key1(token)].1)
        }
    }

    /// The user whom a login token stands for at a time, or why it stands for nobody.
    pub open spec fn login_owner(self, token: Seq<char>, now_ms: u64) -> Result<
        Seq<char>,
        Error,
    > {
        if !self.login_tokens.contains_key(key1(token)) {
            Err(Error::Request(ErrorKind::Forbidden, "Login token is unrecognised"))
        } else if self.login_tokens[key1(token)].0 < now_ms {
            Err(Error::Request(ErrorKind::Forbidden, "Login token is expired"))
        } else {
            Ok(self.login_tokens[key1(token)].1)
        }
    }

    /// A user has a new OpenID token, which is good for `ttl` seconds.
    pub open spec fn with_openid_token(
        self,
        user_id: Seq<char>,
        token: Seq<char>,
        ttl: u64,
        now_ms: u64,
    ) -> DataView {
        DataView {
            openid_tokens: self.openid_tokens.insert(
                key1(token),
                (saturating_sum(now_ms, saturating_product(ttl, 1000)), user_id),
            ),
            ..self
        }
    }

    /// A user has a new login token, which is good for `ttl` milliseconds.
    pub open spec fn with_login_token(
        self,
        user_id: Seq<char>,
        token: Seq<char>,
        ttl: u64,
        now_ms: u64,
    ) -> DataView {
        DataView {
            login_tokens: self.login_tokens.insert(
                key1(token),
                (saturating_sum(now_ms, ttl), user_id),
            ),
            ..self
        }
    }

    /// A login token is gone.
    pub open spec fn without_login_token(self, token: Seq<char>) -> DataView {
        DataView { login_tokens: self.login_tokens.remove(key1(token)), ..self }
    }

    /// The device has a new access token, which is good for `max_age` seconds if that is
    /// given.
    pub open spec fn with_token(
        self,
        user_id: Seq<char>,
        device_id: Seq<char>,
        token: Seq<char>,
        max_age: Option<u64>,
        now: u128,
    ) -> DataView {
        let key = key2(user_id, device_id);
        let had = self.device_tokens.contains_key(key);
        let old_token = self.device_tokens[key];
        let tokens = if had {
            self.tokens.remove(key1(old_token))
        } else {
            self.tokens
        };
        DataView {
            device_tokens: self.device_tokens.insert(key, token),
            tokens: tokens.insert(key1(token), (user_id, device_id)),
            token_expiries: match max_age {
                Some(age) => self.token_expiries.insert(key, saturating_sum(secs(now), age)),
                None => self.token_expiries.remove(key),
            },
            ..self
        }
    }
}

impl Service {
    /// Find out which user an access token belongs to.
    pub fn find_from_token(&self, token: &str, now: u128) -> (r: Option<(String, String)>)
        ensures
            match r {
                Some(owner) => self@.token_owner(token@, now) == Some((owner.0@, owner.1@)),
                None => self@.token_owner(token@, now) is None,
            },
    {
        let owner = match self.db.token_userdeviceid.get(&Key::of(token)) {
            None => {
                return None;
            },
            Some(owner) => owner,
        };
        let key = Key::pair(owner.user_id.as_str(), owner.device_id.as_str());
        if let Some(expires) = self.db.userdeviceid_tokenexpires.get(&key) {
            let expires_at: u128 = (*expires as u128) * NANOS_PER_SEC;
            if now > expires_at {
                return None;
            }
        }
        Some((owner.user_id.clone(), owner.device_id.clone()))
    }

    /// The access token of a device.
    pub fn get_token(&self, user_id: &str, device_id: &str) -> (r: Option<&str>)
        ensures
            match r {
                Some(token) => self@.device_tokens.contains_key(key2(user_id@, device_id@))
                    && self@.device_tokens[key2(user_id@, device_id@)] == token@,
                None => !self@.device_tokens.contains_key(key2(user_id@, device_id@)),
            },
    {
        match self.db.userdeviceid_token.get(&Key::pair(user_id, device_id)) {
            Some(token) => Some(token.as_str()),
            None => None,
        }
    }

    /// Whether a random token does not collide with existing tokens, and so can be handed
    /// out; `appservice` tells whether it is an appservice's.
    pub fn generate_unique_token(&self, candidate: &str, appservice: bool) -> (r: bool)
        ensures
            r == (!appservice && !self@.tokens.contains_key(key1(candidate@))),
    {
        !appservice && !self.db.token_userdeviceid.contains(&Key::of(candidate))
    }

    /// Replaces the access token of one device. The token is good for `token_max_age`
    /// seconds if that is given; `appservice` tells whether it is an appservice's.
    pub fn set_token(
        &mut self,
        user_id: &str,
        device_id: &str,
        token: &str,
        token_max_age: Option<u64>,
        appservice: bool,
        now: u128,
    ) -> (r: Result<(), Error>)
        ensures
            final(self).server_name == old(self).server_name,
            if !old(self)@.devices.contains_key(key2(user_id@, device_id@)) {
                &&& r == Err::<(), Error>(
                    Error::BadDatabase("User does not exist or device has no metadata."),
                )
                &&& final(self)@ == old(self)@
            } else if appservice {
                &&& r == Err::<(), Error>(
                    Error::Request(
                        ErrorKind::InvalidParam,
                        "Token conflicts with an existing appservice token",
                    ),
                )
                &&& final(self)@ == old(self)@
            } else {
                &&& r is Ok
                &&& final(self)@ == old(self)@.with_token(
                    user_id@,
                    device_id@,
                    token@,
                    token_max_age,
                    now,
                )
            },
    {
        let key = Key::pair(user_id, device_id);
        if !self.db.userdeviceid_metadata.contains(&key) {
            return Err(Error::BadDatabase("User does not exist or device has no metadata."));
        }
        if appservice {
            return Err(
                Error::Request(
                    ErrorKind::InvalidParam,
                    "Token conflicts with an existing appservice token",
                ),
            );
        }
        let old_token = match self.db.userdeviceid_token.get(&key) {
            Some(old_token) => Some(old_token.clone()),
            None => None,
        };
        if let Some(old_token) = old_token {
            self.db.token_userdeviceid.remove(&Key::of(old_token.as_str()));
        }
        self.db.userdeviceid_token.insert(Key::pair(user_id, device_id), token.to_owned());
        self.db.token_userdeviceid.insert(
            Key::of(token),
            UserDevice { user_id: user_id.to_owned(), device_id: device_id.to_owned() },
        );
        match token_max_age {
            Some(max_age) => {
                let expires: u64 = plus(secs_of(now), max_age);
                self.db.userdeviceid_tokenexpires.insert(Key::pair(user_id, device_id), expires);
            },
            None => {
                self.db.userdeviceid_tokenexpires.remove(&key);
            },
        }
        Ok(())
    }

    /// Creates an OpenID token, which can be used to prove that a user has access to an
    /// account (primarily for integrations). It is good for `ttl` seconds.
    pub fn create_openid_token(&mut self, user_id: &str, token: &str, ttl: u64, now_ms: u64) -> (r:
        u64)
        ensures
            r == ttl,
            final(self)@ == old(self)@.with_openid_token(user_id@, token@, ttl, now_ms),
            final(self).server_name == old(self).server_name,
    {
        let expires_at: u64 = plus(now_ms, times(ttl, 1000));
        self.db.openidtoken_expiresatuserid.insert(
            Key::of(token),
            Expiring { expires_at, user_id: user_id.to_owned() },
        );
        ttl
    }

    /// Find out which user an OpenID access token belongs to. An expired token is removed.
    pub fn find_from_openid_token(&mut self, token: &str, now_ms: u64) -> (r: Result<String, Error>)
        ensures
            final(self).server_name == old(self).server_name,
            match old(self)@.openid_owner(token@, now_ms) {
                Ok(user) => r matches Ok(found) && found@ == user,
                Err(e) => r == Err::<String, Error>(e),
            },
            final(self)@ == if old(self)@.openid_tokens.contains_key(key1(token@)) && old(
                self,
            )@.openid_owner(token@, now_ms) is Err {
                DataView {
                    openid_tokens: old(self)@.openid_tokens.remove(key1(token@)),
                    ..old(self)@
                }
            } else {
                old(self)@
            },
    {
        let key = Key::of(token);
        let (expires_at, user_id): (u64, String) = match self.db.openidtoken_expiresatuserid.get(
            &key,
        ) {
            None => {
                return Err(
                    Error::Request(ErrorKind::Unauthorized, "OpenID token is unrecognised"),
                );
            },
            Some(row) => (row.expires_at, row.user_id.clone()),
        };
        if expires_at < now_ms {
            self.db.openidtoken_expiresatuserid.remove(&key);
            return Err(Error::Request(ErrorKind::Unauthorized, "OpenID token is expired"));
        }
        Ok(user_id)
    }

    /// Creates a short-lived login token, which can be used to log in using the
    /// `m.login.token` mechanism. It is good for `ttl` milliseconds.
    pub fn create_login_token(&mut self, user_id: &str, token: &str, ttl: u64, now_ms: u64) -> (r:
        u64)
        ensures
            r == ttl,
            final(self)@ == old(self)@.with_login_token(user_id@, token@, ttl, now_ms),
            final(self).server_name == old(self).server_name,
    {
        let expires_at: u64 = plus(now_ms, ttl);
        self.db.logintoken_expiresatuserid.insert(
            Key::of(token),
            Expiring { expires_at, user_id: user_id.to_owned() },
        );
        ttl
    }

    /// Find out which user a login token belongs to.
    /// Removes the token to prevent double-use attacks.
    pub fn find_from_login_token(&mut self, token: &str, now_ms: u64) -> (r: Result<String, Error>)
        ensures
            final(self).server_name == old(self).server_name,
            final(self)@ == old(self)@.without_login_token(token@),
            match old(self)@.login_owner(token@, now_ms) {
                Ok(user) => r matches Ok(found) && found@ == user,
                Err(e) => r == Err::<String, Error>(e),
            },
    {
        match self.db.logintoken_expiresatuserid.take(&Key::of(token)) {
            None => Err(Error::Request(ErrorKind::Forbidden, "Login token is unrecognised")),
            Some(row) => {
                if row.expires_at < now_ms {
                    Err(Error::Request(ErrorKind::Forbidden, "Login token is expired"))
                } else {
                    Ok(row.user_id)
                }
            },
        }
    }
}

/// A new access token is its device's until it expires; the one that it replaces is
/// nobody's; and no other token changes hands.
pub proof fn law_set_token(
    before: DataView,
    user_id: Seq<char>,
    device_id: Seq<char>,
    token: Seq<char>,
    max_age: Option<u64>,
    now: u128,
    later: u128,
    other: Seq<char>,
)
    ensures
        ({
            let after = before.with_token(user_id, device_id, token, max_age, now);
            let key = key2(user_id, device_id);
            &&& after.tokens[key1(token)] == (user_id, device_id)
            &&& max_age is None ==> after.token_owner(token, later) == Some((user_id, device_id))
            &&& max_age matches Some(age) ==> (after.token_owner(token, later) == Some(
                (user_id, device_id),
            ) <==> later <= saturating_sum(secs(now), age) * NANOS_PER_SEC)
            &&& before.device_tokens.contains_key(key) && before.device_tokens[key] != token
                ==> after.token_owner(before.device_tokens[key], later) is None
            &&& other != token && (before.device_tokens.contains_key(key) ==> other
                != before.device_tokens[key]) ==> after.tokens.contains_key(key1(other))
                == before.tokens.contains_key(key1(other)) && (before.tokens.contains_key(
                key1(other),
            ) ==> after.tokens[key1(other)] == before.tokens[key1(other)])
        }),
{
    let key = key2(user_id, device_id);
    assert(key1(other).first == other && key1(token).first == token);
    assert(key1(before.device_tokens[key]).first == before.device_tokens[key]);
}

/// A login token stands for its user until it expires, works once, and no other token
/// changes.
pub proof fn law_login_token_works_once(
    before: DataView,
    user_id: Seq<char>,
    token: Seq<char>,
    ttl: u64,
    now_ms: u64,
    later_ms: u64,
    other: Seq<char>,
)
    ensures
        ({
            let after = before.with_login_token(user_id, token, ttl, now_ms);
            let used = after.without_login_token(token);
            &&& after.login_owner(token, later_ms) == if later_ms <= saturating_sum(now_ms, ttl) {
                Ok::<Seq<char>, Error>(user_id)
            } else {
                Err(Error::Request(ErrorKind::Forbidden, "Login token is expired"))
            }
            &&& used.login_owner(token, later_ms) == Err::<Seq<char>, Error>(
                Error::Request(ErrorKind::Forbidden, "Login token is unrecognised"),
            )
            &&& other != token ==> used.login_owner(other, later_ms) == before.login_owner(
                other,
                later_ms,
            )
        }),
{
    assert(key1(other).first == other && key1(token).first == token);
}

/// An OpenID token stands for its user until it expires, however often it is looked up, and
/// no other token changes.
pub proof fn law_openid_token_stands_for_its_user(
    before: DataView,
    user_id: Seq<char>,
    token: Seq<char>,
    ttl: u64,
    now_ms: u64,
    later_ms: u64,
    other: Seq<char>,
)
    ensures
        ({
            let after = before.with_openid_token(user_id, token, ttl, now_ms);
            let expires = saturating_sum(now_ms, saturating_product(ttl, 1000));
            &&& after.openid_owner(token, later_ms) == if later_ms <= expires {
                Ok::<Seq<char>, Error>(user_id)
            } else {
                Err(Error::Request(ErrorKind::Unauthorized, "OpenID token is expired"))
            }
            &&& other != token ==> after.openid_owner(other, later_ms) == before.openid_owner(
                other,
                later_ms,
            )
        }),
{
    assert(key1(other).first == other && key1(token).first == token);
}

/// A token stands for the device that it was given to, until it expires: up to and at the second
/// that is kept for the device, or for ever if none is.
pub proof fn law_token_owners(data: DataView, token: Seq<char>, now: u128)
    ensures
        ({
            let owner = data.tokens[key1(token)];
            let key = key2(owner.0, owner.1);
            let held = data.tokens.contains_key(key1(token));
            &&& !held ==> data.token_owner(token, now) is None
            &&& held && !data.token_expiries.contains_key(key) ==> data.token_owner(token, now)
                == Some(owner)
            &&& held && data.token_expiries.contains_key(key) ==> {
                &&& now <= data.token_expiries[key] * 1000000000 ==> data.token_owner(token, now)
                    == Some(owner)
                &&& now > data.token_expiries[key] * 1000000000 ==> data.token_owner(token, now)
                    is None
            }
        }),
{
}

/// OpenID and login tokens stand for their users up to and at the time that is kept for them, and
/// are told apart from those that are not known.
pub proof fn law_short_lived_tokens(data: DataView, token: Seq<char>, now_ms: u64)
    ensures
        ({
            let openid = data.openid_tokens[key1(token)];
            let login = data.login_tokens[key1(token)];
            &&& !data.openid_tokens.contains_key(key1(token)) ==> data.openid_owner(token, now_ms)
                == Err::<Seq<char>, Error>(
                Error::Request(ErrorKind::Unauthorized, "OpenID token is unrecognised"),
            )
            &&& data.openid_tokens.contains_key(key1(token)) && now_ms <= openid.0
                ==> data.openid_owner(token, now_ms) == Ok::<Seq<char>, Error>(openid.1)
            &&& data.openid_tokens.contains_key(key1(token)) && now_ms > openid.0
                ==> data.openid_owner(token, now_ms) == Err::<Seq<char>, Error>(
                Error::Request(ErrorKind::Unauthorized, "OpenID token is expired"),
            )
            &&& !data.login_tokens.contains_key(key1(token)) ==> data.login_owner(token, now_ms)
                == Err::<Seq<char>, Error>(
                Error::Request(ErrorKind::Forbidden, "Login token is unrecognised"),
            )
            &&& data.login_tokens.contains_key(key1(token)) && now_ms <= login.0
                ==> data.login_owner(token, now_ms) == Ok::<Seq<char>, Error>(login.1)
            &&& data.login_tokens.contains_key(key1(token)) && now_ms > login.0
                ==> data.login_owner(token, now_ms) == Err::<Seq<char>, Error>(
                Error::Request(ErrorKind::Forbidden, "Login token is expired"),
            )
        }),
{
}

/// New tokens last as long as was asked, in seconds for OpenID and in milliseconds for logins,
/// and change nothing else.
pub proof fn law_new_tokens(
    before: DataView,
    user_id: Seq<char>,
    token: Seq<char>,
    ttl: u64,
    now_ms: u64,
)
    ensures
        ({
            let openid = before.with_openid_token(user_id, token, ttl, now_ms);
            let login = before.with_login_token(user_id, token, ttl, now_ms);
            let used = before.without_login_token(token);
            &&& openid.openid_tokens.contains_key(key1(token))
                && openid.openid_tokens[key1(token)].1 == user_id
            &&& now_ms + ttl * 1000 < u64::MAX ==> openid.openid_tokens[key1(token)].0 == now_ms
                + ttl * 1000
            &&& openid == (DataView { openid_tokens: openid.openid_tokens, ..before })
            &&& login.login_tokens.contains_key(key1(token)) && login.login_tokens[key1(token)].1
                == user_id
            &&& now_ms + ttl < u64::MAX ==> login.login_tokens[key1(token)].0 == now_ms + ttl
            &&& login == (DataView { login_tokens: login.login_tokens, ..before })
            &&& !used.login_tokens.contains_key(key1(token))
            &&& used == (DataView { login_tokens: used.login_tokens, ..before })
        }),
{
}

/// A new access token replaces the device's old one, lasts as many seconds as was said or for
/// ever, and changes nothing of any other device.
pub proof fn law_new_access_token(
    before: DataView,
    user_id: Seq<char>,
    device_id: Seq<char>,
    token: Seq<char>,
    max_age: Option<u64>,
    now: u128,
    other: KeyView,
)
    ensures
        ({
            let after = before.with_token(user_id, device_id, token, max_age, now);
            let key = key2(user_id, device_id);
            &&& after.device_tokens.contains_key(key) && after.device_tokens[key] == token
            &&& after.tokens.contains_key(key1(token)) && after.tokens[key1(token)] == (
                user_id,
                device_id,
            )
            &&& max_age is None ==> !after.token_expiries.contains_key(key)
            &&& max_age matches Some(age) ==> after.token_expiries.contains_key(key) && (now
                / 1000000000 + age < u64::MAX ==> after.token_expiries[key] == now / 1000000000
                + age)
            &&& other != key ==> {
                &&& after.device_tokens.contains_key(other) == before.device_tokens.contains_key(
                    other,
                )
                &&& after.device_tokens[other] == before.device_tokens[other]
                &&& after.token_expiries.contains_key(other) == before.token_expiries.contains_key(
                    other,
                )
                &&& after.token_expiries[other] == before.token_expiries[other]
            }
            &&& after == (DataView {
                device_tokens: after.device_tokens,
                tokens: after.tokens,
                token_expiries: after.token_expiries,
                ..before
            })
        }),
{
}

} // verus!
