//! Accounts: their passwords, and whether they are active, suspended or locked.

use crate::error::{Error, ErrorKind};
use crate::rooms::pdu::{is_listed, listed};
use crate::store::{key1, key_views, lemma_filter_lists, lists, under, Key, KeyView};
use crate::text::{lowercase, to_lower};
use crate::users::{DataView, Service, SuspensionRow, SuspensionView, UserSuspension};
use vstd::prelude::*;

verus! {

/// A password hash. This is only for use when setting a user's password, if the hash needs
/// to be kept around for a while without keeping the password in memory.
#[derive(Debug)]
pub struct HashedPassword(pub String);

impl HashedPassword {
    /// Takes what hashing a password gave.
    pub fn new(hashed: Result<String, String>) -> (r: Result<HashedPassword, Error>)
        ensures
            r == match hashed {
                Ok(hash) => Ok::<HashedPassword, Error>(HashedPassword(hash)),
                Err(reason) => Err(
                    Error::RequestAbout(
                        ErrorKind::InvalidParam,
                        "Password does not meet the requirements",
                        reason,
                    ),
                ),
            },
    {
        match hashed {
            Ok(hash) => Ok(HashedPassword(hash)),
            Err(reason) => Err(
                Error::RequestAbout(
                    ErrorKind::InvalidParam,
                    "Password does not meet the requirements",
                    reason,
                ),
            ),
        }
    }
}

/// What an invited user makes of invites from another.
#[derive(Clone, Copy, Debug, PartialEq, Eq, Structural)]
pub enum FilterLevel {
    Allow,
    Ignore,
    Block,
}

/// Whether the recipient, who ignores the given users, has blocked the sender. A recipient
/// without such a list ignores nobody.
pub fn user_is_ignored(ignored: &Option<Vec<String>>, sender: &str) -> (r: bool)
    ensures
        r == (*ignored matches Some(users) && listed(users@, sender@)),
{
    match ignored {
        Some(users) => is_listed(users, sender),
        None => false,
    }
}

/// The recipient's filter level for an invite from the sender. `configured` is what the
/// recipient's invite permissions say of the sender, if they have set any.
pub fn invite_filter_level(
    ignored: &Option<Vec<String>>,
    configured: Option<FilterLevel>,
    sender: &str,
) -> (r: FilterLevel)
    ensures
        r == if *ignored matches Some(users) && listed(users@, sender@) {
            FilterLevel::Ignore
        } else {
            match configured {
                Some(level) => level,
                None => FilterLevel::Allow,
            }
        },
{
    if user_is_ignored(ignored, sender) {
        FilterLevel::Ignore
    } else {
        match configured {
            Some(level) => level,
            None => FilterLevel::Allow,
        }
    }
}

/// The hash that a password is kept as; none is the empty text.
pub open spec fn kept_hash(password: Option<HashedPassword>) -> Seq<char> {
    match password {
        Some(hash) => hash.0@,
        None => Seq::empty(),
    }
}

/// What a row about a suspension says.
pub open spec fn suspended(rows: Map<KeyView, Option<SuspensionView>>, user_id: Seq<char>) -> Result<
    bool,
    Error,
> {
    if !rows.contains_key(key1(user_id)) {
        Ok(false)
    } else {
        match rows[key1(user_id)] {
            Some(s) => Ok(s.suspended),
            None => Err(Error::BadDatabase("The suspension in the database is invalid.")),
        }
    }
}

/// An account has been locked; one that has a row keeps it.
pub open spec fn locked(
    rows: Map<KeyView, Option<SuspensionView>>,
    user_id: Seq<char>,
    locking_user: Seq<char>,
    now_ms: u64,
) -> Map<KeyView, Option<SuspensionView>> {
    rows.insert(
        key1(user_id),
        if rows.contains_key(key1(user_id)) && rows[key1(user_id)] is Some {
            rows[key1(user_id)]
        } else {
            Some(
                SuspensionView {
                    suspended: true,
                    suspended_at: now_ms,
                    suspended_by: locking_user,
                },
            )
        },
    )
}

fn row_suspended(row: Option<&SuspensionRow>) -> (r: Result<bool, Error>)
    ensures
        r == match row {
            None => Ok::<bool, Error>(false),
            Some(row) => match row@ {
                Some(s) => Ok(s.suspended),
                None => Err(Error::BadDatabase("The suspension in the database is invalid.")),
            },
        },
{
    match row {
        None => Ok(false),
        Some(SuspensionRow::Suspension(s)) => Ok(s.suspended),
        Some(SuspensionRow::Malformed) => Err(
            Error::BadDatabase("The suspension in the database is invalid."),
        ),
    }
}

impl DataView {
    /// There is an account of this name, possibly a deactivated one.
    pub open spec fn has_account(self, user_id: Seq<char>) -> bool {
        self.passwords.contains_key(key1(user_id))
    }

    /// The account is active: it has a password.
    pub open spec fn is_active(self, user_id: Seq<char>) -> bool {
        self.has_account(user_id) && self.passwords[key1(user_id)].len() > 0
    }

    /// The account that a user ID stands for at a login.
    pub open spec fn login_account(self, user_id: Seq<char>) -> Option<Seq<char>> {
        if self.has_account(user_id) {
            Some(user_id)
        } else if self.has_account(lowercase(user_id)) {
            Some(lowercase(user_id))
        } else {
            None
        }
    }

    /// The account has no password any more.
    pub open spec fn deactivated(self, user_id: Seq<char>) -> DataView {
        DataView { passwords: self.passwords.insert(key1(user_id), Seq::empty()), ..self }
    }
}

impl Service {
    /// Set a user's password.
    pub fn set_password(&mut self, user_id: &str, password: Option<HashedPassword>)
        ensures
            final(self)@ == (DataView {
                passwords: old(self)@.passwords.insert(key1(user_id@), kept_hash(password)),
                ..old(self)@
            }),
            final(self).server_name == old(self).server_name,
    {
        match password {
            Some(hash) => {
                self.db.userid_password.insert(Key::of(user_id), hash.0);
            },
            None => {
                self.db.userid_password.insert(Key::of(user_id), String::new());
            },
        }
    }

    /// Create a new user account on this homeserver.
    pub fn create(&mut self, user_id: &str, password: Option<HashedPassword>) -> (r: Result<
        (),
        Error,
    >)
        ensures
            final(self).server_name == old(self).server_name,
            if !old(self).is_local(user_id@) && password is Some {
                &&& r == Err::<(), Error>(
                    Error::Other("Cannot create a nonlocal user with a set password"),
                )
                &&& final(self)@ == old(self)@
            } else {
                &&& r is Ok
                &&& final(self)@ == (DataView {
                    passwords: old(self)@.passwords.insert(key1(user_id@), kept_hash(password)),
                    ..old(self)@
                })
            },
    {
        if !self.user_is_local(user_id) && password.is_some() {
            return Err(Error::Other("Cannot create a nonlocal user with a set password"));
        }
        self.set_password(user_id, password);
        Ok(())
    }

    /// Suspend account, placing it in a read-only state
    pub fn suspend_account(&mut self, user_id: &str, suspending_user: &str, now_ms: u64)
        ensures
            final(self)@ == (DataView {
                suspensions: old(self)@.suspensions.insert(
                    key1(user_id@),
                    Some(
                        SuspensionView {
                            suspended: true,
                            suspended_at: now_ms,
                            suspended_by: suspending_user@,
                        },
                    ),
                ),
                ..old(self)@
            }),
            final(self).server_name == old(self).server_name,
    {
        self.db.userid_suspension.insert(
            Key::of(user_id),
            SuspensionRow::Suspension(
                UserSuspension {
                    suspended: true,
                    suspended_at: now_ms,
                    suspended_by: suspending_user.to_owned(),
                },
            ),
        );
    }

    /// Unsuspend account, placing it in a read-write state
    pub fn unsuspend_account(&mut self, user_id: &str)
        ensures
            final(self)@ == (DataView {
                suspensions: old(self)@.suspensions.remove(key1(user_id@)),
                ..old(self)@
            }),
            final(self).server_name == old(self).server_name,
    {
        self.db.userid_suspension.remove(&Key::of(user_id));
    }

    /// Locks an account. One that is locked stays locked as it was.
    pub fn lock_account(&mut self, user_id: &str, locking_user: &str, now_ms: u64)
        ensures
            final(self)@ == (DataView {
                locks: locked(old(self)@.locks, user_id@, locking_user@, now_ms),
                ..old(self)@
            }),
            final(self).server_name == old(self).server_name,
    {
        let suspension = match self.db.userid_lock.get(&Key::of(user_id)) {
            Some(SuspensionRow::Suspension(s)) => UserSuspension {
                suspended: s.suspended,
                suspended_at: s.suspended_at,
                suspended_by: s.suspended_by.clone(),
            },
            _ => UserSuspension {
                suspended: true,
                suspended_at: now_ms,
                suspended_by: locking_user.to_owned(),
            },
        };
        self.db.userid_lock.insert(Key::of(user_id), SuspensionRow::Suspension(suspension));
    }

    pub fn unlock_account(&mut self, user_id: &str)
        ensures
            final(self)@ == (DataView {
                locks: old(self)@.locks.remove(key1(user_id@)),
                ..old(self)@
            }),
            final(self).server_name == old(self).server_name,
    {
        self.db.userid_lock.remove(&Key::of(user_id));
    }

    /// Check if the provided user ID belongs to an existing (possibly deactivated) account
    /// on this homeserver.
    pub fn account_exists(&self, user_id: &str) -> (r: bool)
        ensures
            r == (self.is_local(user_id@) && self@.has_account(user_id@)),
    {
        self.user_is_local(user_id) && self.db.userid_password.contains(&Key::of(user_id))
    }

    /// Check if account is deactivated
    pub fn is_deactivated(&self, user_id: &str) -> (r: Result<bool, Error>)
        ensures
            r == if self@.has_account(user_id@) {
                Ok::<bool, Error>(!self@.is_active(user_id@))
            } else {
                Err(Error::Request(ErrorKind::NotFound, "User does not exist."))
            },
    {
        match self.db.userid_password.get(&Key::of(user_id)) {
            Some(hash) => Ok(hash.as_str().is_empty()),
            None => Err(Error::Request(ErrorKind::NotFound, "User does not exist.")),
        }
    }

    /// Check if account is suspended
    pub fn is_suspended(&self, user_id: &str) -> (r: Result<bool, Error>)
        ensures
            r == suspended(self@.suspensions, user_id@),
    {
        row_suspended(self.db.userid_suspension.get(&Key::of(user_id)))
    }

    /// Check if account is locked
    pub fn is_locked(&self, user_id: &str) -> (r: Result<bool, Error>)
        ensures
            r == suspended(self@.locks, user_id@),
    {
        row_suspended(self.db.userid_lock.get(&Key::of(user_id)))
    }

    pub fn disable_login(&mut self, user_id: &str)
        ensures
            final(self)@ == (DataView {
                logins_disabled: old(self)@.logins_disabled.insert(key1(user_id@), ()),
                ..old(self)@
            }),
            final(self).server_name == old(self).server_name,
    {
        self.db.userid_logindisabled.insert(Key::of(user_id), ());
    }

    pub fn enable_login(&mut self, user_id: &str)
        ensures
            final(self)@ == (DataView {
                logins_disabled: old(self)@.logins_disabled.remove(key1(user_id@)),
                ..old(self)@
            }),
            final(self).server_name == old(self).server_name,
    {
        self.db.userid_logindisabled.remove(&Key::of(user_id));
    }

    pub fn is_login_disabled(&self, user_id: &str) -> (r: bool)
        ensures
            r == self@.logins_disabled.contains_key(key1(user_id@)),
    {
        self.db.userid_logindisabled.contains(&Key::of(user_id))
    }

    /// Check if account is active, infallible
    pub fn is_active(&self, user_id: &str) -> (r: bool)
        ensures
            r == self@.is_active(user_id@),
    {
        match self.is_deactivated(user_id) {
            Ok(deactivated) => !deactivated,
            Err(_) => false,
        }
    }

    /// Check if account is active, infallible
    pub fn is_active_local(&self, user_id: &str) -> (r: bool)
        ensures
            r == (self.is_local(user_id@) && self@.is_active(user_id@)),
    {
        self.user_is_local(user_id) && self.is_active(user_id)
    }

    /// Returns the number of users registered on this server.
    pub fn count(&self) -> (r: usize)
        ensures
            r == self@.passwords.dom().len(),
    {
        self.db.userid_password.len()
    }

    /// The IDs of all users on this homeserver, in order.
    pub fn stream(&self) -> (r: Vec<Key>)
        ensures
            lists(key_views(r@), |k: KeyView| self@.passwords.contains_key(k)),
    {
        let keys = self.db.userid_password.keys(None, None);
        proof {
            let all = |k: KeyView| self@.passwords.contains_key(k);
            let listed = |k: KeyView|
                self.db.userid_password@.contains_key(k) && under(None, None, k);
            assert forall|k: KeyView| all(k) <==> #[trigger] key_views(keys@).contains(k) by {
                assert(listed(k) <==> key_views(keys@).contains(k));
            }
        }
        keys
    }

    /// The IDs of the local users, in order.
    ///
    /// A user account is considered `local` if the length of its password is greater than
    /// zero.
    pub fn list_local_users(&self) -> (r: Vec<Key>)
        ensures
            lists(
                key_views(r@),
                |k: KeyView| self@.passwords.contains_key(k) && self@.passwords[k].len() > 0,
            ),
    {
        let keys = self.stream();
        let ghost views = key_views(keys@);
        let ghost wanted = |k: KeyView|
            self@.passwords.contains_key(k) && self@.passwords[k].len() > 0;
        let mut out: Vec<Key> = Vec::new();
        let mut i: usize = 0;
        while i < keys.len()
            invariant
                i <= keys@.len(),
                views == key_views(keys@),
                lists(views, |k: KeyView| self@.passwords.contains_key(k)),
                wanted == |k: KeyView|
                    self@.passwords.contains_key(k) && self@.passwords[k].len() > 0,
                key_views(out@) == views.take(i as int).filter(wanted),
            decreases keys@.len() - i,
        {
            let ghost before = key_views(out@);
            proof {
                reveal(Seq::filter);
                assert(views.take(i + 1).drop_last() =~= views.take(i as int));
                assert(views.take(i + 1).last() == views[i as int]);
                assert(views.contains(views[i as int]));
                assert((|k: KeyView| self@.passwords.contains_key(k))(views[i as int]));
            }
            let local = match self.db.userid_password.get(&keys[i]) {
                Some(hash) => !hash.as_str().is_empty(),
                None => false,
            };
            if local {
                let key = keys[i].duplicate();
                out.push(key);
                proof {
                    assert(key_views(out@) =~= before.push(views[i as int]));
                }
            }
            i = i + 1;
        }
        proof {
            assert(views.take(i as int) =~= views);
            lemma_filter_lists(
                views,
                |k: KeyView| self@.passwords.contains_key(k),
                wanted,
            );
        }
        out
    }

    /// The account that a user ID stands for at a login: the one with that ID, or else the
    /// one whose ID is the same in small letters. Legacy user IDs have capital ones.
    fn login_account(&self, user_id: &str) -> (r: Option<String>)
        ensures
            match r {
                Some(id) => self@.login_account(user_id@) == Some(id@),
                None => self@.login_account(user_id@) is None,
            },
    {
        if self.db.userid_password.contains(&Key::of(user_id)) {
            return Some(user_id.to_owned());
        }
        let lowercase_user_id = to_lower(user_id);
        if self.db.userid_password.contains(&Key::of(lowercase_user_id.as_str())) {
            Some(lowercase_user_id)
        } else {
            None
        }
    }

    /// Check a user's password, and return the user's ID. `verifies` is whether the password
    /// verifies against [`Self::password_hash`].
    pub fn check_password(&self, user_id: &str, verifies: bool) -> (r: Result<String, Error>)
        ensures
            match self@.login_account(user_id@) {
                None => r == Err::<String, Error>(
                    Error::Request(
                        ErrorKind::InvalidParam,
                        "This user cannot log in with a password.",
                    ),
                ),
                Some(account) => if !self@.is_active(account) {
                    r == Err::<String, Error>(
                        Error::Request(ErrorKind::UserDeactivated, "This user is deactivated"),
                    )
                } else if !verifies {
                    r == Err::<String, Error>(
                        Error::Request(ErrorKind::Forbidden, "Invalid identifier or password."),
                    )
                } else {
                    r matches Ok(id) && id@ == account
                },
            },
    {
        let account = match self.login_account(user_id) {
            None => {
                return Err(
                    Error::Request(
                        ErrorKind::InvalidParam,
                        "This user cannot log in with a password.",
                    ),
                );
            },
            Some(account) => account,
        };
        let active = match self.db.userid_password.get(&Key::of(account.as_str())) {
            Some(hash) => !hash.as_str().is_empty(),
            None => false,
        };
        if !active {
            Err(Error::Request(ErrorKind::UserDeactivated, "This user is deactivated"))
        } else if !verifies {
            Err(Error::Request(ErrorKind::Forbidden, "Invalid identifier or password."))
        } else {
            Ok(account)
        }
    }

    /// The hash that the password has to verify against when a user logs in under this ID.
    pub fn password_hash(&self, user_id: &str) -> (r: Option<&str>)
        ensures
            match (r, self@.login_account(user_id@)) {
                (Some(hash), Some(account)) => self@.passwords[key1(account)] == hash@,
                (None, None) => true,
                _ => false,
            },
    {
        match self.login_account(user_id) {
            None => None,
            Some(account) => match self.db.userid_password.get(&Key::of(account.as_str())) {
                Some(hash) => Some(hash.as_str()),
                None => None,
            },
        }
    }
}

/// Once a password is set, it is what a login is checked against, and no other account's
/// is changed. Without a password the account exists but is not active.
pub proof fn law_set_password(
    before: DataView,
    after: DataView,
    user_id: Seq<char>,
    password: Option<HashedPassword>,
    other: Seq<char>,
)
    requires
        after == (DataView {
            passwords: before.passwords.insert(key1(user_id), kept_hash(password)),
            ..before
        }),
    ensures
        after.has_account(user_id),
        after.is_active(user_id) <==> kept_hash(password).len() > 0,
        password is None ==> !after.is_active(user_id),
        other != user_id ==> after.has_account(other) == before.has_account(other)
            && after.is_active(other) == before.is_active(other),
{
    assert(key1(other).first == other && key1(user_id).first == user_id);
}

/// Suspending an account and unsuspending it again leaves it as it was, if it was not
/// suspended; and the two change no other account.
pub proof fn law_suspend_then_unsuspend(
    rows: Map<KeyView, Option<SuspensionView>>,
    user_id: Seq<char>,
    suspension: SuspensionView,
    other: Seq<char>,
)
    requires
        suspension.suspended,
    ensures
        ({
            let during = rows.insert(key1(user_id), Some(suspension));
            let after = during.remove(key1(user_id));
            &&& suspended(during, user_id) == Ok::<bool, Error>(true)
            &&& suspended(after, user_id) == Ok::<bool, Error>(false)
            &&& !rows.contains_key(key1(user_id)) ==> after == rows
            &&& other != user_id ==> suspended(during, other) == suspended(rows, other)
                && suspended(after, other) == suspended(rows, other)
        }),
{
    assert(key1(other).first == other && key1(user_id).first == user_id);
    let after = rows.insert(key1(user_id), Some(suspension)).remove(key1(user_id));
    if !rows.contains_key(key1(user_id)) {
        assert(after =~= rows);
    }
}

/// An account without a row is locked once it has been locked, locking it again keeps who
/// did it and when, unlocking it lifts the lock, and no other account changes.
pub proof fn law_lock_then_unlock(
    rows: Map<KeyView, Option<SuspensionView>>,
    user_id: Seq<char>,
    locking_user: Seq<char>,
    now_ms: u64,
    again_by: Seq<char>,
    again_ms: u64,
    other: Seq<char>,
)
    requires
        !rows.contains_key(key1(user_id)),
    ensures
        ({
            let during = locked(rows, user_id, locking_user, now_ms);
            let after = during.remove(key1(user_id));
            &&& suspended(during, user_id) == Ok::<bool, Error>(true)
            &&& locked(during, user_id, again_by, again_ms) == during
            &&& after == rows
            &&& other != user_id ==> suspended(during, other) == suspended(rows, other)
        }),
{
    assert(key1(other).first == other && key1(user_id).first == user_id);
    let during = locked(rows, user_id, locking_user, now_ms);
    assert(locked(during, user_id, again_by, again_ms) =~= during);
    assert(during.remove(key1(user_id)) =~= rows);
}

/// A user has an account if a password is kept for them, and is active if it is not empty.
/// Logging in finds the account of the name as it is, and otherwise of the name in lower case.
pub proof fn law_accounts(data: DataView, user_id: Seq<char>)
    ensures
        ({
            let key = key1(user_id);
            let lower = lowercase(user_id);
            &&& data.has_account(user_id) <==> data.passwords.contains_key(key)
            &&& data.is_active(user_id) <==> data.passwords.contains_key(key)
                && data.passwords[key].len() > 0
            &&& data.passwords.contains_key(key) ==> data.login_account(user_id) == Some(user_id)
            &&& !data.passwords.contains_key(key) && data.passwords.contains_key(key1(lower))
                ==> data.login_account(user_id) == Some(lower)
            &&& !data.passwords.contains_key(key) && !data.passwords.contains_key(key1(lower))
                ==> data.login_account(user_id) is None
        }),
{
}

/// Deactivating leaves an account without a password, and every other account as it is.
pub proof fn law_deactivated(before: DataView, user_id: Seq<char>, other: KeyView)
    ensures
        ({
            let after = before.deactivated(user_id);
            &&& after.passwords.contains_key(key1(user_id)) && after.passwords[key1(
                user_id,
            )].len() == 0
            &&& other != key1(user_id) ==> after.passwords.contains_key(other)
                == before.passwords.contains_key(other) && after.passwords[other]
                == before.passwords[other]
            &&& after == (DataView { passwords: after.passwords, ..before })
        }),
{
}

/// A user is suspended, or locked, exactly as the row says; without a row they are not, and a row
/// that cannot be read is an error. The hash that is kept is the password's, or none.
pub proof fn law_suspended_exactly_if(
    rows: Map<KeyView, Option<SuspensionView>>,
    user_id: Seq<char>,
    password: Option<HashedPassword>,
)
    ensures
        !rows.contains_key(key1(user_id)) ==> suspended(rows, user_id) == Ok::<bool, Error>(false),
        rows.contains_key(key1(user_id)) ==> (rows[key1(user_id)] matches Some(row) ==> suspended(
            rows,
            user_id,
        ) == Ok::<bool, Error>(row.suspended)),
        rows.contains_key(key1(user_id)) && rows[key1(user_id)] is None ==> suspended(rows, user_id)
            == Err::<bool, Error>(
            Error::BadDatabase("The suspension in the database is invalid."),
        ),
        password matches Some(hash) ==> kept_hash(password) == hash.0@,
        password is None ==> kept_hash(password).len() == 0,
{
}

/// Locking keeps an earlier lock as it is, and otherwise says who locked and when.
pub proof fn law_locks(
    rows: Map<KeyView, Option<SuspensionView>>,
    user_id: Seq<char>,
    locking_user: Seq<char>,
    now_ms: u64,
    other: KeyView,
)
    ensures
        ({
            let after = locked(rows, user_id, locking_user, now_ms);
            let key = key1(user_id);
            &&& after.contains_key(key)
            &&& rows.contains_key(key) && rows[key] is Some ==> after[key] == rows[key]
            &&& !(rows.contains_key(key) && rows[key] is Some) ==> (after[key] matches Some(row)
                && row.suspended && row.suspended_at == now_ms && row.suspended_by == locking_user)
            &&& other != key ==> after.contains_key(other) == rows.contains_key(other)
                && after[other] == rows[other]
        }),
{
}

} // verus!
