//! Tokens with which people may register accounts.

use crate::store::{key1, key_views, lemma_push_contains, lists, Column, Key, KeyView};
use crate::text::{decimal, decimal_text, glue};
use vstd::prelude::*;

verus! {

/// When a token expires. Times count the nanoseconds since the Unix epoch.
#[derive(Clone, Copy, Debug)]
pub enum TokenExpires {
    AfterUses(u64),
    AfterTime(u128),
}

impl TokenExpires {
    /// When the token expires, in words.
    pub open spec fn words(
        self,
        now: u128,
        formatted_expiry: Seq<char>,
        remaining: Seq<char>,
    ) -> Seq<char> {
        match self {
            TokenExpires::AfterUses(max_uses) => "Expires after "@ + decimal(max_uses as nat)
                + " uses"@,
            TokenExpires::AfterTime(max_age) => if max_age >= now {
                "Expires in "@ + remaining + " ("@ + formatted_expiry + ")"@
            } else {
                "Expired at "@ + formatted_expiry
            },
        }
    }

    /// When the token expires, in words. Of a token that expires at some time,
    /// `formatted_expiry` is that time, and `remaining` how long it is until then.
    pub fn describe(&self, now: u128, formatted_expiry: &str, remaining: &str) -> (r: String)
        ensures
            r@ == self.words(now, formatted_expiry@, remaining@),
    {
        match *self {
            TokenExpires::AfterUses(max_uses) => {
                let start = glue("Expires after ", decimal_text(max_uses).as_str());
                glue(start.as_str(), " uses")
            },
            TokenExpires::AfterTime(max_age) => {
                if max_age >= now {
                    let start = glue("Expires in ", remaining);
                    let open = glue(start.as_str(), " (");
                    let inner = glue(open.as_str(), formatted_expiry);
                    glue(inner.as_str(), ")")
                } else {
                    glue("Expired at ", formatted_expiry)
                }
            },
        }
    }
}

/// Metadata of a registration token.
#[derive(Debug)]
pub struct DatabaseTokenInfo {
    /// The admin user who created this token.
    pub creator: String,
    /// The number of times this token has been used to create an account.
    pub uses: u64,
    /// When this token will expire, if it expires.
    pub expires: Option<TokenExpires>,
}

#[verifier::ext_equal]
pub struct TokenInfoView {
    pub creator: Seq<char>,
    pub uses: u64,
    pub expires: Option<TokenExpires>,
}

impl View for DatabaseTokenInfo {
    type V = TokenInfoView;

    open spec fn view(&self) -> TokenInfoView {
        TokenInfoView { creator: self.creator@, uses: self.uses, expires: self.expires }
    }
}

impl TokenInfoView {
    /// The token has not expired.
    pub open spec fn valid(self, now: u128) -> bool {
        match self.expires {
            Some(TokenExpires::AfterUses(max_uses)) => self.uses < max_uses,
            Some(TokenExpires::AfterTime(expiry_time)) => expiry_time >= now,
            None => true,
        }
    }
}

impl DatabaseTokenInfo {
    pub fn new(creator: String, expires: Option<TokenExpires>) -> (r: DatabaseTokenInfo)
        ensures
            r@ == (TokenInfoView { creator: creator@, uses: 0, expires }),
    {
        DatabaseTokenInfo { creator, uses: 0, expires }
    }

    /// Determine whether this token info represents a valid token, i.e. one that has not
    /// expired according to its `expires` property. If that is `None`, this function will
    /// always return `true`.
    pub fn is_valid(&self, now: u128) -> (r: bool)
        ensures
            r == self@.valid(now),
    {
        match self.expires {
            Some(TokenExpires::AfterUses(max_uses)) => self.uses < max_uses,
            Some(TokenExpires::AfterTime(expiry_time)) => expiry_time >= now,
            None => true,
        }
    }

    /// What is known of the token, in words. Of a token that expires at some time,
    /// `formatted_expiry` is that time, and `remaining` how long it is until then.
    pub fn describe(&self, now: u128, formatted_expiry: &str, remaining: &str) -> (r: String)
        ensures
            r@ == "Token created by "@ + self@.creator + " and used "@ + decimal(self.uses as nat)
                + " times. "@ + match self.expires {
                Some(expires) => expires.words(now, formatted_expiry@, remaining@) + "."@,
                None => "Never expires."@,
            },
    {
        let by = glue("Token created by ", self.creator.as_str());
        let and = glue(by.as_str(), " and used ");
        let uses = glue(and.as_str(), decimal_text(self.uses).as_str());
        let start = glue(uses.as_str(), " times. ");
        match &self.expires {
            Some(expires) => {
                let words = glue(
                    expires.describe(now, formatted_expiry, remaining).as_str(),
                    ".",
                );
                glue(start.as_str(), words.as_str())
            },
            None => glue(start.as_str(), "Never expires."),
        }
    }

    pub fn duplicate(&self) -> (r: DatabaseTokenInfo)
        ensures
            r@ == self@,
    {
        DatabaseTokenInfo { creator: self.creator.clone(), uses: self.uses, expires: self.expires }
    }
}

/// The tokens.
pub struct Data {
    pub registrationtoken_info: Column<DatabaseTokenInfo>,
}

impl View for Data {
    type V = Map<KeyView, TokenInfoView>;

    open spec fn view(&self) -> Map<KeyView, TokenInfoView> {
        self.registrationtoken_info@
    }
}

/// The tokens that have not expired.
pub open spec fn cleaned(tokens: Map<KeyView, TokenInfoView>, now: u128) -> Map<
    KeyView,
    TokenInfoView,
> {
    Map::new(
        |k: KeyView| tokens.contains_key(k) && tokens[k].valid(now),
        |k: KeyView| tokens[k],
    )
}

/// The keys of all tokens, in key order.
pub open spec fn all_tokens(keys: Seq<KeyView>, tokens: Map<KeyView, TokenInfoView>) -> bool {
    lists(keys, |k: KeyView| tokens.contains_key(k))
}

/// The token and its metadata.
pub open spec fn listed_as(
    entry: (String, DatabaseTokenInfo),
    key: KeyView,
    info: TokenInfoView,
) -> bool {
    entry.0@ == key.first && entry.1@ == info
}

impl Data {
    pub fn new() -> (r: Data)
        ensures
            r@ == Map::<KeyView, TokenInfoView>::empty(),
    {
        Data { registrationtoken_info: Column::new() }
    }

    /// Associate a registration token with its metadata in the database.
    pub fn save_token(&mut self, token: &str, info: DatabaseTokenInfo)
        ensures
            final(self)@ == old(self)@.insert(key1(token@), info@),
    {
        self.registrationtoken_info.insert(Key::of(token), info);
    }

    /// Delete a registration token.
    pub fn revoke_token(&mut self, token: &str)
        ensures
            final(self)@ == old(self)@.remove(key1(token@)),
    {
        self.registrationtoken_info.remove(&Key::of(token));
    }

    /// Look up a registration token's metadata.
    pub fn lookup_token_info(&self, token: &str) -> (r: Option<&DatabaseTokenInfo>)
        ensures
            match r {
                Some(info) => self@.contains_key(key1(token@)) && info@ == self@[key1(token@)],
                None => !self@.contains_key(key1(token@)),
            },
    {
        self.registrationtoken_info.get(&Key::of(token))
    }

    /// List all valid tokens and delete expired ones.
    pub fn iterate_and_clean_tokens(&mut self, now: u128) -> (r: Vec<(String, DatabaseTokenInfo)>)
        ensures
            final(self)@ == cleaned(old(self)@, now),
            exists|keys: Seq<KeyView>|
                {
                    &&& #[trigger] all_tokens(keys, final(self)@)
                    &&& r@.len() == keys.len()
                    &&& forall|i: int|
                        0 <= i < r@.len() ==> listed_as(
                            #[trigger] r@[i],
                            keys[i],
                            final(self)@[keys[i]],
                        )
                },
    {
        self.remove_expired(now);
        let keys = self.registrationtoken_info.keys(None, None);
        let ghost views = key_views(keys@);
        let ghost rows = self@;
        let mut out: Vec<(String, DatabaseTokenInfo)> = Vec::new();
        let mut i: usize = 0;
        proof {
            let wanted = |k: KeyView| rows.contains_key(k);
            assert(lists(views, wanted));
            assert(all_tokens(views, rows));
        }
        while i < keys.len()
            invariant
                i <= keys@.len(),
                views == key_views(keys@),
                rows == self@,
                all_tokens(views, rows),
                out@.len() == i,
                forall|j: int|
                    0 <= j < i ==> listed_as(#[trigger] out@[j], views[j], rows[views[j]]),
            decreases keys@.len() - i,
        {
            proof {
                assert(views[i as int] == keys@[i as int]@);
                assert(views.contains(views[i as int]));
            }
            if let Some(info) = self.registrationtoken_info.get(&keys[i]) {
                out.push((keys[i].first.clone(), info.duplicate()));
            }
            i = i + 1;
        }
        out
    }

    fn remove_expired(&mut self, now: u128)
        ensures
            final(self)@ == cleaned(old(self)@, now),
    {
        let keys = self.registrationtoken_info.keys(None, None);
        let ghost start = self@;
        let ghost views = key_views(keys@);
        proof {
            let wanted = |k: KeyView| start.contains_key(k);
            assert(lists(views, wanted));
            assert(all_tokens(views, start));
        }
        let mut i: usize = 0;
        while i < keys.len()
            invariant
                i <= keys@.len(),
                views == key_views(keys@),
                all_tokens(views, start),
                forall|k: KeyView| #[trigger]
                    self@.contains_key(k) <==> start.contains_key(k) && !(views.take(
                        i as int,
                    ).contains(k) && !start[k].valid(now)),
                forall|k: KeyView| #[trigger] self@.contains_key(k) ==> self@[k] == start[k],
            decreases keys@.len() - i,
        {
            let ghost before = self@;
            proof {
                assert(views[i as int] == keys@[i as int]@);
                assert(views.contains(views[i as int]));
                assert(views.take(i + 1) =~= views.take(i as int).push(views[i as int]));
                assert forall|k: KeyView|
                    views.take(i + 1).contains(k) == (views.take(i as int).contains(k) || k
                        == views[i as int]) by {
                    lemma_push_contains(views.take(i as int), views[i as int], k);
                }
            }
            let expired = match self.registrationtoken_info.get(&keys[i]) {
                Some(info) => !info.is_valid(now),
                None => false,
            };
            if expired {
                self.registrationtoken_info.remove(&keys[i]);
            }
            proof {
                let removed = views[i as int];
                assert forall|k: KeyView| #[trigger]
                    self@.contains_key(k) == (before.contains_key(k) && !(expired && k
                        == removed)) && (self@.contains_key(k) ==> self@[k] == before[k]) by {}
                assert forall|k: KeyView| #[trigger] self@.contains_key(k) implies self@[k]
                    == start[k] by {
                    assert(before.contains_key(k));
                }
                assert(before.contains_key(removed) ==> before[removed] == start[removed]);
            }
            i = i + 1;
        }
        proof {
            assert(views.take(i as int) =~= views);
            assert(self@ =~= cleaned(start, now));
        }
    }
}

/// After the tokens have been cleaned every token left is valid, no valid token is lost, and
/// cleaning them again changes nothing.
pub proof fn law_cleaned_tokens_are_valid(
    tokens: Map<KeyView, TokenInfoView>,
    now: u128,
    key: KeyView,
)
    ensures
        cleaned(tokens, now).contains_key(key) <==> tokens.contains_key(key) && tokens[key].valid(
            now,
        ),
        cleaned(tokens, now).contains_key(key) ==> cleaned(tokens, now)[key] == tokens[key],
        cleaned(cleaned(tokens, now), now) == cleaned(tokens, now),
{
    assert(cleaned(cleaned(tokens, now), now) =~= cleaned(tokens, now));
}

/// A token never becomes valid again by waiting or by being used.
pub proof fn law_expired_stays_expired(info: TokenInfoView, now: u128, later: u128, uses: u64)
    requires
        !info.valid(now),
        now <= later,
        info.uses <= uses,
    ensures
        !(TokenInfoView { uses, ..info }).valid(later),
{
}

/// A token that was saved is found with its metadata, one that was revoked is not, and no
/// other token changes.
pub proof fn law_saved_token_is_found(
    tokens: Map<KeyView, TokenInfoView>,
    token: Seq<char>,
    info: TokenInfoView,
    other: Seq<char>,
)
    ensures
        ({
            let saved = tokens.insert(key1(token), info);
            let revoked = saved.remove(key1(token));
            &&& saved.contains_key(key1(token)) && saved[key1(token)] == info
            &&& !revoked.contains_key(key1(token))
            &&& other != token ==> revoked.contains_key(key1(other)) == tokens.contains_key(
                key1(other),
            ) && revoked[key1(other)] == tokens[key1(other)]
        }),
{
    assert(key1(other).first == other && key1(token).first == token);
}

/// A token without a limit is always valid, one with a number of uses while it was used fewer
/// times, and one with a time up to and at that time. Each use brings the first kind nearer to
/// its end.
pub proof fn law_valid_tokens(info: TokenInfoView, now: u128)
    ensures
        info.expires is None ==> info.valid(now),
        info.expires matches Some(TokenExpires::AfterUses(most)) ==> (info.valid(now) <==> info.uses
            < most),
        info.expires matches Some(TokenExpires::AfterTime(at)) ==> (info.valid(now) <==> now <= at),
{
}

/// How a token's end is told: by its uses, or by how long it still has or when it ended.
pub proof fn law_expiry_in_words(
    expires: TokenExpires,
    now: u128,
    formatted: Seq<char>,
    remaining: Seq<char>,
)
    ensures
        ({
            let words = expires.words(now, formatted, remaining);
            &&& expires matches TokenExpires::AfterUses(most) ==> words == "Expires after "@
                + decimal(most as nat) + " uses"@
            &&& expires matches TokenExpires::AfterTime(at) ==> {
                &&& now <= at ==> words == "Expires in "@ + remaining + " ("@ + formatted + ")"@
                &&& at < now ==> words == "Expired at "@ + formatted
            }
        }),
{
}

/// The tokens that are listed are all of them, each with what is kept of it.
pub proof fn law_listed_tokens(
    keys: Seq<KeyView>,
    tokens: Map<KeyView, TokenInfoView>,
    key: KeyView,
    entry: (String, DatabaseTokenInfo),
)
    ensures
        all_tokens(keys, tokens) ==> (keys.contains(key) <==> tokens.contains_key(key)),
        listed_as(entry, key, tokens[key]) <==> entry.0@ == key.first && entry.1@ == tokens[key],
{
    if all_tokens(keys, tokens) {
        let wanted = |k: KeyView| tokens.contains_key(k);
        assert(wanted(key) <==> keys.contains(key));
    }
}

/// What is told of a registration token is what is kept of it.
pub proof fn law_told_of_database_token_info(it: DatabaseTokenInfo)
    ensures
        it@.creator == it.creator@,
        it@.uses == it.uses,
        it@.expires == it.expires,
{
}

} // verus!
