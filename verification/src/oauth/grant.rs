//! What clients ask for and get.

use crate::oauth::client_metadata::ResponseType;
use crate::oauth::pair_views;
use crate::order::{
    lemma_str_irreflexive, lemma_str_total, lemma_str_transitive, rank_str, same_str, str_before,
    Rank,
};
use crate::text::{glue, join, joined, lemma_split_joined, split, split_at_char, texts};
use crate::uri::Uri;
use vstd::prelude::*;

verus! {

/// A request for an authorization code.
#[derive(Debug)]
pub struct AuthorizationCodeQuery {
    pub response_type: ResponseType,
    pub client_id: String,
    pub redirect_uri: Uri,
    pub scope: RawScopes,
    pub state: String,
    pub response_mode: ResponseMode,
    pub code_challenge: String,
    pub code_challenge_method: CodeChallengeMethod,
}

impl AuthorizationCodeQuery {
    /// The named values of the request.
    pub open spec fn pairs(self) -> Seq<(Seq<char>, Seq<char>)> {
        seq![
            ("response_type"@, "code"@),
            ("client_id"@, self.client_id@),
            ("redirect_uri"@, self.redirect_uri@.text),
            ("scope"@, self.scope.0@),
            ("state"@, self.state@),
            (
                "response_mode"@,
                match self.response_mode {
                    ResponseMode::Query => "query"@,
                    ResponseMode::Fragment => "fragment"@,
                },
            ),
            ("code_challenge"@, self.code_challenge@),
            ("code_challenge_method"@, "S256"@),
        ]
    }

    /// The named values of the request.
    pub fn to_pairs(&self) -> (r: Vec<(String, String)>)
        ensures
            pair_views(r@) == self.pairs(),
    {
        let mode = match self.response_mode {
            ResponseMode::Query => "query",
            ResponseMode::Fragment => "fragment",
        };
        let mut pairs: Vec<(String, String)> = Vec::new();
        pairs.push(("response_type".to_owned(), "code".to_owned()));
        pairs.push(("client_id".to_owned(), self.client_id.clone()));
        pairs.push(("redirect_uri".to_owned(), self.redirect_uri.as_str().to_owned()));
        pairs.push(("scope".to_owned(), self.scope.0.clone()));
        pairs.push(("state".to_owned(), self.state.clone()));
        pairs.push(("response_mode".to_owned(), mode.to_owned()));
        pairs.push(("code_challenge".to_owned(), self.code_challenge.clone()));
        pairs.push(("code_challenge_method".to_owned(), "S256".to_owned()));
        proof {
            assert(pair_views(pairs@) =~= self.pairs());
        }
        pairs
    }

    pub fn duplicate(&self) -> (r: AuthorizationCodeQuery)
        ensures
            r == *self,
    {
        AuthorizationCodeQuery {
            response_type: self.response_type,
            client_id: self.client_id.clone(),
            redirect_uri: self.redirect_uri.duplicate(),
            scope: RawScopes(self.scope.0.clone()),
            state: self.state.clone(),
            response_mode: self.response_mode,
            code_challenge: self.code_challenge.clone(),
            code_challenge_method: self.code_challenge_method,
        }
    }
}

#[derive(Clone, Copy, Debug, PartialEq, Eq, Structural)]
pub enum ResponseMode {
    Query,
    Fragment,
}

impl Default for ResponseMode {
    fn default() -> (r: Self)
        ensures
            r == ResponseMode::Query,
    {
        ResponseMode::Query
    }
}

#[derive(Clone, Copy, Debug, PartialEq, Eq, Structural)]
pub enum CodeChallengeMethod {
    S256,
}

/// What a client may do.
#[derive(Debug)]
pub enum Scope {
    Device(String),
    ClientApi,
}

/// The name of a scope.
pub open spec fn urn(scope: Scope) -> Seq<char> {
    match scope {
        Scope::ClientApi => "urn:matrix:client:api:*"@,
        Scope::Device(device_id) => device_urn(device_id@),
    }
}

pub open spec fn device_urn(device_id: Seq<char>) -> Seq<char> {
    "urn:matrix:client:device:"@ + device_id
}

impl Scope {
    /// Two scopes are of the same kind.
    pub open spec fn same_kind(self, other: Scope) -> bool {
        (self is Device) == (other is Device)
    }

    /// Whether two scopes are of the same kind.
    pub fn eq_kind(&self, other: &Scope) -> (r: bool)
        ensures
            r == self.same_kind(*other),
    {
        matches!(self, Scope::Device(_)) == matches!(other, Scope::Device(_))
    }

    /// The name of the scope.
    pub fn to_urn(&self) -> (r: String)
        ensures
            r@ == urn(*self),
    {
        match self {
            Scope::ClientApi => "urn:matrix:client:api:*".to_owned(),
            Scope::Device(device_id) => glue("urn:matrix:client:device:", device_id.as_str()),
        }
    }
}

/// A set of scopes. Its devices are kept in order, none twice.
#[derive(Debug)]
pub struct Scopes {
    pub devices: Vec<String>,
    pub client_api: bool,
}

/// The mathematical value of [`Scopes`].
#[verifier::ext_equal]
pub struct ScopesView {
    pub devices: Seq<Seq<char>>,
    pub client_api: bool,
}

impl View for Scopes {
    type V = ScopesView;

    open spec fn view(&self) -> ScopesView {
        ScopesView { devices: texts(self.devices@), client_api: self.client_api }
    }
}

pub open spec fn ordered(list: Seq<Seq<char>>) -> bool {
    forall|i: int, j: int|
        0 <= i < j < list.len() ==> str_before(#[trigger] list[i], #[trigger] list[j])
}

/// The place of `item` in an ordered list: how many come before it.
pub open spec fn place_of(list: Seq<Seq<char>>, item: Seq<char>) -> int
    decreases list.len(),
{
    if list.len() == 0 {
        0
    } else if str_before(list.last(), item) {
        list.len() as int
    } else {
        place_of(list.drop_last(), item)
    }
}

/// The list with `item` at its place, unless it holds it.
pub open spec fn inserted(list: Seq<Seq<char>>, item: Seq<char>) -> Seq<Seq<char>> {
    if list.contains(item) {
        list
    } else {
        list.insert(place_of(list, item), item)
    }
}

proof fn lemma_place_of(list: Seq<Seq<char>>, item: Seq<char>, at: int)
    requires
        ordered(list),
        0 <= at <= list.len(),
        at > 0 ==> str_before(list[at - 1], item),
        at < list.len() ==> str_before(item, list[at]),
    ensures
        place_of(list, item) == at,
        !list.contains(item),
    decreases list.len(),
{
    assert forall|i: int| 0 <= i < list.len() implies list[i] != item by {
        lemma_str_irreflexive(item);
        if i < at - 1 {
            lemma_str_transitive(list[i], list[at - 1], item);
        }
        if i > at {
            lemma_str_transitive(item, list[at], list[i]);
        }
    }
    if list.len() > 0 {
        let shorter = list.drop_last();
        if at < list.len() {
            if at < list.len() - 1 {
                lemma_str_transitive(item, list[at], list.last());
            }
            if str_before(list.last(), item) {
                lemma_str_transitive(item, list.last(), item);
                lemma_str_irreflexive(item);
            }
            assert forall|i: int, j: int| 0 <= i < j < shorter.len() implies str_before(
                #[trigger] shorter[i],
                #[trigger] shorter[j],
            ) by {
                assert(str_before(list[i], list[j]));
            }
            lemma_place_of(shorter, item, at);
        }
    }
}

/// Putting an item in its place keeps an ordered list ordered, and adds just the item.
pub proof fn lemma_inserted(list: Seq<Seq<char>>, item: Seq<char>, other: Seq<char>)
    requires
        ordered(list),
    ensures
        ordered(inserted(list, item)),
        inserted(list, item).contains(other) <==> list.contains(other) || other == item,
{
    if !list.contains(item) {
        lemma_place_fits(list, item);
        let at = place_of(list, item);
        let after = list.insert(at, item);
        assert(after[at] == item);
        assert forall|i: int, j: int| 0 <= i < j < after.len() implies str_before(
            #[trigger] after[i],
            #[trigger] after[j],
        ) by {
            let a = if i < at {
                i
            } else {
                i - 1
            };
            let b = if j < at {
                j
            } else {
                j - 1
            };
            if i != at && j != at {
                assert(str_before(list[a], list[b]));
            } else if i == at {
                if b > at {
                    lemma_str_transitive(item, list[at], list[b]);
                }
            } else {
                if i < at - 1 {
                    lemma_str_transitive(list[i], list[at - 1], item);
                }
            }
        }
        if list.contains(other) {
            let i = choose|i: int| 0 <= i < list.len() && list[i] == other;
            assert(after[if i < at {
                i
            } else {
                i + 1
            }] == other);
        }
        if after.contains(other) && other != item {
            let i = choose|i: int| 0 <= i < after.len() && after[i] == other;
            assert(list[if i < at {
                i
            } else {
                i - 1
            }] == other);
        }
    }
}

proof fn lemma_place_fits(list: Seq<Seq<char>>, item: Seq<char>)
    requires
        ordered(list),
        !list.contains(item),
    ensures
        ({
            let at = place_of(list, item);
            &&& 0 <= at <= list.len()
            &&& at > 0 ==> str_before(list[at - 1], item)
            &&& at < list.len() ==> str_before(item, list[at])
        }),
    decreases list.len(),
{
    if list.len() > 0 {
        assert(list[list.len() - 1] == list.last());
        if !str_before(list.last(), item) {
            let shorter = list.drop_last();
            assert forall|i: int, j: int| 0 <= i < j < shorter.len() implies str_before(
                #[trigger] shorter[i],
                #[trigger] shorter[j],
            ) by {
                assert(str_before(list[i], list[j]));
            }
            assert forall|i: int| 0 <= i < shorter.len() implies shorter[i] != item by {
                assert(list[i] == shorter[i]);
                assert(list.contains(list[i]));
            }
            lemma_place_fits(shorter, item);
            lemma_str_total(list.last(), item);
        }
    }
}

impl Scopes {
    pub fn new() -> (r: Scopes)
        ensures
            r@ == (ScopesView { devices: Seq::empty(), client_api: false }),
    {
        let r = Scopes { devices: Vec::new(), client_api: false };
        assert(texts(r.devices@) =~= Seq::<Seq<char>>::empty());
        r
    }

    /// The scopes, each once, and the devices in order.
    pub open spec fn well_formed(self) -> bool {
        ordered(self@.devices)
    }

    /// Adds a device. Tells whether it was new.
    pub fn add_device(&mut self, device_id: &str) -> (r: bool)
        requires
            old(self).well_formed(),
        ensures
            final(self).well_formed(),
            r == !old(self)@.devices.contains(device_id@),
            final(self)@ == (ScopesView {
                devices: inserted(old(self)@.devices, device_id@),
                ..old(self)@
            }),
    {
        let ghost list = texts(self.devices@);
        let mut i: usize = 0;
        while i < self.devices.len()
            invariant
                *self == *old(self),
                i <= self.devices@.len(),
                list == texts(self.devices@),
                ordered(list),
                i > 0 ==> str_before(list[i - 1], device_id@),
            ensures
                *self == *old(self),
                i <= self.devices@.len(),
                i > 0 ==> str_before(list[i - 1], device_id@),
                i < self.devices@.len() ==> str_before(device_id@, list[i as int]),
            decreases self.devices@.len() - i,
        {
            match rank_str(self.devices[i].as_str(), device_id) {
                Rank::Before => {},
                Rank::Same => {
                    assert(list[i as int] == device_id@);
                    return false;
                },
                Rank::After => {
                    break;
                },
            }
            i = i + 1;
        }
        proof {
            lemma_place_of(list, device_id@, i as int);
            lemma_inserted(list, device_id@, device_id@);
        }
        let owned = device_id.to_owned();
        self.devices.insert(i, owned);
        proof {
            assert(texts(self.devices@) =~= list.insert(i as int, device_id@));
        }
        true
    }

    pub fn duplicate(&self) -> (r: Scopes)
        ensures
            r@ == self@,
            r.well_formed() == self.well_formed(),
    {
        let mut devices: Vec<String> = Vec::new();
        let mut i: usize = 0;
        while i < self.devices.len()
            invariant
                i <= self.devices@.len(),
                devices@ == self.devices@.take(i as int),
            decreases self.devices@.len() - i,
        {
            devices.push(self.devices[i].clone());
            proof {
                assert(self.devices@.take(i + 1) =~= self.devices@.take(i as int).push(
                    self.devices@[i as int],
                ));
            }
            i = i + 1;
        }
        proof {
            assert(devices@ =~= self.devices@);
        }
        Scopes { devices, client_api: self.client_api }
    }

    /// The names of the scopes, devices first.
    pub fn to_text(&self) -> (r: String)
        ensures
            r@ == scope_text(self@),
    {
        let mut names: Vec<String> = Vec::new();
        let mut i: usize = 0;
        proof {
            assert(texts(names@) =~= device_urns(self@.devices.take(0)));
        }
        while i < self.devices.len()
            invariant
                i <= self.devices@.len(),
                texts(names@) == device_urns(self@.devices.take(i as int)),
            decreases self.devices@.len() - i,
        {
            let ghost before = texts(names@);
            let name = glue("urn:matrix:client:device:", self.devices[i].as_str());
            names.push(name);
            proof {
                assert(texts(names@) =~= before.push(device_urn(self.devices@[i as int]@)));
                assert(self@.devices.take(i + 1) =~= self@.devices.take(i as int).push(
                    self.devices@[i as int]@,
                ));
                assert(device_urns(self@.devices.take(i + 1)) =~= device_urns(
                    self@.devices.take(i as int),
                ).push(device_urn(self.devices@[i as int]@)));
            }
            i = i + 1;
        }
        proof {
            assert(self@.devices.take(i as int) =~= self@.devices);
        }
        let ghost before = texts(names@);
        if self.client_api {
            let name = "urn:matrix:client:api:*".to_owned();
            names.push(name);
            proof {
                assert(texts(names@) =~= before.push("urn:matrix:client:api:*"@));
            }
        }
        join(&names, " ")
    }
}

pub open spec fn device_urns(devices: Seq<Seq<char>>) -> Seq<Seq<char>> {
    devices.map_values(|d: Seq<char>| device_urn(d))
}

/// The names of the scopes, devices first, with spaces between them.
pub open spec fn scope_text(scopes: ScopesView) -> Seq<char> {
    joined(scope_names(scopes), " "@)
}

/// A character that may stand in the ID of a device that a scope names.
pub open spec fn is_device_id_char(c: char) -> bool {
    'a' <= c <= 'z' || 'A' <= c <= 'Z' || '0' <= c <= '9' || c == '-' || c == '.' || c == '_'
        || c == '~'
}

/// The ID of a device that a scope can name.
pub open spec fn is_device_id(id: Seq<char>) -> bool {
    id.len() >= 5 && forall|i: int| 0 <= i < id.len() ==> is_device_id_char(#[trigger] id[i])
}

proof fn lemma_inserted_keeps(list: Seq<Seq<char>>, id: Seq<char>)
    requires
        ordered(list),
        is_device_id(id),
        forall|i: int| 0 <= i < list.len() ==> is_device_id(#[trigger] list[i]),
    ensures
        forall|i: int|
            0 <= i < inserted(list, id).len() ==> is_device_id(#[trigger] inserted(list, id)[i]),
{
    let after = inserted(list, id);
    assert forall|i: int| 0 <= i < after.len() implies is_device_id(#[trigger] after[i]) by {
        lemma_inserted(list, id, after[i]);
        assert(after.contains(after[i]));
    }
}

/// What `regex::Regex::is_match` finds, for a pattern that is one.
pub uninterp spec fn regex_matches(pattern: Seq<char>, text: Seq<char>) -> bool;

/// `regex::Regex::new` and `is_match`: whether the pattern occurs in the text; not, where it
/// is no pattern. That depends on the two alone. The pattern of the scope for the client API
/// occurs in the name of that scope, and only in texts with a `*`.
#[verifier::external_body]
pub(crate) fn is_match(pattern: &str, text: &str) -> (r: bool)
    ensures
        r == regex_matches(pattern@, text@),
        pattern@ == CLIENT_API_PATTERN@ && text@ == "urn:matrix:client:api:*"@ ==> r,
        pattern@ == CLIENT_API_PATTERN@ && r ==> text@.contains('*'),
{
    match regex::Regex::new(pattern) {
        Ok(regex) => regex.is_match(text),
        Err(_) => false,
    }
}

/// What the second group of `regex::Regex::captures` holds, for a pattern that is one.
pub uninterp spec fn regex_captured(pattern: Seq<char>, text: Seq<char>) -> Option<Seq<char>>;

/// `regex::Regex::new` and `captures`: what the second group holds where the pattern first
/// occurs in the text; nothing, where it does not or is no pattern. That depends on the
/// two alone. The second group of the pattern of the scope for a device holds a device ID, and
/// in the name of the scope for a device it holds the ID of that device.
#[verifier::external_body]
fn captured(pattern: &str, text: &str) -> (r: Option<String>)
    ensures
        match r {
            Some(group) => {
                &&& regex_captured(pattern@, text@) == Some(group@)
                &&& pattern@ == DEVICE_PATTERN@ ==> is_device_id(group@)
                &&& pattern@ == DEVICE_PATTERN@ ==> forall|d: Seq<char>|
                    is_device_id(d) && text@ == #[trigger] device_urn(d) ==> group@ == d
            },
            None => {
                &&& regex_captured(pattern@, text@) is None
                &&& pattern@ == DEVICE_PATTERN@ ==> forall|d: Seq<char>|
                    is_device_id(d) ==> text@ != #[trigger] device_urn(d)
            },
        },
{
    let regex = regex::Regex::new(pattern).ok()?;
    let captures = regex.captures(text)?;
    captures.get(2).map(|group| group.as_str().to_owned())
}

/// The pattern of the scope for the client API.
pub const CLIENT_API_PATTERN: &'static str =
    "urn:matrix:(client|org.matrix.msc2967.client):api:\\*";

/// The pattern of the scope for a device.
pub const DEVICE_PATTERN: &'static str =
    "urn:matrix:(client|org.matrix.msc2967.client):device:([a-zA-Z0-9-._~]{5,})";

/// What adding one scope gives. `client_api` and `device` are what the patterns find.
pub open spec fn with_scope(
    scopes: ScopesView,
    token: Seq<char>,
    client_api: bool,
    device: Option<Seq<char>>,
) -> Result<ScopesView, Seq<char>> {
    if client_api {
        if scopes.client_api {
            Err("Scope was specified more than once"@)
        } else {
            Ok(ScopesView { client_api: true, ..scopes })
        }
    } else {
        match device {
            Some(id) => if scopes.devices.contains(id) {
                Err("Scope was specified more than once"@)
            } else {
                Ok(ScopesView { devices: inserted(scopes.devices, id), ..scopes })
            },
            None => if token == "openid"@ {
                Ok(scopes)
            } else {
                Err("Invalid scope: "@ + token)
            },
        }
    }
}

/// The scopes that the words name, or what is wrong with the first that is wrong.
pub open spec fn scopes_of(tokens: Seq<Seq<char>>) -> Result<ScopesView, Seq<char>>
    decreases tokens.len(),
{
    if tokens.len() == 0 {
        Ok(ScopesView { devices: Seq::empty(), client_api: false })
    } else {
        match scopes_of(tokens.drop_last()) {
            Err(e) => Err(e),
            Ok(scopes) => with_scope(
                scopes,
                tokens.last(),
                regex_matches(CLIENT_API_PATTERN@, tokens.last()),
                regex_captured(DEVICE_PATTERN@, tokens.last()),
            ),
        }
    }
}

proof fn lemma_scopes_fail(tokens: Seq<Seq<char>>, n: int)
    requires
        0 <= n <= tokens.len(),
        scopes_of(tokens.take(n)) is Err,
    ensures
        scopes_of(tokens) == scopes_of(tokens.take(n)),
    decreases tokens.len(),
{
    if n == tokens.len() {
        assert(tokens.take(n) =~= tokens);
    } else {
        assert(tokens.drop_last().take(n) =~= tokens.take(n));
        lemma_scopes_fail(tokens.drop_last(), n);
    }
}

/// The names of the scopes.
pub open spec fn scope_names(scopes: ScopesView) -> Seq<Seq<char>> {
    if scopes.client_api {
        device_urns(scopes.devices).push("urn:matrix:client:api:*"@)
    } else {
        device_urns(scopes.devices)
    }
}

/// The scopes can be written down: there are some, and their devices are in order and have IDs
/// that a scope can name.
pub open spec fn can_be_named(scopes: ScopesView) -> bool {
    &&& scopes.devices.len() > 0 || scopes.client_api
    &&& ordered(scopes.devices)
    &&& forall|i: int| 0 <= i < scopes.devices.len() ==> is_device_id(#[trigger] scopes.devices[i])
}

/// What the patterns find in a word.
spec fn found(word: Seq<char>) -> bool {
    &&& word == "urn:matrix:client:api:*"@ ==> regex_matches(CLIENT_API_PATTERN@, word)
    &&& regex_matches(CLIENT_API_PATTERN@, word) ==> word.contains('*')
    &&& forall|d: Seq<char>|
        is_device_id(d) && word == #[trigger] device_urn(d) ==> regex_captured(
            DEVICE_PATTERN@,
            word,
        ) == Some(d)
}

proof fn lemma_device_urn(d: Seq<char>)
    requires
        is_device_id(d),
    ensures
        !device_urn(d).contains('*'),
        !device_urn(d).contains(' '),
{
    reveal_strlit("urn:matrix:client:device:");
    let start = "urn:matrix:client:device:"@;
    assert forall|i: int| 0 <= i < device_urn(d).len() implies device_urn(d)[i] != '*'
        && device_urn(d)[i] != ' ' by {
        if i < start.len() {
            assert(device_urn(d)[i] == start[i]);
        } else {
            assert(device_urn(d)[i] == d[i - start.len()]);
        }
    }
}

/// The scopes that the first words of the names of scopes name.
proof fn lemma_names_are_read(scopes: ScopesView, n: int)
    requires
        can_be_named(scopes),
        0 <= n <= scope_names(scopes).len(),
        forall|j: int| 0 <= j < n ==> found(#[trigger] scope_names(scopes)[j]),
    ensures
        scopes_of(scope_names(scopes).take(n)) == Ok::<ScopesView, Seq<char>>(
            ScopesView {
                devices: scopes.devices.take(
                    if n <= scopes.devices.len() {
                        n
                    } else {
                        scopes.devices.len() as int
                    },
                ),
                client_api: n > scopes.devices.len(),
            },
        ),
    decreases n,
{
    let names = scope_names(scopes);
    let devices = scopes.devices;
    if n == 0 {
        assert(devices.take(0) =~= Seq::<Seq<char>>::empty());
    } else {
        lemma_names_are_read(scopes, n - 1);
        assert(names.take(n).drop_last() =~= names.take(n - 1));
        assert(names.take(n).last() == names[n - 1]);
        assert(found(names[n - 1]));
        if n <= devices.len() {
            let d = devices[n - 1];
            let before = devices.take(n - 1);
            assert(names[n - 1] == device_urn(d));
            assert(is_device_id(d));
            lemma_device_urn(d);
            assert(ordered(before)) by {
                assert forall|i: int, j: int| 0 <= i < j < before.len() implies str_before(
                    #[trigger] before[i],
                    #[trigger] before[j],
                ) by {
                    assert(str_before(devices[i], devices[j]));
                }
            }
            lemma_place_of(before, d, n - 1);
            assert(before.insert(n - 1, d) =~= devices.take(n));
        } else {
            assert(names[n - 1] == "urn:matrix:client:api:*"@);
        }
    }
}

proof fn lemma_scope_text_splits(scopes: ScopesView)
    requires
        can_be_named(scopes),
    ensures
        split(scope_text(scopes), ' ') == scope_names(scopes),
{
    reveal_strlit(" ");
    reveal_strlit("urn:matrix:client:api:*");
    let names = scope_names(scopes);
    assert(" "@ =~= seq![' ']);
    assert forall|i: int| 0 <= i < names.len() implies !(#[trigger] names[i]).contains(' ') by {
        if i < scopes.devices.len() {
            assert(is_device_id(scopes.devices[i]));
            lemma_device_urn(scopes.devices[i]);
            assert(names[i] == device_urn(scopes.devices[i]));
        }
    }
    lemma_split_joined(names, ' ');
}

/// Adds the scope that a word names. `client_api` and `device` are what the patterns find
/// in it.
pub fn add_scope(
    scopes: &mut Scopes,
    token: &str,
    client_api: bool,
    device: Option<String>,
) -> (r: Result<(), String>)
    requires
        old(scopes).well_formed(),
    ensures
        final(scopes).well_formed(),
        match with_scope(
            old(scopes)@,
            token@,
            client_api,
            match device {
                Some(d) => Some(d@),
                None => None,
            },
        ) {
            Ok(view) => r is Ok && final(scopes)@ == view,
            Err(message) => (r matches Err(m) && m@ == message) && final(scopes)@ == old(scopes)@,
        },
{
    if client_api {
        if scopes.client_api {
            return Err("Scope was specified more than once".to_owned());
        }
        scopes.client_api = true;
        return Ok(());
    }
    match device {
        Some(id) => {
            if scopes.add_device(id.as_str()) {
                Ok(())
            } else {
                Err("Scope was specified more than once".to_owned())
            }
        },
        None => {
            if same_str(token, "openid") {
                Ok(())
            } else {
                Err(glue("Invalid scope: ", token))
            }
        },
    }
}

/// The scopes that a client asks for, as it wrote them.
#[derive(Debug)]
pub struct RawScopes(pub String);

impl RawScopes {
    /// Reads the scopes, which stand with spaces between them. The names of scopes are read as
    /// those scopes, and what has been read can be named again.
    pub fn to_scopes(&self) -> (r: Result<Scopes, String>)
        ensures
            match scopes_of(split(self.0@, ' ')) {
                Ok(view) => r matches Ok(scopes) && scopes@ == view && scopes.well_formed(),
                Err(message) => r matches Err(m) && m@ == message,
            },
            forall|view: ScopesView|
                can_be_named(view) && self.0@ == #[trigger] scope_text(view) ==> (r matches Ok(
                    scopes,
                ) && scopes@ == view),
            r matches Ok(scopes) ==> forall|i: int|
                0 <= i < scopes@.devices.len() ==> is_device_id(#[trigger] scopes@.devices[i]),
    {
        let tokens = split_at_char(self.0.as_str(), ' ');
        let ghost words = texts(tokens@);
        let mut scopes = Scopes::new();
        let mut i: usize = 0;
        while i < tokens.len()
            invariant
                i <= tokens@.len(),
                words == texts(tokens@),
                words == split(self.0@, ' '),
                scopes.well_formed(),
                scopes_of(words.take(i as int)) == Ok::<ScopesView, Seq<char>>(scopes@),
                forall|j: int| 0 <= j < i ==> found(#[trigger] words[j]),
                forall|j: int|
                    0 <= j < scopes@.devices.len() ==> is_device_id(#[trigger] scopes@.devices[j]),
            decreases tokens@.len() - i,
        {
            let ghost before = scopes@;
            let token = tokens[i].as_str();
            proof {
                assert(words.take(i + 1).drop_last() =~= words.take(i as int));
                assert(words.take(i + 1).last() == token@);
            }
            let client_api = is_match(CLIENT_API_PATTERN, token);
            let device = captured(DEVICE_PATTERN, token);
            let ghost of_device = device;
            assert(found(words[i as int]));
            match add_scope(&mut scopes, token, client_api, device) {
                Ok(_) => {},
                Err(message) => {
                    proof {
                        lemma_scopes_fail(words, i + 1);
                        assert forall|view: ScopesView| can_be_named(view) && self.0@
                            == #[trigger] scope_text(view) implies false by {
                            lemma_scope_text_splits(view);
                            lemma_names_are_read(view, i + 1);
                        }
                    }
                    return Err(message);
                },
            }
            proof {
                if let Some(id) = of_device {
                    lemma_inserted_keeps(before.devices, id@);
                }
            }
            i = i + 1;
        }
        proof {
            assert(words.take(i as int) =~= words);
            assert forall|view: ScopesView| can_be_named(view) && self.0@ == #[trigger] scope_text(
                view,
            ) implies scopes@ == view by {
                lemma_scope_text_splits(view);
                lemma_names_are_read(view, i as int);
                assert(view.devices.take(view.devices.len() as int) =~= view.devices);
            }
        }
        Ok(scopes)
    }
}

/// A client's answer that carries an authorization code.
#[derive(Debug)]
pub struct AuthorizationCodeResponse {
    pub state: String,
    pub code: String,
}

/// A request for tokens.
#[derive(Debug)]
pub enum TokenRequest {
    AuthorizationCode {
        code: String,
        redirect_uri: Uri,
        client_id: String,
        code_verifier: String,
    },
    RefreshToken { client_id: String, refresh_token: String },
}

impl TokenRequest {
    pub open spec fn client(self) -> Seq<char> {
        match self {
            TokenRequest::AuthorizationCode { client_id, .. } => client_id@,
            TokenRequest::RefreshToken { client_id, .. } => client_id@,
        }
    }

    pub fn client_id(&self) -> (r: &str)
        ensures
            r@ == self.client(),
    {
        match self {
            TokenRequest::AuthorizationCode { client_id, .. } => client_id.as_str(),
            TokenRequest::RefreshToken { client_id, .. } => client_id.as_str(),
        }
    }
}

/// An answer that carries tokens.
#[derive(Debug)]
pub struct TokenResponse {
    pub access_token: String,
    pub token_type: TokenType,
    pub expires_in: u64,
    pub refresh_token: String,
    pub scope: String,
}

#[derive(Clone, Copy, Debug, PartialEq, Eq, Structural)]
pub enum TokenType {
    Bearer,
}

/// One more scope: the client API once, each device once, and OpenID, which adds nothing.
/// Whatever was there stays, and any other scope is an error that names it.
pub proof fn law_one_more_scope(
    scopes: ScopesView,
    token: Seq<char>,
    client_api: bool,
    device: Option<Seq<char>>,
    other: Seq<char>,
)
    requires
        ordered(scopes.devices),
    ensures
        ({
            let after = with_scope(scopes, token, client_api, device);
            let twice = "Scope was specified more than once"@;
            &&& client_api ==> {
                &&& scopes.client_api ==> after == Err::<ScopesView, Seq<char>>(twice)
                &&& !scopes.client_api ==> after == Ok::<ScopesView, Seq<char>>(
                    ScopesView { devices: scopes.devices, client_api: true },
                )
            }
            &&& !client_api ==> (device matches Some(id) ==> {
                &&& scopes.devices.contains(id) <==> after == Err::<ScopesView, Seq<char>>(twice)
                &&& !scopes.devices.contains(id) ==> (after matches Ok(more) && {
                    &&& more.client_api == scopes.client_api
                    &&& ordered(more.devices)
                    &&& more.devices.contains(other) <==> scopes.devices.contains(other) || other
                        == id
                })
            })
            &&& !client_api && device is None ==> {
                &&& token == "openid"@ ==> after == Ok::<ScopesView, Seq<char>>(scopes)
                &&& token != "openid"@ ==> after == Err::<ScopesView, Seq<char>>(
                    "Invalid scope: "@ + token,
                )
            }
        }),
{
    if let Some(id) = device {
        lemma_inserted(scopes.devices, id, other);
    }
}

/// Scopes are read one after the other, from none, and the first that is wrong is what is wrong
/// with all of them.
pub proof fn law_scopes_are_read_in_order(tokens: Seq<Seq<char>>, token: Seq<char>)
    ensures
        scopes_of(Seq::empty()) == Ok::<ScopesView, Seq<char>>(
            ScopesView { devices: Seq::empty(), client_api: false },
        ),
        scopes_of(tokens) is Err ==> scopes_of(tokens.push(token)) == scopes_of(tokens),
        scopes_of(tokens) matches Ok(scopes) ==> scopes_of(tokens.push(token)) == with_scope(
            scopes,
            token,
            regex_matches(CLIENT_API_PATTERN@, token),
            regex_captured(DEVICE_PATTERN@, token),
        ),
{
    assert(tokens.push(token).drop_last() =~= tokens);
}

/// The scopes in words: each device's name behind the common beginning, in order, and then the
/// client API, with blanks between them.
pub proof fn law_scope_names(scopes: ScopesView, i: int)
    ensures
        scope_text(scopes) == joined(scope_names(scopes), " "@),
        scope_names(scopes).len() == scopes.devices.len() + (if scopes.client_api {
            1int
        } else {
            0
        }),
        0 <= i < scopes.devices.len() ==> scope_names(scopes)[i] == "urn:matrix:client:device:"@
            + scopes.devices[i],
        scopes.client_api ==> scope_names(scopes).last() == "urn:matrix:client:api:*"@,
{
}

/// A request's client is the one that it names, and scopes are of a kind if both or neither name
/// a device.
pub proof fn law_names_in_requests(request: TokenRequest, a: Scope, b: Scope)
    ensures
        request matches TokenRequest::AuthorizationCode { client_id, .. } ==> request.client()
            == client_id@,
        request matches TokenRequest::RefreshToken { client_id, .. } ==> request.client()
            == client_id@,
        a.same_kind(b) <==> (a is Device && b is Device) || (a is ClientApi && b is ClientApi),
        a matches Scope::Device(id) ==> urn(a) == "urn:matrix:client:device:"@ + id@,
        a is ClientApi ==> urn(a) == "urn:matrix:client:api:*"@,
{
}

/// A query is written out whole: each of its parts stands under its own name.
pub proof fn law_query_in_pairs(query: AuthorizationCodeQuery)
    ensures
        query.pairs().len() == 8,
        query.pairs().contains(("response_type"@, "code"@)),
        query.pairs().contains(("client_id"@, query.client_id@)),
        query.pairs().contains(("redirect_uri"@, query.redirect_uri@.text)),
        query.pairs().contains(("scope"@, query.scope.0@)),
        query.pairs().contains(("state"@, query.state@)),
        query.pairs().contains(("code_challenge"@, query.code_challenge@)),
        query.pairs().contains(("code_challenge_method"@, "S256"@)),
        query.response_mode is Query ==> query.pairs().contains(("response_mode"@, "query"@)),
        query.response_mode is Fragment ==> query.pairs().contains(
            ("response_mode"@, "fragment"@),
        ),
{
    let pairs = query.pairs();
    assert(pairs.contains(pairs[0]) && pairs.contains(pairs[1]) && pairs.contains(pairs[2])
        && pairs.contains(pairs[3]) && pairs.contains(pairs[4]) && pairs.contains(pairs[5])
        && pairs.contains(pairs[6]) && pairs.contains(pairs[7]));
}

/// A device ID has at least five characters, each a letter, a digit, or one of `-`, `.`, `_` and
/// `~`.
pub proof fn law_device_ids(id: Seq<char>, c: char)
    ensures
        is_device_id(id) <==> id.len() >= 5 && forall|i: int|
            0 <= i < id.len() ==> is_device_id_char(#[trigger] id[i]),
        is_device_id_char(c) <==> {
            let code = c as u32;
            ||| 0x61 <= code <= 0x7a
            ||| 0x41 <= code <= 0x5a
            ||| 0x30 <= code <= 0x39
            ||| code == 0x2d || code == 0x2e || code == 0x5f || code == 0x7e
        },
{
}

/// How scopes are told apart: by what they match.
pub proof fn law_scope_patterns()
    ensures
        CLIENT_API_PATTERN@ == "urn:matrix:(client|org.matrix.msc2967.client):api:\\*"@,
        DEVICE_PATTERN@
            == "urn:matrix:(client|org.matrix.msc2967.client):device:([a-zA-Z0-9-._~]{5,})"@,
{
}

/// What is told of scopes is which there are.
pub proof fn law_told_of_scopes(it: Scopes)
    ensures
        it@.devices == texts(it.devices@),
        it@.client_api == it.client_api,
{
}

} // verus!
