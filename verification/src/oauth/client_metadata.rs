//! What a client says of itself when it registers.

use crate::order::same_str;
use crate::text::{begins_with, finishes_with, glue, join, joined, split, split_at_char, texts};
use crate::uri::{Uri, UriView};
use vstd::prelude::*;

verus! {

#[derive(Clone, Copy, Debug, PartialEq, Eq, Structural)]
pub enum ApplicationType {
    Web,
    Native,
}

impl Default for ApplicationType {
    fn default() -> (r: Self)
        ensures
            r == ApplicationType::Web,
    {
        ApplicationType::Web
    }
}

#[derive(Clone, Copy, Debug, PartialEq, Eq, Structural)]
pub enum GrantType {
    AuthorizationCode,
    RefreshToken,
}

#[derive(Clone, Copy, Debug, PartialEq, Eq, Structural)]
pub enum ResponseType {
    Code,
}

impl GrantType {
    /// The place of a grant type among all of them.
    pub open spec fn rank(self) -> int {
        match self {
            GrantType::AuthorizationCode => 0,
            GrantType::RefreshToken => 1,
        }
    }
}

impl ResponseType {
    /// The place of a response type among all of them.
    pub open spec fn rank(self) -> int {
        match self {
            ResponseType::Code => 0,
        }
    }
}

/// What a client says of itself. Its grant types and response types are sets.
#[derive(Debug)]
pub struct ClientMetadata {
    pub application_type: ApplicationType,
    pub client_name: Option<String>,
    pub client_uri: Uri,
    /// In order, none of them twice.
    pub grant_types: Vec<GrantType>,
    pub logo_uri: Option<Uri>,
    pub policy_uri: Option<Uri>,
    pub redirect_uris: Vec<Uri>,
    /// In order, none of them twice.
    pub response_types: Vec<ResponseType>,
    pub token_endpoint_auth_method: Option<String>,
    pub tos_uri: Option<Uri>,
}

impl View for ClientMetadata {
    type V = ClientMetadata;

    open spec fn view(&self) -> ClientMetadata {
        *self
    }
}

/// The domain is the other one, or below it.
pub open spec fn below(subdomain: Seq<char>, domain: Seq<char>) -> bool {
    subdomain == domain || ("."@ + domain).is_suffix_of(subdomain)
}

/// Whether a domain is another one, or below it.
pub fn is_subdomain(subdomain: &str, domain: &str) -> (r: bool)
    ensures
        r == below(subdomain@, domain@),
{
    if same_str(subdomain, domain) {
        return true;
    }
    let suffix = glue(".", domain);
    finishes_with(subdomain, suffix.as_str())
}

/// The hosts that stand for the machine that a client runs on.
pub open spec fn is_localhost(host: Seq<char>) -> bool {
    host == "localhost"@ || host == "127.0.0.1"@ || host == "[::1]"@
}

/// Whether a host stands for the machine that a client runs on.
pub fn acceptable_localhost(host: &str) -> (r: bool)
    ensures
        r == is_localhost(host@),
{
    same_str(host, "localhost") || same_str(host, "127.0.0.1") || same_str(host, "[::1]")
}

/// A domain in reverse-DNS notation.
pub open spec fn reverse_dns(domain: Seq<char>) -> Seq<char> {
    joined(split(domain, '.').reverse(), "."@)
}

/// A domain in reverse-DNS notation.
pub fn rdns(domain: &str) -> (r: String)
    ensures
        r@ == reverse_dns(domain@),
{
    let mut parts = split_at_char(domain, '.');
    let ghost all = texts(parts@);
    let mut reversed: Vec<String> = Vec::new();
    while parts.len() > 0
        invariant
            texts(parts@) == all.take(parts@.len() as int),
            parts@.len() + reversed@.len() == all.len(),
            forall|k: int|
                0 <= k < reversed@.len() ==> #[trigger] reversed@[k]@ == all[all.len() - 1 - k],
        decreases parts@.len(),
    {
        let ghost before = texts(parts@);
        if let Some(part) = parts.pop() {
            reversed.push(part);
            proof {
                assert(texts(parts@) =~= before.drop_last());
                assert(texts(parts@) =~= all.take(parts@.len() as int));
                assert(before[before.len() - 1] == part@);
            }
        }
    }
    proof {
        assert(texts(reversed@) =~= all.reverse());
    }
    join(&reversed, ".")
}

/// What is wrong with a URI that tells more about a client, if anything is.
pub open spec fn metadata_uri_wrong(uri: Option<Uri>, client_domain: Seq<char>) -> Option<
    &'static str,
> {
    match uri {
        None => None,
        Some(uri) => if uri@.scheme != "https"@ {
            Some("All metadata URIs must be HTTPS.")
        } else if uri@.has_credentials() {
            Some("All metadata URIs must not include credentials.")
        } else if uri@.domain matches Some(domain) && below(domain, client_domain) {
            None
        } else {
            Some("All metadata URIs must be subdomains of the client URI.")
        },
    }
}

/// What is wrong with a URI to redirect to, if anything is.
pub open spec fn redirect_uri_wrong(
    uri: UriView,
    application_type: ApplicationType,
    client_domain: Seq<char>,
) -> Option<&'static str> {
    if uri.scheme == "https"@ {
        if uri.has_credentials() {
            Some("HTTPS redirect URIs must not contain credentials.")
        } else {
            None
        }
    } else if application_type is Web {
        Some("A redirect URI's scheme is not valid for this application type.")
    } else if uri.scheme == "http"@ {
        if !(uri.host matches Some(host) && is_localhost(host)) {
            Some("HTTP redirect URIs for native applications must only refer to localhost.")
        } else if uri.port is Some {
            Some(
                "HTTP redirect URIs for native applications do not need to specify a port. All ports will be accepted during authorization.",
            )
        } else {
            None
        }
    } else if !reverse_dns(client_domain).is_prefix_of(uri.scheme) {
        Some(
            "Private-use scheme URIs for native applications must begin with the application's client URI domain in reverse-DNS notation.",
        )
    } else if uri.has_authority {
        Some("Private-use scheme URIs for native applications must not have an authority.")
    } else {
        None
    }
}

/// What is wrong with the first of the URIs to redirect to that is wrong.
pub open spec fn redirect_uris_wrong(
    uris: Seq<Uri>,
    application_type: ApplicationType,
    client_domain: Seq<char>,
) -> Option<&'static str>
    decreases uris.len(),
{
    if uris.len() == 0 {
        None
    } else {
        match redirect_uris_wrong(uris.drop_last(), application_type, client_domain) {
            Some(wrong) => Some(wrong),
            None => redirect_uri_wrong(uris.last()@, application_type, client_domain),
        }
    }
}

/// What is wrong with what a client says of itself, if anything is.
pub open spec fn metadata_wrong(metadata: ClientMetadata) -> Option<&'static str> {
    match metadata.client_uri@.domain {
        None => Some("Client URI must have a domain."),
        Some(domain) => if metadata.client_uri@.scheme != "https"@ {
            Some("Client URI must be HTTPS.")
        } else if metadata.client_uri@.has_credentials() {
            Some("Client URI must not include credentials.")
        } else if metadata_uri_wrong(metadata.logo_uri, domain) is Some {
            metadata_uri_wrong(metadata.logo_uri, domain)
        } else if metadata_uri_wrong(metadata.policy_uri, domain) is Some {
            metadata_uri_wrong(metadata.policy_uri, domain)
        } else if metadata_uri_wrong(metadata.tos_uri, domain) is Some {
            metadata_uri_wrong(metadata.tos_uri, domain)
        } else {
            redirect_uris_wrong(metadata.redirect_uris@, metadata.application_type, domain)
        },
    }
}

fn check_metadata_uri(uri: &Option<Uri>, client_domain: &str) -> (r: Option<&'static str>)
    ensures
        r == metadata_uri_wrong(*uri, client_domain@),
{
    match uri {
        None => None,
        Some(uri) => {
            if !same_str(uri.scheme(), "https") {
                return Some("All metadata URIs must be HTTPS.");
            }
            if uri.has_credentials() {
                return Some("All metadata URIs must not include credentials.");
            }
            let inside = match uri.domain() {
                Some(domain) => is_subdomain(domain, client_domain),
                None => false,
            };
            if inside {
                None
            } else {
                Some("All metadata URIs must be subdomains of the client URI.")
            }
        },
    }
}

fn check_redirect_uri(
    uri: &Uri,
    application_type: ApplicationType,
    client_domain: &str,
) -> (r: Option<&'static str>)
    ensures
        r == redirect_uri_wrong(uri@, application_type, client_domain@),
{
    if same_str(uri.scheme(), "https") {
        return if uri.has_credentials() {
            Some("HTTPS redirect URIs must not contain credentials.")
        } else {
            None
        };
    }
    if application_type == ApplicationType::Web {
        return Some("A redirect URI's scheme is not valid for this application type.");
    }
    if same_str(uri.scheme(), "http") {
        let local = match uri.host() {
            Some(host) => acceptable_localhost(host),
            None => false,
        };
        if !local {
            return Some(
                "HTTP redirect URIs for native applications must only refer to localhost.",
            );
        }
        return if uri.has_port() {
            Some(
                "HTTP redirect URIs for native applications do not need to specify a port. All ports will be accepted during authorization.",
            )
        } else {
            None
        };
    }
    let reversed = rdns(client_domain);
    if !begins_with(uri.scheme(), reversed.as_str()) {
        return Some(
            "Private-use scheme URIs for native applications must begin with the application's client URI domain in reverse-DNS notation.",
        );
    }
    if uri.has_authority() {
        return Some(
            "Private-use scheme URIs for native applications must not have an authority.",
        );
    }
    None
}

proof fn lemma_redirect_wrong(
    uris: Seq<Uri>,
    application_type: ApplicationType,
    client_domain: Seq<char>,
    n: int,
)
    requires
        0 <= n <= uris.len(),
        redirect_uris_wrong(uris.take(n), application_type, client_domain) is Some,
    ensures
        redirect_uris_wrong(uris, application_type, client_domain) == redirect_uris_wrong(
            uris.take(n),
            application_type,
            client_domain,
        ),
    decreases uris.len(),
{
    if n == uris.len() {
        assert(uris.take(n) =~= uris);
    } else {
        assert(uris.drop_last().take(n) =~= uris.take(n));
        lemma_redirect_wrong(uris.drop_last(), application_type, client_domain, n);
    }
}

fn check_redirect_uris(
    uris: &Vec<Uri>,
    application_type: ApplicationType,
    client_domain: &str,
) -> (r: Option<&'static str>)
    ensures
        r == redirect_uris_wrong(uris@, application_type, client_domain@),
{
    let mut i: usize = 0;
    while i < uris.len()
        invariant
            i <= uris@.len(),
            redirect_uris_wrong(uris@.take(i as int), application_type, client_domain@) is None,
        decreases uris@.len() - i,
    {
        proof {
            assert(uris@.take(i + 1).drop_last() =~= uris@.take(i as int));
            assert(uris@.take(i + 1).last() == uris@[i as int]);
        }
        let wrong = check_redirect_uri(&uris[i], application_type, client_domain);
        if wrong.is_some() {
            proof {
                lemma_redirect_wrong(uris@, application_type, client_domain@, i + 1);
            }
            return wrong;
        }
        i = i + 1;
    }
    proof {
        assert(uris@.take(i as int) =~= uris@);
    }
    None
}

impl ClientMetadata {
    /// The grant types and the response types are in order, and none of them is there twice.
    pub open spec fn well_formed(self) -> bool {
        &&& forall|i: int, j: int|
            0 <= i < j < self.grant_types@.len() ==> (#[trigger] self.grant_types@[i]).rank() < (
            #[trigger] self.grant_types@[j]).rank()
        &&& forall|i: int, j: int|
            0 <= i < j < self.response_types@.len() ==> (#[trigger] self.response_types@[i]).rank()
                < (#[trigger] self.response_types@[j]).rank()
    }

    /// Checks what a client says of itself.
    pub fn validate(&self) -> (r: Result<(), &'static str>)
        ensures
            match metadata_wrong(*self) {
                None => r is Ok,
                Some(wrong) => r == Err::<(), &'static str>(wrong),
            },
    {
        let client_domain = match self.client_uri.domain() {
            None => {
                return Err("Client URI must have a domain.");
            },
            Some(domain) => domain,
        };
        if !same_str(self.client_uri.scheme(), "https") {
            return Err("Client URI must be HTTPS.");
        }
        if self.client_uri.has_credentials() {
            return Err("Client URI must not include credentials.");
        }
        if let Some(wrong) = check_metadata_uri(&self.logo_uri, client_domain) {
            return Err(wrong);
        }
        if let Some(wrong) = check_metadata_uri(&self.policy_uri, client_domain) {
            return Err(wrong);
        }
        if let Some(wrong) = check_metadata_uri(&self.tos_uri, client_domain) {
            return Err(wrong);
        }
        match check_redirect_uris(&self.redirect_uris, self.application_type, client_domain) {
            Some(wrong) => Err(wrong),
            None => Ok(()),
        }
    }

    /// Whether a URI is one that the client may redirect to.
    pub fn redirects_to(&self, uri: &Uri) -> (r: bool)
        ensures
            r == may_redirect(*self, uri@),
    {
        let mut i: usize = 0;
        while i < self.redirect_uris.len()
            invariant
                i <= self.redirect_uris@.len(),
                forall|j: int|
                    0 <= j < i ==> #[trigger] self.redirect_uris@[j]@.text != uri@.text,
            decreases self.redirect_uris@.len() - i,
        {
            if self.redirect_uris[i].same(uri) {
                assert(self.redirect_uris@[i as int]@.text == uri@.text);
                return true;
            }
            i = i + 1;
        }
        false
    }

    /// Whether the client takes responses of this type.
    pub fn takes_response(&self, response_type: ResponseType) -> (r: bool)
        ensures
            r == self.response_types@.contains(response_type),
    {
        let mut i: usize = 0;
        while i < self.response_types.len()
            invariant
                i <= self.response_types@.len(),
                forall|j: int| 0 <= j < i ==> #[trigger] self.response_types@[j] != response_type,
            decreases self.response_types@.len() - i,
        {
            if self.response_types[i] == response_type {
                return true;
            }
            i = i + 1;
        }
        false
    }
}

/// One of the URIs that the client gave to redirect to is this one.
pub open spec fn may_redirect(metadata: ClientMetadata, uri: UriView) -> bool {
    exists|i: int|
        0 <= i < metadata.redirect_uris@.len() && #[trigger] metadata.redirect_uris@[i]@.text
            == uri.text
}

/// A client that has been accepted lives on an HTTPS domain, and a web client redirects
/// only to HTTPS URIs without credentials.
pub proof fn law_accepted_clients(metadata: ClientMetadata, i: int)
    requires
        metadata_wrong(metadata) is None,
        0 <= i < metadata.redirect_uris@.len(),
    ensures
        metadata.client_uri@.scheme == "https"@,
        metadata.client_uri@.domain is Some,
        !metadata.client_uri@.has_credentials(),
        redirect_uri_wrong(
            metadata.redirect_uris@[i]@,
            metadata.application_type,
            metadata.client_uri@.domain->Some_0,
        ) is None,
        metadata.application_type is Web ==> metadata.redirect_uris@[i]@.scheme == "https"@
            && !metadata.redirect_uris@[i]@.has_credentials(),
{
    lemma_each_redirect(
        metadata.redirect_uris@,
        metadata.application_type,
        metadata.client_uri@.domain->Some_0,
        i,
    );
}

proof fn lemma_each_redirect(
    uris: Seq<Uri>,
    application_type: ApplicationType,
    client_domain: Seq<char>,
    i: int,
)
    requires
        redirect_uris_wrong(uris, application_type, client_domain) is None,
        0 <= i < uris.len(),
    ensures
        redirect_uri_wrong(uris[i]@, application_type, client_domain) is None,
    decreases uris.len(),
{
    if i < uris.len() - 1 {
        lemma_each_redirect(uris.drop_last(), application_type, client_domain, i);
    }
}

/// A domain is below itself, what is below a domain below another is below that, and of two
/// different domains at most one is below the other.
pub proof fn law_subdomains(a: Seq<char>, b: Seq<char>, c: Seq<char>)
    ensures
        below(a, a),
        below(a, b) && below(b, c) ==> below(a, c),
        below(a, b) && below(b, a) ==> a == b,
{
    if below(a, b) && below(b, a) && a != b {
        assert(("."@ + b).len() <= a.len() && ("."@ + a).len() <= b.len());
        reveal_strlit(".");
    }
    if below(a, b) && below(b, c) && a != b && b != c {
        let end = "."@ + c;
        let mid = "."@ + b;
        assert(end.is_suffix_of(b) && mid.is_suffix_of(a));
        assert(b =~= b.subrange(0, b.len() - end.len()) + end);
        assert(a =~= a.subrange(0, a.len() - mid.len()) + mid);
        assert forall|i: int| 0 <= i < end.len() implies end[i] == a[a.len() - end.len() + i] by {
            assert(end[i] == b[b.len() - end.len() + i]);
            assert(mid[1 + (b.len() - end.len() + i)] == b[b.len() - end.len() + i]) by {
                reveal_strlit(".");
            }
        }
        reveal_strlit(".");
        assert(end.is_suffix_of(a)) by {
            assert(a.subrange(a.len() - end.len(), a.len() as int) =~= end);
        }
    }
}

/// Clients that take the same grant types and response types say so in the same words: a set
/// is listed in one way only.
pub proof fn law_one_list_of_types(a: ClientMetadata, b: ClientMetadata)
    requires
        a.well_formed(),
        b.well_formed(),
        forall|t: GrantType| a.grant_types@.contains(t) == b.grant_types@.contains(t),
        forall|t: ResponseType| a.response_types@.contains(t) == b.response_types@.contains(t),
    ensures
        a.grant_types@ == b.grant_types@,
        a.response_types@ == b.response_types@,
{
    lemma_grant_types(a);
    lemma_grant_types(b);
    lemma_response_types(a);
    lemma_response_types(b);
    assert(a.grant_types@ =~= b.grant_types@);
    assert(a.response_types@ =~= b.response_types@);
}

proof fn lemma_grant_types(m: ClientMetadata)
    requires
        m.well_formed(),
    ensures
        ({
            let code = m.grant_types@.contains(GrantType::AuthorizationCode);
            let refresh = m.grant_types@.contains(GrantType::RefreshToken);
            m.grant_types@ == if code && refresh {
                seq![GrantType::AuthorizationCode, GrantType::RefreshToken]
            } else if code {
                seq![GrantType::AuthorizationCode]
            } else if refresh {
                seq![GrantType::RefreshToken]
            } else {
                Seq::empty()
            }
        }),
{
    let s = m.grant_types@;
    if s.len() > 2 {
        assert(s[0].rank() < s[1].rank() && s[1].rank() < s[2].rank());
    }
    if s.len() > 1 {
        assert(s[0].rank() < s[1].rank());
    }
    if s.len() > 0 {
        assert(s.contains(s[0]));
    }
    if s.len() > 1 {
        assert(s.contains(s[1]));
    }
}

proof fn lemma_response_types(m: ClientMetadata)
    requires
        m.well_formed(),
    ensures
        m.response_types@ == if m.response_types@.contains(ResponseType::Code) {
            seq![ResponseType::Code]
        } else {
            Seq::empty()
        },
{
    let s = m.response_types@;
    if s.len() > 1 {
        assert(s[0].rank() < s[1].rank());
    }
    if s.len() > 0 {
        assert(s.contains(s[0]));
    }
}

/// A domain is below another one if it is the same, or has something and a dot before it; and a
/// host is this machine under three names.
pub proof fn law_domains(subdomain: Seq<char>, domain: Seq<char>, prefix: Seq<char>)
    ensures
        below(domain, domain),
        below(prefix + "."@ + domain, domain),
        below(subdomain, domain) && subdomain != domain ==> exists|p: Seq<char>|
            subdomain == #[trigger] (p + "."@) + domain,
        is_localhost(subdomain) <==> subdomain == "localhost"@ || subdomain == "127.0.0.1"@
            || subdomain == "[::1]"@,
{
    let dotted = "."@ + domain;
    let whole = prefix + "."@ + domain;
    assert(whole.subrange(whole.len() - dotted.len(), whole.len() as int) =~= dotted);
    if below(subdomain, domain) && subdomain != domain {
        let p = subdomain.take(subdomain.len() - dotted.len());
        assert(dotted.len() <= subdomain.len());
        assert(subdomain =~= p + subdomain.subrange(p.len() as int, subdomain.len() as int));
        assert(subdomain.subrange(p.len() as int, subdomain.len() as int) == dotted);
        assert(p + dotted =~= (p + "."@) + domain);
    }
}

/// Which redirect URIs a client may have. An HTTPS one without credentials is always in order; a
/// web client may have no other. A native one may also use plain HTTP to its own machine, without
/// a port, or a scheme of its own that begins with its domain backwards, without an authority.
pub proof fn law_redirect_uris(
    uri: UriView,
    application_type: ApplicationType,
    client_domain: Seq<char>,
)
    ensures
        redirect_uri_wrong(uri, application_type, client_domain) is None <==> {
            ||| uri.scheme == "https"@ && !uri.has_credentials()
            ||| application_type is Native && uri.scheme == "http"@ && uri.scheme != "https"@ && (
            uri.host matches Some(host) && is_localhost(host)) && uri.port is None
            ||| application_type is Native && uri.scheme != "http"@ && uri.scheme != "https"@
                && reverse_dns(client_domain).is_prefix_of(uri.scheme) && !uri.has_authority
        },
        application_type is Web && uri.scheme != "https"@ ==> redirect_uri_wrong(
            uri,
            application_type,
            client_domain,
        ) == Some("A redirect URI's scheme is not valid for this application type."),
        uri.scheme == "https"@ && uri.has_credentials() ==> redirect_uri_wrong(
            uri,
            application_type,
            client_domain,
        ) == Some("HTTPS redirect URIs must not contain credentials."),
{
}

/// A client is accepted exactly if its URI has a domain, is HTTPS and has no credentials, each
/// other URI of its metadata that is there is so too and below that domain, and nothing is wrong
/// with any of its redirect URIs.
pub proof fn law_accepted_exactly_if(metadata: ClientMetadata)
    ensures
        metadata_wrong(metadata) is None <==> {
            let place = metadata.client_uri@;
            let fine = |uri: Option<Uri>|
                uri matches Some(u) ==> u@.scheme == "https"@ && !u@.has_credentials() && (
                u@.domain matches Some(d) && below(d, place.domain->Some_0));
            &&& place.domain is Some
            &&& place.scheme == "https"@
            &&& !place.has_credentials()
            &&& fine(metadata.logo_uri)
            &&& fine(metadata.policy_uri)
            &&& fine(metadata.tos_uri)
            &&& forall|i: int|
                0 <= i < metadata.redirect_uris@.len() ==> redirect_uri_wrong(
                    (#[trigger] metadata.redirect_uris@[i])@,
                    metadata.application_type,
                    place.domain->Some_0,
                ) is None
        },
{
    if metadata.client_uri@.domain is Some {
        lemma_all_redirects(
            metadata.redirect_uris@,
            metadata.application_type,
            metadata.client_uri@.domain->Some_0,
        );
    }
}

proof fn lemma_all_redirects(
    uris: Seq<Uri>,
    application_type: ApplicationType,
    client_domain: Seq<char>,
)
    ensures
        redirect_uris_wrong(uris, application_type, client_domain) is None <==> forall|i: int|
            0 <= i < uris.len() ==> redirect_uri_wrong(
                (#[trigger] uris[i])@,
                application_type,
                client_domain,
            ) is None,
    decreases uris.len(),
{
    if uris.len() > 0 {
        let before = uris.drop_last();
        lemma_all_redirects(before, application_type, client_domain);
        assert(forall|i: int| 0 <= i < before.len() ==> before[i] == #[trigger] uris[i]);
        assert(uris[uris.len() - 1] == uris.last());
        if redirect_uris_wrong(uris, application_type, client_domain) is Some {
            if redirect_uris_wrong(before, application_type, client_domain) is Some {
                let i = choose|i: int|
                    0 <= i < before.len() && redirect_uri_wrong(
                        (#[trigger] before[i])@,
                        application_type,
                        client_domain,
                    ) is Some;
                assert(uris[i] == before[i]);
            }
        } else {
            assert forall|i: int| 0 <= i < uris.len() implies redirect_uri_wrong(
                (#[trigger] uris[i])@,
                application_type,
                client_domain,
            ) is None by {
                if i < before.len() {
                    assert(before[i] == uris[i]);
                }
            }
        }
    }
}

/// A client may be redirected to a URI exactly if it registered one that reads the same.
pub proof fn law_registered_redirects(metadata: ClientMetadata, uri: UriView, i: int)
    ensures
        0 <= i < metadata.redirect_uris@.len() && metadata.redirect_uris@[i]@.text == uri.text
            ==> may_redirect(metadata, uri),
        may_redirect(metadata, uri) ==> exists|j: int|
            0 <= j < metadata.redirect_uris@.len() && (#[trigger] metadata.redirect_uris@[j])@.text
                == uri.text,
{
    if may_redirect(metadata, uri) {
        let j = choose|j: int|
            0 <= j < metadata.redirect_uris@.len() && #[trigger] metadata.redirect_uris@[j]@.text
                == uri.text;
        assert(metadata.redirect_uris@[j]@.text == uri.text);
    }
}

/// A domain backwards has the domain's parts in the opposite order.
pub proof fn law_reverse_dns(domain: Seq<char>)
    ensures
        split(reverse_dns(domain), '.') == split(domain, '.').reverse(),
{
    let parts = split(domain, '.');
    crate::text::law_split(domain, '.', 0);
    let back = parts.reverse();
    assert forall|i: int| 0 <= i < back.len() implies !(#[trigger] back[i]).contains('.') by {
        crate::text::law_split(domain, '.', parts.len() - 1 - i);
    }
    reveal_strlit(".");
    assert("."@ =~= seq!['.']);
    crate::text::lemma_split_joined(back, '.');
}

/// What is said of a client's own URI, and of the others: that they have to be HTTPS, without
/// credentials, and below the client's domain.
pub proof fn law_what_is_wrong_with_clients(
    metadata: ClientMetadata,
    uri: Option<Uri>,
    domain: Seq<char>,
)
    ensures
        metadata.client_uri@.domain is None ==> metadata_wrong(metadata) == Some(
            "Client URI must have a domain.",
        ),
        metadata.client_uri@.domain is Some && metadata.client_uri@.scheme != "https"@
            ==> metadata_wrong(metadata) == Some("Client URI must be HTTPS."),
        metadata.client_uri@.domain is Some && metadata.client_uri@.scheme == "https"@
            && metadata.client_uri@.has_credentials() ==> metadata_wrong(metadata) == Some(
            "Client URI must not include credentials.",
        ),
        uri is None ==> metadata_uri_wrong(uri, domain) is None,
        uri matches Some(u) ==> {
            let inside = u@.domain matches Some(d) && below(d, domain);
            &&& u@.scheme != "https"@ ==> metadata_uri_wrong(uri, domain) == Some(
                "All metadata URIs must be HTTPS.",
            )
            &&& u@.scheme == "https"@ && u@.has_credentials() ==> metadata_uri_wrong(uri, domain)
                == Some("All metadata URIs must not include credentials.")
            &&& u@.scheme == "https"@ && !u@.has_credentials() && !inside ==> metadata_uri_wrong(
                uri,
                domain,
            ) == Some("All metadata URIs must be subdomains of the client URI.")
            &&& u@.scheme == "https"@ && !u@.has_credentials() && inside ==> metadata_uri_wrong(
                uri,
                domain,
            ) is None
        },
{
}

/// What is said of a native client's redirect URI: that plain HTTP has to lead to its own machine
/// and needs no port, and that a scheme of its own has to begin with its domain backwards and has
/// no authority.
pub proof fn law_what_is_wrong_with_native_redirects(uri: UriView, client_domain: Seq<char>)
    requires
        uri.scheme != "https"@,
    ensures
        ({
            let wrong = redirect_uri_wrong(uri, ApplicationType::Native, client_domain);
            let plain = uri.scheme == "http"@;
            let own = uri.host matches Some(host) && is_localhost(host);
            let reversed = reverse_dns(client_domain).is_prefix_of(uri.scheme);
            &&& plain && !own ==> wrong == Some(
                "HTTP redirect URIs for native applications must only refer to localhost.",
            )
            &&& plain && own && uri.port is Some ==> wrong == Some(
                "HTTP redirect URIs for native applications do not need to specify a port. All ports will be accepted during authorization.",
            )
            &&& !plain && !reversed ==> wrong == Some(
                "Private-use scheme URIs for native applications must begin with the application's client URI domain in reverse-DNS notation.",
            )
            &&& !plain && reversed && uri.has_authority ==> wrong == Some(
                "Private-use scheme URIs for native applications must not have an authority.",
            )
        }),
{
}

} // verus!
