//! URIs.

use crate::order::same_str;
use vstd::prelude::*;

verus! {

/// A URI that has been parsed.
#[derive(Debug)]
pub struct Uri {
    text: String,
    scheme: String,
    domain: Option<String>,
    host: Option<String>,
    username: String,
    has_password: bool,
    port: Option<u16>,
    has_authority: bool,
}

/// The mathematical value of a [`Uri`].
#[verifier::ext_equal]
pub struct UriView {
    /// The whole URI, normalised.
    pub text: Seq<char>,
    pub scheme: Seq<char>,
    /// The host, where it is a domain.
    pub domain: Option<Seq<char>>,
    pub host: Option<Seq<char>>,
    pub username: Seq<char>,
    pub has_password: bool,
    /// The port, where it is not the scheme's own.
    pub port: Option<u16>,
    pub has_authority: bool,
}

pub open spec fn maybe(text: Option<String>) -> Option<Seq<char>> {
    match text {
        Some(t) => Some(t@),
        None => None,
    }
}

impl View for Uri {
    type V = UriView;

    closed spec fn view(&self) -> UriView {
        UriView {
            text: self.text@,
            scheme: self.scheme@,
            domain: maybe(self.domain),
            host: maybe(self.host),
            username: self.username@,
            has_password: self.has_password,
            port: self.port,
            has_authority: self.has_authority,
        }
    }
}

/// What `url::Url::parse` makes of a text.
pub uninterp spec fn uri_of(text: Seq<char>) -> Option<UriView>;

/// What `url::Url::set_port` makes of a URI when it takes the port out.
pub uninterp spec fn port_removed(uri: UriView) -> UriView;

/// The URL crate's URI.
#[verifier::external_type_specification]
#[verifier::external_body]
pub struct ExUrl(url::Url);

/// Takes a `url::Url` apart, with its own accessors. Nothing is claimed of it here; what
/// the calls that make one give is stated where they are made.
#[verifier::external_body]
fn parts_of(url: &url::Url) -> Uri {
    Uri {
        text: url.as_str().to_owned(),
        scheme: url.scheme().to_owned(),
        domain: url.domain().map(str::to_owned),
        host: url.host_str().map(str::to_owned),
        username: url.username().to_owned(),
        has_password: url.password().is_some(),
        port: url.port(),
        has_authority: url.has_authority(),
    }
}

/// `url::Url::parse`: the URI that a text is, if it is one. It depends on the text alone.
#[verifier::external_body]
fn parse_url(text: &str) -> (r: Option<Uri>)
    ensures
        match r {
            Some(uri) => uri_of(text@) == Some(uri@),
            None => uri_of(text@) is None,
        },
{
    url::Url::parse(text).ok().as_ref().map(parts_of)
}

/// `url::Url::set_port` with no port, on a URI whose host is not empty and whose scheme is
/// not that of files: the same URI without its port. It depends on the URI alone.
#[verifier::external_body]
fn remove_port(uri: &Uri) -> (r: Uri)
    requires
        uri@.host matches Some(host) && host.len() > 0,
        uri@.scheme != "file"@,
    ensures
        r@ == port_removed(uri@),
{
    let mut url = url::Url::parse(&uri.text).expect("a URI that has been parsed is one");
    url.set_port(None).expect("the URI has a host");
    parts_of(&url)
}

impl Uri {
    /// Parses a URI.
    pub fn parse(text: &str) -> (r: Option<Uri>)
        ensures
            match r {
                Some(uri) => uri_of(text@) == Some(uri@),
                None => uri_of(text@) is None,
            },
    {
        parse_url(text)
    }

    /// The same URI without its port.
    pub fn without_port(&self) -> (r: Uri)
        requires
            self@.host matches Some(host) && host.len() > 0,
            self@.scheme != "file"@,
        ensures
            r@ == port_removed(self@),
    {
        remove_port(self)
    }

    pub fn as_str(&self) -> (r: &str)
        ensures
            r@ == self@.text,
    {
        self.text.as_str()
    }

    pub fn scheme(&self) -> (r: &str)
        ensures
            r@ == self@.scheme,
    {
        self.scheme.as_str()
    }

    pub fn domain(&self) -> (r: Option<&str>)
        ensures
            match r {
                Some(d) => self@.domain == Some(d@),
                None => self@.domain is None,
            },
    {
        match &self.domain {
            Some(d) => Some(d.as_str()),
            None => None,
        }
    }

    pub fn host(&self) -> (r: Option<&str>)
        ensures
            match r {
                Some(h) => self@.host == Some(h@),
                None => self@.host is None,
            },
    {
        match &self.host {
            Some(h) => Some(h.as_str()),
            None => None,
        }
    }

    /// Whether the URI names a user or a password.
    pub fn has_credentials(&self) -> (r: bool)
        ensures
            r == self@.has_credentials(),
    {
        !self.username.as_str().is_empty() || self.has_password
    }

    pub fn has_port(&self) -> (r: bool)
        ensures
            r == (self@.port is Some),
    {
        self.port.is_some()
    }

    pub fn has_authority(&self) -> (r: bool)
        ensures
            r == self@.has_authority,
    {
        self.has_authority
    }

    /// Whether two URIs are the same.
    pub fn same(&self, other: &Uri) -> (r: bool)
        ensures
            r == (self@.text == other@.text),
    {
        same_str(self.text.as_str(), other.text.as_str())
    }

    pub fn duplicate(&self) -> (r: Uri)
        ensures
            r == *self,
    {
        Uri {
            text: self.text.clone(),
            scheme: self.scheme.clone(),
            domain: match &self.domain {
                Some(d) => Some(d.clone()),
                None => None,
            },
            host: match &self.host {
                Some(h) => Some(h.clone()),
                None => None,
            },
            username: self.username.clone(),
            has_password: self.has_password,
            port: self.port,
            has_authority: self.has_authority,
        }
    }
}

impl UriView {
    pub open spec fn has_credentials(self) -> bool {
        self.username.len() > 0 || self.has_password
    }
}

/// A URI has credentials if it has a username or a password.
pub proof fn law_credentials(uri: UriView)
    ensures
        uri.has_credentials() <==> uri.username.len() > 0 || uri.has_password,
{
}

} // verus!
