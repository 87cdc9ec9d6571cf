//! What the pages show and do.

pub mod account;
pub mod components;
pub mod grant;
pub mod login;
pub mod password;
pub mod register;

use crate::text::glue;
use vstd::prelude::*;

verus! {

/// The policy for what a page may load. CAPTCHAs come in a frame of their own.
pub open spec fn content_security_policy(csp_nonce: Seq<char>, recaptcha: bool) -> Seq<char> {
    "default-src 'none'; style-src 'self'; img-src 'self' 'https' data:; script-src 'nonce-"@
        + csp_nonce + "'; child-src "@ + (if recaptcha {
        "www.google.com"@
    } else {
        "'none'"@
    }) + ";"@
}

/// The value of the header with the policy for what a page may load.
pub fn policy_header(csp_nonce: &str, recaptcha: bool) -> (r: String)
    ensures
        r@ == content_security_policy(csp_nonce@, recaptcha),
{
    let child_src = if recaptcha {
        "www.google.com"
    } else {
        "'none'"
    };
    let scripts = glue(
        "default-src 'none'; style-src 'self'; img-src 'self' 'https' data:; script-src 'nonce-",
        csp_nonce,
    );
    let children = glue(scripts.as_str(), "'; child-src ");
    let source = glue(children.as_str(), child_src);
    glue(source.as_str(), ";")
}

/// Scripts run only with the page's own nonce, and frames are those of the CAPTCHA or none.
pub proof fn law_content_security_policy(csp_nonce: Seq<char>)
    ensures
        content_security_policy(csp_nonce, true)
            == "default-src 'none'; style-src 'self'; img-src 'self' 'https' data:; script-src 'nonce-"@
            + csp_nonce + "'; child-src "@ + "www.google.com"@ + ";"@,
        content_security_policy(csp_nonce, false)
            == "default-src 'none'; style-src 'self'; img-src 'self' 'https' data:; script-src 'nonce-"@
            + csp_nonce + "'; child-src "@ + "'none'"@ + ";"@,
{
}

} // verus!
