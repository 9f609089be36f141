//! Subscriber addresses. A recipient of an outbox task must be a validated
//! email address; validation itself is delegated to the `validator` crate and
//! its result is named by [`is_valid_email`].

use vstd::prelude::*;
use vstd::string::*;

verus! {

/// What `validator::validate_email` returns for a given sequence of
/// characters. The grammar (the HTML5 e-mail production) is too large to
/// restate here; the result depends on the characters alone.
pub uninterp spec fn is_valid_email(s: Seq<char>) -> bool;

/// Relies on `validator::validate_email`: decides the HTML5 e-mail grammar,
/// and its source rejects the empty string and any string without `'@'`
/// before anything else.
#[verifier::external_body]
fn validate_email_str(s: &str) -> (r: bool)
    ensures
        r == is_valid_email(s@),
        s@.len() == 0 ==> !r,
        !s@.contains('@') ==> !r,
{
    validator::validate_email(s)
}

/// An email address that passed validation when it was constructed.
#[derive(Debug)]
pub struct SubscriberEmail(String);

impl SubscriberEmail {
    /// The characters of the address.
    pub closed spec fn spec_str(&self) -> Seq<char> {
        self.0@
    }

    /// Every value of this type was accepted by the validator.
    pub open spec fn wf(&self) -> bool {
        is_valid_email(self.spec_str())
    }

    /// Accepts exactly the valid addresses and keeps them unchanged; the
    /// empty string, and any string without `'@'`, is always rejected; the
    /// error carries the offending input.
    pub fn parse(s: String) -> (r: Result<SubscriberEmail, String>)
        ensures
            r is Ok <==> is_valid_email(s@),
            r is Ok ==> r->Ok_0.spec_str() == s@ && r->Ok_0.wf(),
            r is Err ==> r->Err_0@ == "`"@ + s@ + "` is not a valid email"@,
            s@.len() == 0 ==> r is Err,
            !s@.contains('@') ==> r is Err,
    {
        if validate_email_str(s.as_str()) {
            Ok(SubscriberEmail(s))
        } else {
            let mut msg = "`".to_owned();
            msg.append(s.as_str());
            msg.append("` is not a valid email");
            Err(msg)
        }
    }

    /// The address as a string slice.
    pub fn as_str(&self) -> (r: &str)
        ensures
            r@ == self.spec_str(),
    {
        self.0.as_str()
    }

    /// The address as a string.
    pub fn as_string(&self) -> (r: &String)
        ensures
            r@ == self.spec_str(),
    {
        &self.0
    }
}

} // verus!
