//! The subscribe flow: validate the address, then — in one transaction —
//! insert the pending subscription and its activation token. Sending the
//! confirmation email is the boundary's job; what the email must say is
//! built and specified here.

use vstd::prelude::*;
use vstd::string::*;
use rand::Rng;
use crate::domain::is_valid_email;
use crate::domain::SubscriberEmail;
use crate::ids::fresh_id;
use crate::store::{subs_has_email, subs_has_id, subscribe_step, tokens_has, Store};

verus! {

/// A subscribe request as the form hands it over.
pub struct FormData {
    pub email: String,
    pub name: String,
}

/// Why a subscribe request failed.
#[derive(Debug)]
pub enum SubscribeError {
    /// The input was rejected; carries the reason.
    ValidationError(String),
    /// A store constraint fired — duplicate address, or a colliding
    /// generated id or token.
    UnexpectedError,
}

impl SubscribeError {
    /// The transport status the boundary maps this error to.
    pub fn status_code(&self) -> (c: u16)
        ensures
            c == 400 <==> self is ValidationError,
            c == 500 <==> self is UnexpectedError,
    {
        match self {
            SubscribeError::ValidationError(_) => 400,
            SubscribeError::UnexpectedError => 500,
        }
    }
}

/// What a committed subscribe hands back: the new subscriber's id and the
/// activation token to mail out.
pub struct SubscribeReceipt {
    pub subscriber_id: u128,
    pub subscription_token: String,
}

/// An alphanumeric ASCII byte: `A-Z`, `a-z` or `0-9`.
pub open spec fn is_alnum_byte(b: u8) -> bool {
    (65 <= b <= 90) || (97 <= b <= 122) || (48 <= b <= 57)
}

/// An alphanumeric ASCII character.
pub open spec fn is_alnum_char(c: char) -> bool {
    (65 <= c as int <= 90) || (97 <= c as int <= 122) || (48 <= c as int <= 57)
}

/// Relies on `rand::distributions::Alphanumeric`, sampled from the thread's
/// generator: the sampled byte is uniformly one of `A-Z`, `a-z`, `0-9`.
#[verifier::external_body]
fn sample_alphanumeric() -> (b: u8)
    ensures
        is_alnum_byte(b),
{
    rand::thread_rng().sample(rand::distributions::Alphanumeric)
}

/// Relies on `String::push`: appends exactly the one character.
#[verifier::external_body]
fn push_char(s: &mut String, c: char)
    ensures
        final(s)@ == old(s)@.push(c),
{
    s.push(c);
}

/// A fresh activation token: 32 alphanumeric characters.
pub fn generate_subscription_token() -> (t: String)
    ensures
        t@.len() == 32,
        forall|i: int| 0 <= i < 32 ==> is_alnum_char(#[trigger] t@[i]),
{
    let mut t = String::new();
    let mut i: usize = 0;
    while i < 32
        invariant
            i <= 32,
            t@.len() == i,
            forall|j: int| 0 <= j < i ==> is_alnum_char(#[trigger] t@[j]),
        decreases 32 - i,
    {
        let b = sample_alphanumeric();
        let c = b as char;
        push_char(&mut t, c);
        i = i + 1;
    }
    t
}

/// One subscribe request, with the generated id and token passed in.
/// Deterministic: rejection, collision and commit are fixed by the store
/// and the arguments.
pub fn subscribe_with(
    store: &mut Store,
    form: &FormData,
    subscriber_id: u128,
    token: &String,
    now: u64,
) -> (r: Result<SubscribeReceipt, SubscribeError>)
    requires
        old(store).wf(),
    ensures
        final(store).wf(),
        ({
            let pre = old(store)@;
            let post = final(store)@;
            &&& ((r matches Err(SubscribeError::ValidationError(m)) && m@ == "`"@ + form.email@
                + "` is not a valid email"@) <==> !is_valid_email(form.email@))
            &&& ((r matches Err(SubscribeError::UnexpectedError)) <==> is_valid_email(form.email@)
                && (subs_has_id(pre.subscriptions, subscriber_id) || subs_has_email(
                pre.subscriptions,
                form.email@,
            ) || tokens_has(pre.tokens, token@)))
            &&& (r is Err ==> post == pre)
            &&& ((r is Ok) <==> is_valid_email(form.email@) && !subs_has_id(
                pre.subscriptions,
                subscriber_id,
            ) && !subs_has_email(pre.subscriptions, form.email@) && !tokens_has(pre.tokens, token@))
            &&& (r matches Ok(receipt) ==> receipt.subscriber_id == subscriber_id
                && receipt.subscription_token@ == token@ && subscribe_step(
                pre,
                post,
                subscriber_id,
                form.email@,
                form.name@,
                token@,
                now,
                true,
            ))
        }),
{
    let email = match SubscriberEmail::parse(form.email.clone()) {
        Ok(e) => e,
        Err(m) => {
            return Err(SubscribeError::ValidationError(m));
        },
    };
    if store.subscribe_transaction(subscriber_id, email.as_string(), &form.name, token, now) {
        Ok(SubscribeReceipt { subscriber_id, subscription_token: token.clone() })
    } else {
        Err(SubscribeError::UnexpectedError)
    }
}

/// One subscribe request as the endpoint runs it: a fresh subscriber id and
/// a fresh activation token are drawn, the address is validated, and the
/// pending subscription and its token are committed together.
///
/// Rejection of an invalid address, and failure on an already-subscribed
/// address, are promised exactly; beyond that only a collision of the drawn
/// id or token can fail the transaction — on an empty directory success is
/// owed — and then nothing was written.
pub fn subscribe(store: &mut Store, form: &FormData, now: u64) -> (r: Result<
    SubscribeReceipt,
    SubscribeError,
>)
    requires
        old(store).wf(),
    ensures
        final(store).wf(),
        ({
            let pre = old(store)@;
            let post = final(store)@;
            &&& ((r matches Err(SubscribeError::ValidationError(m)) && m@ == "`"@ + form.email@
                + "` is not a valid email"@) <==> !is_valid_email(form.email@))
            &&& (r is Err ==> post == pre)
            &&& (is_valid_email(form.email@) && subs_has_email(pre.subscriptions, form.email@)
                ==> (r matches Err(SubscribeError::UnexpectedError)))
            &&& ((r matches Err(SubscribeError::UnexpectedError)) ==> subs_has_email(
                pre.subscriptions,
                form.email@,
            ) || pre.subscriptions.len() > 0 || pre.tokens.len() > 0)
            &&& (r matches Ok(receipt) ==> is_valid_email(form.email@)
                && receipt.subscription_token@.len() == 32 && subscribe_step(
                pre,
                post,
                receipt.subscriber_id,
                form.email@,
                form.name@,
                receipt.subscription_token@,
                now,
                true,
            ))
        }),
{
    let ghost pre = store@;
    let subscriber_id = fresh_id();
    let token = generate_subscription_token();
    let r = subscribe_with(store, form, subscriber_id, &token, now);
    proof {
        if r matches Err(SubscribeError::UnexpectedError) {
            if subs_has_id(pre.subscriptions, subscriber_id) {
                let w = choose|i: int|
                    0 <= i < pre.subscriptions.len() && (
                    #[trigger] pre.subscriptions[i]).subscriber_id == subscriber_id;
                assert(pre.subscriptions.len() > 0);
            } else if tokens_has(pre.tokens, token@) {
                let w = choose|i: int|
                    0 <= i < pre.tokens.len() && (#[trigger] pre.tokens[i]).subscription_token
                        == token@;
                assert(pre.tokens.len() > 0);
            }
        }
    }
    r
}

// ---------------------------------------------------------------------------
// The confirmation email's content
// ---------------------------------------------------------------------------

/// Where the service is reachable from outside; confirmation links start
/// with it.
pub struct ApplicationBaseUrl(pub String);

/// Subject and bodies of one confirmation email.
pub struct EmailContent {
    pub subject: String,
    pub html: String,
    pub plain: String,
}

/// The link a new subscriber must follow.
pub open spec fn confirmation_link(base: Seq<char>, token: Seq<char>) -> Seq<char> {
    base + "/subscriptions/confirm?subscription_token="@ + token
}

/// Build the confirmation email for a fresh activation token. The boundary
/// sends it; the content is fixed here, character for character.
pub fn build_confirmation_email(base_url: &ApplicationBaseUrl, token: &String) -> (e: EmailContent)
    ensures
        e.subject@ == "Please confirm your subscription to my Newsletter"@,
        e.html@ == "Please click the <a href=\""@ + confirmation_link(base_url.0@, token@)
            + "\">link</a> to confirm the subscription."@,
        e.plain@ == "[PLAIN] Please click the link to confirm your subscription: "@
            + confirmation_link(base_url.0@, token@),
{
    let mut link = base_url.0.clone();
    link.append("/subscriptions/confirm?subscription_token=");
    link.append(token.as_str());

    let subject = "Please confirm your subscription to my Newsletter".to_owned();

    let mut html = "Please click the <a href=\"".to_owned();
    html.append(link.as_str());
    html.append("\">link</a> to confirm the subscription.");

    let mut plain = "[PLAIN] Please click the link to confirm your subscription: ".to_owned();
    plain.append(link.as_str());

    proof {
        assert(html@ =~= "Please click the <a href=\""@ + confirmation_link(base_url.0@, token@)
            + "\">link</a> to confirm the subscription."@);
        assert(plain@ =~= "[PLAIN] Please click the link to confirm your subscription: "@
            + confirmation_link(base_url.0@, token@));
    }
    EmailContent { subject, html, plain }
}

// ---------------------------------------------------------------------------
// Rendering an error and its chain of causes
// ---------------------------------------------------------------------------

/// The `Caused by:` lines for a chain of causes, one per cause, in order.
pub open spec fn caused_by_text(causes: Seq<Seq<char>>) -> Seq<char>
    decreases causes.len(),
{
    if causes.len() == 0 {
        Seq::empty()
    } else {
        caused_by_text(causes.drop_last()) + "Caused by:\n\t"@ + causes.last() + "\n"@
    }
}

/// A rendered error: its own message, a blank line, then every cause on a
/// `Caused by:` line of its own.
pub open spec fn chain_text(message: Seq<char>, causes: Seq<Seq<char>>) -> Seq<char> {
    message + "\n\n"@ + caused_by_text(causes)
}

/// Render an error and its chain of causes, outermost first.
pub fn error_chain_fmt(message: &String, causes: &Vec<String>) -> (r: String)
    ensures
        r@ == chain_text(message@, causes.deep_view()),
{
    let ghost all = causes.deep_view();
    let mut r = message.clone();
    r.append("\n\n");
    let mut i: usize = 0;
    while i < causes.len()
        invariant
            i <= causes.len(),
            all == causes.deep_view(),
            r@ == chain_text(message@, all.take(i as int)),
        decreases causes.len() - i,
    {
        r.append("Caused by:\n\t");
        r.append(causes[i].as_str());
        r.append("\n");
        proof {
            assert(all.take(i + 1 as int).drop_last() =~= all.take(i as int));
            assert(all.take(i + 1 as int).last() == all[i as int]);
            assert(r@ =~= chain_text(message@, all.take(i + 1 as int)));
        }
        i = i + 1;
    }
    proof {
        assert(all.take(causes.len() as int) =~= all);
    }
    r
}

} // verus!
