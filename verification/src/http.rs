//! Answers to requests that are refused, and what became of a request's body.

use vstd::prelude::*;

verus! {

/// A refusal: the status, a code for programs and a message for people.
#[derive(Clone, Copy, Debug)]
pub struct Refusal {
    pub status: u16,
    pub code: &'static str,
    pub message: &'static str,
}

#[verifier::ext_equal]
pub struct RefusalView {
    pub status: u16,
    pub code: Seq<char>,
    pub message: Seq<char>,
}

impl View for Refusal {
    type V = RefusalView;

    open spec fn view(&self) -> RefusalView {
        RefusalView { status: self.status, code: self.code@, message: self.message@ }
    }
}

/// A refusal with this status, code and message.
pub open spec fn refusal(status: u16, code: Seq<char>, message: Seq<char>) -> RefusalView {
    RefusalView { status, code, message }
}

/// The refusal of a request that the server could not serve.
pub open spec fn internal_error() -> RefusalView {
    refusal(500, "internal"@, ""@)
}

/// The refusal of a request whose body makes no sense.
pub open spec fn bad_request() -> RefusalView {
    refusal(400, "bad_request"@, ""@)
}

/// The refusal of a request without a session.
pub open spec fn session_required() -> RefusalView {
    refusal(401, "auth.session_required"@, ""@)
}

/// What answers a request that has nothing to give back, once the store was asked.
pub open spec fn written_answer(stored: bool) -> Result<u16, RefusalView> {
    if stored {
        Ok(204u16)
    } else {
        Err(internal_error())
    }
}

/// Whether a result is the one described: the same value, or a refusal that
/// reads the same.
pub open spec fn answers<T>(r: Result<T, Refusal>, expected: Result<T, RefusalView>) -> bool {
    match (r, expected) {
        (Ok(a), Ok(b)) => a == b,
        (Err(a), Err(b)) => a@ == b,
        _ => false,
    }
}

/// Whether a result is the one described, the value taken by its view.
pub open spec fn answers_view<T: View>(
    r: Result<T, Refusal>,
    expected: Result<T::V, RefusalView>,
) -> bool {
    match (r, expected) {
        (Ok(a), Ok(b)) => a@ == b,
        (Err(a), Err(b)) => a@ == b,
        _ => false,
    }
}

/// A refusal without a message.
pub fn refuse(status: u16, code: &'static str) -> (r: Refusal)
    ensures
        r@ == refusal(status, code@, ""@),
{
    Refusal { status, code, message: "" }
}

/// A refusal with a message.
pub fn json_err(status: u16, code: &'static str, message: &'static str) -> (r: Refusal)
    ensures
        r@ == refusal(status, code@, message@),
{
    Refusal { status, code, message }
}

/// The refusal of a request that the server could not serve.
pub fn internal() -> (r: Refusal)
    ensures
        r@ == internal_error(),
{
    refuse(500, "internal")
}

/// What a store gave, or the refusal of a request that it could not serve.
pub fn or_internal<T, E>(outcome: Result<T, E>) -> (r: Result<T, Refusal>)
    ensures
        answers(
            r,
            match outcome {
                Ok(v) => Ok(v),
                Err(_) => Err(internal_error()),
            },
        ),
{
    match outcome {
        Ok(v) => Ok(v),
        Err(_) => Err(internal()),
    }
}

/// What became of a request's body.
#[derive(Debug)]
pub enum Received<T> {
    /// It broke off, or was longer than the endpoint reads.
    Unreadable,
    /// It was read and is not what the endpoint takes.
    Malformed,
    /// It was read and understood.
    Parsed(T),
}

/// A write that the store made is answered with 204 and one that it did not with 500;
/// the refusals that all endpoints share have statuses and codes of their own.
pub proof fn law_what_the_shared_answers_are(stored: bool)
    ensures
        stored <==> written_answer(stored) == Ok::<u16, RefusalView>(204u16),
        !stored ==> written_answer(stored) is Err && written_answer(stored)->Err_0.status == 500
            && written_answer(stored)->Err_0.code == "internal"@,
        internal_error().status == 500,
        internal_error().code == "internal"@,
        bad_request().status == 400,
        bad_request().code == "bad_request"@,
        session_required().status == 401,
        session_required().code == "auth.session_required"@,
{
}

} // verus!
