//! Finding the broadcast of a match and opening it with bounded retry.

use crate::constants::{API_BASE_URL, MAX_RETRY_ATTEMPTS, RETRY_DELAY_SECS};
use crate::error::MatchError;
use crate::text::{decimal, push_decimal};
use vstd::prelude::*;
use vstd::string::StringExecFns;

verus! {

/// What `serde_json` makes of `text` and `key`: where `text` is one JSON
/// document, `Ok` with the string of the document's member `key`, or with
/// `None` where the document is not an object, has no such member, or the
/// member is not a string; where `text` is no JSON document, `Err` with the
/// description that `serde_json` gives of the failure.
pub uninterp spec fn json_string_member(text: Seq<char>, key: Seq<char>) -> Result<
    Option<Seq<char>>,
    Seq<char>,
>;

/// Parses `text` with `serde_json::from_str`, reads the member `key` with
/// `serde_json::Value::get` and `serde_json::Value::as_str`, and renders a
/// parse failure as `serde_json::Error` displays it. The contract gives the
/// outcome the name `json_string_member`, and with it claims that the
/// outcome depends on `text` and `key` alone; it is not proved.
#[verifier::external_body]
fn json_lookup(text: &str, key: &str) -> (r: Result<Option<String>, String>)
    ensures
        match json_string_member(text@, key@) {
            Ok(Some(found)) => r is Ok && r->Ok_0 is Some && r->Ok_0->Some_0@ == found,
            Ok(None) => r is Ok && r->Ok_0 is None,
            Err(cause) => r is Err && r->Err_0@ == cause,
        },
{
    match serde_json::from_str::<serde_json::Value>(text) {
        Ok(document) => match document.get(key) {
            Some(member) => match member.as_str() {
                Some(found) => Ok(Some(found.to_string())),
                None => Ok(None),
            },
            None => Ok(None),
        },
        Err(e) => Err(e.to_string()),
    }
}

/// Name of the response member that holds the broadcast address.
pub const BROADCAST_URL_FIELD: &'static str = "broadcast_url";

/// The cause reported where the response has no broadcast address.
pub const MISSING_FIELD: &'static str = "broadcast_url not found in API response";

/// The address that is asked for the broadcast of a match.
pub open spec fn endpoint_of(match_id: u64) -> Seq<char> {
    API_BASE_URL@ + "/matches/"@ + decimal(match_id as nat) + "/live/url"@
}

/// Builds the address that is asked for the broadcast of a match.
pub fn broadcast_url_endpoint(match_id: u64) -> (url: String)
    ensures
        url@ == endpoint_of(match_id),
{
    let mut url = String::from_str(API_BASE_URL);
    url.append("/matches/");
    push_decimal(&mut url, match_id);
    url.append("/live/url");
    url
}

/// Whether `r` is the failure to locate `match_id` for the reason `cause`.
pub open spec fn is_unavailable<T>(r: Result<T, MatchError>, match_id: u64, cause: Seq<char>) -> bool {
    r matches Err(MatchError::EndpointUnavailable { match_id: id, cause: text }) && id == match_id
        && text@ == cause
}

/// Turns what was found in a response into the broadcast address: the
/// member's string where there is one, else the failure that names the
/// match and the reason.
pub fn url_from_lookup(match_id: u64, lookup: Result<Option<String>, String>) -> (r: Result<
    String,
    MatchError,
>)
    ensures
        match lookup {
            Ok(Some(url)) => r == Ok::<String, MatchError>(url),
            Ok(None) => is_unavailable(r, match_id, MISSING_FIELD@),
            Err(cause) => is_unavailable(r, match_id, cause@),
        },
{
    match lookup {
        Ok(Some(url)) => Ok(url),
        Ok(None) => Err(
            MatchError::EndpointUnavailable { match_id, cause: String::from_str(MISSING_FIELD) },
        ),
        Err(cause) => Err(MatchError::EndpointUnavailable { match_id, cause }),
    }
}

/// Reads the broadcast address from the body of the API's response: the
/// string member `broadcast_url` of the JSON document. A body that has no
/// such string member, or is no JSON document, is a failure to locate the
/// match; the cause is the missing member, or the parser's description of
/// what is wrong with the body.
pub fn parse_broadcast_url(match_id: u64, body: &str) -> (r: Result<String, MatchError>)
    ensures
        match json_string_member(body@, BROADCAST_URL_FIELD@) {
            Ok(Some(url)) => r is Ok && r->Ok_0@ == url,
            Ok(None) => is_unavailable(r, match_id, MISSING_FIELD@),
            Err(cause) => is_unavailable(r, match_id, cause),
        },
{
    url_from_lookup(match_id, json_lookup(body, BROADCAST_URL_FIELD))
}

/// The way a request was made.
#[derive(Debug, Clone, Copy, PartialEq, Eq, Structural)]
pub enum Transport {
    /// The built-in client.
    Primary,
    /// The platform's own client.
    Fallback,
}

/// How a request ended.
#[derive(Debug)]
pub enum TransportOutcome {
    /// The API answered; this is the body.
    Body(String),
    /// The API answered with a failure, or the answer could not be read.
    Refused(String),
    /// The request could not be made or timed out.
    Unreachable(String),
}

/// What the locator does after a request.
#[derive(Debug, PartialEq, Eq)]
pub enum LocatorStep {
    /// The broadcast address is known.
    Resolved(String),
    /// Ask again through the platform's own client.
    UseFallback,
    /// The match cannot be located.
    Failed(MatchError),
}

/// Decides what follows a request for the broadcast address. An answer is
/// parsed; a refusal fails; a request that could not be made is repeated
/// once through the fallback, and fails if that was the fallback already.
pub fn locate_step(match_id: u64, via: Transport, outcome: TransportOutcome) -> (step: LocatorStep)
    ensures
        match outcome {
            TransportOutcome::Body(body) => match json_string_member(body@, BROADCAST_URL_FIELD@) {
                Ok(Some(url)) => step matches LocatorStep::Resolved(found) && found@ == url,
                Ok(None) => step matches LocatorStep::Failed(e) && is_unavailable(
                    Err::<(), MatchError>(e),
                    match_id,
                    MISSING_FIELD@,
                ),
                Err(cause) => step matches LocatorStep::Failed(e) && is_unavailable(
                    Err::<(), MatchError>(e),
                    match_id,
                    cause,
                ),
            },
            TransportOutcome::Refused(cause) => step matches LocatorStep::Failed(e)
                && is_unavailable(Err::<(), MatchError>(e), match_id, cause@),
            TransportOutcome::Unreachable(cause) => if via == Transport::Primary {
                step is UseFallback
            } else {
                step matches LocatorStep::Failed(e) && is_unavailable(
                    Err::<(), MatchError>(e),
                    match_id,
                    cause@,
                )
            },
        },
{
    match outcome {
        TransportOutcome::Body(body) => match parse_broadcast_url(match_id, body.as_str()) {
            Ok(url) => LocatorStep::Resolved(url),
            Err(e) => LocatorStep::Failed(e),
        },
        TransportOutcome::Refused(cause) => LocatorStep::Failed(
            MatchError::EndpointUnavailable { match_id, cause },
        ),
        TransportOutcome::Unreachable(cause) => match via {
            Transport::Primary => LocatorStep::UseFallback,
            Transport::Fallback => LocatorStep::Failed(
                MatchError::EndpointUnavailable { match_id, cause },
            ),
        },
    }
}

/// How one attempt to open the broadcast ended.
#[derive(Debug)]
pub enum AttemptOutcome {
    /// The stream is open.
    Opened,
    /// The attempt failed for the given reason.
    Failed(String),
}

/// What the connector does next.
#[derive(Debug, PartialEq, Eq)]
pub enum ConnectStep {
    /// Wait `wait_secs` seconds, then make attempt `attempt` of `total`.
    Attempt {
        /// Number of the attempt, from 1.
        attempt: u32,
        /// Number of attempts allowed.
        total: u32,
        /// Seconds to wait before the attempt.
        wait_secs: u64,
    },
    /// The stream was opened by attempt `attempt`.
    Connected {
        /// Number of the attempt that succeeded.
        attempt: u32,
    },
    /// All attempts failed.
    Exhausted(MatchError),
}

/// Bounded retry of opening the broadcast, as a counted state.
#[derive(Debug)]
pub struct Connector {
    max_attempts: u32,
    delay_secs: u64,
    attempts: u32,
}

/// Whether `step` gives up after `attempts` attempts, the last of which
/// failed for the reason `cause`.
pub open spec fn is_exhausted(step: ConnectStep, attempts: u32, cause: Seq<char>) -> bool {
    step matches ConnectStep::Exhausted(
        MatchError::ConnectionExhausted { attempts: made, last_error },
    ) && made == attempts && last_error@ == cause
}

impl Connector {
    /// Number of attempts allowed.
    pub closed spec fn max_attempts(&self) -> u32 {
        self.max_attempts
    }

    /// Seconds to wait between two attempts.
    pub closed spec fn delay_secs(&self) -> u64 {
        self.delay_secs
    }

    /// Number of attempts begun so far.
    pub closed spec fn attempts(&self) -> u32 {
        self.attempts
    }

    /// No more attempts are begun than allowed.
    #[verifier::type_invariant]
    pub open spec fn wf(&self) -> bool {
        self.attempts() <= self.max_attempts()
    }

    /// A connector that has made no attempt yet.
    pub fn new(max_attempts: u32, delay_secs: u64) -> (r: Self)
        ensures
            r.max_attempts() == max_attempts,
            r.delay_secs() == delay_secs,
            r.attempts() == 0,
    {
        Connector { max_attempts, delay_secs, attempts: 0 }
    }

    /// A connector with the usual number of attempts and delay.
    pub fn standard() -> (r: Self)
        ensures
            r.max_attempts() == MAX_RETRY_ATTEMPTS,
            r.delay_secs() == RETRY_DELAY_SECS,
            r.attempts() == 0,
    {
        Connector::new(MAX_RETRY_ATTEMPTS, RETRY_DELAY_SECS)
    }

    /// Begins connecting: the first attempt is due at once, unless no
    /// attempt is allowed at all.
    pub fn begin(&mut self) -> (step: ConnectStep)
        ensures
            final(self).max_attempts() == old(self).max_attempts(),
            final(self).delay_secs() == old(self).delay_secs(),
            old(self).max_attempts() == 0 ==> final(self).attempts() == 0 && is_exhausted(
                step,
                0,
                Seq::<char>::empty(),
            ),
            old(self).max_attempts() > 0 ==> final(self).attempts() == 1 && step == (
            ConnectStep::Attempt { attempt: 1, total: old(self).max_attempts(), wait_secs: 0 }),
    {
        if self.max_attempts == 0 {
            self.attempts = 0;
            ConnectStep::Exhausted(
                MatchError::ConnectionExhausted { attempts: 0, last_error: String::new() },
            )
        } else {
            self.attempts = 1;
            ConnectStep::Attempt { attempt: 1, total: self.max_attempts, wait_secs: 0 }
        }
    }

    /// Takes the outcome of the attempt last begun. Success ends the
    /// connecting; a failure is followed by the next attempt after the
    /// delay while attempts are left, and by giving up, with the number of
    /// attempts made and this last failure, when none is left.
    pub fn after_attempt(&mut self, outcome: AttemptOutcome) -> (step: ConnectStep)
        ensures
            final(self).max_attempts() == old(self).max_attempts(),
            final(self).delay_secs() == old(self).delay_secs(),
            match outcome {
                AttemptOutcome::Opened => final(self).attempts() == old(self).attempts() && step == (
                ConnectStep::Connected { attempt: old(self).attempts() }),
                AttemptOutcome::Failed(cause) => if old(self).attempts() < old(self).max_attempts() {
                    final(self).attempts() == old(self).attempts() + 1 && step == (
                    ConnectStep::Attempt {
                        attempt: (old(self).attempts() + 1) as u32,
                        total: old(self).max_attempts(),
                        wait_secs: old(self).delay_secs(),
                    })
                } else {
                    final(self).attempts() == old(self).attempts() && is_exhausted(
                        step,
                        old(self).attempts(),
                        cause@,
                    )
                },
            },
    {
        proof {
            use_type_invariant(&*self);
        }
        match outcome {
            AttemptOutcome::Opened => ConnectStep::Connected { attempt: self.attempts },
            AttemptOutcome::Failed(cause) => {
                if self.attempts < self.max_attempts {
                    self.attempts = self.attempts + 1;
                    ConnectStep::Attempt {
                        attempt: self.attempts,
                        total: self.max_attempts,
                        wait_secs: self.delay_secs,
                    }
                } else {
                    ConnectStep::Exhausted(
                        MatchError::ConnectionExhausted {
                            attempts: self.attempts,
                            last_error: cause,
                        },
                    )
                }
            },
        }
    }
}

} // verus!
