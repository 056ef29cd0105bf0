use crate::error::SlatusError;
use crate::store::{SavedStatus, StatusMap};
use vstd::prelude::*;

verus! {

/// The status fields sent to the remote profile. An expiration of `0` means
/// that the status does not expire.
#[derive(Debug, Clone)]
pub struct StatusUpdate {
    pub text: String,
    pub emoji: String,
    pub expiration: u64,
}

impl View for StatusUpdate {
    /// `(text, emoji, expiration)`
    type V = (Seq<char>, Seq<char>, u64);

    open spec fn view(&self) -> (Seq<char>, Seq<char>, u64) {
        (self.text@, self.emoji@, self.expiration)
    }
}

/// The status fields of a fetched profile; either may be missing.
#[derive(Debug, Clone)]
pub struct ProfileFields {
    pub status_text: Option<String>,
    pub status_emoji: Option<String>,
}

/// A decoded answer of the remote service.
#[derive(Debug, Clone)]
pub enum RemoteReply {
    /// The service reports success, with the profile if it sent one.
    Success(Option<ProfileFields>),
    /// The service reports failure, with its message.
    Failure(String),
}

/// The absolute expiration for a status that lasts `minutes` from `now`
/// (seconds since the epoch); `0` when `minutes` is `0`.
pub open spec fn expiration_of(now: u64, minutes: u64) -> int {
    if minutes > 0 {
        now + minutes * 60
    } else {
        0
    }
}

/// Computes `expiration_of(now, minutes)`; `None` when it does not fit in a `u64`.
pub fn expiration_for(now: u64, minutes: u64) -> (r: Option<u64>)
    ensures
        r is Some <==> expiration_of(now, minutes) <= u64::MAX,
        r matches Some(e) ==> e == expiration_of(now, minutes),
{
    if minutes == 0 {
        Some(0)
    } else if minutes > (u64::MAX - now) / 60 {
        assert(minutes * 60 > u64::MAX - now) by (nonlinear_arith)
            requires
                minutes > (u64::MAX - now) / 60,
        ;
        None
    } else {
        assert(minutes * 60 <= u64::MAX - now) by (nonlinear_arith)
            requires
                minutes <= (u64::MAX - now) / 60,
        ;
        Some(now + minutes * 60)
    }
}

/// The update that applies the preset `name` for `minutes` from `now`, if the
/// preset exists and the expiration fits in a `u64`.
pub open spec fn planned_set(
    presets: Map<Seq<char>, (Seq<char>, Seq<char>)>,
    name: Seq<char>,
    minutes: u64,
    now: u64,
) -> Option<(Seq<char>, Seq<char>, int)> {
    if presets.contains_key(name) && expiration_of(now, minutes) <= u64::MAX {
        Some((presets[name].0, presets[name].1, expiration_of(now, minutes)))
    } else {
        None
    }
}

/// The update that applies the preset `name`, expiring `minutes` after `now`
/// (`0`: never).
pub fn plan_set(statuses: &StatusMap, name: &String, minutes: u64, now: u64) -> (r: Result<
    StatusUpdate,
    SlatusError,
>)
    requires
        statuses.wf(),
    ensures
        match r {
            Ok(u) => planned_set(statuses@, name@, minutes, now) == Some(
                (u.text@, u.emoji@, u.expiration as int),
            ),
            Err(e) => planned_set(statuses@, name@, minutes, now) is None && if statuses@.contains_key(
                name@,
            ) {
                e == SlatusError::InvalidInput
            } else {
                e == SlatusError::NotFound(*name)
            },
        },
{
    match statuses.get(name) {
        None => Err(SlatusError::NotFound(name.clone())),
        Some(preset) => match expiration_for(now, minutes) {
            None => Err(SlatusError::InvalidInput),
            Some(expiration) => Ok(
                StatusUpdate {
                    text: preset.text.clone(),
                    emoji: preset.emoji.clone(),
                    expiration,
                },
            ),
        },
    }
}

/// The update that clears the status: no text, no emoji, no expiration.
pub fn plan_clear() -> (r: StatusUpdate)
    ensures
        r@ == (Seq::<char>::empty(), Seq::<char>::empty(), 0u64),
{
    StatusUpdate { text: String::new(), emoji: String::new(), expiration: 0 }
}

/// Clearing sends what setting a preset with empty text and emoji and no
/// expiration sends.
pub proof fn lemma_clear_is_empty_set(
    presets: Map<Seq<char>, (Seq<char>, Seq<char>)>,
    name: Seq<char>,
    now: u64,
)
    requires
        presets.contains_key(name),
        presets[name] == (Seq::<char>::empty(), Seq::<char>::empty()),
    ensures
        planned_set(presets, name, 0, now) == Some(
            (Seq::<char>::empty(), Seq::<char>::empty(), 0int),
        ),
{
}

/// The message of a failure reply: the service's, or a stand-in when it sent none.
pub open spec fn failure_message(error: Option<String>) -> Seq<char> {
    match error {
        Some(m) => m@,
        None => "Unknown error"@,
    }
}

impl RemoteReply {
    /// Decodes a reply from its `ok` flag, its `error` message and its `profile`.
    pub fn from_response(ok: bool, error: Option<String>, profile: Option<ProfileFields>) -> (r:
        RemoteReply)
        ensures
            ok ==> (r matches RemoteReply::Success(p) && p == profile),
            !ok ==> (r matches RemoteReply::Failure(m) && m@ == failure_message(error)),
    {
        if ok {
            RemoteReply::Success(profile)
        } else {
            match error {
                Some(m) => RemoteReply::Failure(m),
                None => RemoteReply::Failure(String::from_str("Unknown error")),
            }
        }
    }
}

/// The outcome of setting the status, from the service's reply.
pub fn set_status_outcome(reply: RemoteReply) -> (r: Result<(), SlatusError>)
    ensures
        match reply {
            RemoteReply::Success(_) => r is Ok,
            RemoteReply::Failure(m) => r == Err::<(), SlatusError>(SlatusError::RemoteRejected(m)),
        },
{
    match reply {
        RemoteReply::Success(_) => Ok(()),
        RemoteReply::Failure(m) => Err(SlatusError::RemoteRejected(m)),
    }
}

/// A missing field reads as empty.
pub open spec fn field_or_empty(f: Option<String>) -> Seq<char> {
    match f {
        Some(s) => s@,
        None => Seq::empty(),
    }
}

/// The current `(text, emoji)`, from the service's reply to a profile query.
pub fn get_status_outcome(reply: RemoteReply) -> (r: Result<(String, String), SlatusError>)
    ensures
        match reply {
            RemoteReply::Success(Some(p)) => r matches Ok((t, e)) && t@ == field_or_empty(
                p.status_text,
            ) && e@ == field_or_empty(p.status_emoji),
            RemoteReply::Success(None) => r == Err::<(String, String), SlatusError>(
                SlatusError::DecodeFailure,
            ),
            RemoteReply::Failure(m) => r == Err::<(String, String), SlatusError>(
                SlatusError::RemoteRejected(m),
            ),
        },
{
    match reply {
        RemoteReply::Success(Some(p)) => {
            let text = match p.status_text {
                Some(t) => t,
                None => String::new(),
            };
            let emoji = match p.status_emoji {
                Some(e) => e,
                None => String::new(),
            };
            Ok((text, emoji))
        },
        RemoteReply::Success(None) => Err(SlatusError::DecodeFailure),
        RemoteReply::Failure(m) => Err(SlatusError::RemoteRejected(m)),
    }
}

} // verus!
