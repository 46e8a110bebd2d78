//! What is told of requests that were not authorized.
use vstd::prelude::*;
#[allow(unused_imports)]
use vstd::string::*;

#[allow(unused_imports)]
use crate::text::{option_view, slice_chars, sliced};

verus! {

/// How much of a key is told.
pub const SENT_BEARER_PREFIX_LEN: usize = 12;

/// Who made a request.
#[derive(Debug, Clone, Copy, PartialEq, Eq, Structural)]
pub enum ToolConsumer {
    WebSearch,
    ImageGen,
}

/// What is told of a request that was not authorized.
#[derive(Debug)]
pub struct Attribution401 {
    pub consumer: ToolConsumer,
    /// The beginning of the key that was sent, if one was.
    pub sent_bearer_prefix: Option<String>,
}

/// What is told of a key.
pub open spec fn told_key(bearer: Option<&str>) -> Option<Seq<char>> {
    match bearer {
        Some(b) => Some(sliced(b@, 0, SENT_BEARER_PREFIX_LEN as int)),
        None => None,
    }
}

/// What is told of a request that was not authorized, where somebody listens.
pub fn emit_401(heard: bool, consumer: ToolConsumer, sent_bearer: Option<&str>) -> (r: Option<
    Attribution401,
>)
    ensures
        match r {
            Some(a) => heard && a.consumer == consumer && option_view(a.sent_bearer_prefix)
                == told_key(sent_bearer),
            None => !heard,
        },
{
    if !heard {
        return None;
    }
    let sent_bearer_prefix: Option<String> = match sent_bearer {
        Some(b) => Some(slice_chars(b, 0, SENT_BEARER_PREFIX_LEN)),
        None => None,
    };
    Some(Attribution401 { consumer, sent_bearer_prefix })
}

// ---- laws ----

/// No more of a key is told than its first characters: what comes behind them
/// makes no difference.
pub proof fn law_the_rest_of_a_key_is_not_told(a: &str, b: &str)
    requires
        a@.len() >= SENT_BEARER_PREFIX_LEN,
        b@.len() >= SENT_BEARER_PREFIX_LEN,
        a@.take(SENT_BEARER_PREFIX_LEN as int) == b@.take(SENT_BEARER_PREFIX_LEN as int),
    ensures
        told_key(Some(a)) == told_key(Some(b)),
        told_key(Some(a))->0.len() == SENT_BEARER_PREFIX_LEN,
{
    let n = SENT_BEARER_PREFIX_LEN as int;
    assert(sliced(a@, 0, n) =~= a@.take(n));
    assert(sliced(b@, 0, n) =~= b@.take(n));
}

/// What is told of a request that was not authorized: who sent it, and the first twelve
/// characters of its key.
pub proof fn law_the_sender_is_told(
    heard: bool,
    consumer: ToolConsumer,
    sent_bearer: Option<&str>,
    r: Option<Attribution401>,
)
    requires
        call_ensures(emit_401, (heard, consumer, sent_bearer), r),
    ensures
        r is Some <==> heard,
        r matches Some(a) ==> a.consumer == consumer && (a.sent_bearer_prefix is Some <==> sent_bearer
            is Some),
        r matches Some(a) ==> (sent_bearer matches Some(key) ==> {
            &&& key@.len() >= 12 ==> a.sent_bearer_prefix->0@ == key@.take(12)
            &&& key@.len() < 12 ==> a.sent_bearer_prefix->0@ == key@
        }),
{
    if let Some(key) = sent_bearer {
        if key@.len() >= 12 {
            assert(sliced(key@, 0, 12) =~= key@.take(12));
        } else {
            assert(sliced(key@, 0, 12) =~= key@);
        }
    }
}

} // verus!
