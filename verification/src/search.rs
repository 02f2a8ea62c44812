//! The search coordinator: hands the candidates of a generator to a pool of
//! workers, each of which verifies the token with one candidate, and reports
//! how the search ended.

use crate::combination_generator::CombinationGenerator;
use crate::odometer::{lemma_nth_word_some_iff, nth_word};
use crate::signature_verifier::{
    always_verifies, may_verify, verified_payload, verify_at, verify_jwt_hs256_token,
};
use crossbeam_channel::Sender;
use rayon::iter::{ParallelBridge, ParallelIterator};
use vstd::prelude::*;
use vstd::string::{StringExecFns, StringSliceAdditionalSpecFns};
use vstd::utf8::encode_utf8;

verus! {

/// The sending end of a `crossbeam_channel` channel. Nothing is known of
/// what becomes of a message: another thread takes it.
#[verifier::external_type_specification]
#[verifier::external_body]
#[verifier::reject_recursive_types(T)]
pub struct ExSender<T>(Sender<T>);

/// How a search ended.
#[derive(Debug, Clone, PartialEq, Eq)]
pub enum SearchResult {
    /// A candidate verified: the key that the generator produced.
    Found(String),
    /// Every candidate of the range was tried, and none verified.
    Exhausted,
    /// The stop signal ended the search before a candidate verified.
    Cancelled,
}

impl SearchResult {
    /// The key that was found, if one was.
    pub fn key(self) -> (key: Option<String>)
        ensures
            match self {
                SearchResult::Found(found) => key == Some(found),
                _ => key is None,
            },
    {
        match self {
            SearchResult::Found(found) => Some(found),
            _ => None,
        }
    }
}

/// The secret that a candidate stands for: the bytes of the candidate with a
/// fixed text before and after it.
pub open spec fn candidate_secret(prefix: Seq<char>, key: Seq<char>, suffix: Seq<char>) -> Seq<u8> {
    encode_utf8(prefix + key + suffix)
}

/// `crossbeam_channel::Sender::try_send`: offers the message to the channel
/// without waiting, and drops it where the channel does not take it.
#[verifier::external_body]
fn offer(observer: &Sender<String>, key: &str) {
    let _ = observer.try_send(key.to_string());
}

/// The candidate may be accepted: it verifies the token at the given time,
/// or, where each verification reads the clock, at some time.
pub open spec fn may_accept(token: Seq<u8>, secret: Seq<u8>, time: Option<u64>) -> bool {
    match time {
        Some(now) => verified_payload(token, secret, now) is Some,
        None => may_verify(token, secret),
    }
}

/// The candidate must be accepted: it verifies the token at the given time,
/// or, where each verification reads the clock, at every time.
pub open spec fn must_accept(token: Seq<u8>, secret: Seq<u8>, time: Option<u64>) -> bool {
    match time {
        Some(now) => verified_payload(token, secret, now) is Some,
        None => always_verifies(token, secret),
    }
}

/// `ParallelBridge::par_bridge` and `ParallelIterator::find_any` of the
/// `rayon` crate, on the strings that `CombinationGenerator::next` produces
/// and with `try_candidate_given` as the predicate.
///
/// The workers pull strings from the generator one at a time, so the strings
/// pulled are those at the places from `old(generator).emitted()` up to
/// `final(generator).emitted()`, and each of them was handed to the predicate.
/// `rayon` returns a string only if the predicate accepted it, and returns
/// `None` only after the generator has returned `None` and the predicate has
/// rejected every string pulled. What the predicate's answer says of a string
/// is what `try_candidate_given` ensures.
#[verifier::external_body]
fn find_any_candidate(
    generator: &mut CombinationGenerator,
    token: &str,
    prefix: &str,
    suffix: &str,
    observer: Option<&Sender<String>>,
    time: Option<u64>,
) -> (found: Option<String>)
    requires
        old(generator).wf(),
    ensures
        final(generator).wf(),
        final(generator).alphabet() == old(generator).alphabet(),
        final(generator).min_length() == old(generator).min_length(),
        final(generator).max_length() == old(generator).max_length(),
        final(generator).has_stop_signal() == old(generator).has_stop_signal(),
        old(generator).cancelled() ==> final(generator).cancelled(),
        !old(generator).has_stop_signal() ==> !final(generator).cancelled(),
        old(generator).emitted() <= final(generator).emitted(),
        found matches Some(key) ==> exists|place: nat|
            {
                &&& old(generator).emitted() <= place < final(generator).emitted()
                &&& #[trigger] nth_word(
                    old(generator).alphabet(),
                    old(generator).min_length(),
                    old(generator).max_length(),
                    place,
                ) == Some(key@)
                &&& may_accept(token.spec_bytes(), candidate_secret(prefix@, key@, suffix@), time)
            },
        found is None ==> final(generator).cancelled() || final(generator).exhausted(),
        found is None ==> forall|place: nat|
            old(generator).emitted() <= place < final(generator).emitted() ==> (#[trigger] nth_word(
                old(generator).alphabet(),
                old(generator).min_length(),
                old(generator).max_length(),
                place,
            ) matches Some(key) ==> !must_accept(
                token.spec_bytes(),
                candidate_secret(prefix@, key, suffix@),
                time,
            )),
{
    std::iter::from_fn(|| generator.next()).par_bridge().find_any(
        |key| try_candidate_given(token, prefix, key, suffix, observer, time),
    )
}

/// The secret that a candidate stands for: the candidate with a fixed text
/// before and after it.
pub fn candidate(prefix: &str, key: &str, suffix: &str) -> (secret: String)
    ensures
        secret@ == prefix@ + key@ + suffix@,
        encode_utf8(secret@) == candidate_secret(prefix@, key@, suffix@),
{
    let mut secret = String::new();
    secret.append(prefix);
    secret.append(key);
    secret.append(suffix);
    assert(secret@ =~= prefix@ + key@ + suffix@);
    secret
}

/// Tries one candidate: tells the observer, if there is one, which key is
/// being tried, and verifies the token with the candidate between `prefix`
/// and `suffix`, at the given time or, where none is given, at the time
/// that the clock shows.
pub fn try_candidate_given(
    token: &str,
    prefix: &str,
    key: &str,
    suffix: &str,
    observer: Option<&Sender<String>>,
    time: Option<u64>,
) -> (accepted: bool)
    ensures
        accepted ==> may_accept(
            token.spec_bytes(),
            candidate_secret(prefix@, key@, suffix@),
            time,
        ),
        must_accept(token.spec_bytes(), candidate_secret(prefix@, key@, suffix@), time)
            ==> accepted,
{
    if let Some(tx) = observer {
        offer(tx, key);
    }
    let secret = candidate(prefix, key, suffix);
    match time {
        Some(now) => verify_at(token, secret.as_str(), now).is_some(),
        None => verify_jwt_hs256_token(token, secret.as_str()).is_some(),
    }
}

/// Tries one candidate at the present time.
///
/// A candidate is accepted only if it signs the token, the payload is a
/// JSON object and its expiry claim does not lie below zero; one whose
/// payload is stale at no time is always accepted.
pub fn try_candidate(
    token: &str,
    prefix: &str,
    key: &str,
    suffix: &str,
    observer: Option<&Sender<String>>,
) -> (accepted: bool)
    ensures
        accepted ==> may_verify(token.spec_bytes(), candidate_secret(prefix@, key@, suffix@)),
        always_verifies(token.spec_bytes(), candidate_secret(prefix@, key@, suffix@)) ==> accepted,
{
    try_candidate_given(token, prefix, key, suffix, observer, None)
}

/// Tries one candidate at the time `now`: it is accepted exactly when it
/// verifies the token at that time.
pub fn try_candidate_at(
    token: &str,
    prefix: &str,
    key: &str,
    suffix: &str,
    observer: Option<&Sender<String>>,
    now: u64,
) -> (accepted: bool)
    ensures
        accepted == verified_payload(
            token.spec_bytes(),
            candidate_secret(prefix@, key@, suffix@),
            now,
        ) is Some,
{
    try_candidate_given(token, prefix, key, suffix, observer, Some(now))
}

/// Searches the candidates that `generator` has still to produce for a key
/// that verifies `token`, on all workers of the thread pool, at the given
/// time or, where none is given, with the clock read at each verification.
///
/// `Found` holds a key of the generator's range that may be accepted; where
/// several keys verify, it may be any of them. `Cancelled` says that the
/// generator saw its stop signal and that no worker found a key before the
/// search wound down. `Exhausted` says that the whole range was tried: no
/// key in it must be accepted.
pub fn search_given(
    generator: &mut CombinationGenerator,
    token: &str,
    prefix: &str,
    suffix: &str,
    observer: Option<&Sender<String>>,
    time: Option<u64>,
) -> (r: SearchResult)
    requires
        old(generator).wf(),
    ensures
        final(generator).wf(),
        final(generator).alphabet() == old(generator).alphabet(),
        final(generator).min_length() == old(generator).min_length(),
        final(generator).max_length() == old(generator).max_length(),
        final(generator).has_stop_signal() == old(generator).has_stop_signal(),
        old(generator).emitted() <= final(generator).emitted(),
        match r {
            SearchResult::Found(key) => exists|place: nat|
                {
                    &&& old(generator).emitted() <= place < final(generator).emitted()
                    &&& #[trigger] nth_word(
                        old(generator).alphabet(),
                        old(generator).min_length(),
                        old(generator).max_length(),
                        place,
                    ) == Some(key@)
                    &&& may_accept(
                        token.spec_bytes(),
                        candidate_secret(prefix@, key@, suffix@),
                        time,
                    )
                },
            SearchResult::Cancelled => final(generator).cancelled() && old(
                generator,
            ).has_stop_signal(),
            SearchResult::Exhausted => {
                &&& !final(generator).cancelled()
                &&& final(generator).exhausted()
                &&& forall|place: nat|
                    old(generator).emitted() <= place ==> (#[trigger] nth_word(
                        old(generator).alphabet(),
                        old(generator).min_length(),
                        old(generator).max_length(),
                        place,
                    ) matches Some(key) ==> !must_accept(
                        token.spec_bytes(),
                        candidate_secret(prefix@, key, suffix@),
                        time,
                    ))
            },
        },
{
    let found = find_any_candidate(generator, token, prefix, suffix, observer, time);
    match found {
        Some(key) => SearchResult::Found(key),
        None => {
            if generator.is_cancelled() {
                SearchResult::Cancelled
            } else {
                proof {
                    assert forall|place: nat| generator.emitted() <= place implies nth_word(
                        generator.alphabet(),
                        generator.min_length(),
                        generator.max_length(),
                        place,
                    ) is None by {
                        lemma_nth_word_some_iff(
                            generator.alphabet(),
                            generator.min_length(),
                            generator.max_length(),
                            place,
                        );
                    }
                }
                SearchResult::Exhausted
            }
        },
    }
}

/// Searches the candidates that `generator` has still to produce for a key
/// that verifies `token`, on all workers of the thread pool. Each
/// verification reads the clock.
///
/// `Found` holds a key of the generator's range that signs the token; where
/// several keys verify, it may be any of them. `Cancelled` says that the
/// generator saw its stop signal and that no worker found a key before the
/// search wound down. `Exhausted` says that the whole range was tried: no
/// key in it signs the token with a payload that is stale at no time.
pub fn search(
    generator: &mut CombinationGenerator,
    token: &str,
    prefix: &str,
    suffix: &str,
    observer: Option<&Sender<String>>,
) -> (r: SearchResult)
    requires
        old(generator).wf(),
    ensures
        final(generator).wf(),
        final(generator).alphabet() == old(generator).alphabet(),
        final(generator).min_length() == old(generator).min_length(),
        final(generator).max_length() == old(generator).max_length(),
        final(generator).has_stop_signal() == old(generator).has_stop_signal(),
        old(generator).emitted() <= final(generator).emitted(),
        match r {
            SearchResult::Found(key) => exists|place: nat|
                {
                    &&& old(generator).emitted() <= place < final(generator).emitted()
                    &&& #[trigger] nth_word(
                        old(generator).alphabet(),
                        old(generator).min_length(),
                        old(generator).max_length(),
                        place,
                    ) == Some(key@)
                    &&& may_verify(token.spec_bytes(), candidate_secret(prefix@, key@, suffix@))
                },
            SearchResult::Cancelled => final(generator).cancelled() && old(
                generator,
            ).has_stop_signal(),
            SearchResult::Exhausted => {
                &&& !final(generator).cancelled()
                &&& final(generator).exhausted()
                &&& forall|place: nat|
                    old(generator).emitted() <= place ==> (#[trigger] nth_word(
                        old(generator).alphabet(),
                        old(generator).min_length(),
                        old(generator).max_length(),
                        place,
                    ) matches Some(key) ==> !always_verifies(
                        token.spec_bytes(),
                        candidate_secret(prefix@, key, suffix@),
                    ))
            },
        },
{
    search_given(generator, token, prefix, suffix, observer, None)
}

/// Searches the candidates that `generator` has still to produce for a key
/// that verifies `token` at the time `now`, on all workers of the thread
/// pool.
///
/// `Found` holds a key of the generator's range that verifies the token at
/// `now`; where several keys verify, it may be any of them. `Cancelled` says
/// that the generator saw its stop signal and that no worker found a key
/// before the search wound down. `Exhausted` says that the whole range was
/// tried: no key in it verifies the token at `now`. So a generator without
/// a stop signal finds a key whenever its range holds one.
pub fn search_at(
    generator: &mut CombinationGenerator,
    token: &str,
    prefix: &str,
    suffix: &str,
    observer: Option<&Sender<String>>,
    now: u64,
) -> (r: SearchResult)
    requires
        old(generator).wf(),
    ensures
        final(generator).wf(),
        final(generator).alphabet() == old(generator).alphabet(),
        final(generator).min_length() == old(generator).min_length(),
        final(generator).max_length() == old(generator).max_length(),
        final(generator).has_stop_signal() == old(generator).has_stop_signal(),
        old(generator).emitted() <= final(generator).emitted(),
        match r {
            SearchResult::Found(key) => exists|place: nat|
                {
                    &&& old(generator).emitted() <= place < final(generator).emitted()
                    &&& #[trigger] nth_word(
                        old(generator).alphabet(),
                        old(generator).min_length(),
                        old(generator).max_length(),
                        place,
                    ) == Some(key@)
                    &&& verified_payload(
                        token.spec_bytes(),
                        candidate_secret(prefix@, key@, suffix@),
                        now,
                    ) is Some
                },
            SearchResult::Cancelled => final(generator).cancelled() && old(
                generator,
            ).has_stop_signal(),
            SearchResult::Exhausted => {
                &&& !final(generator).cancelled()
                &&& final(generator).exhausted()
                &&& forall|place: nat|
                    old(generator).emitted() <= place ==> (#[trigger] nth_word(
                        old(generator).alphabet(),
                        old(generator).min_length(),
                        old(generator).max_length(),
                        place,
                    ) matches Some(key) ==> verified_payload(
                        token.spec_bytes(),
                        candidate_secret(prefix@, key, suffix@),
                        now,
                    ) is None)
            },
        },
{
    search_given(generator, token, prefix, suffix, observer, Some(now))
}

/// What a search finds is the key: where one key only, among those still to
/// be produced, verifies the token at `now`, every key that stands in that
/// range and verifies is that one.
pub proof fn lemma_key_in_range_is_found(
    alphabet: Seq<char>,
    min: nat,
    max: nat,
    emitted: nat,
    token: Seq<u8>,
    prefix: Seq<char>,
    suffix: Seq<char>,
    now: u64,
    place: nat,
    key: Seq<char>,
    found: Seq<char>,
    found_place: nat,
)
    requires
        emitted <= place,
        nth_word(alphabet, min, max, place) == Some(key),
        verified_payload(token, candidate_secret(prefix, key, suffix), now) is Some,
        emitted <= found_place,
        nth_word(alphabet, min, max, found_place) == Some(found),
        verified_payload(token, candidate_secret(prefix, found, suffix), now) is Some,
        forall|other: nat|
            emitted <= other && other != place ==> (#[trigger] nth_word(alphabet, min, max, other)
                matches Some(word) ==> verified_payload(
                token,
                candidate_secret(prefix, word, suffix),
                now,
            ) is None),
    ensures
        found_place == place,
        found == key,
{
}

} // verus!
