//! The life of one search as its owner sees it: the parameters it is started
//! with, the check that they allow a search, the stop request, and the state
//! that the search's outcome leaves behind.

use crate::combination_generator::{clamped_min, class_alphabet, CombinationGenerator};
use crossbeam_channel::{Receiver, Sender};
use std::sync::Arc;
use vstd::prelude::*;

verus! {

/// The shortest key length that a command line tries where it names none.
pub const DEFAULT_MIN_LENGTH: usize = 1;

/// The longest key length that a command line tries where it names none.
pub const DEFAULT_MAX_LENGTH: usize = 10;

/// Where a search stands.
#[derive(Debug, Clone, Copy, PartialEq, Eq, Structural)]
pub enum RunningStatus {
    /// Nothing has been started.
    OK,
    /// A search is under way.
    Running,
    /// The last request or search failed; `ErrorType` says why.
    Error,
    /// A stop was requested and the search is winding down.
    Stopping,
    /// The search ended on a stop request.
    Stopped,
    /// The search found the key.
    Found,
}

impl Default for RunningStatus {
    fn default() -> (status: Self)
        ensures
            status == RunningStatus::OK,
    {
        RunningStatus::OK
    }
}

/// Why a request or a search failed.
#[derive(Debug, Clone, Copy, PartialEq, Eq, Structural)]
pub enum ErrorType {
    /// No reason is known: the search tried its whole range and found no
    /// key, or a worker failed.
    Unknown,
    /// The alphabet is empty: no character class is chosen, or the custom
    /// character set holds nothing.
    UserCharsetEmpty,
    /// The token is empty.
    JwtTokenEmpty,
    /// The token is not made of three base64 segments.
    JwtTokenFormatError,
    /// The header names an algorithm other than HS256, HS384 and HS512.
    UnknownAlgorithmType,
    /// The header or the payload is no JSON text.
    InputJSONFormatError,
    /// The token could not be signed.
    SignJWTFailed,
}

/// What a search is started with: the range of key lengths and the choice of
/// the alphabet, either a custom character set or a set of character
/// classes.
#[derive(Debug, Clone)]
pub struct SearchParams {
    pub min_len: usize,
    pub max_len: usize,
    pub use_lowercase: bool,
    pub use_uppercase: bool,
    pub use_digits: bool,
    pub use_special: bool,
    pub use_user_charset: bool,
    pub user_charset: String,
}

impl SearchParams {
    /// The alphabet that the parameters choose.
    pub open spec fn alphabet(&self) -> Seq<char> {
        if self.use_user_charset {
            self.user_charset@
        } else {
            class_alphabet(
                self.use_lowercase,
                self.use_uppercase,
                self.use_digits,
                self.use_special,
            )
        }
    }

    /// The parameters choose no character at all.
    pub open spec fn chooses_nothing(&self) -> bool {
        if self.use_user_charset {
            self.user_charset@.len() == 0
        } else {
            !self.use_digits && !self.use_lowercase && !self.use_uppercase && !self.use_special
        }
    }

    /// Whether a search of `token` can start, and if not, why: the token
    /// must not be empty, and the parameters must choose a character.
    pub open spec fn validate_spec(&self, token: Seq<char>) -> Result<(), ErrorType> {
        if token.len() == 0 {
            Err(ErrorType::JwtTokenEmpty)
        } else if self.chooses_nothing() {
            Err(ErrorType::UserCharsetEmpty)
        } else {
            Ok(())
        }
    }

    /// Lengths 1 to 4 over the lowercase letters, the uppercase letters and
    /// the digits.
    pub fn new() -> (params: Self)
        ensures
            params.min_len == 1,
            params.max_len == 4,
            params.use_lowercase,
            params.use_uppercase,
            params.use_digits,
            !params.use_special,
            !params.use_user_charset,
            params.user_charset@.len() == 0,
    {
        SearchParams {
            min_len: 1,
            max_len: 4,
            use_lowercase: true,
            use_uppercase: true,
            use_digits: true,
            use_special: false,
            use_user_charset: false,
            user_charset: String::new(),
        }
    }

    /// Lowers the minimum length to the maximum where it lies above it.
    pub fn clamp(&mut self)
        ensures
            final(self).max_len == old(self).max_len,
            final(self).min_len == if old(self).min_len > old(self).max_len {
                old(self).max_len
            } else {
                old(self).min_len
            },
            final(self).min_len <= final(self).max_len,
            final(self).use_lowercase == old(self).use_lowercase,
            final(self).use_uppercase == old(self).use_uppercase,
            final(self).use_digits == old(self).use_digits,
            final(self).use_special == old(self).use_special,
            final(self).use_user_charset == old(self).use_user_charset,
            final(self).user_charset == old(self).user_charset,
    {
        if self.min_len > self.max_len {
            self.min_len = self.max_len;
        }
    }

    /// Whether a search of `token` can start: the token must not be empty,
    /// and the parameters must choose at least one character.
    pub fn validate(&self, token: &str) -> (r: Result<(), ErrorType>)
        ensures
            r == self.validate_spec(token@),
    {
        if token.is_empty() {
            return Err(ErrorType::JwtTokenEmpty);
        }
        if self.use_user_charset && self.user_charset.as_str().is_empty() {
            return Err(ErrorType::UserCharsetEmpty);
        }
        if !self.use_user_charset && !self.use_digits && !self.use_lowercase && !self.use_uppercase
            && !self.use_special {
            return Err(ErrorType::UserCharsetEmpty);
        }
        Ok(())
    }

    /// The generator for these parameters, watching `stop_rx`. A minimum
    /// length above the maximum counts as the maximum.
    pub fn generator(&self, stop_rx: Option<Arc<Receiver<()>>>) -> (g: CombinationGenerator)
        ensures
            g.wf(),
            g.alphabet() == self.alphabet(),
            g.min_length() == clamped_min(self.min_len, self.max_len),
            g.max_length() == self.max_len,
            g.emitted() == 0,
            !g.cancelled(),
            g.has_stop_signal() == (stop_rx is Some),
    {
        if self.use_user_charset {
            CombinationGenerator::new_with_charset(
                self.min_len,
                self.max_len,
                self.user_charset.as_str(),
                stop_rx,
            )
        } else {
            CombinationGenerator::new_with_options(
                self.min_len,
                self.max_len,
                self.use_lowercase,
                self.use_uppercase,
                self.use_digits,
                self.use_special,
                stop_rx,
            )
        }
    }
}

/// Parameters that choose a character give a non-empty alphabet: a search
/// that passed `validate` never runs over an empty one.
pub proof fn lemma_validated_alphabet(params: SearchParams)
    requires
        !params.chooses_nothing(),
    ensures
        params.alphabet().len() > 0,
{
    reveal_strlit("abcdefghijklmnopqrstuvwxyz");
    reveal_strlit("ABCDEFGHIJKLMNOPQRSTUVWXYZ");
    reveal_strlit("0123456789");
    reveal_strlit("!\"#$%&'()*+,-./:;<=>?@[\\]^_`{|}~");
}

/// `crossbeam_channel::unbounded`: a new channel without a bound on the
/// messages it holds.
#[verifier::external_body]
fn stop_channel() -> (ends: (Sender<()>, Receiver<()>)) {
    crossbeam_channel::unbounded()
}

/// `crossbeam_channel::Sender::try_send` of the unit message: offers it to
/// the channel without waiting. The message is lost where the channel is
/// full or the receiving side is gone, which is no fault here.
#[verifier::external_body]
fn send_stop(tx: &Sender<()>) {
    let _ = tx.try_send(());
}

/// The state that the owner of a search keeps: where the search stands, why
/// it failed if it did, and the sending end of its stop signal.
pub struct Session {
    pub status: RunningStatus,
    pub error_type: ErrorType,
    pub stop_tx: Option<Sender<()>>,
}

impl Session {
    /// Whether a stop signal can still be raised: a search was started and
    /// no stop was requested since.
    pub open spec fn armed(&self) -> bool {
        self.stop_tx is Some
    }

    /// A session in which nothing has been started.
    pub fn new() -> (session: Self)
        ensures
            session.status == RunningStatus::OK,
            session.error_type == ErrorType::Unknown,
            !session.armed(),
    {
        Session { status: RunningStatus::OK, error_type: ErrorType::Unknown, stop_tx: None }
    }

    /// Whether the parameters may be edited: not while a search runs or
    /// winds down.
    pub fn is_editable(&self) -> (editable: bool)
        ensures
            editable == (self.status != RunningStatus::Running && self.status
                != RunningStatus::Stopping),
    {
        self.status != RunningStatus::Running && self.status != RunningStatus::Stopping
    }

    /// Starts a search of `token`. Where the parameters allow none, the
    /// session turns to `Error` with the reason and no generator is made.
    /// Else the session is `Running`, armed with a new stop signal, and the
    /// generator returned watches that signal.
    pub fn start(&mut self, token: &str, params: &SearchParams) -> (r: Option<
        CombinationGenerator,
    >)
        ensures
            match params.validate_spec(token@) {
                Err(reason) => {
                    &&& r is None
                    &&& final(self).status == RunningStatus::Error
                    &&& final(self).error_type == reason
                    &&& final(self).stop_tx == old(self).stop_tx
                },
                Ok(_) => {
                    &&& r matches Some(g)
                    &&& g.wf()
                    &&& g.alphabet() == params.alphabet()
                    &&& g.alphabet().len() > 0
                    &&& g.min_length() == clamped_min(params.min_len, params.max_len)
                    &&& g.max_length() == params.max_len
                    &&& g.emitted() == 0
                    &&& !g.cancelled()
                    &&& g.has_stop_signal()
                    &&& final(self).status == RunningStatus::Running
                    &&& final(self).error_type == old(self).error_type
                    &&& final(self).armed()
                },
            },
    {
        match params.validate(token) {
            Err(reason) => {
                self.status = RunningStatus::Error;
                self.error_type = reason;
                None
            },
            Ok(_) => {
                let (stop_tx, stop_rx) = stop_channel();
                self.stop_tx = Some(stop_tx);
                self.status = RunningStatus::Running;
                proof {
                    lemma_validated_alphabet(*params);
                }
                Some(params.generator(Some(Arc::new(stop_rx))))
            },
        }
    }

    /// Requests the running search to stop: raises the stop signal, once,
    /// and turns to `Stopping`. Without a running search nothing happens, so
    /// a second request changes nothing.
    pub fn stop(&mut self)
        ensures
            final(self).error_type == old(self).error_type,
            old(self).status == RunningStatus::Running ==> final(self).status
                == RunningStatus::Stopping && !final(self).armed(),
            old(self).status != RunningStatus::Running ==> final(self).status == old(self).status
                && final(self).stop_tx == old(self).stop_tx,
    {
        if self.status == RunningStatus::Running {
            self.status = RunningStatus::Stopping;
            self.disarm();
        }
    }

    /// Forgets the outcome of the last search, and raises the stop signal
    /// of a search that may still run.
    pub fn clear(&mut self)
        ensures
            final(self).status == RunningStatus::OK,
            final(self).error_type == ErrorType::Unknown,
            !final(self).armed(),
    {
        self.status = RunningStatus::OK;
        self.error_type = ErrorType::Unknown;
        self.disarm();
    }

    /// Takes in the end of the search. A key that was found gives `Found`.
    /// Without a key, a search that was asked to stop gives `Stopped`; any
    /// other has tried its whole range, which gives `Error` without a
    /// reason.
    pub fn finish(&mut self, found: bool)
        ensures
            final(self).stop_tx == old(self).stop_tx,
            found ==> final(self).status == RunningStatus::Found && final(self).error_type == old(
                self,
            ).error_type,
            !found && old(self).status == RunningStatus::Stopping ==> final(self).status
                == RunningStatus::Stopped && final(self).error_type == old(self).error_type,
            !found && old(self).status != RunningStatus::Stopping ==> final(self).status
                == RunningStatus::Error && final(self).error_type == ErrorType::Unknown,
    {
        if found {
            self.status = RunningStatus::Found;
        } else if self.status == RunningStatus::Stopping {
            self.status = RunningStatus::Stopped;
        } else {
            self.status = RunningStatus::Error;
            self.error_type = ErrorType::Unknown;
        }
    }

    /// Takes in the failure of the worker that ran the search.
    pub fn fail(&mut self)
        ensures
            final(self).status == RunningStatus::Error,
            final(self).error_type == ErrorType::Unknown,
            final(self).stop_tx == old(self).stop_tx,
    {
        self.status = RunningStatus::Error;
        self.error_type = ErrorType::Unknown;
    }

    /// Raises the stop signal if it was not raised before.
    fn disarm(&mut self)
        ensures
            final(self).status == old(self).status,
            final(self).error_type == old(self).error_type,
            !final(self).armed(),
    {
        let taken = self.stop_tx.take();
        if let Some(tx) = taken {
            send_stop(&tx);
        }
    }
}

} // verus!
