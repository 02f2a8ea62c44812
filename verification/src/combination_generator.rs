//! The lazy producer of candidate keys: every string over an alphabet, by
//! ascending length and, within one length, in odometer order.

use crate::odometer::{
    count_words, counter_value, digits_in_range, lemma_count_words_split, lemma_counter_value_bound,
    lemma_digits_of_value, lemma_full_counter, lemma_increment, lemma_no_words_without_chars,
    lemma_nth_word_in_block, lemma_nth_word_some_iff, lemma_power_positive, lemma_zero_counter,
    nth_word, power, spell, total_words, word,
};
use crossbeam_channel::Receiver;
use std::sync::Arc;
use vstd::prelude::*;

verus! {

/// The receiving end of a `crossbeam_channel` channel. Nothing is known of
/// its contents: another thread fills it.
#[verifier::external_type_specification]
#[verifier::external_body]
#[verifier::reject_recursive_types(T)]
pub struct ExReceiver<T>(Receiver<T>);

/// `String::push` appends one character to the end of the string.
pub assume_specification[ String::push ](s: &mut String, ch: char)
    ensures
        final(s)@ == old(s)@.push(ch),
;

/// `crossbeam_channel::Receiver::try_recv`, reduced to whether a message was
/// taken from the channel. Whether one is waiting depends on the sending
/// side, so nothing is promised of the answer.
#[verifier::external_body]
fn stop_signalled(rx: &Receiver<()>) -> bool {
    rx.try_recv().is_ok()
}

/// The digits `0-9`, then `a-z`, then `A-Z`.
pub open spec fn alphanumeric() -> Seq<char> {
    "0123456789abcdefghijklmnopqrstuvwxyzABCDEFGHIJKLMNOPQRSTUVWXYZ"@
}

/// The letters `a-z`.
pub open spec fn lowercase() -> Seq<char> {
    "abcdefghijklmnopqrstuvwxyz"@
}

/// The letters `A-Z`.
pub open spec fn uppercase() -> Seq<char> {
    "ABCDEFGHIJKLMNOPQRSTUVWXYZ"@
}

/// The digits `0-9`.
pub open spec fn digits() -> Seq<char> {
    "0123456789"@
}

/// The ASCII punctuation characters, in code order.
pub open spec fn special() -> Seq<char> {
    "!\"#$%&'()*+,-./:;<=>?@[\\]^_`{|}~"@
}

/// The alphabet that a choice of character classes stands for: the chosen
/// classes in the order lowercase, uppercase, digits, special.
pub open spec fn class_alphabet(
    use_lowercase: bool,
    use_uppercase: bool,
    use_digits: bool,
    use_special: bool,
) -> Seq<char> {
    (if use_lowercase {
        lowercase()
    } else {
        Seq::empty()
    }) + (if use_uppercase {
        uppercase()
    } else {
        Seq::empty()
    }) + (if use_digits {
        digits()
    } else {
        Seq::empty()
    }) + (if use_special {
        special()
    } else {
        Seq::empty()
    })
}

/// The shortest length of a range that is given as `min_length` to
/// `max_length`: a minimum above the maximum is lowered to the maximum.
pub open spec fn clamped_min(min_length: usize, max_length: usize) -> nat {
    if min_length > max_length {
        max_length as nat
    } else {
        min_length as nat
    }
}

/// A vector of indices read as a counter.
pub open spec fn as_digits(indices: Seq<usize>) -> Seq<nat> {
    Seq::new(indices.len(), |p: int| indices[p] as nat)
}

/// Appends the characters of `text` to `charset`.
fn push_chars(charset: &mut Vec<char>, text: &str)
    ensures
        final(charset)@ == old(charset)@ + text@,
{
    let ghost before = charset@;
    for c in it: text.chars()
        invariant
            it.seq() == text@,
            charset@ == before + text@.take(it.index() as int),
    {
        charset.push(c);
        assert(text@.take(it.index() + 1) =~= text@.take(it.index() as int).push(c));
    }
    assert(text@.take(text@.len() as int) =~= text@);
}

/// A counter of `width` zeros.
fn zero_counter(width: usize) -> (indices: Vec<usize>)
    ensures
        indices@.len() == width,
        forall|p: int| 0 <= p < width ==> indices@[p] == 0,
{
    let mut indices: Vec<usize> = Vec::new();
    let mut filled: usize = 0;
    while filled < width
        invariant
            filled <= width,
            indices@.len() == filled,
            forall|p: int| 0 <= p < filled ==> indices@[p] == 0,
        decreases width - filled,
    {
        indices.push(0);
        filled += 1;
    }
    indices
}

/// Adds one to the counter. Returns `true` when it was at its last number:
/// then it shows zero again.
fn increment(indices: &mut Vec<usize>, base: usize) -> (wrapped: bool)
    requires
        digits_in_range(as_digits(old(indices)@), base as nat),
    ensures
        final(indices)@.len() == old(indices)@.len(),
        digits_in_range(as_digits(final(indices)@), base as nat),
        !wrapped ==> counter_value(as_digits(final(indices)@), base as nat) == counter_value(
            as_digits(old(indices)@),
            base as nat,
        ) + 1,
        wrapped ==> counter_value(as_digits(old(indices)@), base as nat) + 1 == power(
            base as nat,
            old(indices)@.len(),
        ),
        wrapped ==> forall|p: int| 0 <= p < final(indices)@.len() ==> final(indices)@[p] == 0,
{
    let ghost before = indices@;
    let mut at: usize = indices.len();
    while at > 0
        invariant
            before == old(indices)@,
            at <= indices@.len(),
            indices@.len() == before.len(),
            digits_in_range(as_digits(before), base as nat),
            forall|p: int| 0 <= p < at ==> (#[trigger] indices@[p]) == before[p],
            forall|p: int|
                at <= p < before.len() ==> (#[trigger] before[p]) + 1 == base && indices@[p] == 0,
        decreases at,
    {
        at -= 1;
        let digit: usize = indices[at];
        assert(digit == before[at as int]);
        assert(as_digits(before)[at as int] < base);
        if digit + 1 < base {
            let ghost kept = indices@;
            indices.set(at, digit + 1);
            proof {
                let b = as_digits(before);
                let a = as_digits(indices@);
                assert forall|p: int| 0 <= p < at implies (#[trigger] b[p]) == a[p] by {
                    assert(kept[p] == before[p]);
                }
                assert forall|p: int| at < p < b.len() implies (#[trigger] b[p]) + 1 == base
                    && a[p] == 0 by {
                    assert(before[p] + 1 == base);
                    assert(kept[p] == 0);
                }
                assert forall|p: int| 0 <= p < a.len() implies (#[trigger] a[p]) < base by {
                    assert(b[p] < base);
                    if p < at {
                        assert(b[p] == a[p]);
                    } else if p > at {
                        assert(b[p] + 1 == base && a[p] == 0);
                    }
                }
                lemma_increment(b, a, base as nat, at as int);
            }
            return false;
        }
        indices.set(at, 0);
    }
    proof {
        let b = as_digits(before);
        assert forall|p: int| 0 <= p < b.len() implies (#[trigger] b[p]) + 1 == base by {
            assert(before[p] + 1 == base);
        }
        lemma_full_counter(b, base as nat);
        assert forall|p: int| 0 <= p < indices@.len() implies indices@[p] == 0 by {
            assert(before[p] + 1 == base && indices@[p] == 0);
        }
        assert forall|p: int| 0 <= p < indices@.len() implies (#[trigger] as_digits(indices@)[p])
            < base by {
            assert(before[p] + 1 == base && indices@[p] == 0);
        }
    }
    true
}

/// The string that the counter spells over `charset`.
fn spell_word(charset: &Vec<char>, indices: &Vec<usize>) -> (text: String)
    requires
        digits_in_range(as_digits(indices@), charset@.len()),
    ensures
        text@ == spell(charset@, as_digits(indices@)),
{
    let mut text = String::new();
    let mut at: usize = 0;
    while at < indices.len()
        invariant
            at <= indices@.len(),
            digits_in_range(as_digits(indices@), charset@.len()),
            text@ == spell(charset@, as_digits(indices@)).take(at as int),
        decreases indices@.len() - at,
    {
        let index: usize = indices[at];
        assert(as_digits(indices@)[at as int] < charset@.len());
        text.push(charset[index]);
        at += 1;
        assert(text@ =~= spell(charset@, as_digits(indices@)).take(at as int));
    }
    assert(text@ =~= spell(charset@, as_digits(indices@)));
    text
}

/// A stateful producer of every string over its alphabet with a length from
/// `min_length` to `max_length`: shorter strings first, the strings of one
/// length in odometer order. It can watch a stop signal, and once it has seen
/// the signal it produces nothing more.
pub struct CombinationGenerator {
    charset: Vec<char>,
    current_length: usize,
    min_length: usize,
    max_length: usize,
    indices: Vec<usize>,
    is_new_length: bool,
    finished: bool,
    cancelled: bool,
    stop_rx: Option<Arc<Receiver<()>>>,
}

impl CombinationGenerator {
    /// The characters that the strings are made of, in their order.
    pub closed spec fn alphabet(&self) -> Seq<char> {
        self.charset@
    }

    /// The length of the shortest strings produced.
    pub closed spec fn min_length(&self) -> nat {
        self.min_length as nat
    }

    /// The length of the longest strings produced.
    pub closed spec fn max_length(&self) -> nat {
        self.max_length as nat
    }

    /// The length of the strings that are being produced.
    pub closed spec fn current_length(&self) -> nat {
        self.current_length as nat
    }

    /// The odometer: one alphabet index for each position of the string
    /// produced last.
    pub closed spec fn index_vector(&self) -> Seq<nat> {
        as_digits(self.indices@)
    }

    /// Whether the odometer is still to be set to zero for the current
    /// length. It is so only before the first string.
    pub closed spec fn is_new_length(&self) -> bool {
        self.is_new_length
    }

    /// Whether the generator watches a stop signal.
    pub closed spec fn has_stop_signal(&self) -> bool {
        self.stop_rx is Some
    }

    /// Whether the generator has seen its stop signal.
    pub closed spec fn cancelled(&self) -> bool {
        self.cancelled
    }

    /// How many strings a whole run of this generator produces.
    pub open spec fn total(&self) -> nat {
        total_words(self.alphabet().len(), self.min_length(), self.max_length())
    }

    /// How many strings the generator has produced so far.
    pub closed spec fn emitted(&self) -> nat {
        if self.is_new_length {
            0
        } else if self.finished {
            self.total()
        } else {
            count_words(self.charset@.len(), self.min_length as nat, self.current_length as nat)
                + counter_value(as_digits(self.indices@), self.charset@.len()) + 1
        }
    }

    /// Whether every string of the range has been produced.
    pub open spec fn exhausted(&self) -> bool {
        self.emitted() >= self.total()
    }

    /// The invariant of the generator's state.
    pub closed spec fn wf(&self) -> bool {
        &&& self.cancelled ==> self.stop_rx is Some
        &&& self.min_length <= self.max_length
        &&& self.is_new_length ==> !self.finished && self.current_length == self.min_length
        &&& !self.is_new_length && !self.finished ==> {
            &&& self.min_length <= self.current_length <= self.max_length
            &&& self.indices@.len() == self.current_length
            &&& digits_in_range(as_digits(self.indices@), self.charset@.len())
        }
    }

    /// A generator over the digits, the lowercase and the uppercase letters,
    /// for the lengths `min_length` to `max_length`. A minimum above the
    /// maximum is lowered to the maximum.
    pub fn new(min_length: usize, max_length: usize, stop_rx: Option<Arc<Receiver<()>>>) -> (g:
        Self)
        ensures
            g.wf(),
            g.alphabet() == alphanumeric(),
            g.min_length() == clamped_min(min_length, max_length),
            g.max_length() == max_length,
            g.current_length() == g.min_length(),
            g.is_new_length(),
            g.emitted() == 0,
            !g.cancelled(),
            g.has_stop_signal() == (stop_rx is Some),
    {
        let mut charset: Vec<char> = Vec::new();
        push_chars(&mut charset, "0123456789abcdefghijklmnopqrstuvwxyzABCDEFGHIJKLMNOPQRSTUVWXYZ");
        Self::with_alphabet(min_length, max_length, charset, stop_rx)
    }

    /// A generator over the characters of `charset`, in the order in which
    /// they stand there, for the lengths `min_length` to `max_length`. A
    /// minimum above the maximum is lowered to the maximum.
    pub fn new_with_charset(
        min_length: usize,
        max_length: usize,
        charset: &str,
        stop_rx: Option<Arc<Receiver<()>>>,
    ) -> (g: Self)
        ensures
            g.wf(),
            g.alphabet() == charset@,
            g.min_length() == clamped_min(min_length, max_length),
            g.max_length() == max_length,
            g.current_length() == g.min_length(),
            g.is_new_length(),
            g.emitted() == 0,
            !g.cancelled(),
            g.has_stop_signal() == (stop_rx is Some),
    {
        let mut chars: Vec<char> = Vec::new();
        push_chars(&mut chars, charset);
        Self::with_alphabet(min_length, max_length, chars, stop_rx)
    }

    /// A generator over the chosen character classes, in the order
    /// lowercase, uppercase, digits, special, for the lengths `min_length` to
    /// `max_length`. A minimum above the maximum is lowered to the maximum.
    pub fn new_with_options(
        min_length: usize,
        max_length: usize,
        use_lowercase: bool,
        use_uppercase: bool,
        use_digits: bool,
        use_special: bool,
        stop_rx: Option<Arc<Receiver<()>>>,
    ) -> (g: Self)
        ensures
            g.wf(),
            g.alphabet() == class_alphabet(use_lowercase, use_uppercase, use_digits, use_special),
            g.min_length() == clamped_min(min_length, max_length),
            g.max_length() == max_length,
            g.current_length() == g.min_length(),
            g.is_new_length(),
            g.emitted() == 0,
            !g.cancelled(),
            g.has_stop_signal() == (stop_rx is Some),
    {
        let mut charset: Vec<char> = Vec::new();
        if use_lowercase {
            push_chars(&mut charset, "abcdefghijklmnopqrstuvwxyz");
        }
        if use_uppercase {
            push_chars(&mut charset, "ABCDEFGHIJKLMNOPQRSTUVWXYZ");
        }
        if use_digits {
            push_chars(&mut charset, "0123456789");
        }
        if use_special {
            push_chars(&mut charset, "!\"#$%&'()*+,-./:;<=>?@[\\]^_`{|}~");
        }
        Self::with_alphabet(min_length, max_length, charset, stop_rx)
    }

    fn with_alphabet(
        min_length: usize,
        max_length: usize,
        charset: Vec<char>,
        stop_rx: Option<Arc<Receiver<()>>>,
    ) -> (g: Self)
        ensures
            g.wf(),
            g.alphabet() == charset@,
            g.min_length() == clamped_min(min_length, max_length),
            g.max_length() == max_length,
            g.current_length() == g.min_length(),
            g.is_new_length(),
            g.emitted() == 0,
            !g.cancelled(),
            g.has_stop_signal() == (stop_rx is Some),
    {
        let min_length = if min_length > max_length {
            max_length
        } else {
            min_length
        };
        CombinationGenerator {
            charset,
            current_length: min_length,
            min_length,
            max_length,
            indices: Vec::new(),
            is_new_length: true,
            finished: false,
            cancelled: false,
            stop_rx,
        }
    }

    /// Sets the odometer to zero for the current length and spells the first
    /// string of that length; ends the run where that length has no string.
    fn first_of_length(&mut self) -> (r: Option<String>)
        requires
            old(self).min_length <= old(self).current_length <= old(self).max_length,
            !old(self).finished,
            old(self).cancelled ==> old(self).stop_rx is Some,
        ensures
            final(self).wf(),
            final(self).charset == old(self).charset,
            final(self).min_length == old(self).min_length,
            final(self).max_length == old(self).max_length,
            final(self).current_length == old(self).current_length,
            final(self).stop_rx == old(self).stop_rx,
            final(self).cancelled == old(self).cancelled,
            !final(self).is_new_length,
            match r {
                Some(text) => {
                    &&& !final(self).finished
                    &&& text@ == word(final(self).charset@, final(self).current_length as nat, 0)
                    &&& text@ == spell(final(self).charset@, as_digits(final(self).indices@))
                    &&& counter_value(as_digits(final(self).indices@), final(self).charset@.len())
                        == 0
                    &&& 0 < power(final(self).charset@.len(), final(self).current_length as nat)
                },
                None => {
                    &&& final(self).finished
                    &&& count_words(
                        final(self).charset@.len(),
                        final(self).current_length as nat,
                        final(self).max_length as nat + 1,
                    ) == 0
                },
            },
    {
        self.is_new_length = false;
        if self.charset.len() == 0 && self.current_length > 0 {
            self.finished = true;
            proof {
                lemma_no_words_without_chars(
                    self.current_length as nat,
                    self.max_length as nat + 1,
                );
            }
            return None;
        }
        self.indices = zero_counter(self.current_length);
        proof {
            let digits = as_digits(self.indices@);
            let base = self.charset@.len();
            assert forall|p: int| 0 <= p < digits.len() implies (#[trigger] digits[p]) == 0 by {
                assert(self.indices@[p] == 0);
            }
            if base > 0 {
                lemma_power_positive(base, self.current_length as nat);
            }
            lemma_zero_counter(digits, base);
            lemma_digits_of_value(digits, base);
        }
        Some(spell_word(&self.charset, &self.indices))
    }

    /// Produces the next string of the run, or `None` when the generator has
    /// seen its stop signal or every string has been produced.
    ///
    /// A generator that is not yet cancelled looks at its stop signal, if it
    /// has one, and goes on as `next_given` states it for what it saw there.
    /// Whether the signal is raised is for the sending side to say, so the
    /// contract states what holds either way: a cancelled generator returns
    /// `None` and stays where it is, and any other returns the string at
    /// place `emitted()` of the enumeration, or `None` at its end.
    pub fn next(&mut self) -> (r: Option<String>)
        requires
            old(self).wf(),
        ensures
            final(self).wf(),
            final(self).alphabet() == old(self).alphabet(),
            final(self).min_length() == old(self).min_length(),
            final(self).max_length() == old(self).max_length(),
            final(self).has_stop_signal() == old(self).has_stop_signal(),
            old(self).cancelled() ==> final(self).cancelled(),
            !old(self).has_stop_signal() ==> !final(self).cancelled(),
            final(self).cancelled() ==> r is None && final(self).emitted() == old(self).emitted(),
            !final(self).cancelled() ==> match r {
                Some(text) => {
                    &&& nth_word(
                        old(self).alphabet(),
                        old(self).min_length(),
                        old(self).max_length(),
                        old(self).emitted(),
                    ) == Some(text@)
                    &&& final(self).emitted() == old(self).emitted() + 1
                    &&& !final(self).is_new_length()
                    &&& final(self).min_length() <= final(self).current_length()
                        <= final(self).max_length()
                    &&& final(self).index_vector().len() == final(self).current_length()
                    &&& digits_in_range(final(self).index_vector(), final(self).alphabet().len())
                    &&& text@ == spell(final(self).alphabet(), final(self).index_vector())
                    &&& final(self).emitted() == count_words(
                        final(self).alphabet().len(),
                        final(self).min_length(),
                        final(self).current_length(),
                    ) + counter_value(final(self).index_vector(), final(self).alphabet().len()) + 1
                },
                None => {
                    &&& old(self).exhausted()
                    &&& final(self).emitted() == old(self).emitted()
                },
            },
    {
        let stop_seen = if self.cancelled {
            false
        } else {
            match &self.stop_rx {
                Some(rx) => stop_signalled(rx),
                None => false,
            }
        };
        self.next_given(stop_seen)
    }

    /// Produces the next string of the run, given whether the stop signal
    /// was seen raised.
    ///
    /// A raised signal cancels the generator, and a cancelled generator
    /// stays cancelled: it returns `None` and does not move. Otherwise the
    /// call returns the string that stands at place `emitted()` of the
    /// enumeration, and `None` exactly when the enumeration has ended. After
    /// a string the odometer holds the indices of its characters, and the
    /// number that the odometer shows is the rank of the string among those
    /// of its length.
    pub fn next_given(&mut self, stop_seen: bool) -> (r: Option<String>)
        requires
            old(self).wf(),
            stop_seen ==> old(self).has_stop_signal(),
        ensures
            final(self).wf(),
            final(self).alphabet() == old(self).alphabet(),
            final(self).min_length() == old(self).min_length(),
            final(self).max_length() == old(self).max_length(),
            final(self).has_stop_signal() == old(self).has_stop_signal(),
            final(self).cancelled() == (old(self).cancelled() || stop_seen),
            final(self).cancelled() ==> r is None && final(self).emitted() == old(self).emitted(),
            !final(self).cancelled() ==> match r {
                Some(text) => {
                    &&& nth_word(
                        old(self).alphabet(),
                        old(self).min_length(),
                        old(self).max_length(),
                        old(self).emitted(),
                    ) == Some(text@)
                    &&& final(self).emitted() == old(self).emitted() + 1
                    &&& !final(self).is_new_length()
                    &&& final(self).min_length() <= final(self).current_length()
                        <= final(self).max_length()
                    &&& final(self).index_vector().len() == final(self).current_length()
                    &&& digits_in_range(final(self).index_vector(), final(self).alphabet().len())
                    &&& text@ == spell(final(self).alphabet(), final(self).index_vector())
                    &&& final(self).emitted() == count_words(
                        final(self).alphabet().len(),
                        final(self).min_length(),
                        final(self).current_length(),
                    ) + counter_value(final(self).index_vector(), final(self).alphabet().len()) + 1
                },
                None => {
                    &&& old(self).exhausted()
                    &&& final(self).emitted() == old(self).emitted()
                },
            },
    {
        if self.cancelled {
            return None;
        }
        if stop_seen {
            self.cancelled = true;
            return None;
        }
        let ghost base = self.charset@.len();
        let ghost min = self.min_length as nat;
        let ghost max = self.max_length as nat;
        let ghost place = self.emitted();
        proof {
            lemma_nth_word_some_iff(self.charset@, min, max, place);
        }
        if self.finished || self.current_length > self.max_length {
            return None;
        }
        if self.is_new_length {
            let first = self.first_of_length();
            proof {
                assert(count_words(base, min, min) == 0);
                if first is Some {
                    lemma_nth_word_in_block(self.charset@, min, max, min, 0);
                }
            }
            return first;
        }
        let ghost before = as_digits(self.indices@);
        let wrapped = increment(&mut self.indices, self.charset.len());
        if !wrapped {
            proof {
                let digits = as_digits(self.indices@);
                lemma_counter_value_bound(digits, base);
                lemma_digits_of_value(digits, base);
                lemma_nth_word_in_block(
                    self.charset@,
                    min,
                    max,
                    self.current_length as nat,
                    counter_value(digits, base),
                );
            }
            return Some(spell_word(&self.charset, &self.indices));
        }
        let ghost length = self.current_length as nat;
        proof {
            lemma_count_words_split(base, min, length, length + 1);
            lemma_count_words_split(base, min, length + 1, max + 1);
            assert(count_words(base, length + 1, length + 1) == 0);
            assert(count_words(base, length, length + 1) == power(base, length));
            assert(place == count_words(base, min, length + 1));
        }
        if self.current_length >= self.max_length {
            self.finished = true;
            return None;
        }
        self.current_length += 1;
        let first = self.first_of_length();
        proof {
            if first is Some {
                lemma_nth_word_in_block(self.charset@, min, max, length + 1, 0);
            }
        }
        first
    }

    /// Whether the generator has seen its stop signal.
    pub fn is_cancelled(&self) -> (c: bool)
        ensures
            c == self.cancelled(),
    {
        self.cancelled
    }
}

} // verus!
