//! The mathematics of odometer enumeration: fixed-width counters in base
//! `n`, the words they spell over an alphabet, and the order in which all
//! words of a range of lengths are visited.

use vstd::prelude::*;

verus! {

/// `base` to the power `exp`.
pub open spec fn power(base: nat, exp: nat) -> nat
    decreases exp,
{
    if exp == 0 {
        1
    } else {
        base * power(base, (exp - 1) as nat)
    }
}

/// Every digit is a valid index into an alphabet of `base` characters.
pub open spec fn digits_in_range(digits: Seq<nat>, base: nat) -> bool {
    forall|p: int| 0 <= p < digits.len() ==> (#[trigger] digits[p]) < base
}

/// The number that a counter shows, most significant digit first.
pub open spec fn counter_value(digits: Seq<nat>, base: nat) -> nat
    decreases digits.len(),
{
    if digits.len() == 0 {
        0
    } else {
        counter_value(digits.drop_last(), base) * base + digits.last()
    }
}

/// The counter of `width` digits that shows `value`.
pub open spec fn counter_digits(width: nat, value: nat, base: nat) -> Seq<nat>
    decreases width,
{
    if width == 0 {
        Seq::empty()
    } else {
        counter_digits((width - 1) as nat, value / base, base).push(value % base)
    }
}

/// The string that a counter spells: each digit picks a character.
pub open spec fn spell(alphabet: Seq<char>, digits: Seq<nat>) -> Seq<char> {
    Seq::new(digits.len(), |p: int| alphabet[digits[p] as int])
}

/// The word of `width` characters with rank `rank` among all words of that
/// width, in the alphabet's order.
pub open spec fn word(alphabet: Seq<char>, width: nat, rank: nat) -> Seq<char> {
    spell(alphabet, counter_digits(width, rank, alphabet.len()))
}

/// How many words there are with a length of at least `from` and less than
/// `end`: the sum of `base^len` over that range.
pub open spec fn count_words(base: nat, from: nat, end: nat) -> nat
    decreases end - from,
{
    if from >= end {
        0
    } else {
        power(base, from) + count_words(base, from + 1, end)
    }
}

/// How many words an enumeration over the lengths `min` to `max` visits.
pub open spec fn total_words(base: nat, min: nat, max: nat) -> nat {
    count_words(base, min, max + 1)
}

/// The `i`-th word (counting from zero) of the enumeration that starts at
/// length `from`: all words of one length in counter order, then the next
/// length, up to `max`. `None` once every word has been visited.
pub open spec fn nth_word(alphabet: Seq<char>, from: nat, max: nat, i: nat) -> Option<Seq<char>>
    decreases max + 1 - from,
{
    if from > max {
        None
    } else if i < power(alphabet.len(), from) {
        Some(word(alphabet, from, i))
    } else {
        nth_word(alphabet, from + 1, max, (i - power(alphabet.len(), from)) as nat)
    }
}

/// No character occurs twice in the alphabet.
pub open spec fn distinct_chars(alphabet: Seq<char>) -> bool {
    forall|a: int, b: int|
        0 <= a < alphabet.len() && 0 <= b < alphabet.len() && a != b ==> alphabet[a] != alphabet[b]
}

/// `a` comes strictly before `b` when both are read as counters of the same
/// width: they agree up to some position, where `a` has the smaller digit.
pub open spec fn counter_before(a: Seq<nat>, b: Seq<nat>) -> bool {
    &&& a.len() == b.len()
    &&& exists|p: int|
        0 <= p < a.len() && a.subrange(0, p) == b.subrange(0, p) && a[p] < #[trigger] b[p]
}

/// A power of a positive base is positive: every length has a word.
pub proof fn lemma_power_positive(base: nat, exp: nat)
    requires
        base > 0,
    ensures
        power(base, exp) > 0,
    decreases exp,
{
    if exp > 0 {
        lemma_power_positive(base, (exp - 1) as nat);
        assert(base * power(base, (exp - 1) as nat) > 0) by (nonlinear_arith)
            requires
                base > 0,
                power(base, (exp - 1) as nat) > 0,
        ;
    }
}

/// With no characters there are no words, except the empty one.
pub proof fn lemma_power_of_zero(exp: nat)
    ensures
        power(0, exp) == if exp == 0 { 1nat } else { 0nat },
{
    if exp > 0 {
        assert(0 * power(0, (exp - 1) as nat) == 0);
    }
}

/// Over an empty alphabet there is no word of positive length.
pub proof fn lemma_no_words_without_chars(from: nat, end: nat)
    requires
        from >= 1,
    ensures
        count_words(0, from, end) == 0,
    decreases end - from,
{
    if from < end {
        lemma_power_of_zero(from);
        lemma_no_words_without_chars(from + 1, end);
    }
}

/// The words of the lengths `from..end` are those of `from..mid` and those
/// of `mid..end`.
pub proof fn lemma_count_words_split(base: nat, from: nat, mid: nat, end: nat)
    requires
        from <= mid <= end,
    ensures
        count_words(base, from, end) == count_words(base, from, mid) + count_words(base, mid, end),
    decreases mid - from,
{
    if from < mid {
        lemma_count_words_split(base, from + 1, mid, end);
    }
}

/// The words of one length occupy a block of consecutive places: the word
/// of length `len` and rank `rank` comes after all shorter words.
pub proof fn lemma_nth_word_in_block(alphabet: Seq<char>, from: nat, max: nat, len: nat, rank: nat)
    requires
        from <= len <= max,
        rank < power(alphabet.len(), len),
    ensures
        nth_word(alphabet, from, max, count_words(alphabet.len(), from, len) + rank) == Some(
            word(alphabet, len, rank),
        ),
    decreases len - from,
{
    if from < len {
        lemma_nth_word_in_block(alphabet, from + 1, max, len, rank);
    }
}

/// The enumeration ends exactly after `total_words` words.
pub proof fn lemma_nth_word_some_iff(alphabet: Seq<char>, from: nat, max: nat, i: nat)
    ensures
        nth_word(alphabet, from, max, i) is Some <==> i < total_words(alphabet.len(), from, max),
    decreases max + 1 - from,
{
    if from <= max {
        if i >= power(alphabet.len(), from) {
            lemma_nth_word_some_iff(
                alphabet,
                from + 1,
                max,
                (i - power(alphabet.len(), from)) as nat,
            );
        }
    }
}

/// A counter of `width` digits in range shows a number below `base^width`.
pub proof fn lemma_counter_value_bound(digits: Seq<nat>, base: nat)
    requires
        digits_in_range(digits, base),
    ensures
        counter_value(digits, base) < power(base, digits.len()),
    decreases digits.len(),
{
    if digits.len() > 0 {
        let front = digits.drop_last();
        lemma_counter_value_bound(front, base);
        let v = counter_value(front, base);
        let q = power(base, front.len());
        let d = digits.last();
        assert(d < base);
        assert(v * base + d < base * q) by (nonlinear_arith)
            requires
                v < q,
                d < base,
        ;
    }
}

/// The digits of the number that a counter shows are the counter itself.
pub proof fn lemma_digits_of_value(digits: Seq<nat>, base: nat)
    requires
        digits_in_range(digits, base),
    ensures
        counter_digits(digits.len(), counter_value(digits, base), base) == digits,
    decreases digits.len(),
{
    if digits.len() == 0 {
        assert(counter_digits(0, counter_value(digits, base), base) =~= digits);
    } else {
        let front = digits.drop_last();
        lemma_digits_of_value(front, base);
        let v = counter_value(front, base);
        let d = digits.last();
        assert(d < base);
        assert((v * base + d) / base == v && (v * base + d) % base == d) by {
            vstd::arithmetic::div_mod::lemma_fundamental_div_mod_converse(
                (v * base + d) as int,
                base as int,
                v as int,
                d as int,
            );
        }
        assert(front.push(digits.last()) =~= digits);
    }
}

/// The counter that shows a number below `base^width` has `width` digits in
/// range, and shows that number.
pub proof fn lemma_value_of_digits(width: nat, value: nat, base: nat)
    requires
        value < power(base, width),
    ensures
        counter_digits(width, value, base).len() == width,
        digits_in_range(counter_digits(width, value, base), base),
        counter_value(counter_digits(width, value, base), base) == value,
    decreases width,
{
    if width > 0 {
        let q = power(base, (width - 1) as nat);
        assert(base > 0) by {
            if base == 0 {
                assert(0 * q == 0);
            }
        }
        assert(value / base < q) by {
            vstd::arithmetic::div_mod::lemma_fundamental_div_mod(value as int, base as int);
            assert(value / base < q) by (nonlinear_arith)
                requires
                    value < base * q,
                    base > 0,
                    value == base * (value / base) + value % base,
                    0 <= value % base < base,
            ;
        }
        lemma_value_of_digits((width - 1) as nat, value / base, base);
        let front = counter_digits((width - 1) as nat, value / base, base);
        let digits = counter_digits(width, value, base);
        assert(digits == front.push(value % base));
        assert(digits.drop_last() =~= front);
        assert(value % base < base) by {
            vstd::arithmetic::div_mod::lemma_mod_bound(value as int, base as int);
        }
        assert(value == (value / base) * base + value % base) by {
            vstd::arithmetic::div_mod::lemma_fundamental_div_mod(value as int, base as int);
            assert(base * (value / base) == (value / base) * base) by (nonlinear_arith);
        }
    }
}

/// A counter of zeros shows zero.
pub proof fn lemma_zero_counter(digits: Seq<nat>, base: nat)
    requires
        forall|p: int| 0 <= p < digits.len() ==> (#[trigger] digits[p]) == 0,
    ensures
        counter_value(digits, base) == 0,
    decreases digits.len(),
{
    if digits.len() > 0 {
        lemma_zero_counter(digits.drop_last(), base);
        assert(0 * base == 0);
    }
}

/// A counter whose digits are all `base - 1` shows the last number of its
/// width.
pub proof fn lemma_full_counter(digits: Seq<nat>, base: nat)
    requires
        forall|p: int| 0 <= p < digits.len() ==> (#[trigger] digits[p]) + 1 == base,
    ensures
        counter_value(digits, base) + 1 == power(base, digits.len()),
    decreases digits.len(),
{
    if digits.len() > 0 {
        let front = digits.drop_last();
        lemma_full_counter(front, base);
        let v = counter_value(front, base);
        let q = power(base, front.len());
        assert(v * base + digits.last() + 1 == base * q) by (nonlinear_arith)
            requires
                v + 1 == q,
                digits.last() + 1 == base,
        ;
    }
}

/// Adding one to a counter: the digits after position `at` roll over from
/// `base - 1` to zero, the digit at `at` goes up by one, the digits before
/// it stay.
pub proof fn lemma_increment(before: Seq<nat>, after: Seq<nat>, base: nat, at: int)
    requires
        before.len() == after.len(),
        0 <= at < before.len(),
        after[at] == before[at] + 1,
        forall|p: int| 0 <= p < at ==> (#[trigger] before[p]) == after[p],
        forall|p: int|
            at < p < before.len() ==> (#[trigger] before[p]) + 1 == base && after[p] == 0,
    ensures
        counter_value(after, base) == counter_value(before, base) + 1,
    decreases before.len(),
{
    if at == before.len() - 1 {
        assert(before.drop_last() =~= after.drop_last());
    } else {
        let fb = before.drop_last();
        let fa = after.drop_last();
        assert forall|p: int| at < p < fb.len() implies (#[trigger] fb[p]) + 1 == base && fa[p]
            == 0 by {
            assert(fb[p] == before[p] && fa[p] == after[p]);
        }
        assert forall|p: int| 0 <= p < at implies (#[trigger] fb[p]) == fa[p] by {
            assert(fb[p] == before[p] && fa[p] == after[p]);
        }
        assert(before[before.len() - 1] + 1 == base && after[before.len() - 1] == 0);
        lemma_increment(fb, fa, base, at);
        let v = counter_value(before.drop_last(), base);
        assert((v + 1) * base == v * base + base) by (nonlinear_arith);
    }
}

/// Two counters of one width that show the same number are the same.
pub proof fn lemma_counter_value_injective(a: Seq<nat>, b: Seq<nat>, base: nat)
    requires
        a.len() == b.len(),
        digits_in_range(a, base),
        digits_in_range(b, base),
        counter_value(a, base) == counter_value(b, base),
    ensures
        a == b,
{
    lemma_digits_of_value(a, base);
    lemma_digits_of_value(b, base);
}

/// The smaller of two numbers has the counter that comes first.
pub proof fn lemma_counter_order(a: Seq<nat>, b: Seq<nat>, base: nat)
    requires
        a.len() == b.len(),
        digits_in_range(a, base),
        digits_in_range(b, base),
        counter_value(a, base) < counter_value(b, base),
    ensures
        counter_before(a, b),
    decreases a.len(),
{
    if a.len() > 0 {
        let fa = a.drop_last();
        let fb = b.drop_last();
        let va = counter_value(fa, base);
        let vb = counter_value(fb, base);
        assert(a.last() < base && b.last() < base);
        if va < vb {
            lemma_counter_order(fa, fb, base);
            let p = choose|p: int|
                0 <= p < fa.len() && fa.subrange(0, p) == fb.subrange(0, p) && fa[p] < #[trigger] fb[p];
            assert(a.subrange(0, p) =~= fa.subrange(0, p));
            assert(b.subrange(0, p) =~= fb.subrange(0, p));
            assert(a[p] == fa[p] && b[p] == fb[p]);
        } else if va == vb {
            lemma_counter_value_injective(fa, fb, base);
            let p = a.len() - 1;
            assert(a.subrange(0, p) =~= fa);
            assert(b.subrange(0, p) =~= fb);
            assert(a[p] < b[p]);
        } else {
            assert(va * base + a.last() >= vb * base + b.last()) by (nonlinear_arith)
                requires
                    va > vb,
                    b.last() < base,
            ;
        }
    }
}

/// Over an alphabet without repeated characters, different counters spell
/// different strings.
pub proof fn lemma_spell_injective(alphabet: Seq<char>, a: Seq<nat>, b: Seq<nat>)
    requires
        distinct_chars(alphabet),
        digits_in_range(a, alphabet.len()),
        digits_in_range(b, alphabet.len()),
        spell(alphabet, a) == spell(alphabet, b),
    ensures
        a == b,
{
    assert(a.len() == spell(alphabet, a).len());
    assert(b.len() == spell(alphabet, b).len());
    assert forall|p: int| 0 <= p < a.len() implies a[p] == b[p] by {
        assert(spell(alphabet, a)[p] == alphabet[a[p] as int]);
        assert(spell(alphabet, b)[p] == alphabet[b[p] as int]);
    }
    assert(a =~= b);
}

/// A word has as many characters as its width.
pub proof fn lemma_word_len(alphabet: Seq<char>, width: nat, rank: nat)
    requires
        rank < power(alphabet.len(), width),
    ensures
        word(alphabet, width, rank).len() == width,
{
    lemma_value_of_digits(width, rank, alphabet.len());
}

/// The enumeration visits exactly `base^len` words of each length `len` of
/// its range, one after the other: the places from
/// `count_words(base, from, len)` on hold the words of length `len`, in the
/// order of their ranks.
pub proof fn lemma_words_of_one_length(
    alphabet: Seq<char>,
    from: nat,
    max: nat,
    len: nat,
    i: nat,
)
    requires
        from <= len <= max,
        count_words(alphabet.len(), from, len) <= i < count_words(alphabet.len(), from, len + 1),
    ensures
        i - count_words(alphabet.len(), from, len) < power(alphabet.len(), len),
        nth_word(alphabet, from, max, i) == Some(
            word(alphabet, len, (i - count_words(alphabet.len(), from, len)) as nat),
        ),
        nth_word(alphabet, from, max, i)->0.len() == len,
{
    let base = alphabet.len();
    let rank = (i - count_words(base, from, len)) as nat;
    lemma_count_words_split(base, from, len, len + 1);
    assert(count_words(base, len + 1, len + 1) == 0);
    assert(count_words(base, len, len + 1) == power(base, len));
    lemma_nth_word_in_block(alphabet, from, max, len, rank);
    lemma_word_len(alphabet, len, rank);
}

/// Every word that the enumeration visits has a length of its range and
/// stands among the `base^len` places of that length.
pub proof fn lemma_place_of_word(alphabet: Seq<char>, from: nat, max: nat, i: nat)
    requires
        nth_word(alphabet, from, max, i) is Some,
    ensures
        from <= nth_word(alphabet, from, max, i)->0.len() <= max,
        count_words(alphabet.len(), from, nth_word(alphabet, from, max, i)->0.len()) <= i,
        i < count_words(alphabet.len(), from, nth_word(alphabet, from, max, i)->0.len() + 1),
    decreases max + 1 - from,
{
    let base = alphabet.len();
    if i < power(base, from) {
        lemma_word_len(alphabet, from, i);
        assert(count_words(base, from, from) == 0);
        assert(count_words(base, from + 1, from + 1) == 0);
        assert(count_words(base, from, from + 1) == power(base, from));
    } else {
        let rest = (i - power(base, from)) as nat;
        lemma_place_of_word(alphabet, from + 1, max, rest);
        let len = nth_word(alphabet, from, max, i)->0.len();
        assert(count_words(base, from, len) == power(base, from) + count_words(
            base,
            from + 1,
            len,
        ));
        assert(count_words(base, from, len + 1) == power(base, from) + count_words(
            base,
            from + 1,
            len + 1,
        ));
    }
}

/// Over an alphabet without repeated characters no word is visited twice:
/// different places of the enumeration hold different words.
pub proof fn lemma_no_word_twice(alphabet: Seq<char>, from: nat, max: nat, i: nat, j: nat)
    requires
        distinct_chars(alphabet),
        i != j,
        nth_word(alphabet, from, max, i) is Some,
        nth_word(alphabet, from, max, j) is Some,
    ensures
        nth_word(alphabet, from, max, i) != nth_word(alphabet, from, max, j),
{
    let base = alphabet.len();
    let wi = nth_word(alphabet, from, max, i)->0;
    let wj = nth_word(alphabet, from, max, j)->0;
    lemma_place_of_word(alphabet, from, max, i);
    lemma_place_of_word(alphabet, from, max, j);
    if wi.len() == wj.len() {
        let len = wi.len();
        lemma_words_of_one_length(alphabet, from, max, len, i);
        lemma_words_of_one_length(alphabet, from, max, len, j);
        let ri = (i - count_words(base, from, len)) as nat;
        let rj = (j - count_words(base, from, len)) as nat;
        lemma_value_of_digits(len, ri, base);
        lemma_value_of_digits(len, rj, base);
        if wi == wj {
            lemma_spell_injective(
                alphabet,
                counter_digits(len, ri, base),
                counter_digits(len, rj, base),
            );
        }
    }
}

/// Within one length the enumeration counts upward in the base of the
/// alphabet: of two words of that length, the one with the smaller rank has
/// the index vector that comes first, and each word is spelled by the counter
/// that shows its rank.
pub proof fn lemma_order_within_length(
    alphabet: Seq<char>,
    from: nat,
    max: nat,
    len: nat,
    earlier: nat,
    later: nat,
)
    requires
        from <= len <= max,
        earlier < later < power(alphabet.len(), len),
    ensures
        nth_word(alphabet, from, max, count_words(alphabet.len(), from, len) + earlier) == Some(
            spell(alphabet, counter_digits(len, earlier, alphabet.len())),
        ),
        nth_word(alphabet, from, max, count_words(alphabet.len(), from, len) + later) == Some(
            spell(alphabet, counter_digits(len, later, alphabet.len())),
        ),
        counter_value(counter_digits(len, earlier, alphabet.len()), alphabet.len()) == earlier,
        counter_value(counter_digits(len, later, alphabet.len()), alphabet.len()) == later,
        counter_before(
            counter_digits(len, earlier, alphabet.len()),
            counter_digits(len, later, alphabet.len()),
        ),
{
    let base = alphabet.len();
    lemma_nth_word_in_block(alphabet, from, max, len, earlier);
    lemma_nth_word_in_block(alphabet, from, max, len, later);
    lemma_value_of_digits(len, earlier, base);
    lemma_value_of_digits(len, later, base);
    lemma_counter_order(
        counter_digits(len, earlier, base),
        counter_digits(len, later, base),
        base,
    );
}

} // verus!
