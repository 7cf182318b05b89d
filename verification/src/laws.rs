//! What holds of classification, whatever the specifier.

use crate::advisory::{applicable, entry_applies, unmet_count, SecurityDatabase};
use crate::dependency::{latest_among, published};
use crate::numeral::{decimal, digit_char, digit_value, is_digit, numeral_value};
use crate::order::{
    lemma_precedence_is_asymmetric, lemma_precedence_is_total, lemma_precedence_is_transitive,
};
use crate::parse::{
    chain_run, classified, components, declared, is_blank, longest_chain, failure_of, is_numeral, is_partial_release_text,
    is_release_text, parse_result, release_of, settled, strict_outcome, unparsed, ParseFailure,
    MORE_INPUT,
};
use crate::report::{is_behind, is_current, no_totals, totals_over, EntryValue};
use crate::specifier::{
    cleaned_of, holds_stripped, is_stripped, kept_test, lemma_nothing_stripped, occurrences,
    operator_test, operators_of, padded,
};
use crate::version::{
    display_text, dotted, exceeds, release, same_precedence, well_formed, SemVerValue,
    VersionValue,
};
use vstd::prelude::*;

verus! {

/// Whether `c` occurs nowhere in `text`.
pub open spec fn free_of(text: Seq<char>, c: char) -> bool {
    forall|i: int| 0 <= i < text.len() ==> #[trigger] text[i] != c
}

/// Whether `text` is made of digits and dots alone.
pub open spec fn digits_and_dots(text: Seq<char>) -> bool {
    forall|i: int| 0 <= i < text.len() ==> is_digit(#[trigger] text[i]) || text[i] == '.'
}

/// Two components joined by a dot.
pub open spec fn joined(a: Seq<char>, b: Seq<char>) -> Seq<char> {
    a + seq!['.'] + b
}

/// A character that occurs nowhere is counted zero times.
pub proof fn lemma_free_of_counts_zero(text: Seq<char>, c: char)
    requires
        free_of(text, c),
    ensures
        occurrences(text, c) == 0,
    decreases text.len(),
{
    if text.len() > 0 {
        assert(text[text.len() - 1] != c);
        assert forall|i: int| 0 <= i < text.drop_last().len() implies #[trigger] text.drop_last()[i]
            != c by {
            assert(text.drop_last()[i] == text[i]);
        }
        lemma_free_of_counts_zero(text.drop_last(), c);
    }
}

/// Occurrences add up over a concatenation.
pub proof fn lemma_occurrences_concat(a: Seq<char>, b: Seq<char>, c: char)
    ensures
        occurrences(a + b, c) == occurrences(a, c) + occurrences(b, c),
    decreases b.len(),
{
    if b.len() == 0 {
        assert(a + b =~= a);
    } else {
        lemma_occurrences_concat(a, b.drop_last(), c);
        assert((a + b).drop_last() =~= a + b.drop_last());
        assert((a + b).last() == b.last());
    }
}

/// A text without a dot is its own single component.
pub proof fn lemma_single_component(text: Seq<char>)
    requires
        free_of(text, '.'),
    ensures
        components(text) == seq![text],
    decreases text.len(),
{
    if text.len() == 0 {
        assert(text =~= Seq::<char>::empty());
    } else {
        let front = text.drop_last();
        assert(text[text.len() - 1] != '.');
        assert forall|i: int| 0 <= i < front.len() implies #[trigger] front[i] != '.' by {
            assert(front[i] == text[i]);
        }
        lemma_single_component(front);
        assert(components(front).drop_last().push(front.push(text.last())) =~= seq![text]) by {
            assert(front.push(text.last()) =~= text);
        }
    }
}

/// A dot and a text without a dot add one component.
pub proof fn lemma_next_component(head: Seq<char>, tail: Seq<char>)
    requires
        free_of(tail, '.'),
    ensures
        components(joined(head, tail)) == components(head).push(tail),
    decreases tail.len(),
{
    let text = joined(head, tail);
    if tail.len() == 0 {
        assert(text.drop_last() =~= head);
        assert(text.last() == '.');
        assert(tail =~= Seq::<char>::empty());
    } else {
        let front = tail.drop_last();
        assert(tail[tail.len() - 1] != '.');
        assert forall|i: int| 0 <= i < front.len() implies #[trigger] front[i] != '.' by {
            assert(front[i] == tail[i]);
        }
        lemma_next_component(head, front);
        assert(text.drop_last() =~= joined(head, front));
        assert(text.last() == tail.last());
        assert(front.push(tail.last()) =~= tail);
        assert(components(head).push(front).drop_last() =~= components(head));
    }
}

/// A numeric component holds no dot, no hyphen, no operator and no space.
pub proof fn lemma_numeral_is_plain(digits: Seq<char>)
    requires
        is_numeral(digits),
    ensures
        free_of(digits, '.'),
        free_of(digits, '-'),
        digits_and_dots(digits),
{
    assert forall|i: int| 0 <= i < digits.len() implies #[trigger] digits[i] != '.' && digits[i]
        != '-' by {
        assert(is_digit(digits[i]));
    }
}

/// A text without a hyphen has no hyphen in any identifier.
pub proof fn lemma_no_hyphen_no_chain(text: Seq<char>)
    requires
        free_of(text, '-'),
    ensures
        chain_run(text) == 0,
        longest_chain(text) == 0,
    decreases text.len(),
{
    if text.len() > 0 {
        assert(text[text.len() - 1] != '-');
        assert forall|i: int| 0 <= i < text.drop_last().len() implies #[trigger] text.drop_last()[i]
            != '-' by {
            assert(text.drop_last()[i] == text[i]);
        }
        lemma_no_hyphen_no_chain(text.drop_last());
    }
}

/// What follows a text without bringing a hyphen makes no identifier longer.
pub proof fn lemma_tail_without_hyphen(text: Seq<char>, tail: Seq<char>)
    requires
        free_of(tail, '-'),
    ensures
        chain_run(text + tail) <= chain_run(text),
        longest_chain(text + tail) == longest_chain(text),
    decreases tail.len(),
{
    if tail.len() == 0 {
        assert(text + tail =~= text);
    } else {
        let front = tail.drop_last();
        assert(tail[tail.len() - 1] != '-');
        assert forall|i: int| 0 <= i < front.len() implies #[trigger] front[i] != '-' by {
            assert(front[i] == tail[i]);
        }
        lemma_tail_without_hyphen(text, front);
        assert((text + tail).drop_last() =~= text + front);
        assert((text + tail).last() == tail.last());
        lemma_run_is_within_longest(text);
    }
}

/// The hyphens at the end of a text are no more than the most in one of its
/// identifiers.
pub proof fn lemma_run_is_within_longest(text: Seq<char>)
    ensures
        chain_run(text) <= longest_chain(text),
{
}

/// Padding leaves the identifiers as they are: a text is refused for a long
/// identifier exactly where its padded text is.
pub proof fn lemma_padding_keeps_chains(text: Seq<char>)
    ensures
        longest_chain(padded(text)) == longest_chain(text),
{
    lemma_tail_without_hyphen(text, seq!['.', '0', '.', '0']);
    lemma_tail_without_hyphen(text, seq!['.', '0']);
}

/// A text of digits and dots is its own value string, and holds no hyphen.
pub proof fn lemma_digits_and_dots_are_kept(text: Seq<char>)
    requires
        digits_and_dots(text),
    ensures
        cleaned_of(text) == text,
        operators_of(text) == Seq::<char>::empty(),
        occurrences(text, '-') == 0,
        longest_chain(text) == 0,
{
    assert(free_of(text, '-')) by {
        assert forall|i: int| 0 <= i < text.len() implies #[trigger] text[i] != '-' by {
            assert(is_digit(text[i]) || text[i] == '.');
        }
    }
    lemma_no_hyphen_no_chain(text);
    assert forall|i: int| 0 <= i < text.len() implies !is_stripped(#[trigger] text[i]) && text[i]
        != '-' by {
        assert(is_digit(text[i]) || text[i] == '.');
    }
    lemma_nothing_stripped(text);
    lemma_free_of_counts_zero(text, '-');
}

/// The single digit `0` is a numeric component of value zero.
pub proof fn lemma_zero_is_numeral()
    ensures
        is_numeral(seq!['0']),
        numeral_value(seq!['0']) == 0,
{
    let zero = seq!['0'];
    assert(zero.drop_last() =~= Seq::<char>::empty());
    assert(numeral_value(zero.drop_last()) == 0);
    assert(zero.last() == '0');
    assert(digit_value('0') == 0);
    assert(numeral_value(zero) == 0);
}

/// Three numeric components joined by dots make a release text, with those
/// components.
pub proof fn lemma_release_components(a: Seq<char>, b: Seq<char>, c: Seq<char>)
    requires
        is_numeral(a),
        is_numeral(b),
        is_numeral(c),
    ensures
        components(joined(joined(a, b), c)) == seq![a, b, c],
        is_release_text(joined(joined(a, b), c)),
        digits_and_dots(joined(joined(a, b), c)),
{
    lemma_numeral_is_plain(a);
    lemma_numeral_is_plain(b);
    lemma_numeral_is_plain(c);
    lemma_single_component(a);
    lemma_next_component(a, b);
    lemma_next_component(joined(a, b), c);
    let text = joined(joined(a, b), c);
    assert(components(text) =~= seq![a, b, c]);
    assert forall|i: int| 0 <= i < text.len() implies is_digit(#[trigger] text[i]) || text[i]
        == '.' by {
        if i < a.len() {
            assert(text[i] == a[i]);
        } else if i == a.len() {
        } else if i < a.len() + 1 + b.len() {
            assert(text[i] == b[i - a.len() - 1]);
        } else if i == a.len() + 1 + b.len() {
        } else {
            assert(text[i] == c[i - a.len() - b.len() - 2]);
        }
    }
}

/// A release text of digits and dots parses to the release that it denotes,
/// and is classified as that semantic version.
pub proof fn lemma_release_text_is_semantic(text: Seq<char>)
    requires
        is_release_text(text),
        digits_and_dots(text),
    ensures
        parse_result(text) == Ok::<SemVerValue, ParseFailure>(release_of(text)),
        classified(text) == VersionValue::Semantic(release_of(text)),
        declared(text) == VersionValue::Semantic(release_of(text)),
{
    lemma_digits_and_dots_are_kept(text);
    assert(strict_outcome(text) == Ok::<SemVerValue, Seq<char>>(release_of(text)));
    assert(parse_result(text) == Ok::<SemVerValue, ParseFailure>(release_of(text)));
}

/// A text of one or two numeric components is classified as its padded text
/// is.
pub proof fn lemma_partial_text_is_padded(text: Seq<char>)
    requires
        is_partial_release_text(text),
        digits_and_dots(text),
    ensures
        classified(text) == settled(text, parse_result(padded(text))),
        declared(text) == settled(text, parse_result(padded(text))),
{
    lemma_digits_and_dots_are_kept(text);
    assert(!is_release_text(text));
    assert(strict_outcome(text) == Err::<SemVerValue, Seq<char>>(MORE_INPUT@));
    assert(failure_of(MORE_INPUT@) == ParseFailure::NeedsMoreInput);
    assert(parse_result(text) == Err::<SemVerValue, ParseFailure>(ParseFailure::NeedsMoreInput));
}

/// Every specifier made of three numeric components joined by dots is
/// classified as the semantic version of exactly those three numbers.
pub proof fn lemma_three_components_are_semantic(a: Seq<char>, b: Seq<char>, c: Seq<char>)
    requires
        is_numeral(a),
        is_numeral(b),
        is_numeral(c),
    ensures
        declared(joined(joined(a, b), c)) == VersionValue::Semantic(
            release(
                numeral_value(a) as u64,
                numeral_value(b) as u64,
                numeral_value(c) as u64,
            ),
        ),
{
    let text = joined(joined(a, b), c);
    lemma_release_components(a, b, c);
    lemma_release_text_is_semantic(text);
    assert(components(text)[0] == a);
    assert(components(text)[1] == b);
    assert(components(text)[2] == c);
}

/// A dot-free text followed by a dot and a dot-free text holds one dot.
pub proof fn lemma_joined_has_one_dot(a: Seq<char>, b: Seq<char>)
    requires
        free_of(a, '.'),
        free_of(b, '.'),
    ensures
        occurrences(joined(a, b), '.') == 1,
{
    lemma_occurrences_concat(a, seq!['.'], '.');
    lemma_occurrences_concat(a + seq!['.'], b, '.');
    lemma_free_of_counts_zero(a, '.');
    lemma_free_of_counts_zero(b, '.');
    assert(seq!['.'].drop_last() =~= Seq::<char>::empty());
    assert(occurrences(seq!['.'].drop_last(), '.') == 0);
    assert(seq!['.'].last() == '.');
    assert(occurrences(seq!['.'], '.') == 1);
}

/// Two numeric components joined by a dot make a partial release text.
pub proof fn lemma_partial_components(a: Seq<char>, b: Seq<char>)
    requires
        is_numeral(a),
        is_numeral(b),
    ensures
        is_partial_release_text(joined(a, b)),
        digits_and_dots(joined(a, b)),
        padded(joined(a, b)) == joined(joined(a, b), seq!['0']),
{
    let text = joined(a, b);
    lemma_numeral_is_plain(a);
    lemma_numeral_is_plain(b);
    lemma_single_component(a);
    lemma_next_component(a, b);
    assert(components(text) =~= seq![a, b]);
    assert forall|i: int| 0 <= i < text.len() implies is_digit(#[trigger] text[i]) || text[i]
        == '.' by {
        if i < a.len() {
            assert(text[i] == a[i]);
        } else if i == a.len() {
        } else {
            assert(text[i] == b[i - a.len() - 1]);
        }
    }
    lemma_joined_has_one_dot(a, b);
    assert(padded(text) =~= joined(text, seq!['0']));
}

/// A specifier of two numeric components is classified as the semantic
/// version of those two numbers and a patch of zero.
pub proof fn lemma_two_components_are_padded(a: Seq<char>, b: Seq<char>)
    requires
        is_numeral(a),
        is_numeral(b),
    ensures
        declared(joined(a, b)) == VersionValue::Semantic(
            release(numeral_value(a) as u64, numeral_value(b) as u64, 0),
        ),
{
    let text = joined(a, b);
    let zero = seq!['0'];
    lemma_zero_is_numeral();
    lemma_partial_components(a, b);
    lemma_partial_text_is_padded(text);
    lemma_three_components_are_semantic(a, b, zero);
    lemma_release_components(a, b, zero);
    lemma_release_text_is_semantic(joined(text, zero));
}

/// One numeric component makes a partial release text.
pub proof fn lemma_lone_component(a: Seq<char>)
    requires
        is_numeral(a),
    ensures
        is_partial_release_text(a),
        digits_and_dots(a),
        padded(a) == joined(joined(a, seq!['0']), seq!['0']),
{
    lemma_numeral_is_plain(a);
    lemma_single_component(a);
    assert(components(a)[0] == a);
    lemma_free_of_counts_zero(a, '.');
    assert(padded(a) =~= joined(joined(a, seq!['0']), seq!['0']));
}

/// A specifier of one numeric component is classified as the semantic version
/// of that number, with minor and patch of zero.
pub proof fn lemma_one_component_is_padded(a: Seq<char>)
    requires
        is_numeral(a),
    ensures
        declared(a) == VersionValue::Semantic(release(numeral_value(a) as u64, 0, 0)),
{
    let zero = seq!['0'];
    lemma_zero_is_numeral();
    lemma_lone_component(a);
    lemma_partial_text_is_padded(a);
    lemma_three_components_are_semantic(a, zero, zero);
    lemma_release_components(a, zero, zero);
    lemma_release_text_is_semantic(joined(joined(a, zero), zero));
}

/// A text of operators and spaces alone has an empty value string.
pub proof fn lemma_all_stripped(raw: Seq<char>)
    requires
        forall|i: int| 0 <= i < raw.len() ==> is_stripped(#[trigger] raw[i]),
    ensures
        cleaned_of(raw) == Seq::<char>::empty(),
    decreases raw.len(),
{
    reveal(Seq::filter);
    if raw.len() > 0 {
        let front = raw.drop_last();
        assert(is_stripped(raw[raw.len() - 1]));
        assert forall|i: int| 0 <= i < front.len() implies is_stripped(#[trigger] front[i]) by {
            assert(front[i] == raw[i]);
        }
        lemma_all_stripped(front);
    }
}

/// The empty value string is classified as unspecified.
pub proof fn lemma_empty_is_unspecified()
    ensures
        classified(Seq::<char>::empty()) == VersionValue::Unspecified,
{
    let empty = Seq::<char>::empty();
    let zero = seq!['0'];
    let filled = seq!['.', '0', '.', '0'];
    assert(components(empty) =~= seq![empty]);
    assert(!is_numeral(components(empty)[0]));
    assert(!is_release_text(empty));
    assert(!is_partial_release_text(empty));
    assert(strict_outcome(empty) is Err);
    assert(parse_result(empty) is Err);
    assert(padded(empty) =~= filled);
    assert(filled =~= joined(joined(empty, zero), zero));
    assert(free_of(zero, '.'));
    lemma_next_component(empty, zero);
    lemma_next_component(joined(empty, zero), zero);
    assert(components(filled)[0] == empty);
    assert(!is_release_text(filled));
    assert(!is_partial_release_text(filled));
    assert(strict_outcome(filled) is Err);
    assert(parse_result(filled) is Err);
    assert(unparsed(empty) == VersionValue::Unspecified);
}

/// A specifier made of operators and spaces alone, the empty one among them,
/// is classified as unspecified.
pub proof fn lemma_operators_alone_are_unspecified(raw: Seq<char>)
    requires
        forall|i: int| 0 <= i < raw.len() ==> is_stripped(#[trigger] raw[i]),
    ensures
        declared(raw) == VersionValue::Unspecified,
{
    lemma_all_stripped(raw);
    lemma_empty_is_unspecified();
}

/// A value string holds no operator and no space.
pub proof fn lemma_cleaned_is_plain(raw: Seq<char>)
    ensures
        !holds_stripped(cleaned_of(raw)),
    decreases raw.len(),
{
    reveal(Seq::filter);
    if raw.len() > 0 {
        lemma_cleaned_is_plain(raw.drop_last());
        let front = cleaned_of(raw.drop_last());
        let cleaned = cleaned_of(raw);
        assert forall|i: int| 0 <= i < cleaned.len() implies !is_stripped(#[trigger] cleaned[i]) by {
            if i < front.len() {
                assert(cleaned[i] == front[i]);
            }
        }
    }
}

/// A value string that begins with anything but a digit or white space, a
/// word such as a branch name, is kept as it is: it is classified as opaque.
pub proof fn lemma_word_is_opaque(cleaned: Seq<char>)
    requires
        cleaned.len() > 0,
        !is_digit(cleaned[0]),
        !is_blank(cleaned[0]),
    ensures
        classified(cleaned) == VersionValue::Opaque(cleaned),
{
    lemma_first_component_begins(cleaned);
    assert(!is_numeral(components(cleaned)[0]));
    assert(parse_result(cleaned) is Err);
    let filled = padded(cleaned);
    assert(filled[0] == cleaned[0]);
    lemma_first_component_begins(filled);
    assert(!is_numeral(components(filled)[0]));
    assert(parse_result(filled) is Err);
}

/// A specifier without operators and spaces that begins with anything but a
/// digit or white space is classified as opaque, with the text as written.
pub proof fn lemma_plain_word_is_opaque(raw: Seq<char>)
    requires
        !holds_stripped(raw),
        raw.len() > 0,
        !is_digit(raw[0]),
        !is_blank(raw[0]),
    ensures
        declared(raw) == VersionValue::Opaque(raw),
{
    lemma_nothing_stripped(raw);
    lemma_word_is_opaque(raw);
}

/// The first component of a text that is not empty begins as the text does;
/// it is empty where the text begins with a dot.
pub proof fn lemma_first_component_begins(text: Seq<char>)
    requires
        text.len() > 0,
    ensures
        components(text).len() >= 1,
        text[0] == '.' ==> components(text).len() >= 2 && components(text)[0].len() == 0,
        text[0] != '.' ==> components(text)[0].len() > 0 && components(text)[0][0] == text[0],
    decreases text.len(),
{
    let front = text.drop_last();
    if front.len() == 0 {
        assert(components(front) =~= seq![Seq::<char>::empty()]);
        assert(text.last() == text[0]);
    } else {
        assert(front[0] == text[0]);
        lemma_first_component_begins(front);
    }
}

/// Stripping is idempotent: a value string holds nothing more to strip, so
/// it is its own value string and has no operators.
pub proof fn lemma_strip_is_idempotent(raw: Seq<char>)
    ensures
        cleaned_of(cleaned_of(raw)) == cleaned_of(raw),
        operators_of(cleaned_of(raw)) == Seq::<char>::empty(),
        declared(cleaned_of(raw)) == declared(raw),
{
    lemma_cleaned_is_plain(raw);
    lemma_nothing_stripped(cleaned_of(raw));
}

/// Stripping goes part by part: the value string and the operators of a
/// concatenation are those of its parts, in order.
pub proof fn lemma_strip_concat(a: Seq<char>, b: Seq<char>)
    ensures
        cleaned_of(a + b) == cleaned_of(a) + cleaned_of(b),
        operators_of(a + b) == operators_of(a) + operators_of(b),
{
    Seq::filter_distributes_over_add(a, b, kept_test());
    Seq::filter_distributes_over_add(a, b, operator_test());
}

/// Where an operator or a space stands in a specifier has no bearing on the
/// classification: with it or without it, at any place, the value string is
/// the same.
pub proof fn lemma_operator_place_is_irrelevant(a: Seq<char>, b: Seq<char>, c: char)
    requires
        is_stripped(c),
    ensures
        cleaned_of(a + seq![c] + b) == cleaned_of(a + b),
        declared(a + seq![c] + b) == declared(a + b),
{
    lemma_strip_concat(a, seq![c]);
    lemma_strip_concat(a + seq![c], b);
    lemma_strip_concat(a, b);
    assert(forall|i: int| 0 <= i < seq![c].len() ==> is_stripped(#[trigger] seq![c][i]));
    lemma_all_stripped(seq![c]);
    assert(cleaned_of(a) + Seq::<char>::empty() =~= cleaned_of(a));
}

/// Every classification is well formed: only text that is not empty is kept
/// as an opaque version, and an empty value string is never semantic.
pub proof fn lemma_classification_is_well_formed(raw: Seq<char>)
    ensures
        well_formed(declared(raw)),
        cleaned_of(raw).len() == 0 <==> declared(raw) is Unspecified,
{
    let cleaned = cleaned_of(raw);
    if cleaned.len() == 0 {
        assert(cleaned =~= Seq::<char>::empty());
        lemma_empty_is_unspecified();
    }
}

/// The latest version of a listing is the start value `0.0.0` or one of the
/// entries.
pub proof fn lemma_latest_is_listed(entries: Seq<Seq<char>>)
    ensures
        latest_among(entries) == release(0, 0, 0) || exists|i: int|
            0 <= i < entries.len() && #[trigger] published(entries[i]) == Ok::<
                SemVerValue,
                ParseFailure,
            >(latest_among(entries)),
    decreases entries.len(),
{
    if entries.len() > 0 {
        let front = entries.drop_last();
        lemma_latest_is_listed(front);
        let last = entries.len() - 1;
        if latest_among(entries) == latest_among(front) {
            if latest_among(front) != release(0, 0, 0) {
                let i = choose|i: int|
                    0 <= i < front.len() && #[trigger] published(front[i]) == Ok::<
                        SemVerValue,
                        ParseFailure,
                    >(latest_among(front));
                assert(front[i] == entries[i]);
                assert(published(entries[i]) == Ok::<SemVerValue, ParseFailure>(
                    latest_among(entries),
                ));
            }
        } else {
            assert(published(entries[last]) == Ok::<SemVerValue, ParseFailure>(
                latest_among(entries),
            ));
        }
    }
}

/// The start value `0.0.0` never ranks above the latest version.
pub proof fn lemma_latest_is_at_least_zero(entries: Seq<Seq<char>>)
    ensures
        !exceeds(release(0, 0, 0), latest_among(entries)),
    decreases entries.len(),
{
    let zero = release(0, 0, 0);
    lemma_precedence_is_asymmetric(zero, zero);
    if entries.len() > 0 {
        let front = entries.drop_last();
        lemma_latest_is_at_least_zero(front);
        if latest_among(entries) != latest_among(front) {
            if exceeds(zero, latest_among(entries)) {
                lemma_precedence_is_transitive(zero, latest_among(entries), latest_among(front));
            }
        }
    }
}

/// In whatever order a listing comes, no entry that can be read ranks above
/// the latest version.
pub proof fn lemma_latest_is_maximal(entries: Seq<Seq<char>>, i: int)
    requires
        0 <= i < entries.len(),
    ensures
        match published(entries[i]) {
            Ok(v) => !exceeds(v, latest_among(entries)),
            Err(_) => true,
        },
    decreases entries.len(),
{
    let front = entries.drop_last();
    let latest = latest_among(entries);
    match published(entries[i]) {
        Ok(v) => {
            if i < entries.len() - 1 {
                lemma_latest_is_maximal(front, i);
                assert(front[i] == entries[i]);
                if latest != latest_among(front) && exceeds(v, latest) {
                    lemma_precedence_is_transitive(v, latest, latest_among(front));
                }
            } else {
                lemma_precedence_is_asymmetric(v, v);
            }
        },
        Err(_) => {},
    }
}

/// Whether every version that can be read in the listing `a` can be read in
/// the listing `b`.
pub open spec fn lists_all_of(b: Seq<Seq<char>>, a: Seq<Seq<char>>) -> bool {
    forall|i: int|
        0 <= i < a.len() && (#[trigger] published(a[i])) is Ok ==> exists|j: int|
            0 <= j < b.len() && published(a[i]) == #[trigger] published(b[j])
}

/// The latest version of a listing does not rank above that of a listing
/// that holds every version of the first.
pub proof fn lemma_latest_grows_with_the_listing(a: Seq<Seq<char>>, b: Seq<Seq<char>>)
    requires
        lists_all_of(b, a),
    ensures
        !exceeds(latest_among(a), latest_among(b)),
{
    lemma_latest_is_listed(a);
    if latest_among(a) == release(0, 0, 0) {
        lemma_latest_is_at_least_zero(b);
    } else {
        let i = choose|i: int|
            0 <= i < a.len() && #[trigger] published(a[i]) == Ok::<SemVerValue, ParseFailure>(
                latest_among(a),
            );
        let j = choose|j: int| 0 <= j < b.len() && published(a[i]) == #[trigger] published(b[j]);
        lemma_latest_is_maximal(b, j);
    }
}

/// Two listings that hold the same versions, in whatever order and however
/// often, have the same latest version, build metadata aside.
pub proof fn lemma_latest_ignores_order(a: Seq<Seq<char>>, b: Seq<Seq<char>>)
    requires
        lists_all_of(b, a),
        lists_all_of(a, b),
    ensures
        same_precedence(latest_among(a), latest_among(b)),
{
    lemma_latest_grows_with_the_listing(a, b);
    lemma_latest_grows_with_the_listing(b, a);
    lemma_precedence_is_total(latest_among(a), latest_among(b), latest_among(a));
}

/// A version is current against itself, and against nothing that is no
/// semantic version: text is never current, not even against the same text.
pub proof fn lemma_current_only_between_semantic(local: VersionValue, remote: VersionValue)
    ensures
        is_current(local, remote) ==> local is Semantic && remote is Semantic,
        local is Semantic ==> is_current(local, local),
        is_current(local, remote) == is_current(remote, local),
{
}

/// A version that is current is not behind.
pub proof fn lemma_current_is_not_behind(local: VersionValue, remote: VersionValue)
    requires
        is_current(local, remote),
    ensures
        !is_behind(local, remote),
{
    match (local, remote) {
        (VersionValue::Semantic(a), VersionValue::Semantic(b)) => {
            lemma_precedence_is_total(b, a, a);
        },
        _ => {},
    }
}

/// An advisory without patch information counts, whatever the declared
/// version: a list of advisories that holds one counts at least one.
pub proof fn lemma_unpatched_advisory_counts(
    patches: Seq<Option<Seq<Seq<char>>>>,
    local: VersionValue,
    i: int,
)
    requires
        0 <= i < patches.len(),
        patches[i] is None,
    ensures
        applicable(patches, local) >= 1,
    decreases patches.len(),
{
    if i < patches.len() - 1 {
        lemma_unpatched_advisory_counts(patches.drop_last(), local, i);
    }
}

/// A single advisory without patch information counts exactly one.
pub proof fn lemma_lone_unpatched_advisory(local: VersionValue)
    ensures
        applicable(seq![None], local) == 1,
{
    let patches: Seq<Option<Seq<Seq<char>>>> = seq![None];
    assert(patches.drop_last() =~= Seq::empty());
    assert(applicable(patches.drop_last(), local) == 0);
    assert(patches.last() is None);
}

/// The count of a single advisory with a single patched version is one where
/// that entry applies and zero where it does not.
pub proof fn lemma_single_entry_count(patched: Seq<char>, local: VersionValue)
    ensures
        applicable(seq![Some(seq![patched])], local) == if entry_applies(patched, local) {
            1nat
        } else {
            0nat
        },
{
    let list = seq![patched];
    let patches = seq![Some(list)];
    assert(patches.drop_last() =~= Seq::empty());
    assert(applicable(patches.drop_last(), local) == 0);
    assert(patches.last() == Some(list));
    assert(list.drop_last() =~= Seq::empty());
    assert(unmet_count(list.drop_last(), local) == 0);
    assert(list.last() == patched);
}

/// A declared version that has caught up has no more entries against it:
/// where `newer` does not rank below `older`, the count against `newer` is no
/// higher than the count against `older`.
pub proof fn lemma_count_falls_as_version_rises(
    patches: Seq<Option<Seq<Seq<char>>>>,
    older: SemVerValue,
    newer: SemVerValue,
)
    requires
        !exceeds(older, newer),
    ensures
        applicable(patches, VersionValue::Semantic(newer)) <= applicable(
            patches,
            VersionValue::Semantic(older),
        ),
    decreases patches.len(),
{
    if patches.len() > 0 {
        lemma_count_falls_as_version_rises(patches.drop_last(), older, newer);
        match patches.last() {
            Some(patched) => lemma_unmet_falls_as_version_rises(patched, older, newer),
            None => {},
        }
    }
}

/// Of one list of patched versions, no more entries stand against a version
/// than against one that does not rank above it.
pub proof fn lemma_unmet_falls_as_version_rises(
    patched: Seq<Seq<char>>,
    older: SemVerValue,
    newer: SemVerValue,
)
    requires
        !exceeds(older, newer),
    ensures
        unmet_count(patched, VersionValue::Semantic(newer)) <= unmet_count(
            patched,
            VersionValue::Semantic(older),
        ),
    decreases patched.len(),
{
    if patched.len() > 0 {
        lemma_unmet_falls_as_version_rises(patched.drop_last(), older, newer);
        match parse_result(cleaned_of(patched.last())) {
            Ok(threshold) => {
                if exceeds(threshold, newer) {
                    lemma_precedence_is_total(newer, older, threshold);
                    if exceeds(newer, older) {
                        lemma_precedence_is_transitive(threshold, newer, older);
                    }
                }
            },
            Err(_) => {},
        }
    }
}

/// A patched version that is a release text of digits and dots applies to a
/// semantic version that is below that release, and to anything that is no
/// semantic version.
pub proof fn lemma_release_entry(text: Seq<char>, local: VersionValue)
    requires
        is_release_text(text),
        digits_and_dots(text),
    ensures
        entry_applies(text, local) == match local {
            VersionValue::Semantic(pinned) => exceeds(release_of(text), pinned),
            _ => true,
        },
{
    lemma_release_text_is_semantic(text);
    lemma_digits_and_dots_are_kept(text);
}

/// An advisory whose single patched version is three numeric components
/// counts once against a semantic version below that release, not at all
/// against one that has reached it, and once against anything that is no
/// semantic version.
pub proof fn lemma_release_threshold(a: Seq<char>, b: Seq<char>, c: Seq<char>, local: VersionValue)
    requires
        is_numeral(a),
        is_numeral(b),
        is_numeral(c),
    ensures
        applicable(seq![Some(seq![joined(joined(a, b), c)])], local) == match local {
            VersionValue::Semantic(pinned) => if exceeds(
                release(
                    numeral_value(a) as u64,
                    numeral_value(b) as u64,
                    numeral_value(c) as u64,
                ),
                pinned,
            ) {
                1nat
            } else {
                0nat
            },
            _ => 1nat,
        },
{
    let text = joined(joined(a, b), c);
    lemma_release_components(a, b, c);
    assert(release_of(text) == release(
        numeral_value(a) as u64,
        numeral_value(b) as u64,
        numeral_value(c) as u64,
    )) by {
        assert(components(text)[0] == a);
        assert(components(text)[1] == b);
        assert(components(text)[2] == c);
    }
    lemma_release_entry(text, local);
    lemma_single_entry_count(text, local);
}

/// A digit stands for a number under ten, and that number's digit is the
/// digit itself.
pub proof fn lemma_digit_round_trip(c: char)
    requires
        is_digit(c),
    ensures
        digit_value(c) < 10,
        digit_char(digit_value(c)) == c,
{
    assert('0' as u32 == 48);
    assert('1' as u32 == 49);
    assert('2' as u32 == 50);
    assert('3' as u32 == 51);
    assert('4' as u32 == 52);
    assert('5' as u32 == 53);
    assert('6' as u32 == 54);
    assert('7' as u32 == 55);
    assert('8' as u32 == 56);
    assert('9' as u32 == 57);
    assert(digit_char(digit_value(c)) as u32 == c as u32);
}

/// A number under ten is the value of its digit.
pub proof fn lemma_digit_of_number(d: nat)
    requires
        d < 10,
    ensures
        is_digit(digit_char(d)),
        digit_value(digit_char(d)) == d,
{
    assert('0' as u32 == 48);
    assert('1' as u32 == 49);
    assert('2' as u32 == 50);
    assert('3' as u32 == 51);
    assert('4' as u32 == 52);
    assert('5' as u32 == 53);
    assert('6' as u32 == 54);
    assert('7' as u32 == 55);
    assert('8' as u32 == 56);
    assert('9' as u32 == 57);
}

/// The decimal text of a number is a run of digits without a leading zero
/// that denotes the number.
pub proof fn lemma_decimal_denotes(n: nat)
    ensures
        decimal(n).len() > 0,
        forall|i: int| 0 <= i < decimal(n).len() ==> is_digit(#[trigger] decimal(n)[i]),
        n >= 1 ==> decimal(n)[0] != '0',
        numeral_value(decimal(n)) == n,
    decreases n,
{
    if n < 10 {
        lemma_digit_of_number(n);
        let text = seq![digit_char(n)];
        assert(text.drop_last() =~= Seq::<char>::empty());
        assert(numeral_value(text.drop_last()) == 0);
        assert(text.last() == digit_char(n));
    } else {
        lemma_decimal_denotes(n / 10);
        lemma_digit_of_number(n % 10);
        let front = decimal(n / 10);
        let text = front.push(digit_char(n % 10));
        assert(text.drop_last() =~= front);
        assert(text.last() == digit_char(n % 10));
        assert(text[0] == front[0]);
        assert forall|i: int| 0 <= i < text.len() implies is_digit(#[trigger] text[i]) by {
            if i < front.len() {
                assert(text[i] == front[i]);
            }
        }
    }
}

/// The decimal text of a number that fits 64 bits is a numeric component.
pub proof fn lemma_decimal_is_numeral(n: u64)
    ensures
        is_numeral(decimal(n as nat)),
        numeral_value(decimal(n as nat)) == n,
{
    lemma_decimal_denotes(n as nat);
    lemma_decimal_denotes(0);
    if decimal(n as nat).len() > 1 {
        assert(n >= 1) by {
            if n == 0 {
                assert(decimal(0).len() == 1);
            }
        }
    }
}

/// A run of digits that does not begin with `0` denotes a number above zero.
pub proof fn lemma_value_is_positive(digits: Seq<char>)
    requires
        digits.len() > 0,
        forall|i: int| 0 <= i < digits.len() ==> is_digit(#[trigger] digits[i]),
        digits[0] != '0',
    ensures
        numeral_value(digits) >= 1,
    decreases digits.len(),
{
    let front = digits.drop_last();
    if front.len() == 0 {
        assert(digits.last() == digits[0]);
        lemma_digit_round_trip(digits[0]);
        assert(digit_value(digits[0]) != 0) by {
            if digit_value(digits[0]) == 0 {
                assert(digit_char(0) == '0');
            }
        }
    } else {
        assert(front[0] == digits[0]);
        assert forall|i: int| 0 <= i < front.len() implies is_digit(#[trigger] front[i]) by {
            assert(front[i] == digits[i]);
        }
        lemma_value_is_positive(front);
    }
}

/// A run of digits without a leading zero is the decimal text of the number
/// that it denotes.
pub proof fn lemma_digits_are_decimal(digits: Seq<char>)
    requires
        digits.len() > 0,
        forall|i: int| 0 <= i < digits.len() ==> is_digit(#[trigger] digits[i]),
        digits.len() > 1 ==> digits[0] != '0',
    ensures
        decimal(numeral_value(digits)) == digits,
    decreases digits.len(),
{
    let front = digits.drop_last();
    let last = digits.last();
    assert(is_digit(digits[digits.len() - 1]));
    lemma_digit_round_trip(last);
    if front.len() == 0 {
        assert(numeral_value(front) == 0);
        assert(seq![last] =~= digits);
    } else {
        assert(front[0] == digits[0]);
        assert forall|i: int| 0 <= i < front.len() implies is_digit(#[trigger] front[i]) by {
            assert(front[i] == digits[i]);
        }
        lemma_value_is_positive(front);
        lemma_digits_are_decimal(front);
        let n = numeral_value(digits);
        assert(n == numeral_value(front) * 10 + digit_value(last));
        assert(n / 10 == numeral_value(front));
        assert(n % 10 == digit_value(last));
        assert(front.push(last) =~= digits);
    }
}

/// Writing a release and reading it back gives the release.
pub proof fn lemma_release_round_trip(major: u64, minor: u64, patch: u64)
    ensures
        declared(dotted(major, minor, patch)) == VersionValue::Semantic(
            release(major, minor, patch),
        ),
        declared(display_text(VersionValue::Semantic(release(major, minor, patch))))
            == VersionValue::Semantic(release(major, minor, patch)),
{
    lemma_decimal_is_numeral(major);
    lemma_decimal_is_numeral(minor);
    lemma_decimal_is_numeral(patch);
    lemma_three_components_are_semantic(
        decimal(major as nat),
        decimal(minor as nat),
        decimal(patch as nat),
    );
    assert(dotted(major, minor, patch) =~= joined(
        joined(decimal(major as nat), decimal(minor as nat)),
        decimal(patch as nat),
    ));
}

/// A specifier of three numeric components is shown in a report as it was
/// written; one of two or of one is shown with the zeros that pad it.
pub proof fn lemma_numeric_specifier_text(a: Seq<char>, b: Seq<char>, c: Seq<char>)
    requires
        is_numeral(a),
        is_numeral(b),
        is_numeral(c),
    ensures
        display_text(declared(joined(joined(a, b), c))) == joined(joined(a, b), c),
        display_text(declared(joined(a, b))) == joined(joined(a, b), seq!['0']),
        display_text(declared(a)) == joined(joined(a, seq!['0']), seq!['0']),
{
    lemma_three_components_are_semantic(a, b, c);
    lemma_two_components_are_padded(a, b);
    lemma_one_component_is_padded(a);
    lemma_digits_are_decimal(a);
    lemma_digits_are_decimal(b);
    lemma_digits_are_decimal(c);
    lemma_decimal_denotes(0);
    assert(decimal(0) =~= seq!['0']);
}

/// Every dependency is counted once as up to date or as out of date, and one
/// without a version is among those out of date.
pub proof fn lemma_totals_count_entries(entries: Seq<EntryValue>, db: SecurityDatabase)
    ensures
        totals_over(no_totals(), entries, db).up_to_date + totals_over(
            no_totals(),
            entries,
            db,
        ).out_of_date == entries.len(),
        totals_over(no_totals(), entries, db).unspecified <= totals_over(
            no_totals(),
            entries,
            db,
        ).out_of_date,
    decreases entries.len(),
{
    if entries.len() > 0 {
        lemma_totals_count_entries(entries.drop_last(), db);
    }
}

} // verus!
