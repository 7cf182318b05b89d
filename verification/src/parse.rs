//! Strict parsing of a value string into a semantic version, and the
//! classification that is built on it.

use crate::numeral::{is_digit, numeral_value};
use crate::specifier::{
    cleaned_of, occurrences, operators_of, pad_components, padded, strip_operators,
};
use crate::version::{
    release, well_formed, Identifier, SemVer, SemVerValue, Version, VersionValue,
};
use vstd::prelude::*;
use vstd::string::*;

verus! {

/// The message with which the strict parser asks for more input.
pub const MORE_INPUT: &'static str = "expected more input";

/// The most hyphens that one identifier of a suffix may hold and still be
/// handed to the strict parser.
pub const CHAIN_LIMIT: usize = 255;

/// Whether `text` holds neither a hyphen nor a plus sign, so that a hyphen
/// that follows it opens the pre-release suffix.
pub open spec fn before_suffix(text: Seq<char>) -> bool {
    occurrences(text, '-') == 0 && occurrences(text, '+') == 0
}

/// The hyphens at the end of `text` that stand in one identifier: those since
/// the last dot, plus sign or opening hyphen.
pub open spec fn chain_run(text: Seq<char>) -> nat
    decreases text.len(),
{
    if text.len() == 0 {
        0
    } else if text.last() == '.' || text.last() == '+' {
        0
    } else if text.last() == '-' {
        if before_suffix(text.drop_last()) {
            0
        } else {
            chain_run(text.drop_last()) + 1
        }
    } else {
        chain_run(text.drop_last())
    }
}

/// The most hyphens that stand in one identifier of `text`. Identifiers are
/// parted by dots and plus signs; the first hyphen of a text opens the
/// pre-release suffix, unless a plus sign stands before it, and belongs to no
/// identifier.
pub open spec fn longest_chain(text: Seq<char>) -> nat
    decreases text.len(),
{
    if text.len() == 0 {
        0
    } else if chain_run(text) > longest_chain(text.drop_last()) {
        chain_run(text)
    } else {
        longest_chain(text.drop_last())
    }
}

/// Measures the most hyphens that stand in one identifier of `text`.
pub fn measure_chains(text: &str) -> (longest: usize)
    ensures
        longest == longest_chain(text@),
{
    let n: usize = text.unicode_len();
    let mut run: usize = 0;
    let mut longest: usize = 0;
    let mut in_suffix = false;
    let mut i: usize = 0;
    proof {
        assert(text@.take(0) =~= Seq::<char>::empty());
    }
    while i < n
        invariant
            i <= n,
            n == text@.len(),
            run == chain_run(text@.take(i as int)),
            longest == longest_chain(text@.take(i as int)),
            in_suffix == !before_suffix(text@.take(i as int)),
            run <= i,
            longest <= i,
        decreases n - i,
    {
        let c = text.get_char(i);
        proof {
            assert(text@.take(i + 1).drop_last() =~= text@.take(i as int));
            assert(text@.take(i + 1).last() == c);
        }
        if c == '.' {
            run = 0;
        } else if c == '+' {
            run = 0;
            in_suffix = true;
        } else if c == '-' {
            if in_suffix {
                run += 1;
            } else {
                run = 0;
                in_suffix = true;
            }
        }
        if run > longest {
            longest = run;
        }
        i += 1;
    }
    assert(text@.take(n as int) =~= text@);
    longest
}

/// The dot-separated components of `text`: a text with `k` dots has `k + 1`
/// components, some of which may be empty.
pub open spec fn components(text: Seq<char>) -> Seq<Seq<char>>
    decreases text.len(),
{
    if text.len() == 0 {
        seq![Seq::empty()]
    } else {
        let front = components(text.drop_last());
        if text.last() == '.' {
            front.push(Seq::empty())
        } else {
            front.drop_last().push(front.last().push(text.last()))
        }
    }
}

/// Whether `digits` is a numeric component: a non-empty run of digits without
/// a leading zero (but for `0` itself) whose value fits 64 bits.
pub open spec fn is_numeral(digits: Seq<char>) -> bool {
    &&& digits.len() > 0
    &&& forall|i: int| 0 <= i < digits.len() ==> is_digit(#[trigger] digits[i])
    &&& digits.len() > 1 ==> digits[0] != '0'
    &&& numeral_value(digits) <= u64::MAX
}

/// Whether every component in `parts` is a numeric component.
pub open spec fn all_numerals(parts: Seq<Seq<char>>) -> bool {
    forall|i: int| 0 <= i < parts.len() ==> is_numeral(#[trigger] parts[i])
}

/// Whether `text` is exactly three numeric components joined by dots.
pub open spec fn is_release_text(text: Seq<char>) -> bool {
    components(text).len() == 3 && all_numerals(components(text))
}

/// Whether `text` is one numeric component, or two joined by a dot.
pub open spec fn is_partial_release_text(text: Seq<char>) -> bool {
    components(text).len() < 3 && all_numerals(components(text))
}

/// The release that a text of three numeric components denotes.
pub open spec fn release_of(text: Seq<char>) -> SemVerValue
    recommends
        is_release_text(text),
{
    let parts = components(text);
    release(
        numeral_value(parts[0]) as u64,
        numeral_value(parts[1]) as u64,
        numeral_value(parts[2]) as u64,
    )
}

/// What `semver::Version::parse` makes of `text`: the version, or the message
/// of the error.
pub uninterp spec fn semver_parse(text: Seq<char>) -> Result<SemVerValue, Seq<char>>;

/// The message of a rejection; empty for a success.
pub open spec fn message_of(outcome: Result<SemVerValue, Seq<char>>) -> Seq<char> {
    match outcome {
        Ok(_) => Seq::empty(),
        Err(message) => message,
    }
}

/// Whether `c` is white space to the strict parser.
pub open spec fn is_blank(c: char) -> bool {
    c == ' ' || c == '\t' || c == '\n' || c == '\r'
}

/// Whether `text` is long enough for a version and begins as one does: with
/// a digit, or with white space.
pub open spec fn may_be_version(text: Seq<char>) -> bool {
    text.len() >= 5 && (is_digit(text[0]) || is_blank(text[0]))
}

/// The outcome of a strict parse. Three numeric components give their
/// release; fewer give the request for more input; any other text that is
/// under five characters, or begins with anything but a digit or white space,
/// is rejected; of the rest the outcome is what the parser makes of it.
pub open spec fn strict_outcome(text: Seq<char>) -> Result<SemVerValue, Seq<char>> {
    if is_release_text(text) {
        Ok(release_of(text))
    } else if is_partial_release_text(text) {
        Err(MORE_INPUT@)
    } else if !may_be_version(text) {
        Err(message_of(semver_parse(text)))
    } else {
        semver_parse(text)
    }
}

/// The value of a parse attempt.
pub open spec fn attempt_value<E>(attempt: Result<SemVer, E>) -> Result<SemVerValue, E> {
    match attempt {
        Ok(v) => Ok(v@),
        Err(e) => Err(e),
    }
}

/// The value of a parse attempt that failed with a message.
pub open spec fn message_attempt_value(attempt: Result<SemVer, String>) -> Result<
    SemVerValue,
    Seq<char>,
> {
    match attempt {
        Ok(v) => Ok(v@),
        Err(message) => Err(message@),
    }
}

/// Calls `semver::Version::parse` and hands out the version as plain data, or
/// the text of the error. Trusted: three dot-separated numeric components
/// parse to that release with empty suffixes; one or two such components end
/// the input too early, which the parser reports as `expected more input`; a
/// version needs three numbers and two dots, so no text under five characters
/// parses; it begins with its major number, after white space at most, so no
/// text that begins otherwise parses. The parser gives up where one identifier of a suffix is a chain of
/// more than 256 hyphen-joined parts; it counts anew after each dot and plus
/// sign, and does not count the hyphen that opens the pre-release suffix. The
/// `requires` keeps such a chain out.
#[verifier::external_body]
fn parse_strict(text: &str) -> (attempt: Result<SemVer, String>)
    requires
        longest_chain(text@) <= CHAIN_LIMIT,
    ensures
        message_attempt_value(attempt) == strict_outcome(text@),
        !is_release_text(text@) && !is_partial_release_text(text@) && may_be_version(text@)
            ==> message_attempt_value(attempt) == semver_parse(text@),
{
    let own = |id: &semver::Identifier| match id {
        semver::Identifier::Numeric(n) => Identifier::Numeric(*n),
        semver::Identifier::AlphaNumeric(s) => Identifier::AlphaNumeric(s.clone()),
    };
    match semver::Version::parse(text) {
        Ok(v) => Ok(SemVer {
            major: v.major,
            minor: v.minor,
            patch: v.patch,
            pre: v.pre.iter().map(own).collect(),
            build: v.build.iter().map(own).collect(),
        }),
        Err(e) => Err(e.to_string()),
    }
}

/// Why a text is no semantic version.
#[derive(Clone, Copy, Debug, PartialEq, Eq, Structural)]
pub enum ParseFailure {
    /// The text ends before three components were read.
    NeedsMoreInput,
    /// The text does not follow the syntax of a semantic version.
    Malformed,
    /// One identifier of the text holds more hyphens than the strict parser
    /// takes.
    TooManyIdentifiers,
}

/// The failure that a parser message stands for.
pub open spec fn failure_of(message: Seq<char>) -> ParseFailure {
    if message == MORE_INPUT@ {
        ParseFailure::NeedsMoreInput
    } else {
        ParseFailure::Malformed
    }
}

/// The result of parsing `text` as a semantic version.
pub open spec fn parse_result(text: Seq<char>) -> Result<SemVerValue, ParseFailure> {
    if longest_chain(text) > CHAIN_LIMIT {
        Err(ParseFailure::TooManyIdentifiers)
    } else {
        match strict_outcome(text) {
            Ok(v) => Ok(v),
            Err(message) => Err(failure_of(message)),
        }
    }
}

impl ParseFailure {
    /// Reads a parser message.
    pub fn of_message(message: &String) -> (failure: ParseFailure)
        ensures
            failure == failure_of(message@),
    {
        let more = String::from_str(MORE_INPUT);
        if *message == more {
            ParseFailure::NeedsMoreInput
        } else {
            ParseFailure::Malformed
        }
    }
}

impl SemVer {
    /// Reads the outcome of a strict parse: the version, or the failure that
    /// the message stands for.
    pub fn of_attempt(attempt: Result<SemVer, String>) -> (result: Result<SemVer, ParseFailure>)
        ensures
            attempt_value(result) == match message_attempt_value(attempt) {
                Ok(v) => Ok::<SemVerValue, ParseFailure>(v),
                Err(message) => Err(failure_of(message)),
            },
    {
        match attempt {
            Ok(v) => Ok(v),
            Err(message) => Err(ParseFailure::of_message(&message)),
        }
    }

    /// Parses `text` as a strict semantic version.
    pub fn parse(text: &str) -> (result: Result<SemVer, ParseFailure>)
        ensures
            attempt_value(result) == parse_result(text@),
    {
        if measure_chains(text) > CHAIN_LIMIT {
            Err(ParseFailure::TooManyIdentifiers)
        } else {
            SemVer::of_attempt(parse_strict(text))
        }
    }
}

/// What a value string is when it is no semantic version: nothing where it is
/// empty, else the text itself.
pub open spec fn unparsed(cleaned: Seq<char>) -> VersionValue {
    if cleaned.len() == 0 {
        VersionValue::Unspecified
    } else {
        VersionValue::Opaque(cleaned)
    }
}

/// What a parse attempt on `cleaned`, or on `cleaned` padded, settles: a
/// success is the semantic version, a failure leaves the text unparsed.
pub open spec fn settled(cleaned: Seq<char>, attempt: Result<SemVerValue, ParseFailure>)
    -> VersionValue {
    match attempt {
        Ok(v) => VersionValue::Semantic(v),
        Err(_) => unparsed(cleaned),
    }
}

/// The classification of a value string. It is parsed strictly; where that
/// fails for want of input, it is padded to three components and parsed once
/// more.
pub open spec fn classified(cleaned: Seq<char>) -> VersionValue {
    match parse_result(cleaned) {
        Err(ParseFailure::NeedsMoreInput) => settled(cleaned, parse_result(padded(cleaned))),
        first => settled(cleaned, first),
    }
}

/// The classification of a specifier as written: that of its value string.
pub open spec fn declared(raw: Seq<char>) -> VersionValue {
    classified(cleaned_of(raw))
}

/// Parses a specifier as written in a manifest: hands out the operators that
/// stand in it, in order, and the classification of what is left.
pub fn parse(raw: &str) -> (parsed: (Vec<char>, Version))
    ensures
        parsed.0@ == operators_of(raw@),
        parsed.1@ == declared(raw@),
        well_formed(parsed.1@),
{
    let (operators, cleaned) = strip_operators(raw);
    (operators, Version::classify(cleaned))
}

impl Version {
    /// Settles the classification of `cleaned` on a parse attempt.
    pub fn settle(cleaned: String, attempt: Result<SemVer, ParseFailure>) -> (version: Version)
        ensures
            version@ == settled(cleaned@, attempt_value(attempt)),
            well_formed(version@),
    {
        match attempt {
            Ok(v) => Version::Semantic(v),
            Err(_) => if cleaned.as_str().unicode_len() == 0 {
                Version::Unspecified
            } else {
                Version::Opaque(cleaned)
            },
        }
    }

    /// Classifies a value string: a specifier without operators and spaces.
    pub fn classify(cleaned: String) -> (version: Version)
        ensures
            version@ == classified(cleaned@),
            well_formed(version@),
    {
        match SemVer::parse(cleaned.as_str()) {
            Err(ParseFailure::NeedsMoreInput) => {
                let filled = pad_components(cleaned.as_str());
                let second = SemVer::parse(filled.as_str());
                Version::settle(cleaned, second)
            },
            first => Version::settle(cleaned, first),
        }
    }

    /// Classifies a specifier as written in a manifest.
    pub fn parse(raw: &str) -> (version: Version)
        ensures
            version@ == declared(raw@),
            well_formed(version@),
    {
        parse(raw).1
    }
}

} // verus!
