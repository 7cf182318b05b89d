//! Version specifiers as written in a manifest: the range and wildcard
//! operators are taken out, and what is left is padded to three components.

use vstd::prelude::*;
use vstd::string::*;

verus! {

/// The character class of everything that is taken out of a specifier: the six
/// operators and the space.
pub const OPERATOR_CLASS: &'static str = "[><=^*~ ]";

/// Whether `c` is a range or wildcard operator.
pub open spec fn is_operator(c: char) -> bool {
    c == '>' || c == '<' || c == '=' || c == '^' || c == '*' || c == '~'
}

/// Whether `c` is taken out of a specifier: an operator or a space.
pub open spec fn is_stripped(c: char) -> bool {
    is_operator(c) || c == ' '
}

/// The test that picks the operators.
pub open spec fn operator_test() -> spec_fn(char) -> bool {
    |c: char| is_operator(c)
}

/// The test that picks what stays in the value string.
pub open spec fn kept_test() -> spec_fn(char) -> bool {
    |c: char| !is_stripped(c)
}

/// The operators of `raw`, in the order in which they occur.
pub open spec fn operators_of(raw: Seq<char>) -> Seq<char> {
    raw.filter(operator_test())
}

/// `raw` without its operators and spaces.
pub open spec fn cleaned_of(raw: Seq<char>) -> Seq<char> {
    raw.filter(kept_test())
}

/// Whether `text` holds an operator or a space anywhere.
pub open spec fn holds_stripped(text: Seq<char>) -> bool {
    exists|i: int| 0 <= i < text.len() && is_stripped(#[trigger] text[i])
}

/// Compiles `pattern` with `regex::Regex::new` and searches `text` with
/// `Regex::is_match`; `None` where the pattern is refused. Trusted: the
/// operator class is a bracketed set of seven literal characters, so it
/// compiles and matches exactly the texts that hold one of them. Of any
/// other pattern nothing is stated.
#[verifier::external_body]
fn pattern_found(pattern: &str, text: &str) -> (found: Option<bool>)
    ensures
        pattern@ == OPERATOR_CLASS@ ==> found == Some(holds_stripped(text@)),
{
    match regex::Regex::new(pattern) {
        Ok(re) => Some(re.is_match(text)),
        Err(_) => None,
    }
}

/// Whether `text` holds an operator or a space.
pub fn holds_operator(text: &str) -> (found: bool)
    ensures
        found == holds_stripped(text@),
{
    match pattern_found(OPERATOR_CLASS, text) {
        Some(found) => found,
        None => vstd::pervasive::unreached(),
    }
}

/// A text without operators and spaces is its own value string and has no
/// operators.
pub proof fn lemma_nothing_stripped(text: Seq<char>)
    requires
        !holds_stripped(text),
    ensures
        operators_of(text) == Seq::<char>::empty(),
        cleaned_of(text) == text,
    decreases text.len(),
{
    reveal(Seq::filter);
    if text.len() > 0 {
        let front = text.drop_last();
        assert(!is_stripped(text[text.len() - 1]));
        assert forall|i: int| 0 <= i < front.len() implies !is_stripped(#[trigger] front[i]) by {
            assert(front[i] == text[i]);
        }
        lemma_nothing_stripped(front);
        assert(front.push(text.last()) =~= text);
    } else {
        assert(text =~= Seq::<char>::empty());
    }
}

/// One more character at the end of a specifier: an operator joins the
/// operators, anything but an operator or a space joins the value string.
pub proof fn lemma_strip_push(front: Seq<char>, c: char)
    ensures
        operators_of(front.push(c)) == if is_operator(c) {
            operators_of(front).push(c)
        } else {
            operators_of(front)
        },
        cleaned_of(front.push(c)) == if is_stripped(c) {
            cleaned_of(front)
        } else {
            cleaned_of(front).push(c)
        },
{
    reveal(Seq::filter);
    assert(front.push(c).drop_last() =~= front);
}

/// Splits a specifier into its operators, in order, and its value string:
/// the specifier without operators and spaces.
pub fn strip_operators(raw: &str) -> (parts: (Vec<char>, String))
    ensures
        parts.0@ == operators_of(raw@),
        parts.1@ == cleaned_of(raw@),
{
    let mut operators: Vec<char> = Vec::new();
    if !holds_operator(raw) {
        proof {
            lemma_nothing_stripped(raw@);
        }
        return (operators, String::from_str(raw));
    }
    let mut cleaned = String::new();
    let n: usize = raw.unicode_len();
    let mut i: usize = 0;
    proof {
        reveal(Seq::filter);
        assert(raw@.take(0) =~= Seq::<char>::empty());
    }
    while i < n
        invariant
            i <= n,
            n == raw@.len(),
            operators@ == operators_of(raw@.take(i as int)),
            cleaned@ == cleaned_of(raw@.take(i as int)),
        decreases n - i,
    {
        let piece = raw.substring_char(i, i + 1);
        let c = raw.get_char(i);
        proof {
            assert(piece@ =~= seq![c]);
            assert(piece@[0] == c);
            assert(holds_stripped(piece@) == is_stripped(c));
            lemma_strip_push(raw@.take(i as int), c);
            assert(raw@.take(i as int).push(c) =~= raw@.take(i + 1));
        }
        if holds_operator(piece) && c != ' ' {
            operators.push(c);
        } else if c != ' ' {
            cleaned.append(piece);
            assert(cleaned@ =~= cleaned_of(raw@.take(i as int)).push(c));
        }
        i += 1;
    }
    assert(raw@.take(n as int) =~= raw@);
    (operators, cleaned)
}

/// How often `c` occurs in `text`.
pub open spec fn occurrences(text: Seq<char>, c: char) -> nat
    decreases text.len(),
{
    if text.len() == 0 {
        0
    } else {
        occurrences(text.drop_last(), c) + if text.last() == c {
            1nat
        } else {
            0nat
        }
    }
}

/// Counts how often `c` occurs in `text`.
pub fn count_occurrences(text: &str, c: char) -> (count: usize)
    ensures
        count == occurrences(text@, c),
{
    let n: usize = text.unicode_len();
    let mut count: usize = 0;
    let mut i: usize = 0;
    proof {
        assert(text@.take(0) =~= Seq::<char>::empty());
    }
    while i < n
        invariant
            i <= n,
            n == text@.len(),
            count == occurrences(text@.take(i as int), c),
            count <= i,
        decreases n - i,
    {
        proof {
            assert(text@.take(i + 1).drop_last() =~= text@.take(i as int));
        }
        if text.get_char(i) == c {
            count += 1;
        }
        i += 1;
    }
    assert(text@.take(n as int) =~= text@);
    count
}

/// `text` right-padded with zero components until it has three components:
/// a text with `k` dots has `k + 1` components.
pub open spec fn padded(text: Seq<char>) -> Seq<char> {
    if occurrences(text, '.') == 0 {
        text + seq!['.', '0', '.', '0']
    } else if occurrences(text, '.') == 1 {
        text + seq!['.', '0']
    } else {
        text
    }
}

/// Right-pads `text` with `0` components until it has three components.
pub fn pad_components(text: &str) -> (result: String)
    ensures
        result@ == padded(text@),
{
    let dots = count_occurrences(text, '.');
    let mut result = String::from_str(text);
    proof {
        reveal_strlit(".0.0");
        reveal_strlit(".0");
    }
    if dots == 0 {
        result.append(".0.0");
        assert(result@ =~= text@ + seq!['.', '0', '.', '0']);
    } else if dots == 1 {
        result.append(".0");
        assert(result@ =~= text@ + seq!['.', '0']);
    }
    result
}

} // verus!
