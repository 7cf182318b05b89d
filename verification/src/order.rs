//! Precedence is a strict order: what holds of it for all versions.

use crate::version::{
    exceeds, identifier_exceeds, identifiers_exceed, same_precedence, text_exceeds,
    IdentifierValue, SemVerValue,
};
use vstd::prelude::*;

verus! {

/// No text comes after itself.
pub proof fn lemma_text_irreflexive(a: Seq<char>)
    ensures
        !text_exceeds(a, a),
    decreases a.len(),
{
    if a.len() > 0 {
        lemma_text_irreflexive(a.drop_first());
    }
}

/// Of two texts, at most one comes after the other.
pub proof fn lemma_text_asymmetric(a: Seq<char>, b: Seq<char>)
    requires
        text_exceeds(a, b),
    ensures
        !text_exceeds(b, a),
    decreases a.len(),
{
    if a.len() > 0 && b.len() > 0 && a[0] == b[0] {
        lemma_text_asymmetric(a.drop_first(), b.drop_first());
    }
}

/// The order of texts is transitive.
pub proof fn lemma_text_transitive(a: Seq<char>, b: Seq<char>, c: Seq<char>)
    requires
        text_exceeds(a, b),
        text_exceeds(b, c),
    ensures
        text_exceeds(a, c),
    decreases a.len(),
{
    if c.len() > 0 && a[0] == b[0] && b[0] == c[0] {
        lemma_text_transitive(a.drop_first(), b.drop_first(), c.drop_first());
    }
}

/// Two texts are the same, or one comes after the other.
pub proof fn lemma_text_total(a: Seq<char>, b: Seq<char>)
    ensures
        text_exceeds(a, b) || text_exceeds(b, a) || a == b,
    decreases a.len(),
{
    if a.len() > 0 && b.len() > 0 {
        if a[0] == b[0] {
            lemma_text_total(a.drop_first(), b.drop_first());
            if a.drop_first() == b.drop_first() {
                assert(a =~= seq![a[0]] + a.drop_first());
                assert(b =~= seq![b[0]] + b.drop_first());
            }
        }
    } else if a.len() == 0 && b.len() == 0 {
        assert(a =~= b);
    }
}

/// The order of identifiers is strict and total.
pub proof fn lemma_identifier_order(a: IdentifierValue, b: IdentifierValue, c: IdentifierValue)
    ensures
        !identifier_exceeds(a, a),
        identifier_exceeds(a, b) ==> !identifier_exceeds(b, a),
        identifier_exceeds(a, b) && identifier_exceeds(b, c) ==> identifier_exceeds(a, c),
        identifier_exceeds(a, b) || identifier_exceeds(b, a) || a == b,
{
    match (a, b) {
        (IdentifierValue::AlphaNumeric(x), IdentifierValue::AlphaNumeric(y)) => {
            lemma_text_irreflexive(x);
            lemma_text_total(x, y);
            if text_exceeds(x, y) {
                lemma_text_asymmetric(x, y);
                match c {
                    IdentifierValue::AlphaNumeric(z) => {
                        if text_exceeds(y, z) {
                            lemma_text_transitive(x, y, z);
                        }
                    },
                    _ => {},
                }
            }
        },
        (IdentifierValue::AlphaNumeric(x), _) => {
            lemma_text_irreflexive(x);
        },
        _ => {},
    }
}

/// No list of identifiers ranks above itself.
pub proof fn lemma_identifiers_irreflexive(a: Seq<IdentifierValue>)
    ensures
        !identifiers_exceed(a, a),
    decreases a.len(),
{
    if a.len() > 0 {
        lemma_identifiers_irreflexive(a.drop_first());
    }
}

/// Of two lists of identifiers, at most one ranks above the other.
pub proof fn lemma_identifiers_asymmetric(a: Seq<IdentifierValue>, b: Seq<IdentifierValue>)
    requires
        identifiers_exceed(a, b),
    ensures
        !identifiers_exceed(b, a),
    decreases a.len(),
{
    if a.len() > 0 && b.len() > 0 {
        if a[0] == b[0] {
            lemma_identifiers_asymmetric(a.drop_first(), b.drop_first());
        } else {
            lemma_identifier_order(a[0], b[0], a[0]);
        }
    }
}

/// The order of lists of identifiers is transitive.
pub proof fn lemma_identifiers_transitive(
    a: Seq<IdentifierValue>,
    b: Seq<IdentifierValue>,
    c: Seq<IdentifierValue>,
)
    requires
        identifiers_exceed(a, b),
        identifiers_exceed(b, c),
    ensures
        identifiers_exceed(a, c),
    decreases a.len(),
{
    if c.len() > 0 {
        lemma_identifier_order(a[0], b[0], c[0]);
        lemma_identifier_order(b[0], c[0], a[0]);
        if a[0] == b[0] && b[0] == c[0] {
            lemma_identifiers_transitive(a.drop_first(), b.drop_first(), c.drop_first());
        }
    }
}

/// Two lists of identifiers are the same, or one ranks above the other.
pub proof fn lemma_identifiers_total(a: Seq<IdentifierValue>, b: Seq<IdentifierValue>)
    ensures
        identifiers_exceed(a, b) || identifiers_exceed(b, a) || a == b,
    decreases a.len(),
{
    if a.len() > 0 && b.len() > 0 {
        lemma_identifier_order(a[0], b[0], a[0]);
        if a[0] == b[0] {
            lemma_identifiers_total(a.drop_first(), b.drop_first());
            if a.drop_first() == b.drop_first() {
                assert(a =~= seq![a[0]] + a.drop_first());
                assert(b =~= seq![b[0]] + b.drop_first());
            }
        }
    } else if a.len() == 0 && b.len() == 0 {
        assert(a =~= b);
    }
}

/// No version ranks above itself, and of two versions at most one ranks
/// above the other.
pub proof fn lemma_precedence_is_asymmetric(a: SemVerValue, b: SemVerValue)
    ensures
        !exceeds(a, a),
        exceeds(a, b) ==> !exceeds(b, a),
{
    lemma_identifiers_irreflexive(a.pre);
    if exceeds(a, b) && a.major == b.major && a.minor == b.minor && a.patch == b.patch
        && a.pre.len() > 0 && b.pre.len() > 0 {
        lemma_identifiers_asymmetric(a.pre, b.pre);
    }
}

/// Precedence is transitive.
pub proof fn lemma_precedence_is_transitive(a: SemVerValue, b: SemVerValue, c: SemVerValue)
    requires
        exceeds(a, b),
        exceeds(b, c),
    ensures
        exceeds(a, c),
{
    if a.major == b.major && b.major == c.major && a.minor == b.minor && b.minor == c.minor
        && a.patch == b.patch && b.patch == c.patch && a.pre.len() > 0 && b.pre.len() > 0
        && c.pre.len() > 0 {
        lemma_identifiers_transitive(a.pre, b.pre, c.pre);
    }
}

/// Two versions are the same, build metadata aside, or one ranks above the
/// other; and the same version ranks as its like does.
pub proof fn lemma_precedence_is_total(a: SemVerValue, b: SemVerValue, c: SemVerValue)
    ensures
        exceeds(a, b) || exceeds(b, a) || same_precedence(a, b),
        same_precedence(a, b) ==> !exceeds(a, b),
        same_precedence(a, b) ==> exceeds(a, c) == exceeds(b, c),
        same_precedence(a, b) ==> exceeds(c, a) == exceeds(c, b),
{
    lemma_identifiers_total(a.pre, b.pre);
    lemma_identifiers_irreflexive(a.pre);
}

} // verus!
