use crate::text::{
    find_char, first_index, lemma_first_index_is, same_text, str_chars, string_from_chars,
};
use ssri::{Algorithm, IntegrityOpts};
use vstd::prelude::*;

verus! {

/// The integrity text of `data` under SHA-512: the algorithm's name, a
/// hyphen, and the digest in base64.
pub uninterp spec fn sha512_integrity(data: Seq<u8>) -> Seq<char>;

/// How an integrity text under SHA-512 begins.
pub open spec fn sha512_prefix() -> Seq<char> {
    seq!['s', 'h', 'a', '5', '1', '2', '-']
}

/// Computes the integrity text of `body` with `ssri`: `IntegrityOpts` set to
/// SHA-512 is fed the body, and the resulting `Integrity`, which holds that
/// one hash, is written out by its `Display`.
///
/// Taken on trust: the text depends on the bytes of the body alone, and it
/// begins with the lower-case name of the algorithm and a hyphen.
#[verifier::external_body]
fn compute_integrity(body: &Vec<u8>) -> (integrity: String)
    ensures
        integrity@ == sha512_integrity(body@),
        sha512_prefix().is_prefix_of(integrity@),
{
    IntegrityOpts::new().algorithm(Algorithm::Sha512).chain(body).result().to_string()
}

/// The name of the algorithm in an integrity text: what stands before the first hyphen.
pub open spec fn algorithm_of(integrity: Seq<char>) -> Seq<char> {
    integrity.subrange(0, first_index(integrity, '-', 0))
}

/// Why a body was not accepted.
#[derive(Debug, Clone, PartialEq, Eq)]
pub enum IntegrityError {
    /// The expected integrity names an algorithm other than SHA-512.
    UnsupportedAlgorithm { algorithm: String },
    /// The body does not have the expected integrity.
    Mismatch { expected: String, actual: String },
}

/// Mathematical value of an [`IntegrityError`].
pub enum IntegrityErrorView {
    UnsupportedAlgorithm { algorithm: Seq<char> },
    Mismatch { expected: Seq<char>, actual: Seq<char> },
}

impl View for IntegrityError {
    type V = IntegrityErrorView;

    open spec fn view(&self) -> IntegrityErrorView {
        match self {
            IntegrityError::UnsupportedAlgorithm { algorithm } => {
                IntegrityErrorView::UnsupportedAlgorithm { algorithm: algorithm@ }
            },
            IntegrityError::Mismatch { expected, actual } => IntegrityErrorView::Mismatch {
                expected: expected@,
                actual: actual@,
            },
        }
    }
}

/// The outcome of holding the integrity `actual` of a body against the
/// integrity `expected` of it: an algorithm other than SHA-512 is refused,
/// and under SHA-512 the two texts must be the same.
pub open spec fn verdict(expected: Seq<char>, actual: Seq<char>) -> Result<(), IntegrityErrorView> {
    if algorithm_of(expected) != "sha512"@ {
        Err(IntegrityErrorView::UnsupportedAlgorithm { algorithm: algorithm_of(expected) })
    } else if expected != actual {
        Err(IntegrityErrorView::Mismatch { expected, actual })
    } else {
        Ok(())
    }
}

/// The view of an outcome.
pub open spec fn outcome_view(outcome: Result<(), IntegrityError>) -> Result<
    (),
    IntegrityErrorView,
> {
    match outcome {
        Ok(()) => Ok(()),
        Err(error) => Err(error@),
    }
}

/// Holds the integrity `actual`, computed from a body, against the integrity
/// `expected` of that body.
pub fn verify_integrity(expected: &str, actual: &str) -> (outcome: Result<(), IntegrityError>)
    ensures
        outcome_view(outcome) == verdict(expected@, actual@),
{
    let chars = str_chars(expected);
    let hyphen = find_char(&chars, '-', 0, chars.len());
    proof {
        lemma_first_index_is(expected@, '-', 0, hyphen as int);
    }
    let algorithm = string_from_chars(&chars, 0, hyphen);
    if !same_text(&algorithm, "sha512") {
        return Err(IntegrityError::UnsupportedAlgorithm { algorithm });
    }
    let expected_text = expected.to_owned();
    if !same_text(&expected_text, actual) {
        return Err(IntegrityError::Mismatch { expected: expected_text, actual: actual.to_owned() });
    }
    Ok(())
}

/// Checks that `body` has the integrity `expected`.
pub fn check_body(expected: &str, body: &Vec<u8>) -> (outcome: Result<(), IntegrityError>)
    ensures
        outcome_view(outcome) == verdict(expected@, sha512_integrity(body@)),
{
    let actual = compute_integrity(body);
    verify_integrity(expected, actual.as_str())
}

/// The integrity text of `body` under SHA-512. It is accepted as its own
/// expected integrity.
pub fn integrity_of(body: &Vec<u8>) -> (integrity: String)
    ensures
        integrity@ == sha512_integrity(body@),
        algorithm_of(integrity@) == "sha512"@,
        verdict(integrity@, sha512_integrity(body@)) is Ok,
{
    let integrity = compute_integrity(body);
    proof {
        lemma_sha512_prefix(integrity@);
    }
    integrity
}

/// Integrity enforcement: a body is accepted only if its own integrity is the
/// expected one; any other body under SHA-512 is refused as a mismatch that
/// names both texts.
pub proof fn lemma_mismatch_is_refused(expected: Seq<char>, body: Seq<u8>)
    requires
        algorithm_of(expected) == "sha512"@,
    ensures
        verdict(expected, sha512_integrity(body)) is Ok <==> sha512_integrity(body) == expected,
        sha512_integrity(body) != expected ==> verdict(expected, sha512_integrity(body)) == Err::<
            (),
            IntegrityErrorView,
        >(IntegrityErrorView::Mismatch { expected, actual: sha512_integrity(body) }),
{
}

/// A text that begins as an integrity under SHA-512 names that algorithm.
pub proof fn lemma_sha512_prefix(integrity: Seq<char>)
    requires
        sha512_prefix().is_prefix_of(integrity),
    ensures
        algorithm_of(integrity) == "sha512"@,
{
    reveal_strlit("sha512");
    lemma_first_index_is(integrity, '-', 0, 6);
}

} // verus!
