//! Case-insensitive comparison of characters and texts, and the subsequence
//! match that the history filter is built on.

use vstd::prelude::*;
use vstd::std_specs::iter::IteratorSpec;

verus! {

/// The code point of `c` once the ASCII letters `A`..=`Z` are folded onto
/// `a`..=`z`. Every other character, non-ASCII letters included, keeps its
/// own code point.
pub open spec fn folded(c: char) -> int {
    if 0x41 <= c as int <= 0x5a {
        c as int + 0x20
    } else {
        c as int
    }
}

/// Two characters are the same letter when they differ at most in ASCII case.
pub open spec fn same_letter(a: char, b: char) -> bool {
    folded(a) == folded(b)
}

/// Two texts are the same when they have the same length and agree letter by
/// letter, ASCII case aside.
pub open spec fn same_text(a: Seq<char>, b: Seq<char>) -> bool {
    &&& a.len() == b.len()
    &&& forall|i: int| 0 <= i < a.len() ==> same_letter(#[trigger] a[i], b[i])
}

fn fold(c: char) -> (code: u32)
    ensures
        code == folded(c),
{
    let code: u32 = c as u32;
    if 0x41 <= code && code <= 0x5a {
        code + 0x20
    } else {
        code
    }
}

/// Compares two characters, ASCII case aside.
pub fn letters_match(a: char, b: char) -> (same: bool)
    ensures
        same == same_letter(a, b),
{
    fold(a) == fold(b)
}

/// `places` embeds `pattern` in `text`: it gives each pattern character a
/// position in the text that holds the same letter, and the positions
/// increase along the pattern.
pub open spec fn is_embedding(pattern: Seq<char>, text: Seq<char>, places: Seq<int>) -> bool {
    is_embedding_from(pattern, text, 0, 0, places)
}

/// The pattern is a subsequence of the text: its characters occur in the
/// text in the same order, not necessarily side by side, ASCII case aside.
/// The empty pattern is a subsequence of every text.
pub open spec fn is_subsequence(pattern: Seq<char>, text: Seq<char>) -> bool {
    exists|places: Seq<int>| is_embedding(pattern, text, places)
}

/// `places` embeds the pattern from index `i` on in the text from index `j` on.
pub open spec fn is_embedding_from(
    pattern: Seq<char>,
    text: Seq<char>,
    i: int,
    j: int,
    places: Seq<int>,
) -> bool {
    &&& places.len() == pattern.len() - i
    &&& forall|k: int|
        0 <= k < places.len() ==> j <= #[trigger] places[k] < text.len() && same_letter(
            pattern[i + k],
            text[places[k]],
        )
    &&& forall|k: int, l: int| 0 <= k < l < places.len() ==> places[k] < places[l]
}

/// The left-to-right scan that decides the match: the pattern character at
/// `i` is paired with the first text character at or after `j` that holds the
/// same letter, and the scan goes on behind both.
pub open spec fn scan(pattern: Seq<char>, text: Seq<char>, i: int, j: int) -> bool
    decreases text.len() - j,
{
    if i >= pattern.len() {
        true
    } else if j >= text.len() {
        false
    } else if same_letter(pattern[i], text[j]) {
        scan(pattern, text, i + 1, j + 1)
    } else {
        scan(pattern, text, i, j + 1)
    }
}

/// Where the scan succeeds, the positions it pairs form an embedding.
pub proof fn lemma_scan_embeds(pattern: Seq<char>, text: Seq<char>, i: int, j: int) -> (places: Seq<
    int,
>)
    requires
        0 <= i <= pattern.len(),
        0 <= j,
        scan(pattern, text, i, j),
    ensures
        is_embedding_from(pattern, text, i, j, places),
    decreases text.len() - j,
{
    if i >= pattern.len() {
        Seq::empty()
    } else if same_letter(pattern[i], text[j]) {
        let rest = lemma_scan_embeds(pattern, text, i + 1, j + 1);
        let places = seq![j] + rest;
        places
    } else {
        lemma_scan_embeds(pattern, text, i, j + 1)
    }
}

/// Where an embedding exists, the scan succeeds: pairing a pattern character
/// with the first text character that fits never loses a match.
pub proof fn lemma_embedding_scans(
    pattern: Seq<char>,
    text: Seq<char>,
    i: int,
    j: int,
    places: Seq<int>,
)
    requires
        0 <= i <= pattern.len(),
        0 <= j,
        is_embedding_from(pattern, text, i, j, places),
    ensures
        scan(pattern, text, i, j),
    decreases text.len() - j,
{
    if i < pattern.len() {
        assert(j <= places[0] < text.len());
        if same_letter(pattern[i], text[j]) {
            let rest = places.drop_first();
            lemma_embedding_scans(pattern, text, i + 1, j + 1, rest);
        } else {
            lemma_embedding_scans(pattern, text, i, j + 1, places);
        }
    }
}

/// The scan from the start of both decides whether the pattern is a
/// subsequence of the text.
pub proof fn lemma_scan_decides(pattern: Seq<char>, text: Seq<char>)
    ensures
        scan(pattern, text, 0, 0) <==> is_subsequence(pattern, text),
{
    if scan(pattern, text, 0, 0) {
        let places = lemma_scan_embeds(pattern, text, 0, 0);
        assert(is_embedding(pattern, text, places));
    }
    if is_subsequence(pattern, text) {
        let places = choose|places: Seq<int>| is_embedding(pattern, text, places);
        lemma_embedding_scans(pattern, text, 0, 0, places);
    }
}

/// Decides whether `pattern` is a subsequence of `text`, ASCII case aside,
/// in one pass over the text.
pub fn subsequence_match(pattern: &str, text: &str) -> (found: bool)
    ensures
        found == is_subsequence(pattern@, text@),
{
    broadcast use vstd::string::group_string_axioms;

    let mut wanted = pattern.chars();
    let mut given = text.chars();
    let mut awaited = wanted.next();
    let ghost mut i: int = 0;
    let ghost mut j: int = 0;
    loop
        invariant
            0 <= i <= pattern@.len(),
            0 <= j <= text@.len(),
            given.remaining() == text@.skip(j),
            awaited == (if i < pattern@.len() {
                Some(pattern@[i])
            } else {
                None
            }),
            i < pattern@.len() ==> wanted.remaining() == pattern@.skip(i + 1),
            scan(pattern@, text@, i, j) == scan(pattern@, text@, 0, 0),
        ensures
            scan(pattern@, text@, 0, 0) == (awaited is None),
        decreases text@.len() - j,
    {
        match awaited {
            None => {
                break ;
            },
            Some(p) => {
                match given.next() {
                    None => {
                        break ;
                    },
                    Some(c) => {
                        if letters_match(p, c) {
                            awaited = wanted.next();
                            proof {
                                i = i + 1;
                            }
                        }
                        proof {
                            j = j + 1;
                        }
                    },
                }
            },
        }
    }
    proof {
        lemma_scan_decides(pattern@, text@);
    }
    awaited.is_none()
}

/// Compares two texts, ASCII case aside.
pub fn texts_match(a: &str, b: &str) -> (same: bool)
    ensures
        same == same_text(a@, b@),
{
    broadcast use vstd::string::group_string_axioms;

    let mut left = a.chars();
    let mut right = b.chars();
    let ghost mut i: int = 0;
    loop
        invariant
            0 <= i <= a@.len(),
            i <= b@.len(),
            left.remaining() == a@.skip(i),
            right.remaining() == b@.skip(i),
            forall|k: int| 0 <= k < i ==> same_letter(#[trigger] a@[k], b@[k]),
        decreases a@.len() - i,
    {
        match left.next() {
            None => {
                return right.next().is_none();
            },
            Some(x) => {
                match right.next() {
                    None => {
                        return false;
                    },
                    Some(y) => {
                        if !letters_match(x, y) {
                            return false;
                        }
                        proof {
                            i = i + 1;
                        }
                    },
                }
            },
        }
    }
}

} // verus!
