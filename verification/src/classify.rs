//! Text normalization and repeated-character pattern detection.
//!
//! A message *matches* when its normalized text begins with two identical
//! non-ASCII characters. Normalization strips every whitespace character and
//! maps the two interchangeable characters of the equivalence class to the
//! class representative.

use vstd::prelude::*;
use vstd::string::StrSliceExecFns;
use vstd::string::StringExecFns;

verus! {

/// The reaction symbol attached to a matching message.
#[derive(Clone, Copy, Debug, PartialEq, Eq, Structural)]
pub enum Symbol {
    /// Reaction for a match on the equivalence-class representative.
    Fire,
    /// Reaction for a match on any other repeated non-ASCII character.
    Think,
}

/// Outcome of classifying one inbound message.
#[derive(Clone, Copy, Debug, PartialEq, Eq, Structural)]
pub enum Classification {
    /// The message carried no text at all: the pipeline has no opinion and
    /// callers must do nothing (distinct from an explicit non-match).
    NoOpinion,
    /// The text was inspected and does not match.
    EmptyMatch,
    /// The text matches; react with exactly this symbol.
    Match(Symbol),
}

/// A character of the fixed equivalence class is replaced by the class
/// representative; every other character is left unchanged.
pub open spec fn canon_spec(c: char) -> char {
    if c == '喔' || c == '哦' {
        '喔'
    } else {
        c
    }
}

/// The Unicode `White_Space` characters: exactly those that normalization
/// strips.
pub open spec fn is_space(c: char) -> bool {
    ||| c == '\t'
    ||| c == '\n'
    ||| c == '\u{b}'
    ||| c == '\u{c}'
    ||| c == '\r'
    ||| c == ' '
    ||| c == '\u{85}'
    ||| c == '\u{a0}'
    ||| c == '\u{1680}'
    ||| (0x2000 <= c as u32 && c as u32 <= 0x200a)
    ||| c == '\u{2028}'
    ||| c == '\u{2029}'
    ||| c == '\u{202f}'
    ||| c == '\u{205f}'
    ||| c == '\u{3000}'
}

/// Replaces an equivalence-class member by the class representative.
pub fn canon(c: char) -> (r: char)
    ensures
        r == canon_spec(c),
{
    if c == '喔' || c == '哦' {
        '喔'
    } else {
        c
    }
}

/// Decides whether normalization strips this character.
pub fn is_space_char(c: char) -> (r: bool)
    ensures
        r == is_space(c),
{
    c == '\t' || c == '\n' || c == '\u{b}' || c == '\u{c}' || c == '\r' || c == ' '
        || c == '\u{85}' || c == '\u{a0}' || c == '\u{1680}'
        || (0x2000 <= c as u32 && c as u32 <= 0x200a) || c == '\u{2028}' || c == '\u{2029}'
        || c == '\u{202f}' || c == '\u{205f}' || c == '\u{3000}'
}

/// Normalized form of a text: whitespace removed, every remaining character
/// replaced by its canonical representative.
pub open spec fn normalize_spec(s: Seq<char>) -> Seq<char>
    decreases s.len(),
{
    if s.len() == 0 {
        Seq::empty()
    } else {
        let rest = normalize_spec(s.drop_last());
        if is_space(s.last()) {
            rest
        } else {
            rest.push(canon_spec(s.last()))
        }
    }
}

/// Classification of an already-normalized text: a match is two identical
/// non-ASCII leading characters; the symbol depends on whether the matched
/// character is the class representative.
pub open spec fn classify_normalized(n: Seq<char>) -> Classification {
    if n.len() < 2 {
        Classification::EmptyMatch
    } else if (n[0] as u32) < 128 || n[0] != n[1] {
        Classification::EmptyMatch
    } else if n[0] == '喔' {
        Classification::Match(Symbol::Fire)
    } else {
        Classification::Match(Symbol::Think)
    }
}

/// Classification of a raw text: normalize, then detect the pattern.
pub open spec fn classify_spec(s: Seq<char>) -> Classification {
    classify_normalized(normalize_spec(s))
}

/// The characters of an optional text.
pub open spec fn text_view(text: Option<&str>) -> Option<Seq<char>> {
    match text {
        Option::None => Option::None,
        Option::Some(t) => Option::Some(t@),
    }
}

/// Classification of a message that may carry no text at all.
pub open spec fn classify_opt_spec(t: Option<Seq<char>>) -> Classification {
    match t {
        Option::None => Classification::NoOpinion,
        Option::Some(s) => classify_spec(s),
    }
}

/// Strips whitespace and maps each remaining character to its canonical
/// representative.
pub fn normalize(text: &str) -> (r: Vec<char>)
    ensures
        r@ == normalize_spec(text@),
{
    let len = text.unicode_len();
    let mut r: Vec<char> = Vec::new();
    let mut i: usize = 0;
    while i < len
        invariant
            i <= len,
            len == text@.len(),
            r@ == normalize_spec(text@.take(i as int)),
        decreases len - i,
    {
        let c = text.get_char(i);
        proof {
            assert(text@.take(i + 1).drop_last() =~= text@.take(i as int));
            assert(text@.take(i + 1).last() == text@[i as int]);
        }
        if !is_space_char(c) {
            r.push(canon(c));
        }
        i += 1;
    }
    proof {
        assert(text@.take(len as int) =~= text@);
    }
    r
}

/// Detects the repeated-character pattern in a text: normalizes it and
/// inspects the first two normalized characters.
pub fn classify_text(text: &str) -> (c: Classification)
    ensures
        c == classify_spec(text@),
        c != Classification::NoOpinion,
{
    let n = normalize(text);
    if n.len() < 2 {
        Classification::EmptyMatch
    } else {
        let c0 = n[0];
        let c1 = n[1];
        if (c0 as u32) < 128 || c0 != c1 {
            Classification::EmptyMatch
        } else if c0 == '喔' {
            Classification::Match(Symbol::Fire)
        } else {
            Classification::Match(Symbol::Think)
        }
    }
}

/// Classifies an inbound message: a message without text yields
/// `NoOpinion`; one with text is classified by its content alone.
pub fn get_reaction(text: Option<&str>) -> (c: Classification)
    ensures
        c == classify_opt_spec(text_view(text)),
{
    match text {
        None => Classification::NoOpinion,
        Some(t) => classify_text(t),
    }
}

impl Symbol {
    /// The emoji attached as the reaction for this symbol.
    pub open spec fn emoji_spec(self) -> Seq<char> {
        match self {
            Symbol::Fire => seq!['\u{1f525}'],
            Symbol::Think => seq!['\u{1f914}'],
        }
    }

    /// The emoji attached as the reaction for this symbol.
    pub fn emoji(&self) -> (s: String)
        ensures
            s@ == self.emoji_spec(),
    {
        match self {
            Symbol::Fire => {
                let s = String::from_str("🔥");
                proof {
                    reveal_strlit("🔥");
                }
                s
            },
            Symbol::Think => {
                let s = String::from_str("🤔");
                proof {
                    reveal_strlit("🤔");
                }
                s
            },
        }
    }
}


/// Classification is deterministic and pure: it is a function of the text's
/// characters alone, so any two classifications of equal texts are equal.
pub proof fn lemma_classification_deterministic(a: Option<Seq<char>>, b: Option<Seq<char>>)
    requires
        a == b,
    ensures
        classify_opt_spec(a) == classify_opt_spec(b),
{
}

/// Every character of a normalized text is a non-whitespace canonical
/// representative.
proof fn lemma_normalized_chars(s: Seq<char>)
    ensures
        forall|i: int|
            0 <= i < normalize_spec(s).len() ==> !is_space(#[trigger] normalize_spec(s)[i])
                && canon_spec(normalize_spec(s)[i]) == normalize_spec(s)[i],
    decreases s.len(),
{
    if s.len() > 0 {
        lemma_normalized_chars(s.drop_last());
        let rest = normalize_spec(s.drop_last());
        let n = normalize_spec(s);
        assert forall|i: int| 0 <= i < n.len() implies !is_space(#[trigger] n[i]) && canon_spec(
            n[i],
        ) == n[i] by {
            if is_space(s.last()) || i < rest.len() {
                assert(n[i] == rest[i]);
            } else {
                assert(n[i] == canon_spec(s.last()));
            }
        }
    }
}

/// A text of non-whitespace canonical representatives normalizes to itself.
proof fn lemma_normalize_fixed(s: Seq<char>)
    requires
        forall|i: int| 0 <= i < s.len() ==> !is_space(#[trigger] s[i]) && canon_spec(s[i]) == s[i],
    ensures
        normalize_spec(s) == s,
    decreases s.len(),
{
    if s.len() > 0 {
        assert(forall|i: int| 0 <= i < s.len() - 1 ==> s.drop_last()[i] == s[i]);
        lemma_normalize_fixed(s.drop_last());
        assert(!is_space(s[s.len() - 1]) && canon_spec(s[s.len() - 1]) == s[s.len() - 1]);
        assert(normalize_spec(s) =~= s);
    }
}

/// Normalization is idempotent, so classification factors through the
/// normalized text: mixed members of the equivalence class are compared
/// only after both map to the representative.
pub proof fn lemma_normalize_idempotent(s: Seq<char>)
    ensures
        normalize_spec(normalize_spec(s)) == normalize_spec(s),
{
    lemma_normalized_chars(s);
    lemma_normalize_fixed(normalize_spec(s));
}

} // verus!
