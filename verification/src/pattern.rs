//! Regular expressions.
//!
//! Everything here is trusted: a compiled expression is opaque to the
//! verifier, and the functions below are the only way in which the library
//! compiles, escapes and runs one.

use vstd::prelude::*;

verus! {

/// The compiled expression type of the `regex` crate.
#[verifier::external_type_specification]
#[verifier::external_body]
pub struct ExRegex(regex::Regex);

/// The error type of the `regex` crate.
#[verifier::external_type_specification]
#[verifier::external_body]
pub struct ExRegexError(regex::Error);

/// The texts in which a compiled expression finds a match.
pub uninterp spec fn matched_texts(regex: regex::Regex) -> Set<Seq<char>>;

/// The texts in which a pattern, compiled without regard to case, finds a
/// match; `None` where the pattern does not compile.
pub uninterp spec fn compiled_texts(pattern: Seq<char>) -> Option<Set<Seq<char>>>;

/// `regex::RegexBuilder::build`, with `case_insensitive(true)` set on the
/// builder: claims that whether a pattern compiles, and which texts the
/// compiled expression matches, is a function of the pattern. The crate also
/// bounds the memory that a compiled expression takes; only for patterns of
/// megabytes when compiled could that bound fall differently on machines of
/// another word size, and nothing is said of where it lies.
#[verifier::external_body]
pub(crate) fn compile(pattern: &str) -> (r: Result<regex::Regex, regex::Error>)
    ensures
        match r {
            Ok(regex) => compiled_texts(pattern@) == Some(matched_texts(regex)),
            Err(_) => compiled_texts(pattern@) is None,
        },
{
    regex::RegexBuilder::new(pattern).case_insensitive(true).build()
}

/// `regex::Regex::is_match`: claims that the answer depends on the expression
/// and the text alone.
#[verifier::external_body]
pub(crate) fn is_match(regex: &regex::Regex, text: &str) -> (r: bool)
    ensures
        r == matched_texts(*regex).contains(text@),
{
    regex.is_match(text)
}

/// Whether a character has a meaning of its own in a regular expression.
pub open spec fn meta(c: char) -> bool {
    ||| c == '\\'
    ||| c == '.'
    ||| c == '+'
    ||| c == '*'
    ||| c == '?'
    ||| c == '('
    ||| c == ')'
    ||| c == '|'
    ||| c == '['
    ||| c == ']'
    ||| c == '{'
    ||| c == '}'
    ||| c == '^'
    ||| c == '$'
    ||| c == '#'
    ||| c == '&'
    ||| c == '-'
    ||| c == '~'
}

/// A text with a backslash before each character that has a meaning of its own
/// in a regular expression.
pub open spec fn escaped(text: Seq<char>) -> Seq<char>
    decreases text.len(),
{
    if text.len() == 0 {
        seq![]
    } else if meta(text.last()) {
        escaped(text.drop_last()).push('\\').push(text.last())
    } else {
        escaped(text.drop_last()).push(text.last())
    }
}

/// `regex::escape`: claims that the result is the text with a backslash before
/// each meta character, and otherwise unchanged.
#[verifier::external_body]
pub(crate) fn escape(text: &str) -> (r: String)
    ensures
        r@ == escaped(text@),
{
    regex::escape(text)
}

} // verus!
