//! Shell quoting and word splitting, as the `shlex` crate does them.

use vstd::prelude::*;
use crate::text::texts;

verus! {

/// The words that a POSIX shell would read from `text`; `None` if the text
/// ends inside a quotation or after a lone backslash.
pub uninterp spec fn shell_words(text: Seq<char>) -> Option<Seq<Seq<char>>>;

/// `word` written so that a shell reads it back as one word.
pub uninterp spec fn shell_quoted(word: Seq<char>) -> Seq<char>;

/// Whether a word can be quoted: one that holds no NUL character.
pub open spec fn quotable(word: Seq<char>) -> bool {
    !word.contains('\0')
}

/// Whether every word of a list can be quoted.
pub open spec fn all_quotable(words: Seq<Seq<char>>) -> bool {
    forall|i: int| 0 <= i < words.len() ==> quotable(#[trigger] words[i])
}

/// The quoted words with one space between neighbours.
pub open spec fn joined_quoted(words: Seq<Seq<char>>) -> Seq<char>
    decreases words.len(),
{
    if words.len() == 0 {
        Seq::empty()
    } else if words.len() == 1 {
        shell_quoted(words[0])
    } else {
        joined_quoted(words.drop_last()) + seq![' '] + shell_quoted(words.last())
    }
}

/// `shlex::split`: the words of the text, or `None` for erroneous input.
/// The result is a function of the text.
#[verifier::external_body]
pub(crate) fn split(text: &str) -> (r: Option<Vec<String>>)
    ensures
        match r {
            Some(words) => shell_words(text@) == Some(texts(words@)),
            None => shell_words(text@) is None,
        },
{
    shlex::split(text)
}

/// `shlex::try_quote`: fails exactly on a word that holds a NUL; the
/// quoted form is a function of the word.
#[verifier::external_body]
pub(crate) fn quote(word: &str) -> (r: Option<String>)
    ensures
        r is Some <==> quotable(word@),
        r is Some ==> r->0@ == shell_quoted(word@),
{
    shlex::try_quote(word).ok().map(|q| q.into_owned())
}

/// `shlex::try_join`: quotes each word as `try_quote` does and puts single
/// spaces between them; fails exactly where one of the words holds a NUL.
#[verifier::external_body]
pub(crate) fn join(words: &Vec<String>) -> (r: Option<String>)
    ensures
        r is Some <==> all_quotable(texts(words@)),
        r is Some ==> r->0@ == joined_quoted(texts(words@)),
{
    shlex::try_join(words.iter().map(|w| w.as_str())).ok()
}

} // verus!
