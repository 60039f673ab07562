//! Regular expressions, as the `regex` crate matches them.

use vstd::prelude::*;

verus! {

/// Whether a character has a special meaning in a regular expression.
pub open spec fn is_meta_character(c: char) -> bool {
    c == '\\' || c == '.' || c == '+' || c == '*' || c == '?' || c == '(' || c == ')' || c == '|'
        || c == '[' || c == ']' || c == '{' || c == '}' || c == '^' || c == '$' || c == '#' || c
        == '&' || c == '-' || c == '~'
}

/// `text` with a backslash in front of each meta character.
pub open spec fn escaped(text: Seq<char>) -> Seq<char>
    decreases text.len(),
{
    if text.len() == 0 {
        Seq::empty()
    } else if is_meta_character(text.last()) {
        escaped(text.drop_last()).push('\\').push(text.last())
    } else {
        escaped(text.drop_last()).push(text.last())
    }
}

/// The pattern that matches exactly `text`: its escaped form between `^`
/// and `$`.
pub open spec fn anchored_literal(text: Seq<char>) -> Seq<char> {
    seq!['^'] + escaped(text) + seq!['$']
}

/// `regex::escape`: the result is the text with every meta character
/// preceded by a backslash, and every other character unchanged.
#[verifier::external_body]
pub(crate) fn escape(text: &str) -> (r: String)
    ensures
        r@ == escaped(text@),
{
    regex::escape(text)
}

/// Escaping leaves text without meta characters as it is.
pub proof fn lemma_escaped_plain(text: Seq<char>)
    requires
        forall|i: int| 0 <= i < text.len() ==> !is_meta_character(#[trigger] text[i]),
    ensures
        escaped(text) == text,
    decreases text.len(),
{
    if text.len() > 0 {
        lemma_escaped_plain(text.drop_last());
        assert(text.drop_last().push(text.last()) =~= text);
    }
}

/// Whether the regular expression `pattern` matches somewhere in `text`;
/// `None` if `pattern` is no valid regular expression.
pub uninterp spec fn regex_match(pattern: Seq<char>, text: Seq<char>) -> Option<bool>;

/// What the first capture group of `pattern` holds at its leftmost match
/// in `text`: the outer `None` if `pattern` is no valid regular expression,
/// the inner `None` if it matches nowhere.
pub uninterp spec fn regex_first_capture(pattern: Seq<char>, text: Seq<char>) -> Option<
    Option<Seq<char>>,
>;

/// `text` cut at the successive matches of `pattern`: for each match the
/// text between the previous match and this one, and what the first
/// capture group holds; then the text after the last match. `None` if
/// `pattern` is no valid regular expression.
pub uninterp spec fn regex_pieces(pattern: Seq<char>, text: Seq<char>) -> Option<
    (Seq<(Seq<char>, Seq<char>)>, Seq<char>),
>;

/// Pairs of strings as pairs of texts.
pub open spec fn pairs_model(pairs: Seq<(String, String)>) -> Seq<(Seq<char>, Seq<char>)> {
    pairs.map_values(|p: (String, String)| (p.0@, p.1@))
}

/// Cut text as plain values.
pub open spec fn pieces_model(pieces: Option<(Vec<(String, String)>, String)>) -> Option<
    (Seq<(Seq<char>, Seq<char>)>, Seq<char>),
> {
    match pieces {
        Some((pairs, tail)) => Some((pairs_model(pairs@), tail@)),
        None => None,
    }
}

/// `Regex::new` followed by `Regex::is_match`: compiles the pattern and
/// searches the text. The result is a function of the two strings.
#[verifier::external_body]
pub(crate) fn is_match(pattern: &str, text: &str) -> (r: Option<bool>)
    ensures
        r == regex_match(pattern@, text@),
{
    match regex::Regex::new(pattern) {
        Ok(re) => Some(re.is_match(text)),
        Err(_) => None,
    }
}

/// `Regex::new` followed by `Regex::captures`: the text of group 1 at the
/// leftmost match, empty where the group took no part. The result is a
/// function of the two strings.
#[verifier::external_body]
pub(crate) fn first_capture(pattern: &str, text: &str) -> (r: Option<Option<String>>)
    ensures
        match r {
            Some(Some(found)) => regex_first_capture(pattern@, text@) == Some(Some(found@)),
            Some(None) => regex_first_capture(pattern@, text@) == Some(None::<Seq<char>>),
            None => regex_first_capture(pattern@, text@) is None,
        },
{
    match regex::Regex::new(pattern) {
        Ok(re) => Some(
            re.captures(text).map(|c| c.get(1).map_or(String::new(), |g| g.as_str().to_string())),
        ),
        Err(_) => None,
    }
}

/// `Regex::new` followed by `Regex::captures_iter`: walks the successive
/// non-overlapping matches and hands out, for each, the text before it and
/// the text of group 1, and at last the text after the final match. The
/// result is a function of the two strings.
#[verifier::external_body]
pub(crate) fn split_captures(pattern: &str, text: &str) -> (r: Option<
    (Vec<(String, String)>, String),
>)
    ensures
        pieces_model(r) == regex_pieces(pattern@, text@),
{
    let re = regex::Regex::new(pattern).ok()?;
    let mut at: usize = 0;
    let mut pairs = Vec::new();
    for c in re.captures_iter(text) {
        let whole = c.get(0).unwrap();
        let group = c.get(1).map_or(String::new(), |g| g.as_str().to_string());
        pairs.push((text[at..whole.start()].to_string(), group));
        at = whole.end();
    }
    Some((pairs, text[at..].to_string()))
}

} // verus!
