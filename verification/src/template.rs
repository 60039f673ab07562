//! Command templates: a command line in which `{n}` stands for the n-th
//! word of the command that a process was started with.

use vstd::prelude::*;
use vstd::string::*;
use crate::pattern::{is_match, pairs_model, regex_match, regex_pieces, split_captures};
use crate::shellwords::{quotable, quote, shell_quoted, shell_words, split};
use crate::text::{bounded_value, optional_texts, parse_u64, texts};

verus! {

/// Why a template could not be filled in.
#[derive(Clone, Copy, Debug, PartialEq, Eq, Structural)]
pub enum TemplateError {
    /// The number in a placeholder cannot be read.
    BadIndex,
    /// The word that a placeholder stands for holds a NUL and cannot be
    /// quoted.
    Unquotable,
}

/// The regular expression that finds a placeholder; its first group holds
/// the number.
pub open spec fn placeholder_pattern() -> Seq<char> {
    "\\{(\\d+)\\}"@
}

/// What stands in place of a placeholder with the given number: the word
/// at that position in quoted form, or nothing where there is no such
/// word.
pub open spec fn replacement(number: Seq<char>, argv: Seq<Seq<char>>) -> Result<
    Seq<char>,
    TemplateError,
> {
    match bounded_value(number, u64::MAX as nat) {
        None => Err(TemplateError::BadIndex),
        Some(k) => if k < argv.len() {
            if quotable(argv[k as int]) {
                Ok(shell_quoted(argv[k as int]))
            } else {
                Err(TemplateError::Unquotable)
            }
        } else {
            Ok(Seq::empty())
        },
    }
}

/// The text made of the pieces before each placeholder, each followed by
/// what stands in place of the placeholder. The first placeholder that
/// cannot be replaced decides the error.
pub open spec fn filled_pairs(pairs: Seq<(Seq<char>, Seq<char>)>, argv: Seq<Seq<char>>) -> Result<
    Seq<char>,
    TemplateError,
>
    decreases pairs.len(),
{
    if pairs.len() == 0 {
        Ok(Seq::empty())
    } else {
        match filled_pairs(pairs.drop_last(), argv) {
            Err(e) => Err(e),
            Ok(head) => match replacement(pairs.last().1, argv) {
                Err(e) => Err(e),
                Ok(word) => Ok(head + pairs.last().0 + word),
            },
        }
    }
}

/// A template cut at its placeholders, filled in.
pub open spec fn filled(
    pairs: Seq<(Seq<char>, Seq<char>)>,
    tail: Seq<char>,
    argv: Seq<Seq<char>>,
) -> Result<Seq<char>, TemplateError> {
    match filled_pairs(pairs, argv) {
        Err(e) => Err(e),
        Ok(head) => Ok(head + tail),
    }
}

/// A filled template as plain values.
pub open spec fn text_result(r: Result<String, TemplateError>) -> Result<Seq<char>, TemplateError> {
    match r {
        Ok(s) => Ok(s@),
        Err(e) => Err(e),
    }
}

fn replace_placeholder(number: &str, argv: &Vec<String>) -> (r: Result<String, TemplateError>)
    ensures
        text_result(r) == replacement(number@, texts(argv@)),
{
    let k = match parse_u64(number) {
        Some(k) => k,
        None => {
            return Err(TemplateError::BadIndex);
        },
    };
    if k < argv.len() as u64 {
        match quote(argv[k as usize].as_str()) {
            Some(word) => Ok(word),
            None => Err(TemplateError::Unquotable),
        }
    } else {
        Ok(String::new())
    }
}

/// Fills in a template that has been cut at its placeholders: `pairs`
/// holds, for each placeholder, the text before it and its number, `tail`
/// the text after the last.
pub fn fill_template(pairs: &Vec<(String, String)>, tail: &str, argv: &Vec<String>) -> (r: Result<
    String,
    TemplateError,
>)
    ensures
        text_result(r) == filled(pairs_model(pairs@), tail@, texts(argv@)),
{
    let mut out = String::new();
    let mut i: usize = 0;
    let ghost model = pairs_model(pairs@);
    assert(model.take(0) =~= Seq::empty());
    while i < pairs.len()
        invariant
            i <= pairs.len(),
            model == pairs_model(pairs@),
            filled_pairs(model.take(i as int), texts(argv@)) == Ok::<Seq<char>, TemplateError>(out@),
        decreases pairs.len() - i,
    {
        let ghost before = out@;
        assert(model.take(i + 1).drop_last() =~= model.take(i as int));
        assert(model.take(i + 1).last() == (pairs@[i as int].0@, pairs@[i as int].1@));
        let word = match replace_placeholder(pairs[i].1.as_str(), argv) {
            Ok(word) => word,
            Err(e) => {
                proof {
                    lemma_fill_error_stays(model, texts(argv@), i + 1);
                }
                return Err(e);
            },
        };
        out.append(pairs[i].0.as_str());
        out.append(word.as_str());
        assert(out@ =~= before + pairs@[i as int].0@ + word@);
        i += 1;
    }
    assert(model.take(pairs.len() as int) =~= model);
    out.append(tail);
    Ok(out)
}

/// An error among the first placeholders is the error of the whole.
proof fn lemma_fill_error_stays(pairs: Seq<(Seq<char>, Seq<char>)>, argv: Seq<Seq<char>>, n: int)
    requires
        0 <= n <= pairs.len(),
        filled_pairs(pairs.take(n), argv) is Err,
    ensures
        filled_pairs(pairs, argv) == filled_pairs(pairs.take(n), argv),
    decreases pairs.len(),
{
    if n == pairs.len() {
        assert(pairs.take(n) =~= pairs);
    } else {
        assert(pairs.drop_last().take(n) =~= pairs.take(n));
        lemma_fill_error_stays(pairs.drop_last(), argv, n);
    }
}

/// What a template becomes for a command, given what the placeholder
/// pattern cuts the template into; a template that has not been cut
/// stays as it is.
pub open spec fn interpolated(
    template: Seq<char>,
    pieces: Option<(Seq<(Seq<char>, Seq<char>)>, Seq<char>)>,
    argv: Seq<Seq<char>>,
) -> Result<Seq<char>, TemplateError> {
    match pieces {
        Some((pairs, tail)) => filled(pairs, tail, argv),
        None => Ok(template),
    }
}

/// Puts the words of a command in place of the placeholders of a template,
/// each quoted for the shell.
pub fn interpolate(template: &str, argv: &Vec<String>) -> (r: Result<String, TemplateError>)
    ensures
        text_result(r) == interpolated(
            template@,
            regex_pieces(placeholder_pattern(), template@),
            texts(argv@),
        ),
{
    match split_captures("\\{(\\d+)\\}", template) {
        Some((pairs, tail)) => fill_template(&pairs, tail.as_str(), argv),
        None => Ok(String::from_str(template)),
    }
}

/// Whether a template holds a placeholder.
pub open spec fn has_placeholder(template: Seq<char>) -> bool {
    regex_match(placeholder_pattern(), template) == Some(true)
}

/// Tells whether a template holds a placeholder, so that the command of
/// the process is needed to fill it in.
pub fn needs_argv(template: &str) -> (b: bool)
    ensures
        b == has_placeholder(template@),
{
    match is_match("\\{(\\d+)\\}", template) {
        Some(found) => found,
        None => false,
    }
}

/// The command line that a mapping's command stands for: the template
/// filled in where it holds a placeholder and the command of the process
/// is known, else the template as it is.
pub open spec fn command_line(template: Seq<char>, argv: Option<Seq<Seq<char>>>) -> Result<
    Seq<char>,
    TemplateError,
> {
    if has_placeholder(template) && argv is Some {
        interpolated(template, regex_pieces(placeholder_pattern(), template), argv->0)
    } else {
        Ok(template)
    }
}

/// The words of a mapping's command: those of its command line, or
/// `None` where the command line is no well-formed shell command.
pub open spec fn mapped_words(template: Seq<char>, argv: Option<Seq<Seq<char>>>) -> Result<
    Option<Seq<Seq<char>>>,
    TemplateError,
> {
    match command_line(template, argv) {
        Ok(line) => Ok(shell_words(line)),
        Err(e) => Err(e),
    }
}

/// Words, where there are any, as texts.
pub open spec fn words_result(r: Result<Option<Vec<String>>, TemplateError>) -> Result<
    Option<Seq<Seq<char>>>,
    TemplateError,
> {
    match r {
        Ok(Some(words)) => Ok(Some(texts(words@))),
        Ok(None) => Ok(None),
        Err(e) => Err(e),
    }
}

/// Works out the command that a mapping gives for a window. `argv` is the
/// command that the window's process was started with, where it could be
/// read. `Ok(None)` says that the mapping's command cannot be split into
/// words, so that it is not used.
pub fn mapped_command(template: &str, argv: Option<&Vec<String>>) -> (r: Result<
    Option<Vec<String>>,
    TemplateError,
>)
    ensures
        words_result(r) == mapped_words(template@, optional_texts(argv)),
{
    if needs_argv(template) {
        if let Some(words) = argv {
            return match interpolate(template, words) {
                Ok(line) => Ok(split(line.as_str())),
                Err(e) => Err(e),
            };
        }
    }
    Ok(split(template))
}

} // verus!
