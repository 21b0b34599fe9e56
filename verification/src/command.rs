//! Turning a command template into the command line that gets launched.

use crate::text::{
    first_non_whitespace, first_whitespace, is_whitespace, lemma_skip_whitespace, lemma_skip_word,
    skip_whitespace, skip_word, to_chars,
};
use vstd::prelude::*;
use vstd::string::StringExecFns;

verus! {

/// The first whitespace-delimited word of `s`; `s` itself where it holds no
/// word.
pub open spec fn first_token(s: Seq<char>) -> Seq<char> {
    let start = skip_whitespace(s, 0);
    if start >= s.len() {
        s
    } else {
        s.subrange(start, skip_word(s, start))
    }
}

/// Keeps the program of a command template and drops its arguments and
/// placeholder tokens such as `%U` or `%f`.
pub fn clean_exec_command(template: String) -> (r: String)
    ensures
        r@ == first_token(template@),
{
    let chars = to_chars(template.as_str());
    let start: usize = first_non_whitespace(&chars, 0);
    if start >= chars.len() {
        return template;
    }
    let end: usize = first_whitespace(&chars, start);
    proof {
        lemma_skip_word(chars@, start as int);
    }
    template.as_str().substring_char(start, end).to_owned()
}

/// The command line for a template: its program, run through
/// `terminal_program` where the entry asks for a terminal.
pub open spec fn normalized_exec(
    template: Seq<char>,
    terminal: Option<bool>,
    terminal_program: Seq<char>,
) -> Seq<char> {
    if terminal == Some(true) {
        terminal_program + " "@ + first_token(template)
    } else {
        first_token(template)
    }
}

/// Normalises a command template into an invocable command line.
pub fn normalize_exec(template: &str, terminal: Option<bool>, terminal_program: &str) -> (r: String)
    ensures
        r@ == normalized_exec(template@, terminal, terminal_program@),
{
    let cleaned = clean_exec_command(template.to_owned());
    match terminal {
        Some(true) => String::from_str(terminal_program).concat(" ").concat(cleaned.as_str()),
        _ => cleaned,
    }
}

/// The shell line that starts `command` detached from its parent, with its
/// output discarded.
pub open spec fn detached_command(command: Seq<char>) -> Seq<char> {
    "nohup "@ + command + " > /dev/null 2>&1 &"@
}

/// Builds the shell line by which a listed application is launched.
pub fn launch_command(command: &str) -> (r: String)
    ensures
        r@ == detached_command(command@),
{
    String::from_str("nohup ").concat(command).concat(" > /dev/null 2>&1 &")
}

/// What is kept of a template that holds a word is one word: it is not
/// empty and holds no whitespace, hence no argument and no placeholder.
pub proof fn law_first_token_is_one_word(template: Seq<char>)
    requires
        skip_whitespace(template, 0) < template.len(),
    ensures
        first_token(template).len() > 0,
        forall|i: int|
            0 <= i < first_token(template).len() ==> !is_whitespace(
                #[trigger] first_token(template)[i],
            ),
{
    lemma_skip_whitespace(template, 0);
    lemma_skip_word(template, skip_whitespace(template, 0));
}

/// A template without a word is kept as it is.
pub proof fn law_first_token_of_blank(template: Seq<char>)
    requires
        crate::text::is_blank(template),
    ensures
        first_token(template) == template,
{
    lemma_skip_whitespace(template, 0);
}

} // verus!
