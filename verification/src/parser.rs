//! Turning the text of a desktop entry file into a [`Descriptor`].

use crate::descriptor::{Descriptor, DescriptorView, EntryKind, LocaleString};
use crate::text::{find_from, first_match_from, lemma_first_match_is_least, to_chars};
use freedesktop_file_parser::EntryType;
use vstd::prelude::*;

verus! {

/// Why a file yields no descriptor.
#[derive(Clone, Copy, Debug, PartialEq, Eq, Structural)]
pub enum ParseFailure {
    /// The file holds no `[Desktop Entry]` marker.
    MissingSection,
    /// The entry section does not decode.
    Malformed,
}

/// A file that yields no descriptor, with what the decoder said of it.
#[derive(Clone, Debug, PartialEq, Eq)]
pub enum EntryParseError {
    /// The file holds no `[Desktop Entry]` marker.
    MissingSection,
    /// The entry section does not decode; `detail` is the decoder's message.
    Malformed { detail: String },
}

impl View for EntryParseError {
    type V = ParseFailure;

    open spec fn view(&self) -> ParseFailure {
        match self {
            EntryParseError::MissingSection => ParseFailure::MissingSection,
            EntryParseError::Malformed { .. } => ParseFailure::Malformed,
        }
    }
}

/// The marker that opens the entry section.
pub open spec fn entry_marker() -> Seq<char> {
    "[Desktop Entry]"@
}

/// What opens any further section: a line break followed by a bracket.
pub open spec fn section_opener() -> Seq<char> {
    "\n["@
}

/// Where the entry section of `content` starts and ends.
///
/// It starts at the first marker. It ends where the next section opens, at
/// the next marker, or at the end of the text, whichever comes first; a
/// section opener counts only where it lies wholly before the next marker.
pub open spec fn section_bounds(content: Seq<char>) -> Option<(int, int)> {
    match first_match_from(content, entry_marker(), 0) {
        None => None,
        Some(start) => {
            let body = start + entry_marker().len();
            let limit = match first_match_from(content, entry_marker(), body) {
                Some(k) => k,
                None => content.len() as int,
            };
            let end = match first_match_from(content.subrange(0, limit), section_opener(), body) {
                Some(k) => k,
                None => limit,
            };
            Some((start, end))
        },
    }
}

/// The entry section of `content`, marker included, or `None` where
/// `content` holds no marker.
pub open spec fn entry_section(content: Seq<char>) -> Option<Seq<char>> {
    match section_bounds(content) {
        Some((start, end)) => Some(content.subrange(start, end)),
        None => None,
    }
}

/// The bounds of a section lie in the text, in order, with the marker between
/// them.
pub proof fn lemma_section_bounds(content: Seq<char>)
    ensures
        match section_bounds(content) {
            Some((start, end)) => 0 <= start && start + entry_marker().len() <= end <= content.len(),
            None => true,
        },
{
    lemma_first_match_is_least(content, entry_marker(), 0);
    match first_match_from(content, entry_marker(), 0) {
        None => {},
        Some(start) => {
            let body = start + entry_marker().len();
            lemma_first_match_is_least(content, entry_marker(), body);
            let limit = match first_match_from(content, entry_marker(), body) {
                Some(k) => k,
                None => content.len() as int,
            };
            lemma_first_match_is_least(content.subrange(0, limit), section_opener(), body);
        },
    }
}

/// Isolates the entry section of a file's text.
pub fn extract_entry_section(content: &str) -> (r: Option<String>)
    ensures
        r.deep_view() == entry_section(content@),
{
    let chars = to_chars(content);
    let marker = to_chars("[Desktop Entry]");
    let opener = to_chars("\n[");
    let total: usize = chars.len();
    proof {
        assert(chars@.subrange(0, total as int) =~= chars@);
        lemma_section_bounds(chars@);
    }
    match find_from(&chars, &marker, 0, total) {
        None => None,
        Some(start) => {
            let body: usize = start + marker.len();
            proof {
                lemma_first_match_is_least(chars@, marker@, body as int);
            }
            let limit: usize = match find_from(&chars, &marker, body, total) {
                Some(k) => k,
                None => total,
            };
            let end: usize = match find_from(&chars, &opener, body, limit) {
                Some(k) => k,
                None => limit,
            };
            Some(content.substring_char(start, end).to_owned())
        },
    }
}

/// What parsing `content` yields: the parser's reading of its entry section,
/// or why there is none.
pub open spec fn parse_of(content: Seq<char>) -> Result<DescriptorView, ParseFailure> {
    match entry_section(content) {
        None => Err(ParseFailure::MissingSection),
        Some(section) => match parsed_entry(section) {
            Some(d) => Ok(d),
            None => Err(ParseFailure::Malformed),
        },
    }
}

/// The error that the `freedesktop_file_parser` crate reports.
#[verifier::external_type_specification]
#[verifier::external_body]
pub struct ExParseError(freedesktop_file_parser::ParseError);

/// What `freedesktop_file_parser::parse` makes of `input`: the main entry of
/// the file it parsed, or `None` where it reports an error.
pub uninterp spec fn parsed_entry(input: Seq<char>) -> Option<DescriptorView>;

/// Calls `freedesktop_file_parser::parse` and moves the fields of the main
/// entry it returns into a [`Descriptor`], one for one. The parser reads
/// nothing but its input, so all that is claimed here is that its outcome is
/// [`parsed_entry`] of that input; what the parser makes of any given text is
/// not stated.
#[verifier::external_body]
fn parse_entry(input: &str) -> (r: Result<Descriptor, freedesktop_file_parser::ParseError>)
    ensures
        match r {
            Ok(d) => parsed_entry(input@) == Some(d@),
            Err(_) => parsed_entry(input@) is None,
        },
{
    let e = freedesktop_file_parser::parse(input)?.entry;
    let text = |l: freedesktop_file_parser::LocaleString| {
        LocaleString { default: l.default, variants: l.variants }
    };
    let (entry_type, exec_template, terminal) = match e.entry_type {
        EntryType::Application(a) => (EntryKind::Application, a.exec, a.terminal),
        EntryType::Link(_) => (EntryKind::Link, None, None),
        EntryType::Directory => (EntryKind::Directory, None, None),
        EntryType::Unknown => (EntryKind::Unknown, None, None),
    };
    Ok(Descriptor { entry_type, exec_template, terminal, name: text(e.name),
        comment: e.comment.map(text), icon_reference: e.icon.map(|i| i.content),
        hidden: e.hidden, no_display: e.no_display,
        only_show_in: e.only_show_in, not_show_in: e.not_show_in })
}

/// The message of an error that the parser reported: what `to_string` gives
/// for a `freedesktop_file_parser::ParseError`. Nothing is claimed of it.
#[verifier::external_body]
fn error_text(e: &freedesktop_file_parser::ParseError) -> String {
    e.to_string()
}

/// Parses the text of one desktop entry file.
///
/// Fails with `MissingSection` exactly when the text holds no entry marker,
/// and with `Malformed` exactly when it does and the section does not decode.
pub fn parse_descriptor(content: &str) -> (r: Result<Descriptor, EntryParseError>)
    ensures
        match r {
            Ok(d) => parse_of(content@) == Ok::<DescriptorView, ParseFailure>(d@),
            Err(e) => parse_of(content@) == Err::<DescriptorView, ParseFailure>(e@),
        },
{
    match extract_entry_section(content) {
        None => Err(EntryParseError::MissingSection),
        Some(section) => match parse_entry(section.as_str()) {
            Ok(d) => Ok(d),
            Err(e) => Err(EntryParseError::Malformed { detail: error_text(&e) }),
        },
    }
}

} // verus!
