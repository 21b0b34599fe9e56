//! Examining the files of a scan, one after the other.

use crate::application::{Application, ApplicationView};
use crate::command::{normalize_exec, normalized_exec};
use crate::descriptor::{Descriptor, DescriptorView};
use crate::parser::{entry_section, parse_descriptor, parse_of, EntryParseError, ParseFailure};
use crate::visibility::{check_visibility, named_desktops, verdict_of, Rejection, Verdict};
use vstd::prelude::*;

verus! {

/// An accepted entry whose icon has not been resolved yet.
#[derive(Clone, Debug, PartialEq, Eq)]
pub struct Candidate {
    /// The display name, in the default locale.
    pub name: String,
    /// The tooltip, in the default locale; empty where the file gives none.
    pub comment: String,
    /// The icon as the file names it.
    pub icon_reference: Option<String>,
    /// The normalised command line.
    pub command: String,
}

/// The mathematical content of a [`Candidate`].
pub struct CandidateView {
    pub name: Seq<char>,
    pub comment: Seq<char>,
    pub icon_reference: Option<Seq<char>>,
    pub command: Seq<char>,
}

impl View for Candidate {
    type V = CandidateView;

    open spec fn view(&self) -> CandidateView {
        CandidateView {
            name: self.name@,
            comment: self.comment@,
            icon_reference: self.icon_reference.deep_view(),
            command: self.command@,
        }
    }
}

impl Candidate {
    /// The record that lists this entry with the icon found for it.
    pub fn into_application(self, icon: String) -> (r: Application)
        ensures
            r@ == listed_as(self@, icon@),
    {
        Application { name: self.name, comment: self.comment, icon, command: self.command }
    }
}

/// The record that lists the candidate `c` with the icon path `icon`.
pub open spec fn listed_as(c: CandidateView, icon: Seq<char>) -> ApplicationView {
    ApplicationView { name: c.name, comment: c.comment, icon, command: c.command }
}

/// What became of one file of the scan.
#[derive(Clone, Debug, PartialEq, Eq)]
pub enum EntryOutcome {
    /// The entry is to be listed.
    Accepted(Candidate),
    /// The entry was read and is left out.
    Rejected(Rejection),
    /// The file yields no entry.
    Failed(EntryParseError),
}

/// The mathematical content of an [`EntryOutcome`].
pub enum EntryOutcomeView {
    Accepted(CandidateView),
    Rejected(Rejection),
    Failed(ParseFailure),
}

impl View for EntryOutcome {
    type V = EntryOutcomeView;

    open spec fn view(&self) -> EntryOutcomeView {
        match self {
            EntryOutcome::Accepted(c) => EntryOutcomeView::Accepted(c@),
            EntryOutcome::Rejected(why) => EntryOutcomeView::Rejected(*why),
            EntryOutcome::Failed(e) => EntryOutcomeView::Failed(e@),
        }
    }
}

/// The default text of an optional comment; empty where there is none.
pub open spec fn comment_text(d: DescriptorView) -> Seq<char> {
    match d.comment {
        Some(c) => c.default,
        None => Seq::empty(),
    }
}

/// The command template of `d`; empty where it gives none.
pub open spec fn template_text(d: DescriptorView) -> Seq<char> {
    match d.exec_template {
        Some(t) => t,
        None => Seq::empty(),
    }
}

/// The candidate that an accepted descriptor turns into.
pub open spec fn candidate_of(d: DescriptorView, terminal_program: Seq<char>) -> CandidateView {
    CandidateView {
        name: d.name.default,
        comment: comment_text(d),
        icon_reference: d.icon_reference,
        command: normalized_exec(template_text(d), d.terminal, terminal_program),
    }
}

/// What becomes of a descriptor: a candidate where the environment lists it,
/// the reason where it does not.
pub open spec fn descriptor_outcome(
    d: DescriptorView,
    desktop: Seq<char>,
    terminal_program: Seq<char>,
) -> EntryOutcomeView {
    match verdict_of(d, desktop) {
        Verdict::Accept => EntryOutcomeView::Accepted(candidate_of(d, terminal_program)),
        Verdict::Reject(why) => EntryOutcomeView::Rejected(why),
    }
}

/// What becomes of a file with the text `content`.
pub open spec fn entry_outcome(
    content: Seq<char>,
    desktop: Seq<char>,
    terminal_program: Seq<char>,
) -> EntryOutcomeView {
    match parse_of(content) {
        Ok(d) => descriptor_outcome(d, desktop, terminal_program),
        Err(failure) => EntryOutcomeView::Failed(failure),
    }
}

/// What becomes of each file of a scan, in the order of the files.
pub open spec fn scan_outcomes(
    contents: Seq<Seq<char>>,
    desktop: Seq<char>,
    terminal_program: Seq<char>,
) -> Seq<EntryOutcomeView> {
    Seq::new(contents.len(), |i: int| entry_outcome(contents[i], desktop, terminal_program))
}

/// The candidates among `outcomes`, in their order.
pub open spec fn accepted_candidates(outcomes: Seq<EntryOutcomeView>) -> Seq<CandidateView>
    decreases outcomes.len(),
{
    if outcomes.len() == 0 {
        Seq::empty()
    } else {
        let earlier = accepted_candidates(outcomes.drop_last());
        match outcomes.last() {
            EntryOutcomeView::Accepted(c) => earlier.push(c),
            _ => earlier,
        }
    }
}

/// Filters and normalises one parsed entry.
pub fn examine_descriptor(d: Descriptor, desktop: &str, terminal_program: &str) -> (r:
    EntryOutcome)
    ensures
        r@ == descriptor_outcome(d@, desktop@, terminal_program@),
{
    match check_visibility(&d, desktop) {
        Verdict::Reject(why) => EntryOutcome::Rejected(why),
        Verdict::Accept => {
            let Descriptor { name, comment, icon_reference, exec_template, terminal, .. } = d;
            let command = match exec_template {
                Some(template) => normalize_exec(template.as_str(), terminal, terminal_program),
                None => {
                    return EntryOutcome::Rejected(Rejection::NoExec);
                },
            };
            let comment = match comment {
                Some(text) => text.default,
                None => String::new(),
            };
            EntryOutcome::Accepted(Candidate { name: name.default, comment, icon_reference, command })
        },
    }
}

/// Parses, filters and normalises the text of one file.
pub fn examine_entry(content: &str, desktop: &str, terminal_program: &str) -> (r: EntryOutcome)
    ensures
        r@ == entry_outcome(content@, desktop@, terminal_program@),
{
    match parse_descriptor(content) {
        Ok(d) => examine_descriptor(d, desktop, terminal_program),
        Err(e) => EntryOutcome::Failed(e),
    }
}

/// The mathematical content of a list of outcomes.
pub open spec fn outcome_views(outcomes: Seq<EntryOutcome>) -> Seq<EntryOutcomeView> {
    Seq::new(outcomes.len(), |i: int| outcomes[i]@)
}

/// Examines every file of a scan. A file that fails or is rejected takes its
/// place in the result like any other, and the scan goes on after it.
pub fn scan_entries(contents: &Vec<String>, desktop: &str, terminal_program: &str) -> (r: Vec<
    EntryOutcome,
>)
    ensures
        outcome_views(r@) == scan_outcomes(contents.deep_view(), desktop@, terminal_program@),
{
    let mut outcomes: Vec<EntryOutcome> = Vec::new();
    let mut i: usize = 0;
    while i < contents.len()
        invariant
            i <= contents.len(),
            outcomes.len() == i,
            forall|j: int|
                0 <= j < i ==> (#[trigger] outcomes@[j])@ == entry_outcome(
                    contents@[j]@,
                    desktop@,
                    terminal_program@,
                ),
        decreases contents.len() - i,
    {
        let outcome = examine_entry(contents[i].as_str(), desktop, terminal_program);
        outcomes.push(outcome);
        i += 1;
    }
    assert(outcome_views(outcomes@) =~= scan_outcomes(
        contents.deep_view(),
        desktop@,
        terminal_program@,
    ));
    outcomes
}

/// The candidates of two runs of files are those of the first run followed
/// by those of the second.
pub proof fn lemma_accepted_candidates_concat(a: Seq<EntryOutcomeView>, b: Seq<EntryOutcomeView>)
    ensures
        accepted_candidates(a + b) == accepted_candidates(a) + accepted_candidates(b),
    decreases b.len(),
{
    if b.len() == 0 {
        assert(a + b =~= a);
        assert(accepted_candidates(a) + accepted_candidates(b) =~= accepted_candidates(a));
    } else {
        lemma_accepted_candidates_concat(a, b.drop_last());
        assert((a + b).drop_last() =~= a + b.drop_last());
        assert((a + b).last() == b.last());
        match b.last() {
            EntryOutcomeView::Accepted(c) => {
                assert((accepted_candidates(a) + accepted_candidates(b.drop_last())).push(c)
                    =~= accepted_candidates(a) + accepted_candidates(b.drop_last()).push(c));
            },
            _ => {},
        }
    }
}

/// A file that yields no candidate leaves the scan as it is: with the file
/// or without it, wherever it stands among the others, the same entries are
/// accepted, in the same order.
pub proof fn law_unaccepted_file_changes_nothing(
    before: Seq<Seq<char>>,
    file: Seq<char>,
    after: Seq<Seq<char>>,
    desktop: Seq<char>,
    terminal_program: Seq<char>,
)
    requires
        !(entry_outcome(file, desktop, terminal_program) is Accepted),
    ensures
        accepted_candidates(scan_outcomes(before + seq![file] + after, desktop, terminal_program))
            == accepted_candidates(scan_outcomes(before + after, desktop, terminal_program)),
{
    let front = scan_outcomes(before, desktop, terminal_program);
    let single = scan_outcomes(seq![file], desktop, terminal_program);
    let back = scan_outcomes(after, desktop, terminal_program);
    assert(scan_outcomes(before + seq![file] + after, desktop, terminal_program) =~= front + single
        + back);
    assert(scan_outcomes(before + after, desktop, terminal_program) =~= front + back);
    lemma_accepted_candidates_concat(front + single, back);
    lemma_accepted_candidates_concat(front, single);
    lemma_accepted_candidates_concat(front, back);
    assert(single.last() == entry_outcome(file, desktop, terminal_program));
    assert(single.drop_last() =~= Seq::<EntryOutcomeView>::empty());
    assert(accepted_candidates(single.drop_last()) =~= Seq::<CandidateView>::empty());
    assert(accepted_candidates(single) =~= Seq::<CandidateView>::empty());
    assert(accepted_candidates(front) + Seq::<CandidateView>::empty() =~= accepted_candidates(
        front,
    ));
}

/// A file without the entry marker is skipped and the scan goes on: its
/// outcome is a failure for want of the section, and what is accepted is the
/// same with the file as without it.
pub proof fn law_markerless_file_changes_nothing(
    before: Seq<Seq<char>>,
    file: Seq<char>,
    after: Seq<Seq<char>>,
    desktop: Seq<char>,
    terminal_program: Seq<char>,
)
    requires
        entry_section(file) is None,
    ensures
        entry_outcome(file, desktop, terminal_program) == EntryOutcomeView::Failed(
            ParseFailure::MissingSection,
        ),
        accepted_candidates(scan_outcomes(before + seq![file] + after, desktop, terminal_program))
            == accepted_candidates(scan_outcomes(before + after, desktop, terminal_program)),
{
    law_unaccepted_file_changes_nothing(before, file, after, desktop, terminal_program);
}

/// A file whose entry is hidden, or asks not to be displayed, never adds to
/// what is accepted, whatever its other fields state.
pub proof fn law_hidden_file_changes_nothing(
    before: Seq<Seq<char>>,
    file: Seq<char>,
    after: Seq<Seq<char>>,
    desktop: Seq<char>,
    terminal_program: Seq<char>,
)
    requires
        parse_of(file) matches Ok(d) && (d.hidden == Some(true) || d.no_display == Some(true)),
    ensures
        accepted_candidates(scan_outcomes(before + seq![file] + after, desktop, terminal_program))
            == accepted_candidates(scan_outcomes(before + after, desktop, terminal_program)),
{
    law_unaccepted_file_changes_nothing(before, file, after, desktop, terminal_program);
}

/// A file whose entry the active environment is excluded from, by either of
/// its two lists, never adds to what is accepted.
pub proof fn law_excluded_file_changes_nothing(
    before: Seq<Seq<char>>,
    file: Seq<char>,
    after: Seq<Seq<char>>,
    desktop: Seq<char>,
    terminal_program: Seq<char>,
)
    requires
        parse_of(file) matches Ok(d) && ({
            ||| named_desktops(d.only_show_in).len() > 0 && !named_desktops(
                d.only_show_in,
            ).contains(desktop)
            ||| named_desktops(d.not_show_in).contains(desktop)
        }),
    ensures
        accepted_candidates(scan_outcomes(before + seq![file] + after, desktop, terminal_program))
            == accepted_candidates(scan_outcomes(before + after, desktop, terminal_program)),
{
    law_unaccepted_file_changes_nothing(before, file, after, desktop, terminal_program);
}

} // verus!
