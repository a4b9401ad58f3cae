//! Which serial port a run uses: the plan of a run, the stored
//! configuration, and the steps of selecting a port among the devices that
//! were found.
//!
//! Nothing here touches a device, the console or the configuration store.
//! The caller enumerates the devices, shows the candidates, reads the answer
//! and stores the configuration; the functions of this module decide what
//! comes next.

use crate::number::{
    decimal_digits, decimal_text, is_digit, lemma_decimal_digits, parse_usize_in, usize_literal,
};
use crate::text::{chars_of, contains_chars, is_space, occurs_in, trim_bounds, trimmed};
use vstd::prelude::*;

verus! {

/// The name under which the configuration is stored.
pub const APP_NAME: &'static str = "rainbow";

/// The speed of the serial link, in baud.
pub const BAUD_RATE: u32 = 9600;

/// How long one read from the serial link may take, in milliseconds.
pub const READ_TIMEOUT_MS: u64 = 100;

/// What the name of a usable device holds where devices are filtered.
pub const DEVICE_MARKER: &'static str = "usbserial";

/// The stored configuration: the port that was selected last. An empty port
/// is valid here; opening it fails.
#[derive(Debug, PartialEq, Eq)]
pub struct RainbowConfig {
    pub port: String,
}

impl Default for RainbowConfig {
    fn default() -> (cfg: Self)
        ensures
            cfg.port@ == Seq::<char>::empty(),
    {
        RainbowConfig { port: String::new() }
    }
}

impl RainbowConfig {
    /// The configuration with `port` in place of the stored port.
    pub fn with_port(self, port: String) -> (cfg: Self)
        ensures
            cfg.port == port,
    {
        RainbowConfig { port }
    }
}

/// What a run does.
#[derive(Debug, PartialEq, Eq)]
pub enum Plan {
    /// Enumerate the devices, select one and store it. No port is opened.
    SelectPort,
    /// Open the port that was given on the command line.
    Open(String),
    /// Load the stored configuration and open its port.
    OpenStored,
}

/// The mathematical value of a [`Plan`].
pub enum PlanView {
    SelectPort,
    Open(Seq<char>),
    OpenStored,
}

impl View for Plan {
    type V = PlanView;

    open spec fn view(&self) -> PlanView {
        match self {
            Plan::SelectPort => PlanView::SelectPort,
            Plan::Open(port) => PlanView::Open(port@),
            Plan::OpenStored => PlanView::OpenStored,
        }
    }
}

/// The plan that the command line asks for: selection wins; without it a
/// given port is used as it is, and only without one the stored port is.
pub open spec fn plan_of(select: bool, port: Option<Seq<char>>) -> PlanView {
    if select {
        PlanView::SelectPort
    } else {
        match port {
            Some(p) => PlanView::Open(p),
            None => PlanView::OpenStored,
        }
    }
}

/// Decides what the run does from the selection flag and the port given on
/// the command line.
pub fn plan(select: bool, port: Option<String>) -> (p: Plan)
    ensures
        p@ == plan_of(select, port.deep_view()),
{
    if select {
        Plan::SelectPort
    } else {
        match port {
            Some(name) => Plan::Open(name),
            None => Plan::OpenStored,
        }
    }
}

/// Why a selection ends without a port.
#[derive(Clone, Copy, Debug, PartialEq, Eq, Structural)]
pub enum PortError {
    /// No device was found.
    NoPorts,
    /// The answer is not a number.
    NotANumber,
    /// No candidate has the selected number.
    SelectionFailed,
}

impl PortError {
    /// The text shown for this error.
    pub open spec fn message_of(self) -> Seq<char> {
        match self {
            PortError::NoPorts => "No available ports"@,
            PortError::NotANumber => "Please type a number!"@,
            PortError::SelectionFailed => "Selection Failed"@,
        }
    }

    /// The text shown for this error.
    pub fn message(&self) -> (text: String)
        ensures
            text@ == self.message_of(),
    {
        match self {
            PortError::NoPorts => "No available ports".to_owned(),
            PortError::NotANumber => "Please type a number!".to_owned(),
            PortError::SelectionFailed => "Selection Failed".to_owned(),
        }
    }
}

/// What the caller does next during a selection.
#[derive(Debug, PartialEq, Eq)]
pub enum Step {
    /// Show these candidates, each with its index, read one line of input
    /// and hand both to [`choose_port`].
    Ask(Vec<String>),
    /// Store this port in the configuration. The selection is complete.
    Save(String),
    /// Stop with this error. Nothing is stored.
    Fail(PortError),
}

/// The mathematical value of a [`Step`].
pub enum StepView {
    Ask(Seq<Seq<char>>),
    Save(Seq<char>),
    Fail(PortError),
}

impl View for Step {
    type V = StepView;

    open spec fn view(&self) -> StepView {
        match self {
            Step::Ask(candidates) => StepView::Ask(candidates.deep_view()),
            Step::Save(port) => StepView::Save(port@),
            Step::Fail(error) => StepView::Fail(*error),
        }
    }
}

/// Whether the device `name` carries the marker.
pub open spec fn is_marked(name: Seq<char>) -> bool {
    occurs_in(name, DEVICE_MARKER@)
}

/// The devices among `names` that can be selected: all of them, or, where
/// devices are filtered, those that carry the marker. The order of `names`
/// is kept.
pub open spec fn candidates_of(names: Seq<Seq<char>>, filtered: bool) -> Seq<Seq<char>> {
    if filtered {
        names.filter(|name: Seq<char>| is_marked(name))
    } else {
        names
    }
}

/// The first step of a selection among the devices `names`.
///
/// The number of devices found, before any filtering, decides whether the
/// user is asked: none is an error, one is selected without asking, more are
/// shown. The candidates are numbered after filtering.
pub open spec fn first_step(names: Seq<Seq<char>>, filtered: bool) -> StepView {
    let candidates = candidates_of(names, filtered);
    if names.len() == 0 {
        StepView::Fail(PortError::NoPorts)
    } else if names.len() == 1 {
        if candidates.len() > 0 {
            StepView::Save(candidates[0])
        } else {
            StepView::Fail(PortError::SelectionFailed)
        }
    } else {
        StepView::Ask(candidates)
    }
}

/// The line that shows the candidate `name` under the number `index`.
pub open spec fn menu_line_of(index: nat, name: Seq<char>) -> Seq<char> {
    decimal_digits(index) + " : "@ + name
}

/// The lines that show `candidates`: one for each, numbered from zero.
pub open spec fn menu_of(candidates: Seq<Seq<char>>) -> Seq<Seq<char>> {
    Seq::new(candidates.len(), |i: int| menu_line_of(i as nat, candidates[i]))
}

/// The index that the line `answer` selects: the `usize` that it denotes
/// once the whitespace around it is removed.
pub open spec fn selection_of(answer: Seq<char>) -> Option<usize> {
    usize_literal(trimmed(answer))
}

/// The step that follows the user's `answer` to the list `candidates`.
pub open spec fn answer_step(candidates: Seq<Seq<char>>, answer: Seq<char>) -> StepView {
    match selection_of(answer) {
        None => StepView::Fail(PortError::NotANumber),
        Some(index) => if index < candidates.len() {
            StepView::Save(candidates[index as int])
        } else {
            StepView::Fail(PortError::SelectionFailed)
        },
    }
}

/// The devices among `names` that can be selected, in the order of `names`.
pub fn candidates(names: &Vec<String>, filtered: bool) -> (out: Vec<String>)
    ensures
        out.deep_view() == candidates_of(names.deep_view(), filtered),
{
    let marker = chars_of(DEVICE_MARKER);
    let mut out: Vec<String> = Vec::new();
    let mut i: usize = 0;
    assert(out.deep_view() =~= candidates_of(names.deep_view().take(0), filtered)) by {
        reveal(Seq::filter);
    }
    while i < names.len()
        invariant
            i <= names.len(),
            marker@ == DEVICE_MARKER@,
            out.deep_view() == candidates_of(names.deep_view().take(i as int), filtered),
        decreases names.len() - i,
    {
        let name = &names[i];
        let ghost before = out.deep_view();
        let ghost seen = names.deep_view().take(i as int);
        let keep: bool = if filtered {
            let name_chars = chars_of(name.as_str());
            contains_chars(&name_chars, &marker)
        } else {
            true
        };
        if keep {
            out.push(name.clone());
            assert(out.deep_view() =~= before.push(name@));
        }
        proof {
            assert(names.deep_view().take(i + 1) =~= seen.push(name@));
            seen.lemma_filter_push(name@, |n: Seq<char>| is_marked(n));
        }
        i += 1;
    }
    assert(names.deep_view().take(names.len() as int) =~= names.deep_view());
    out
}

/// Begins a selection among the devices `names` that were found. `filtered`
/// says whether this platform restricts the candidates to marked devices.
pub fn handle_port(names: &Vec<String>, filtered: bool) -> (step: Step)
    ensures
        step@ == first_step(names.deep_view(), filtered),
{
    if names.len() == 0 {
        return Step::Fail(PortError::NoPorts);
    }
    let found = candidates(names, filtered);
    if names.len() == 1 {
        if found.len() > 0 {
            Step::Save(found[0].clone())
        } else {
            Step::Fail(PortError::SelectionFailed)
        }
    } else {
        Step::Ask(found)
    }
}

/// The lines that show `candidates` to the user, each with the number
/// that selects it.
pub fn menu(candidates: &Vec<String>) -> (lines: Vec<String>)
    ensures
        lines.deep_view() == menu_of(candidates.deep_view()),
{
    let mut lines: Vec<String> = Vec::new();
    let mut i: usize = 0;
    while i < candidates.len()
        invariant
            i <= candidates.len(),
            lines.len() == i,
            forall|k: int|
                0 <= k < i ==> (#[trigger] lines[k])@ == menu_line_of(k as nat, candidates[k]@),
        decreases candidates.len() - i,
    {
        let mut line = decimal_text(i);
        line.append(" : ");
        line.append(candidates[i].as_str());
        lines.push(line);
        i += 1;
    }
    assert(lines.deep_view() =~= menu_of(candidates.deep_view()));
    lines
}

/// Reads the line `answer` as the index of a candidate.
pub fn parse_selection(answer: &str) -> (index: Option<usize>)
    ensures
        index == selection_of(answer@),
{
    let chars = chars_of(answer);
    let (start, end) = trim_bounds(&chars);
    parse_usize_in(&chars, start, end)
}

/// Completes a selection: the candidate that `answer` names is to be
/// stored, or the selection fails.
pub fn choose_port(candidates: &Vec<String>, answer: &str) -> (step: Step)
    ensures
        step@ == answer_step(candidates.deep_view(), answer@),
        !(step is Ask),
{
    match parse_selection(answer) {
        None => Step::Fail(PortError::NotANumber),
        Some(index) => if index < candidates.len() {
            Step::Save(candidates[index].clone())
        } else {
            Step::Fail(PortError::SelectionFailed)
        },
    }
}

/// Without a device the selection fails at once: nothing is asked and
/// nothing is stored.
pub proof fn lemma_no_device_fails(filtered: bool)
    ensures
        first_step(Seq::empty(), filtered) == StepView::Fail(PortError::NoPorts),
{
}

/// A single device is never asked about, whatever its name.
pub proof fn lemma_single_device_is_not_asked(name: Seq<char>, filtered: bool)
    ensures
        !(first_step(seq![name], filtered) is Ask),
{
}

/// A single device is selected and stored without asking, if it is a
/// candidate: always where devices are not filtered, and where they are, if
/// it carries the marker.
pub proof fn lemma_single_device_is_saved(name: Seq<char>, filtered: bool)
    requires
        filtered ==> is_marked(name),
    ensures
        first_step(seq![name], filtered) == StepView::Save(name),
{
    lemma_candidates_of_one(name);
}

/// A single device that is no candidate makes the selection fail; nothing
/// is stored.
pub proof fn lemma_single_device_unmarked_fails(name: Seq<char>)
    requires
        !is_marked(name),
    ensures
        first_step(seq![name], true) == StepView::Fail(PortError::SelectionFailed),
{
    lemma_candidates_of_one(name);
}

/// Of one device, filtering keeps it if it carries the marker and nothing
/// if it does not.
proof fn lemma_candidates_of_one(name: Seq<char>)
    ensures
        candidates_of(seq![name], true) == if is_marked(name) {
            seq![name]
        } else {
            Seq::empty()
        },
{
    let keep = |n: Seq<char>| is_marked(n);
    let none = Seq::<Seq<char>>::empty();
    assert(seq![name] =~= none.push(name));
    none.lemma_filter_push(name, keep);
    assert(none.filter(keep) =~= none) by {
        reveal(Seq::filter);
    }
}

/// The number under which a candidate is shown selects that candidate,
/// typed as it is shown and ended by a newline or not.
pub proof fn lemma_shown_number_selects(candidates: Seq<Seq<char>>, index: nat)
    requires
        index < candidates.len(),
        index <= usize::MAX,
    ensures
        answer_step(candidates, decimal_digits(index)) == StepView::Save(candidates[index as int]),
        answer_step(candidates, decimal_digits(index).push('\n')) == StepView::Save(
            candidates[index as int],
        ),
{
    let digits = decimal_digits(index);
    lemma_decimal_digits(index);
    assert(is_digit(digits[0]) && is_digit(digits.last()));
    assert(!is_space(digits[0]) && !is_space(digits.last()));
    assert(trimmed(digits) == digits);
    let line = digits.push('\n');
    assert(line[0] == digits[0]);
    assert(is_space('\n'));
    assert(line.drop_last() =~= digits);
    assert(trimmed(line) == digits);
}

/// Every candidate is one of the devices that were found, and where devices
/// are filtered it carries the marker.
pub proof fn lemma_candidates_are_devices(names: Seq<Seq<char>>, filtered: bool, i: int)
    requires
        0 <= i < candidates_of(names, filtered).len(),
    ensures
        names.contains(candidates_of(names, filtered)[i]),
        filtered ==> is_marked(candidates_of(names, filtered)[i]),
{
    let keep = |n: Seq<char>| is_marked(n);
    if filtered {
        let kept = names.filter(keep);
        names.lemma_filter_pred(keep, i);
        assert(kept.contains(kept[i]));
        names.lemma_filter_contains_rev(keep, kept[i]);
    } else {
        assert(names[i] == candidates_of(names, filtered)[i]);
    }
}

} // verus!
