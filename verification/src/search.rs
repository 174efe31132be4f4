//! What a search writes: for one observation of the walk, and for a whole
//! walk.
//!
//! The program around the library walks the directories and hands over what it
//! observed. A matching entry gives a line for the standard output, a failure
//! of the walk gives a line for the standard error, and an entry that does not
//! match gives nothing. No observation has any effect on what is written for
//! another one.

use crate::config::{Config, ConfigView};
use crate::entry::{EntryView, ObservationView, WalkObservation};
use vstd::prelude::*;

verus! {

/// A line that the search writes.
#[derive(Clone, Debug, PartialEq, Eq)]
pub enum Output {
    /// The path of a matching entry, for the standard output.
    Path(String),
    /// The description of a failure of the walk, for the standard error.
    Error(String),
}

/// The mathematical value of an [`Output`].
pub enum OutputView {
    Path(Seq<char>),
    Error(Seq<char>),
}

impl View for Output {
    type V = OutputView;

    open spec fn view(&self) -> OutputView {
        match self {
            Output::Path(path) => OutputView::Path(path@),
            Output::Error(message) => OutputView::Error(message@),
        }
    }
}

/// The values of a sequence of observations.
pub open spec fn observation_views(observations: Seq<WalkObservation>) -> Seq<ObservationView> {
    Seq::new(observations.len(), |i: int| observations[i]@)
}

/// The values of a sequence of lines.
pub open spec fn output_views(lines: Seq<Output>) -> Seq<OutputView> {
    Seq::new(lines.len(), |i: int| lines[i]@)
}

/// The line that an observation would give if nothing were filtered out.
pub open spec fn line_of(observation: ObservationView) -> OutputView {
    match observation {
        ObservationView::Found(entry) => OutputView::Path(entry.path),
        ObservationView::Failed(message) => OutputView::Error(message),
    }
}

/// What is written for one observation: the path of an entry that the
/// configuration selects, the description of a failure, and nothing for an
/// entry that is not selected.
pub open spec fn output_of(config: ConfigView, observation: ObservationView) -> Option<
    OutputView,
> {
    match observation {
        ObservationView::Found(entry) => if config.selects(entry) {
            Some(OutputView::Path(entry.path))
        } else {
            None
        },
        ObservationView::Failed(message) => Some(OutputView::Error(message)),
    }
}

/// What is written for a whole walk: the lines of its observations, in the
/// order of the walk.
pub open spec fn outputs_of(config: ConfigView, observations: Seq<ObservationView>) -> Seq<
    OutputView,
>
    decreases observations.len(),
{
    if observations.len() == 0 {
        Seq::empty()
    } else {
        let before = outputs_of(config, observations.drop_last());
        match output_of(config, observations.last()) {
            Some(line) => before.push(line),
            None => before,
        }
    }
}

/// Decides what to write for one observation of the walk.
pub fn observe(config: &Config, observation: WalkObservation) -> (out: Option<Output>)
    ensures
        match out {
            Some(line) => output_of(config@, observation@) == Some(line@),
            None => output_of(config@, observation@) is None,
        },
{
    match observation {
        WalkObservation::Found(entry) => {
            if config.selects(&entry) {
                Some(Output::Path(entry.path))
            } else {
                None
            }
        },
        WalkObservation::Failed(message) => Some(Output::Error(message)),
    }
}

/// Decides what to write for a walk, given all that it observed: the lines
/// come in the order of the observations, over all roots.
pub fn run(config: &Config, observations: Vec<WalkObservation>) -> (lines: Vec<Output>)
    ensures
        output_views(lines@) == outputs_of(config@, observation_views(observations@)),
{
    let ghost all = observation_views(observations@);
    let mut lines: Vec<Output> = Vec::new();
    for observation in it: observations
        invariant
            all == observation_views(it.seq()),
            output_views(lines@) == outputs_of(config@, all.take(it.index() as int)),
    {
        proof {
            let seen = it.index() as int;
            assert(all.take(seen + 1).drop_last() =~= all.take(seen));
        }
        if let Some(line) = observe(config, observation) {
            lines.push(line);
        }
    }
    assert(all.take(all.len() as int) =~= all);
    lines
}

/// A walk in two parts writes what the first part writes and then what the
/// second part writes: the roots are independent of each other, and so are
/// the parts of one root.
pub proof fn lemma_outputs_concat(
    config: ConfigView,
    first: Seq<ObservationView>,
    second: Seq<ObservationView>,
)
    ensures
        outputs_of(config, first + second) == outputs_of(config, first) + outputs_of(
            config,
            second,
        ),
    decreases second.len(),
{
    if second.len() == 0 {
        assert(outputs_of(config, first) + outputs_of(config, second) =~= outputs_of(
            config,
            first,
        ));
    } else {
        assert((first + second).drop_last() =~= first + second.drop_last());
        lemma_outputs_concat(config, first, second.drop_last());
        let before = outputs_of(config, first) + outputs_of(config, second.drop_last());
        match output_of(config, second.last()) {
            Some(line) => {
                assert(before.push(line) =~= outputs_of(config, first) + outputs_of(
                    config,
                    second.drop_last(),
                ).push(line));
            },
            None => {},
        }
    }
}

/// A failure of the walk is reported where it happened and suppresses
/// nothing: what is written for the observations before and after it is what
/// would be written without it.
pub proof fn lemma_failure_keeps_the_rest(
    config: ConfigView,
    before: Seq<ObservationView>,
    message: Seq<char>,
    after: Seq<ObservationView>,
)
    ensures
        outputs_of(config, before + seq![ObservationView::Failed(message)] + after) == outputs_of(
            config,
            before,
        ) + seq![OutputView::Error(message)] + outputs_of(config, after),
{
    let failure = seq![ObservationView::Failed(message)];
    lemma_outputs_concat(config, before + failure, after);
    lemma_outputs_concat(config, before, failure);
    assert(outputs_of(config, failure) =~= seq![OutputView::Error(message)]) by {
        assert(outputs_of(config, failure.drop_last()) =~= Seq::empty());
    }
}

/// Whether the observation is an entry with the given path that the
/// configuration selects.
pub open spec fn selected_with_path(
    config: ConfigView,
    observation: ObservationView,
    path: Seq<char>,
) -> bool {
    observation matches ObservationView::Found(entry) && entry.path == path && config.selects(
        entry,
    )
}

/// A path is printed exactly if the walk found an entry with that path which
/// the configuration selects: whose type passes the type filter and whose
/// base name passes the name filter.
pub proof fn lemma_printed_iff_selected(
    config: ConfigView,
    observations: Seq<ObservationView>,
    path: Seq<char>,
)
    ensures
        outputs_of(config, observations).contains(OutputView::Path(path)) <==> exists|i: int|
            0 <= i < observations.len() && selected_with_path(
                config,
                #[trigger] observations[i],
                path,
            ),
    decreases observations.len(),
{
    let lines = outputs_of(config, observations);
    let line = OutputView::Path(path);
    if observations.len() > 0 {
        let rest = observations.drop_last();
        let before = outputs_of(config, rest);
        lemma_printed_iff_selected(config, rest, path);
        if lines.contains(line) {
            let k = choose|k: int| 0 <= k < lines.len() && lines[k] == line;
            if k < before.len() {
                let i = choose|i: int|
                    0 <= i < rest.len() && selected_with_path(config, #[trigger] rest[i], path);
                assert(observations[i] == rest[i]);
            }
        }
        if exists|i: int|
            0 <= i < observations.len() && selected_with_path(
                config,
                #[trigger] observations[i],
                path,
            ) {
            let i = choose|i: int|
                0 <= i < observations.len() && selected_with_path(
                    config,
                    #[trigger] observations[i],
                    path,
                );
            if i < rest.len() {
                assert(rest[i] == observations[i]);
                let k = choose|k: int| 0 <= k < before.len() && before[k] == line;
                assert(lines[k] == line);
            } else {
                assert(lines.last() == line);
            }
        }
    }
}

/// Without a name pattern and without a requested type every entry is
/// selected.
pub proof fn lemma_no_filters_select_all(config: ConfigView, entry: EntryView)
    requires
        config.names.len() == 0,
        config.entry_types.is_empty(),
    ensures
        config.selects(entry),
{
}

/// Without filters every observation gives its line: each entry that the walk
/// reached is printed, and each failure is reported.
pub proof fn lemma_no_filters_print_all(config: ConfigView, observations: Seq<ObservationView>)
    requires
        config.names.len() == 0,
        config.entry_types.is_empty(),
    ensures
        outputs_of(config, observations) == Seq::new(
            observations.len(),
            |i: int| line_of(observations[i]),
        ),
    decreases observations.len(),
{
    if observations.len() > 0 {
        lemma_no_filters_print_all(config, observations.drop_last());
    }
}

/// Two walks that observed the same give the same lines under one
/// configuration: a search repeated on an unchanged tree writes what it wrote
/// before.
pub proof fn lemma_same_walk_same_outputs(
    config: ConfigView,
    first: Seq<ObservationView>,
    second: Seq<ObservationView>,
)
    requires
        first.len() == second.len(),
        forall|i: int| 0 <= i < first.len() ==> first[i] == second[i],
    ensures
        outputs_of(config, first) == outputs_of(config, second),
{
    assert(first =~= second);
}

} // verus!
