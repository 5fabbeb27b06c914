//! Rebuilding the index: which references to look up, and what becomes of
//! each answer.
//!
//! The lookups themselves happen elsewhere. A caller asks the run for the
//! next reference, looks it up, and hands the outcome back.

use crate::plugin::{contains_plugin, plugin_identities, EnrichError, Plugin};
use crate::reference_set::{insert_all, lemma_insert_all, lemma_insert_one, ReferenceSet};
use crate::repository::{identities, Identity, Repository};
use vstd::prelude::*;
use vstd::string::StringExecFns;

verus! {

/// The references to look up when an index is rebuilt: the scraped ones in
/// their order, then those of the existing records that the scrape lacks.
pub open spec fn merged(scraped: Seq<Identity>, existing: Seq<Plugin>) -> Seq<Identity> {
    insert_all(scraped, plugin_identities(existing))
}

/// Adds to the scraped references those of the existing records that the
/// scrape lacks, so that a record entered by hand outlives a scrape.
pub fn merge_references(scraped: ReferenceSet, existing: &Vec<Plugin>) -> (all: ReferenceSet)
    ensures
        all@ == merged(scraped@, existing@),
{
    let ghost known = plugin_identities(existing@);
    let ghost base = scraped@;
    let mut all = scraped;
    let mut position: usize = 0;
    assert(known.take(0) == Seq::<Identity>::empty());
    while position < existing.len()
        invariant
            position <= existing.len(),
            known == plugin_identities(existing@),
            all@ == insert_all(base, known.take(position as int)),
        decreases existing.len() - position,
    {
        let plugin = &existing[position];
        let reference = Repository { name: plugin.name.clone(), user: plugin.user.clone() };
        proof {
            assert(reference@ == known[position as int]);
            assert(known.take(position + 1).drop_last() == known.take(position as int));
            lemma_insert_one(all@, reference@);
        }
        all.insert(reference);
        position += 1;
    }
    assert(known.take(position as int) == known);
    all
}

/// The records after one more outcome: a record is appended unless one with
/// its owner and name is there already; a failure changes nothing.
pub open spec fn accumulate(indexed: Seq<Plugin>, outcome: Result<Plugin, EnrichError>) -> Seq<
    Plugin,
> {
    match outcome {
        Ok(plugin) => if plugin_identities(indexed).contains(plugin.identity()) {
            indexed
        } else {
            indexed.push(plugin)
        },
        Err(_) => indexed,
    }
}

/// The records after a sequence of outcomes, taken in order.
pub open spec fn accumulate_all(
    indexed: Seq<Plugin>,
    outcomes: Seq<Result<Plugin, EnrichError>>,
) -> Seq<Plugin>
    decreases outcomes.len(),
{
    if outcomes.len() == 0 {
        indexed
    } else {
        accumulate(accumulate_all(indexed, outcomes.drop_last()), outcomes.last())
    }
}

/// What is said of one outcome.
#[derive(Clone, Debug)]
pub enum Report {
    /// A record was added; owner and name are the record's.
    Indexed { user: String, name: String },
    /// The record's owner and name were indexed before: nothing was added.
    Duplicate,
    /// The lookup failed; owner and name are those of the reference.
    Failed { user: String, name: String, message: String },
    /// No reference was waiting for an outcome.
    Idle,
}

/// A [`Report`] with its texts as sequences of characters.
pub enum ReportView {
    Indexed(Identity),
    Duplicate,
    Failed(Identity, Seq<char>),
    Idle,
}

impl View for Report {
    type V = ReportView;

    open spec fn view(&self) -> ReportView {
        match self {
            Report::Indexed { user, name } => ReportView::Indexed(
                Identity { owner: user@, name: name@ },
            ),
            Report::Duplicate => ReportView::Duplicate,
            Report::Failed { user, name, message } => ReportView::Failed(
                Identity { owner: user@, name: name@ },
                message@,
            ),
            Report::Idle => ReportView::Idle,
        }
    }
}

/// What is said of the outcome of looking up `reference` when `indexed` are
/// the records so far.
pub open spec fn report_of(
    indexed: Seq<Plugin>,
    reference: Identity,
    outcome: Result<Plugin, EnrichError>,
) -> ReportView {
    match outcome {
        Ok(plugin) => if plugin_identities(indexed).contains(plugin.identity()) {
            ReportView::Duplicate
        } else {
            ReportView::Indexed(plugin.identity())
        },
        Err(error) => ReportView::Failed(reference, error.message_text()),
    }
}

/// The line that tells a user of a report, if it tells of anything.
pub open spec fn report_line(report: ReportView) -> Option<Seq<char>> {
    match report {
        ReportView::Indexed(plugin) => Some("✓ "@ + plugin.owner + "/"@ + plugin.name),
        ReportView::Failed(reference, message) => Some(
            "𐄂 "@ + reference.owner + "/"@ + reference.name + ": "@ + message,
        ),
        ReportView::Duplicate => None,
        ReportView::Idle => None,
    }
}

impl Report {
    /// The line that tells a user of this report: a mark, owner and name,
    /// and for a failure what went wrong. A duplicate is passed over in
    /// silence.
    pub fn line(&self) -> (line: Option<String>)
        ensures
            line is Some <==> report_line(self@) is Some,
            line is Some ==> line->Some_0@ == report_line(self@)->Some_0,
    {
        match self {
            Report::Indexed { user, name } => {
                let mut line = String::from_str("✓ ");
                line.append(user.as_str());
                line.append("/");
                line.append(name.as_str());
                Some(line)
            },
            Report::Failed { user, name, message } => {
                let mut line = String::from_str("𐄂 ");
                line.append(user.as_str());
                line.append("/");
                line.append(name.as_str());
                line.append(": ");
                line.append(message.as_str());
                Some(line)
            },
            Report::Duplicate => None,
            Report::Idle => None,
        }
    }
}

/// A rebuild of the index in progress: the references still to look up, and
/// the records made so far.
pub struct IndexRun {
    pending: Vec<Repository>,
    position: usize,
    indexed: Vec<Plugin>,
}

impl IndexRun {
    #[verifier::type_invariant]
    closed spec fn well_formed(&self) -> bool {
        &&& self.position <= self.pending.len()
        &&& plugin_identities(self.indexed@).no_duplicates()
    }

    /// The references still to look up, the next one first.
    pub closed spec fn remaining(&self) -> Seq<Identity> {
        identities(self.pending@).skip(self.position as int)
    }

    /// The records made so far, in the order in which they were made.
    pub closed spec fn indexed(&self) -> Seq<Plugin> {
        self.indexed@
    }

    /// A run that will look up the given references in their order.
    pub fn new(references: ReferenceSet) -> (run: IndexRun)
        ensures
            run.remaining() == references@,
            run.indexed() == Seq::<Plugin>::empty(),
    {
        let pending = references.into_vec();
        assert(identities(pending@).skip(0) == identities(pending@));
        assert(plugin_identities(Seq::<Plugin>::empty()) == Seq::<Identity>::empty());
        IndexRun { pending, position: 0, indexed: Vec::new() }
    }

    /// The reference to look up next, or `None` when the run is over.
    pub fn next_reference(&self) -> (next: Option<Repository>)
        ensures
            next is Some <==> self.remaining().len() > 0,
            next is Some ==> next->Some_0@ == self.remaining()[0],
    {
        proof {
            use_type_invariant(self);
        }
        if self.position < self.pending.len() {
            Some(self.pending[self.position].clone())
        } else {
            None
        }
    }

    /// Takes the outcome of looking up the next reference and moves on to
    /// the one after it. A record is kept unless its owner and name were
    /// indexed before; a failure is reported and the run goes on.
    pub fn record(&mut self, outcome: Result<Plugin, EnrichError>) -> (report: Report)
        ensures
            old(self).remaining().len() == 0 ==> {
                &&& report@ == ReportView::Idle
                &&& final(self).remaining() == old(self).remaining()
                &&& final(self).indexed() == old(self).indexed()
            },
            old(self).remaining().len() > 0 ==> {
                &&& report@ == report_of(old(self).indexed(), old(self).remaining()[0], outcome)
                &&& final(self).remaining() == old(self).remaining().drop_first()
                &&& final(self).indexed() == accumulate(old(self).indexed(), outcome)
            },
            plugin_identities(final(self).indexed()).no_duplicates(),
    {
        proof {
            use_type_invariant(&*self);
        }
        if self.position >= self.pending.len() {
            return Report::Idle;
        }
        let ghost all = identities(self.pending@);
        assert(all.skip(self.position as int).drop_first() == all.skip(self.position + 1));
        let report = match outcome {
            Ok(plugin) => {
                if contains_plugin(&self.indexed, &plugin) {
                    Report::Duplicate
                } else {
                    let report = Report::Indexed {
                        user: plugin.user.clone(),
                        name: plugin.name.clone(),
                    };
                    let ghost before = self.indexed@;
                    let mut indexed: Vec<Plugin> = Vec::new();
                    std::mem::swap(&mut indexed, &mut self.indexed);
                    indexed.push(plugin);
                    proof {
                        assert(plugin_identities(indexed@) == plugin_identities(before).push(
                            plugin.identity(),
                        ));
                        lemma_push_keeps_distinct(plugin_identities(before), plugin.identity());
                    }
                    self.indexed = indexed;
                    report
                }
            },
            Err(error) => {
                let reference = &self.pending[self.position];
                Report::Failed {
                    user: reference.user.clone(),
                    name: reference.name.clone(),
                    message: error.message(),
                }
            },
        };
        self.position = self.position + 1;
        report
    }

    /// Ends the run and gives the records made, in the order in which they
    /// were made. No two of them share an owner and a name.
    pub fn into_plugins(self) -> (plugins: Vec<Plugin>)
        ensures
            plugins@ == self.indexed(),
            plugin_identities(plugins@).no_duplicates(),
    {
        proof {
            use_type_invariant(&self);
        }
        self.indexed
    }
}

/// Appending an identity that was not there repeats nothing.
pub proof fn lemma_push_keeps_distinct(base: Seq<Identity>, identity: Identity)
    requires
        base.no_duplicates(),
        !base.contains(identity),
    ensures
        base.push(identity).no_duplicates(),
{
    let after = base.push(identity);
    assert forall|i: int, j: int| 0 <= i < after.len() && 0 <= j < after.len() && i != j implies after[i] != after[j] by {
        if i < base.len() {
            assert(base[i] == after[i]);
        }
        if j < base.len() {
            assert(base[j] == after[j]);
        }
    }
}

/// A record of the existing index is looked up again whether or not the
/// scrape holds it. The scraped references keep their places, nothing is
/// looked up that neither holds, and nothing twice.
pub proof fn lemma_merge_keeps_existing(scraped: Seq<Identity>, existing: Seq<Plugin>)
    ensures
        forall|i: int|
            0 <= i < existing.len() ==> merged(scraped, existing).contains(
                (#[trigger] existing[i]).identity(),
            ),
        scraped.is_prefix_of(merged(scraped, existing)),
        forall|reference: Identity|
            merged(scraped, existing).contains(reference) ==> scraped.contains(reference)
                || plugin_identities(existing).contains(reference),
        scraped.no_duplicates() ==> merged(scraped, existing).no_duplicates(),
{
    lemma_insert_all(scraped, plugin_identities(existing));
    assert forall|i: int| 0 <= i < existing.len() implies merged(scraped, existing).contains(
        (#[trigger] existing[i]).identity(),
    ) by {
        assert(plugin_identities(existing)[i] == existing[i].identity());
        assert(plugin_identities(existing).contains(existing[i].identity()));
    }
}

/// However the lookups end, no two of the records made share an owner and a
/// name; the records that were there stay in place; and a reference whose
/// lookup succeeded has a record, whatever failed before or after it.
pub proof fn lemma_accumulate_all(indexed: Seq<Plugin>, outcomes: Seq<Result<Plugin, EnrichError>>)
    requires
        plugin_identities(indexed).no_duplicates(),
    ensures
        plugin_identities(accumulate_all(indexed, outcomes)).no_duplicates(),
        indexed.is_prefix_of(accumulate_all(indexed, outcomes)),
        forall|i: int|
            0 <= i < outcomes.len() && (#[trigger] outcomes[i]) is Ok ==> plugin_identities(
                accumulate_all(indexed, outcomes),
            ).contains(outcomes[i]->Ok_0.identity()),
    decreases outcomes.len(),
{
    if outcomes.len() > 0 {
        let front = outcomes.drop_last();
        let before = accumulate_all(indexed, front);
        let after = accumulate_all(indexed, outcomes);
        lemma_accumulate_all(indexed, front);
        if let Ok(plugin) = outcomes.last() {
            if !plugin_identities(before).contains(plugin.identity()) {
                assert(plugin_identities(after) == plugin_identities(before).push(
                    plugin.identity(),
                ));
                lemma_push_keeps_distinct(plugin_identities(before), plugin.identity());
            }
        }
        assert forall|i: int|
            0 <= i < outcomes.len() && (#[trigger] outcomes[i]) is Ok implies plugin_identities(
            after,
        ).contains(outcomes[i]->Ok_0.identity()) by {
            let identity = outcomes[i]->Ok_0.identity();
            if i < front.len() {
                assert(front[i] == outcomes[i]);
                let k = choose|k: int|
                    0 <= k < before.len() && plugin_identities(before)[k] == identity;
                assert(plugin_identities(after)[k] == identity);
            } else if !plugin_identities(before).contains(identity) {
                assert(plugin_identities(after)[before.len() as int] == identity);
            } else {
                let k = choose|k: int|
                    0 <= k < before.len() && plugin_identities(before)[k] == identity;
                assert(plugin_identities(after)[k] == identity);
            }
        }
    }
}

/// Two lookups that answer with the same owner and name leave one record:
/// the second outcome changes nothing.
pub proof fn lemma_same_identity_indexed_once(indexed: Seq<Plugin>, first: Plugin, second: Plugin)
    requires
        first.identity() == second.identity(),
    ensures
        accumulate(accumulate(indexed, Ok(first)), Ok(second)) == accumulate(indexed, Ok(first)),
{
    let after = accumulate(indexed, Ok(first));
    if !plugin_identities(indexed).contains(first.identity()) {
        assert(plugin_identities(after)[indexed.len() as int] == first.identity());
    }
}

/// A failed lookup neither adds a record nor takes one away.
pub proof fn lemma_failure_changes_nothing(indexed: Seq<Plugin>, error: EnrichError)
    ensures
        accumulate(indexed, Err(error)) == indexed,
{
}

} // verus!
