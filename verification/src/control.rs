//! Control-plane decisions: the retry budget of the catalog gateway, the
//! scheduler's next move, the backfill calendar, and the deactivation of
//! groups whose category is gone.

use crate::group_id::GroupId;
use crate::records::RowGroup;
use crate::snapshot::strings_model;
use crate::subcat::contains_string;
use crate::text::{replace_char, replaced};
use vstd::prelude::*;

verus! {

/// Batched reads against the repository replica retry up to this many
/// times before the error surfaces.
pub const MAX_QUERY_ATTEMPTS: usize = 5;

/// The attempts left for one batched read.
pub struct RetryBudget {
    left: usize,
}

impl RetryBudget {
    pub closed spec fn spec_left(&self) -> int {
        self.left as int
    }

    pub fn new(attempts: usize) -> (r: Self)
        ensures
            r.spec_left() == attempts,
    {
        RetryBudget { left: attempts }
    }

    /// Takes one attempt; the read may only be issued while attempts are
    /// left, and the original error surfaces once they are gone.
    pub fn take_attempt(&mut self) -> (r: bool)
        ensures
            r == (old(self).spec_left() > 0),
            r ==> final(self).spec_left() == old(self).spec_left() - 1,
            !r ==> final(self).spec_left() == 0,
    {
        if self.left == 0 {
            false
        } else {
            self.left = self.left - 1;
            true
        }
    }

    /// Whether a failure now is final: no attempt is left to retry with.
    pub fn exhausted(&self) -> (r: bool)
        ensures
            r == (self.spec_left() == 0),
    {
        self.left == 0
    }
}

/// What the scheduler does next.
pub enum SchedulerAction {
    /// The cap is reached: wait and poll again.
    Wait,
    /// Launch a job for this group.
    Launch(GroupId),
    /// No group is eligible but jobs still run: wait for them.
    Drain,
    /// No group is eligible and nothing runs: the month is complete.
    Done,
}

/// Decides the scheduler's next move from the running count, the cap and
/// the next eligible group.
pub fn scheduler_step(running: u64, max_concurrent: u64, next: Option<GroupId>) -> (r:
    SchedulerAction)
    ensures
        match r {
            SchedulerAction::Wait => running >= max_concurrent,
            SchedulerAction::Launch(g) => running < max_concurrent && next == Some(g),
            SchedulerAction::Drain => running < max_concurrent && next is None && running > 0,
            SchedulerAction::Done => running < max_concurrent && next is None && running == 0,
        },
{
    if running >= max_concurrent {
        SchedulerAction::Wait
    } else {
        match next {
            Some(g) => SchedulerAction::Launch(g),
            None => if running > 0 {
                SchedulerAction::Drain
            } else {
                SchedulerAction::Done
            },
        }
    }
}

/// The count of running jobs, bounded by the cap.
pub struct JobCounter {
    running: u64,
}

impl JobCounter {
    pub closed spec fn spec_running(&self) -> int {
        self.running as int
    }

    pub fn new() -> (r: Self)
        ensures
            r.spec_running() == 0,
    {
        JobCounter { running: 0 }
    }

    pub fn running(&self) -> (r: u64)
        ensures
            r == self.spec_running(),
    {
        self.running
    }

    /// A job launches only under the cap.
    pub fn launch(&mut self, max_concurrent: u64)
        requires
            old(self).spec_running() < max_concurrent,
        ensures
            final(self).spec_running() == old(self).spec_running() + 1,
    {
        self.running = self.running + 1;
    }

    /// A job finishing, with success or failure, releases its slot.
    pub fn finish(&mut self)
        requires
            old(self).spec_running() > 0,
        ensures
            final(self).spec_running() == old(self).spec_running() - 1,
    {
        self.running = self.running - 1;
    }
}

/// The month after a month: December rolls into January of the next year.
pub fn next_month(year: i32, month: u32) -> (r: (i32, u32))
    requires
        year < i32::MAX,
    ensures
        month >= 12 ==> r.0 == year + 1 && r.1 == 1,
        month < 12 ==> r.0 == year && r.1 == month + 1,
{
    if month >= 12 {
        (year + 1, 1)
    } else {
        (year, month + 1)
    }
}

/// Whether a backfill that would process this month must stop instead: the
/// walk ends at the current month, exclusive.
pub fn backfill_done(year: i32, month: u32, current_year: i32, current_month: u32) -> (r: bool)
    ensures
        r == (year > current_year || (year == current_year && month >= current_month)),
{
    year > current_year || (year == current_year && month >= current_month)
}

pub open spec fn groups_model(s: Seq<RowGroup>) -> Seq<(int, Seq<char>)> {
    s.map_values(|g: RowGroup| (g.spec_id(), g.spec_category()))
}

/// The categories of the groups, in order.
pub open spec fn spec_group_categories(groups: Seq<(int, Seq<char>)>) -> Seq<Seq<char>> {
    groups.map_values(|g: (int, Seq<char>)| g.1)
}

/// Lists the category of every group.
pub fn active_category_titles(groups: &Vec<RowGroup>) -> (r: Vec<String>)
    ensures
        strings_model(r@) == spec_group_categories(groups_model(groups@)),
{
    let ghost gm = groups_model(groups@);
    let mut out: Vec<String> = Vec::new();
    let mut i: usize = 0;
    while i < groups.len()
        invariant
            i <= groups@.len(),
            gm == groups_model(groups@),
            strings_model(out@) == spec_group_categories(gm).take(i as int),
        decreases groups@.len() - i,
    {
        proof {
            assert(gm[i as int] == (groups@[i as int].spec_id(), groups@[i as int].spec_category()));
        }
        let ghost prev = out@;
        let c = groups[i].category().clone();
        out.push(c);
        proof {
            crate::snapshot::lemma_strings_model_push(prev, out@[prev.len() as int]);
            assert(strings_model(out@) =~= spec_group_categories(gm).take((i + 1) as int));
        }
        i += 1;
    }
    proof {
        assert(spec_group_categories(gm).take(groups@.len() as int) =~= spec_group_categories(gm));
    }
    out
}

/// The titles with spaces turned into underscores, the form the catalog
/// keys its pages by.
pub fn categories_underscored(cats: &Vec<String>) -> (r: Vec<String>)
    ensures
        strings_model(r@) == strings_model(cats@).map_values(
            |c: Seq<char>| replaced(c, ' ', '_'),
        ),
{
    let ghost cm = strings_model(cats@);
    let ghost target = cm.map_values(|c: Seq<char>| replaced(c, ' ', '_'));
    let mut out: Vec<String> = Vec::new();
    let mut i: usize = 0;
    while i < cats.len()
        invariant
            i <= cats@.len(),
            cm == strings_model(cats@),
            target == cm.map_values(|c: Seq<char>| replaced(c, ' ', '_')),
            strings_model(out@) == target.take(i as int),
        decreases cats@.len() - i,
    {
        proof {
            assert(cm[i as int] == cats@[i as int]@);
        }
        let ghost prev = out@;
        let u = replace_char(cats[i].as_str(), ' ', '_');
        out.push(u);
        proof {
            crate::snapshot::lemma_strings_model_push(prev, out@[prev.len() as int]);
            assert(strings_model(out@) =~= target.take((i + 1) as int));
        }
        i += 1;
    }
    proof {
        assert(target.take(cats@.len() as int) =~= target);
    }
    out
}

/// The titles with underscores turned back into spaces, the form the
/// control store keeps.
pub fn categories_spaced(cats: &Vec<String>) -> (r: Vec<String>)
    ensures
        strings_model(r@) == strings_model(cats@).map_values(
            |c: Seq<char>| replaced(c, '_', ' '),
        ),
{
    let ghost cm = strings_model(cats@);
    let ghost target = cm.map_values(|c: Seq<char>| replaced(c, '_', ' '));
    let mut out: Vec<String> = Vec::new();
    let mut i: usize = 0;
    while i < cats.len()
        invariant
            i <= cats@.len(),
            cm == strings_model(cats@),
            target == cm.map_values(|c: Seq<char>| replaced(c, '_', ' ')),
            strings_model(out@) == target.take(i as int),
        decreases cats@.len() - i,
    {
        proof {
            assert(cm[i as int] == cats@[i as int]@);
        }
        let ghost prev = out@;
        let u = replace_char(cats[i].as_str(), '_', ' ');
        out.push(u);
        proof {
            crate::snapshot::lemma_strings_model_push(prev, out@[prev.len() as int]);
            assert(strings_model(out@) =~= target.take((i + 1) as int));
        }
        i += 1;
    }
    proof {
        assert(target.take(cats@.len() as int) =~= target);
    }
    out
}

/// The ids of the groups whose category is not among the existing ones, in
/// order: those are deactivated.
pub open spec fn spec_groups_to_deactivate(
    groups: Seq<(int, Seq<char>)>,
    existing: Seq<Seq<char>>,
) -> Seq<int>
    decreases groups.len(),
{
    if groups.len() == 0 {
        Seq::empty()
    } else {
        let rest = spec_groups_to_deactivate(groups.drop_last(), existing);
        if existing.contains(groups.last().1) {
            rest
        } else {
            rest.push(groups.last().0)
        }
    }
}

/// Selects the groups to deactivate: those whose category no longer exists
/// as a category page.
pub fn groups_to_deactivate(groups: &Vec<RowGroup>, existing: &Vec<String>) -> (r: Vec<usize>)
    ensures
        r@.map_values(|id: usize| id as int) == spec_groups_to_deactivate(
            groups_model(groups@),
            strings_model(existing@),
        ),
{
    let ghost gm = groups_model(groups@);
    let ghost em = strings_model(existing@);
    let mut out: Vec<usize> = Vec::new();
    let mut i: usize = 0;
    while i < groups.len()
        invariant
            i <= groups@.len(),
            gm == groups_model(groups@),
            em == strings_model(existing@),
            out@.map_values(|id: usize| id as int) == spec_groups_to_deactivate(
                gm.take(i as int),
                em,
            ),
        decreases groups@.len() - i,
    {
        let g = &groups[i];
        proof {
            assert(gm[i as int] == (groups@[i as int].spec_id(), groups@[i as int].spec_category()));
            assert(gm.take((i + 1) as int).drop_last() =~= gm.take(i as int));
            assert(gm.take((i + 1) as int).last() == gm[i as int]);
        }
        if !contains_string(existing, g.category().as_str()) {
            out.push(g.id());
            proof {
                assert(out@.map_values(|id: usize| id as int) =~= spec_groups_to_deactivate(
                    gm.take((i + 1) as int),
                    em,
                ));
            }
        } else {
            proof {
                assert(out@.map_values(|id: usize| id as int) =~= spec_groups_to_deactivate(
                    gm.take((i + 1) as int),
                    em,
                ));
            }
        }
        i += 1;
    }
    proof {
        assert(gm.take(groups@.len() as int) =~= gm);
    }
    out
}

} // verus!
