//! The bounded subcategory walk: frontier after frontier, each title taken
//! once, until the depth is exhausted, a frontier comes back empty, or
//! nothing new is left to ask about.
//!
//! The walk only decides; the catalog queries that answer each frontier run
//! outside and hand their results back in.

use crate::snapshot::strings_model;
use crate::text::str_eq;
use vstd::prelude::*;

verus! {

/// Each frontier is asked about in batches of at most this many titles.
pub const SUBCAT_CHUNK_SIZE: usize = 1000;

/// Membership of a title in a list.
pub fn contains_string(v: &Vec<String>, x: &str) -> (r: bool)
    ensures
        r == strings_model(v@).contains(x@),
{
    let ghost vm = strings_model(v@);
    let mut j: usize = 0;
    while j < v.len()
        invariant
            j <= v@.len(),
            vm == strings_model(v@),
            forall|t: int| 0 <= t < j ==> #[trigger] vm[t] != x@,
        decreases v@.len() - j,
    {
        proof {
            assert(vm[j as int] == v@[j as int]@);
        }
        if str_eq(v[j].as_str(), x) {
            proof {
                assert(vm.contains(x@));
            }
            return true;
        }
        j += 1;
    }
    proof {
        assert(!vm.contains(x@));
    }
    false
}

/// The items appended one by one, each skipped when already present.
pub open spec fn spec_absorb(acc: Seq<Seq<char>>, items: Seq<Seq<char>>) -> Seq<Seq<char>>
    decreases items.len(),
{
    if items.len() == 0 {
        acc
    } else {
        let rest = spec_absorb(acc, items.drop_last());
        if rest.contains(items.last()) {
            rest
        } else {
            rest.push(items.last())
        }
    }
}

pub open spec fn no_dups(s: Seq<Seq<char>>) -> bool {
    forall|i: int, j: int| 0 <= i < j < s.len() ==> s[i] != s[j]
}

/// Absorbing keeps the list free of repeats.
pub proof fn lemma_absorb_no_dups(acc: Seq<Seq<char>>, items: Seq<Seq<char>>)
    requires
        no_dups(acc),
    ensures
        no_dups(spec_absorb(acc, items)),
        spec_absorb(acc, items).len() >= acc.len(),
        forall|j: int| 0 <= j < acc.len() ==> #[trigger] spec_absorb(acc, items)[j] == acc[j],
    decreases items.len(),
{
    if items.len() > 0 {
        lemma_absorb_no_dups(acc, items.drop_last());
        let rest = spec_absorb(acc, items.drop_last());
        if !rest.contains(items.last()) {
            let post = rest.push(items.last());
            assert forall|i: int, j: int| 0 <= i < j < post.len() implies post[i] != post[j] by {
                if j < rest.len() {
                    assert(post[i] == rest[i] && post[j] == rest[j]);
                } else {
                    assert(post[j] == items.last());
                    assert(post[i] == rest[i]);
                    assert(rest.contains(rest[i]));
                }
            }
        }
    }
}

/// Appends each item that is not present yet.
pub fn absorb_into(acc: &mut Vec<String>, items: &Vec<String>)
    ensures
        strings_model(final(acc)@) == spec_absorb(strings_model(old(acc)@), strings_model(items@)),
{
    let ghost base = strings_model(acc@);
    let ghost im = strings_model(items@);
    let mut i: usize = 0;
    while i < items.len()
        invariant
            i <= items@.len(),
            im == strings_model(items@),
            strings_model(acc@) == spec_absorb(base, im.take(i as int)),
        decreases items@.len() - i,
    {
        proof {
            assert(im[i as int] == items@[i as int]@);
            assert(im.take((i + 1) as int).drop_last() =~= im.take(i as int));
            assert(im.take((i + 1) as int).last() == im[i as int]);
        }
        if !contains_string(acc, items[i].as_str()) {
            let ghost prev = acc@;
            let x = items[i].clone();
            acc.push(x);
            proof {
                crate::snapshot::lemma_strings_model_push(prev, acc@[prev.len() as int]);
                assert(strings_model(acc@) =~= spec_absorb(base, im.take((i + 1) as int)));
            }
        } else {
            proof {
                assert(strings_model(acc@) =~= spec_absorb(base, im.take((i + 1) as int)));
            }
        }
        i += 1;
    }
    proof {
        assert(im.take(items@.len() as int) =~= im);
    }
}

/// The titles of the frontier that were not seen yet, in order.
pub open spec fn spec_todo(check: Seq<Seq<char>>, seen: Seq<Seq<char>>) -> Seq<Seq<char>>
    decreases check.len(),
{
    if check.len() == 0 {
        Seq::empty()
    } else {
        let rest = spec_todo(check.drop_last(), seen);
        if seen.contains(check.last()) {
            rest
        } else {
            rest.push(check.last())
        }
    }
}

/// The model of a walk.
#[verifier::ext_equal]
pub struct SubcatWalkModel {
    pub depth_left: int,
    pub check: Seq<Seq<char>>,
    pub subcats: Seq<Seq<char>>,
    pub finished: bool,
}

/// The walk after one frontier was answered: the expanded frontier joins
/// the closure, and the answers that were not seen yet become the next
/// frontier. An empty answer, a frontier with nothing new, or an exhausted
/// depth ends the walk; at the final depth the fresh titles still join the
/// closure.
pub open spec fn spec_advance(m: SubcatWalkModel, results: Seq<Seq<char>>) -> SubcatWalkModel {
    let seen = spec_absorb(m.subcats, m.check);
    let fresh = spec_todo(results, seen);
    if results.len() == 0 || fresh.len() == 0 {
        SubcatWalkModel { subcats: seen, check: fresh, finished: true, ..m }
    } else if m.depth_left - 1 == 0 {
        SubcatWalkModel {
            depth_left: 0,
            check: fresh,
            subcats: spec_absorb(seen, fresh),
            finished: true,
        }
    } else {
        SubcatWalkModel {
            depth_left: m.depth_left - 1,
            check: fresh,
            subcats: seen,
            finished: false,
        }
    }
}

/// The state of one walk.
pub struct SubcatWalk {
    depth_left: usize,
    check: Vec<String>,
    subcats: Vec<String>,
    finished: bool,
}

impl View for SubcatWalk {
    type V = SubcatWalkModel;

    closed spec fn view(&self) -> SubcatWalkModel {
        SubcatWalkModel {
            depth_left: self.depth_left as int,
            check: strings_model(self.check@),
            subcats: strings_model(self.subcats@),
            finished: self.finished,
        }
    }
}

impl SubcatWalk {
    /// The closure never repeats a title, and an unfinished walk has depth
    /// left to spend.
    pub open spec fn inv(&self) -> bool {
        no_dups(self@.subcats) && (!self@.finished ==> self@.depth_left >= 1)
    }

    /// Starts a walk at the given root titles. The closure is the roots
    /// plus every subcategory reachable within the depth, so a zero depth
    /// yields just the deduplicated roots and the walk is already over.
    pub fn new(roots: Vec<String>, depth: usize) -> (r: Self)
        ensures
            depth == 0 ==> r@ == (SubcatWalkModel {
                depth_left: 0,
                check: strings_model(roots@),
                subcats: spec_absorb(Seq::empty(), strings_model(roots@)),
                finished: true,
            }),
            depth > 0 ==> r@ == (SubcatWalkModel {
                depth_left: depth as int,
                check: strings_model(roots@),
                subcats: Seq::empty(),
                finished: false,
            }),
            r.inv(),
    {
        let ghost rm = strings_model(roots@);
        let mut r = SubcatWalk {
            depth_left: depth,
            check: roots,
            subcats: Vec::new(),
            finished: depth == 0,
        };
        proof {
            assert(strings_model(r.subcats@) =~= Seq::<Seq<char>>::empty());
        }
        if depth == 0 {
            let roots_again = r.todo();
            absorb_into(&mut r.subcats, &roots_again);
            proof {
                lemma_absorb_no_dups(Seq::empty(), rm);
                assert(r@ =~= (SubcatWalkModel {
                    depth_left: 0,
                    check: rm,
                    subcats: spec_absorb(Seq::empty(), rm),
                    finished: true,
                }));
            }
        } else {
            proof {
                assert(r@ =~= (SubcatWalkModel {
                    depth_left: depth as int,
                    check: rm,
                    subcats: Seq::empty(),
                    finished: false,
                }));
            }
        }
        r
    }

    /// The frontier to ask about next; the walk is over when this is empty
    /// or the walk finished.
    pub fn todo(&self) -> (r: Vec<String>)
        ensures
            strings_model(r@) == self@.check,
    {
        let mut out: Vec<String> = Vec::new();
        let ghost cm = strings_model(self.check@);
        let mut i: usize = 0;
        while i < self.check.len()
            invariant
                i <= self.check@.len(),
                cm == strings_model(self.check@),
                strings_model(out@) == cm.take(i as int),
            decreases self.check@.len() - i,
        {
            let ghost prev = out@;
            let x = self.check[i].clone();
            out.push(x);
            proof {
                crate::snapshot::lemma_strings_model_push(prev, out@[prev.len() as int]);
                assert(strings_model(out@) =~= cm.take((i + 1) as int));
            }
            i += 1;
        }
        proof {
            assert(cm.take(self.check@.len() as int) =~= cm);
        }
        out
    }

    /// Filters a list down to the titles not yet in the closure.
    fn fresh_of(&self, items: &Vec<String>, seen: &Vec<String>) -> (r: Vec<String>)
        ensures
            strings_model(r@) == spec_todo(strings_model(items@), strings_model(seen@)),
    {
        let ghost im = strings_model(items@);
        let ghost sm = strings_model(seen@);
        let mut out: Vec<String> = Vec::new();
        let mut i: usize = 0;
        while i < items.len()
            invariant
                i <= items@.len(),
                im == strings_model(items@),
                sm == strings_model(seen@),
                strings_model(out@) == spec_todo(im.take(i as int), sm),
            decreases items@.len() - i,
        {
            proof {
                assert(im[i as int] == items@[i as int]@);
                assert(im.take((i + 1) as int).drop_last() =~= im.take(i as int));
                assert(im.take((i + 1) as int).last() == im[i as int]);
            }
            if !contains_string(seen, items[i].as_str()) {
                let ghost prev = out@;
                let x = items[i].clone();
                out.push(x);
                proof {
                    crate::snapshot::lemma_strings_model_push(prev, out@[prev.len() as int]);
                    assert(strings_model(out@) =~= spec_todo(im.take((i + 1) as int), sm));
                }
            } else {
                proof {
                    assert(strings_model(out@) =~= spec_todo(im.take((i + 1) as int), sm));
                }
            }
            i += 1;
        }
        proof {
            assert(im.take(items@.len() as int) =~= im);
        }
        out
    }

    /// Whether the walk is over.
    pub fn is_finished(&self) -> (r: bool)
        ensures
            r == self@.finished,
    {
        self.finished
    }

    /// The closure gathered so far.
    pub fn subcats(&self) -> (r: &Vec<String>)
        ensures
            strings_model(r@) == self@.subcats,
    {
        &self.subcats
    }

    /// Absorbs the answer to the current frontier and moves one level down;
    /// an empty answer, a frontier with nothing new, or the last level ends
    /// the walk.
    pub fn advance(&mut self, results: Vec<String>)
        requires
            !old(self)@.finished,
            old(self).inv(),
        ensures
            final(self)@ == spec_advance(old(self)@, strings_model(results@)),
            final(self).inv(),
    {
        let frontier = self.todo();
        absorb_into(&mut self.subcats, &frontier);
        proof {
            lemma_absorb_no_dups(old(self)@.subcats, old(self)@.check);
        }
        let fresh = self.fresh_of(&results, &self.subcats.clone());
        proof {
            assert(strings_model(fresh@) == spec_todo(
                strings_model(results@),
                spec_absorb(old(self)@.subcats, old(self)@.check),
            ));
        }
        if results.len() == 0 || fresh.len() == 0 {
            self.check = fresh;
            self.finished = true;
            proof {
                assert(self@ =~= spec_advance(old(self)@, strings_model(results@)));
            }
        } else if self.depth_left == 1 {
            absorb_into(&mut self.subcats, &fresh);
            proof {
                lemma_absorb_no_dups(
                    spec_absorb(old(self)@.subcats, old(self)@.check),
                    spec_todo(
                        strings_model(results@),
                        spec_absorb(old(self)@.subcats, old(self)@.check),
                    ),
                );
            }
            self.check = fresh;
            self.depth_left = 0;
            self.finished = true;
            proof {
                assert(self@ =~= spec_advance(old(self)@, strings_model(results@)));
            }
        } else {
            self.check = fresh;
            self.depth_left = self.depth_left - 1;
            self.finished = false;
            proof {
                assert(self@ =~= spec_advance(old(self)@, strings_model(results@)));
            }
        }
    }
}

} // verus!
