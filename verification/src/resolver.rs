//! Program resolution: the state machine that makes the registry
//! self-sufficient for an authorization.
//!
//! Resolution walks the import graph depth-first with an explicit work
//! stack of `(id, ready)` items; a node is visited twice, so that a program
//! is installed only after its imports (post-order). The driver owns the
//! fetching: whenever the resolver returns [`ResolveStep::NeedProgram`],
//! the driver retrieves that program and hands it back through
//! [`Resolver::provide`]. A `scheduled` set keeps any program from being
//! requested twice, which bounds the walk on diamond-shaped and cyclic
//! import graphs; an import cycle then fails at installation, because some
//! participant's import can never become available.

use vstd::prelude::*;
use crate::registry::available;
use crate::registry::credits_id;
use crate::registry::is_credits;
use crate::registry::EntryView;
use crate::registry::ProgramEntry;
use crate::registry::Registry;
use crate::registry::RegistryError;

verus! {

/// One unit of resolution work: a program id, and whether its imports have
/// already been walked.
pub struct WorkItem {
    pub id: String,
    pub ready: bool,
}

/// What a resolution step asks of its driver.
pub enum ResolveStep {
    /// Resolution is complete: every seed is available in the registry.
    Done,
    /// The named program must be fetched and handed to `provide`.
    NeedProgram(String),
    /// Installation was refused; resolution cannot continue.
    Failed(RegistryError),
}

/// The resolution state for one authorization.
pub struct Resolver {
    stack: Vec<WorkItem>,
    scheduled: Vec<String>,
    pending: Vec<ProgramEntry>,
    awaiting: Option<String>,
    seed_ids: Ghost<Seq<Seq<char>>>,
}

impl Resolver {
    /// The program ids resolution started from.
    pub closed spec fn seeds(&self) -> Seq<Seq<char>> {
        self.seed_ids@
    }

    /// The ids currently on the work stack.
    pub closed spec fn stack_ids(&self) -> Seq<Seq<char>> {
        self.stack@.map_values(|w: WorkItem| w.id@)
    }

    /// The id the driver was asked to fetch, when one is outstanding.
    pub closed spec fn awaiting_id(&self) -> Option<Seq<char>> {
        match self.awaiting {
            Some(a) => Some(a@),
            None => None,
        }
    }

    /// Whether an id appears anywhere on the stack.
    closed spec fn on_stack(&self, id: Seq<char>) -> bool {
        exists|j: int| 0 <= j < self.stack@.len() && #[trigger] self.stack@[j].id@ == id
    }

    /// Whether an id appears on the stack marked ready.
    closed spec fn has_ready(&self, id: Seq<char>) -> bool {
        exists|j: int|
            0 <= j < self.stack@.len() && self.stack@[j].ready && #[trigger] self.stack@[j].id@
                == id
    }

    /// Whether a fetched program for this id awaits installation.
    closed spec fn in_pending(&self, id: Seq<char>) -> bool {
        exists|j: int| 0 <= j < self.pending@.len() && #[trigger] self.pending@[j].id@ == id
    }

    /// Whether this id was ever scheduled for fetching in this run.
    pub closed spec fn in_scheduled(&self, id: Seq<char>) -> bool {
        exists|j: int| 0 <= j < self.scheduled@.len() && #[trigger] self.scheduled@[j]@ == id
    }

    /// A scheduled id is either installed, or being fetched, or ready on
    /// the stack for installation.
    closed spec fn covered(&self, m: Map<Seq<char>, EntryView>, id: Seq<char>) -> bool {
        m.dom().contains(id) || self.awaiting_id() == Some(id) || self.has_ready(id)
    }

    /// A seed is never lost: it is credits, installed, still on the stack,
    /// or scheduled.
    closed spec fn seed_covered(&self, m: Map<Seq<char>, EntryView>, id: Seq<char>) -> bool {
        id == credits_id() || m.dom().contains(id) || self.on_stack(id) || self.in_scheduled(id)
    }

    /// The resolution invariant, against a registry state.
    pub closed spec fn inv(&self, m: Map<Seq<char>, EntryView>) -> bool {
        // Every scheduled id is accounted for.
        &&& forall|j: int|
            0 <= j < self.scheduled@.len() ==> self.covered(m, #[trigger] self.scheduled@[j]@)
        // A ready item not yet installed has its program pending.
        &&& forall|j: int|
            0 <= j < self.stack@.len() && (#[trigger] self.stack@[j]).ready && !m.dom().contains(
                self.stack@[j].id@,
            ) ==> self.in_pending(self.stack@[j].id@)
        // At most one ready item per id.
        &&& forall|i: int, j: int|
            0 <= i < j < self.stack@.len() && (#[trigger] self.stack@[i]).ready
                && (#[trigger] self.stack@[j]).ready ==> self.stack@[i].id@ != self.stack@[j].id@
        // An outstanding fetch is for a scheduled id that nothing else serves yet.
        &&& match self.awaiting {
            Some(a) => self.in_scheduled(a@) && !self.has_ready(a@) && !self.in_pending(a@)
                && !m.dom().contains(a@) && a@ != credits_id(),
            None => true,
        }
        // No seed is lost.
        &&& forall|j: int|
            0 <= j < self.seed_ids@.len() ==> self.seed_covered(m, #[trigger] self.seed_ids@[j])
        // Ready items and pending programs come only from scheduling.
        &&& forall|j: int|
            0 <= j < self.stack@.len() && (#[trigger] self.stack@[j]).ready ==> self.in_scheduled(
                self.stack@[j].id@,
            )
        &&& forall|j: int|
            0 <= j < self.pending@.len() ==> self.in_scheduled(#[trigger] self.pending@[j].id@)
        // Credits is never walked.
        &&& forall|j: int|
            0 <= j < self.stack@.len() && (#[trigger] self.stack@[j]).ready
                ==> self.stack@[j].id@ != credits_id()
    }

    /// Seeds resolution with the program ids an authorization surfaces:
    /// its pending requests and its transitions.
    pub fn new(seed_programs: Vec<String>) -> (r: Resolver)
        ensures
            r.seeds() == seed_programs@.map_values(|s: String| s@),
            r.stack_ids() == seed_programs@.map_values(|s: String| s@),
            r.awaiting_id() is None,
            forall|m: Map<Seq<char>, EntryView>| #[trigger] r.inv(m),
    {
        let ghost seed_view = seed_programs@.map_values(|s: String| s@);
        let mut stack: Vec<WorkItem> = Vec::new();
        let mut i: usize = 0;
        while i < seed_programs.len()
            invariant
                i <= seed_programs@.len(),
                stack@.len() == i,
                forall|j: int| 0 <= j < i ==> (#[trigger] stack@[j]).id@ == seed_programs@[j]@
                    && !stack@[j].ready,
            decreases seed_programs@.len() - i,
        {
            stack.push(WorkItem { id: seed_programs[i].clone(), ready: false });
            i = i + 1;
        }
        let r = Resolver {
            stack,
            scheduled: Vec::new(),
            pending: Vec::new(),
            awaiting: None,
            seed_ids: Ghost(seed_view),
        };
        proof {
            assert(r.stack_ids() =~= seed_view);
            assert forall|m: Map<Seq<char>, EntryView>| #[trigger] r.inv(m) by {
                assert forall|j: int| 0 <= j < r.seed_ids@.len() implies r.seed_covered(
                    m,
                    #[trigger] r.seed_ids@[j],
                ) by {
                    assert(r.stack@[j].id@ == r.seed_ids@[j]);
                }
            }
        }
        r
    }

    /// The index of a pending program, if its id is pending.
    fn find_pending(&self, id: &String) -> (r: Option<usize>)
        ensures
            match r {
                Some(i) => i < self.pending@.len() && self.pending@[i as int].id@ == id@,
                None => !self.in_pending(id@),
            },
    {
        let mut i: usize = 0;
        while i < self.pending.len()
            invariant
                i <= self.pending@.len(),
                forall|j: int| 0 <= j < i ==> #[trigger] self.pending@[j].id@ != id@,
            decreases self.pending@.len() - i,
        {
            if self.pending[i].id == *id {
                return Some(i);
            }
            i = i + 1;
        }
        None
    }

    /// Whether an id was already scheduled in this run.
    fn is_scheduled(&self, id: &String) -> (r: bool)
        ensures
            r == self.in_scheduled(id@),
    {
        let mut i: usize = 0;
        while i < self.scheduled.len()
            invariant
                i <= self.scheduled@.len(),
                forall|j: int| 0 <= j < i ==> #[trigger] self.scheduled@[j]@ != id@,
            decreases self.scheduled@.len() - i,
        {
            if self.scheduled[i] == *id {
                return true;
            }
            i = i + 1;
        }
        false
    }

    /// Works the stack until it is exhausted, a fetch is needed, or an
    /// installation is refused.
    ///
    /// The registry only ever grows (monotonicity). When everything on the
    /// stack is already available, the step finishes at once and performs
    /// no fetch and no installation (idempotent resolution). A fetch is
    /// requested only for a program that is genuinely missing.
    pub fn step(&mut self, reg: &mut Registry, installed: &mut Vec<(String, Option<u16>)>) -> (r:
        ResolveStep)
        requires
            old(self).inv(old(reg)@),
            old(self).awaiting_id() is None,
            old(reg).wf(),
        ensures
            final(reg).wf(),
            old(reg)@.submap_of(final(reg)@),
            final(self).seeds() == old(self).seeds(),
            // The driver mirrors installations, in this order, into the VM.
            old(installed)@.is_prefix_of(final(installed)@),
            forall|j: int|
                old(installed)@.len() <= j < final(installed)@.len() ==> final(reg)@.dom().contains(
                    (#[trigger] final(installed)@[j]).0@,
                ),
            match r {
                ResolveStep::Done => {
                    &&& forall|j: int|
                        0 <= j < final(self).seeds().len() ==> available(
                            final(reg)@,
                            #[trigger] final(self).seeds()[j],
                        )
                    &&& final(self).awaiting_id() is None
                },
                ResolveStep::NeedProgram(id) => {
                    &&& final(self).inv(final(reg)@)
                    &&& final(self).awaiting_id() == Some(id@)
                    &&& !final(reg)@.dom().contains(id@)
                    &&& id@ != credits_id()
                    &&& final(self).in_scheduled(id@)
                },
                ResolveStep::Failed(e) => match e {
                    RegistryError::AlreadyPresent { .. } => false,
                    RegistryError::MissingImport { id, import } => {
                        &&& !final(reg)@.dom().contains(id@)
                        &&& final(self).in_scheduled(id@)
                        &&& import@ != credits_id()
                        &&& !final(reg)@.dom().contains(import@)
                    },
                },
            },
            (forall|j: int|
                0 <= j < old(self).stack_ids().len() ==> available(
                    old(reg)@,
                    #[trigger] old(self).stack_ids()[j],
                )) ==> (r is Done && final(reg)@ == old(reg)@ && final(installed)@ == old(
                installed,
            )@),
    {
        let ghost all_avail = forall|j: int|
            0 <= j < old(self).stack_ids().len() ==> available(
                old(reg)@,
                #[trigger] old(self).stack_ids()[j],
            );
        loop
            invariant
                self.inv(reg@),
                self.awaiting_id() is None,
                reg.wf(),
                old(reg)@.submap_of(reg@),
                self.seeds() == old(self).seeds(),
                all_avail == (forall|j: int|
                    0 <= j < old(self).stack_ids().len() ==> available(
                        old(reg)@,
                        #[trigger] old(self).stack_ids()[j],
                    )),
                all_avail ==> reg@ == old(reg)@ && self.stack@.len() <= old(self).stack@.len()
                    && self.stack@ == old(self).stack@.take(self.stack@.len() as int)
                    && installed@ == old(installed)@,
                old(installed)@.is_prefix_of(installed@),
                forall|j: int|
                    old(installed)@.len() <= j < installed@.len() ==> reg@.dom().contains(
                        (#[trigger] installed@[j]).0@,
                    ),
            decreases self.stack@.len(),
        {
            let ghost pre = *self;
            let ghost pre_reg = reg@;
            if self.stack.len() == 0 {
                proof {
                    assert forall|j: int| 0 <= j < self.seeds().len() implies available(
                        reg@,
                        #[trigger] self.seeds()[j],
                    ) by {
                        let s = self.seeds()[j];
                        assert(self.seed_covered(reg@, s));
                        if self.in_scheduled(s) {
                            let k = choose|k: int|
                                0 <= k < self.scheduled@.len() && #[trigger] self.scheduled@[k]@
                                    == s;
                            assert(self.covered(reg@, s));
                        }
                    }
                }
                return ResolveStep::Done;
            }
            let item = self.stack.pop().unwrap();
            let ghost n = pre.stack@.len() - 1;
            proof {
                assert(self.stack@ == pre.stack@.take(n));
                assert(item == pre.stack@[n]);
                // Witnesses in the shortened stack carry over.
                assert forall|x: Seq<char>| self.on_stack(x) implies pre.on_stack(x) by {}
                assert forall|x: Seq<char>| self.has_ready(x) implies pre.has_ready(x) by {}
            }
            if is_credits(&item.id) {
                proof {
                    if item.ready {
                        assert(pre.stack@[n].ready);
                        assert(false);
                    }
                    lemma_pending_eq(pre, *self);
                    lemma_step_pop(pre, *self, reg@, reg@, item);
                    if all_avail {
                        assert(pre.stack@.len() <= old(self).stack@.len());
                        assert forall|j: int| 0 <= j < n implies self.stack@[j]
                            == old(self).stack@[j] by {
                            assert(pre.stack@[j] == old(self).stack@.take(
                                pre.stack@.len() as int,
                            )[j]);
                        }
                        assert(self.stack@ =~= old(self).stack@.take(self.stack@.len() as int));
                    }
                }
                continue;
            }
            let present = reg.contains_program(&item.id);
            if present {
                if item.ready {
                    match self.find_pending(&item.id) {
                        Some(idx) => {
                            let ghost pend_pre = self.pending@;
                            let _dropped = self.pending.remove(idx);
                            proof {
                                assert(pend_pre[idx as int].id@ == item.id@);
                                assert forall|x: Seq<char>| self.in_pending(x) implies
                                    pre.in_pending(x) by {
                                    let j = choose|j: int|
                                        0 <= j < self.pending@.len()
                                            && #[trigger] self.pending@[j].id@ == x;
                                    if j < idx {
                                        assert(pend_pre[j].id@ == x);
                                    } else {
                                        assert(pend_pre[j + 1].id@ == x);
                                    }
                                }
                                assert forall|x: Seq<char>| pre.in_pending(x) && x != item.id@
                                    implies self.in_pending(x) by {
                                    let j = choose|j: int|
                                        0 <= j < pend_pre.len() && #[trigger] pend_pre[j].id@ == x;
                                    if j < idx {
                                        assert(self.pending@[j].id@ == x);
                                    } else {
                                        assert(self.pending@[j - 1].id@ == x);
                                    }
                                }
                            }
                        },
                        None => {
                            proof {
                                lemma_pending_eq(pre, *self);
                            }
                        },
                    }
                } else {
                    proof {
                        lemma_pending_eq(pre, *self);
                    }
                }
                proof {
                    lemma_step_pop(pre, *self, reg@, reg@, item);
                    if all_avail {
                        assert(pre.stack@.len() <= old(self).stack@.len());
                        assert forall|j: int| 0 <= j < n implies self.stack@[j]
                            == old(self).stack@[j] by {
                            assert(pre.stack@[j] == old(self).stack@.take(
                                pre.stack@.len() as int,
                            )[j]);
                        }
                        assert(self.stack@ =~= old(self).stack@.take(self.stack@.len() as int));
                    }
                }
                continue;
            }
            proof {
                // Everything popped under the all-available hypothesis is
                // credits or installed, and this branch is neither.
                if all_avail {
                    assert(pre.stack@ == old(self).stack@.take(pre.stack@.len() as int));
                    assert(old(self).stack@[n] == pre.stack@[n]);
                    assert(old(self).stack_ids()[n] == item.id@);
                    assert(available(old(reg)@, item.id@));
                    assert(false);
                }
                assert(!all_avail);
            }
            if item.ready {
                // Not installed, so by the invariant its program is pending.
                proof {
                    assert(pre.has_ready(item.id@)) by {
                        assert(pre.stack@[n].ready && pre.stack@[n].id@ == item.id@);
                    }
                    assert(pre.in_pending(item.id@));
                }
                match self.find_pending(&item.id) {
                    Some(idx) => {
                        let ghost pend_pre = self.pending@;
                        let entry = self.pending.remove(idx);
                        proof {
                            assert(entry.id@ == item.id@);
                            assert forall|x: Seq<char>| self.in_pending(x) implies
                                pre.in_pending(x) by {
                                let j = choose|j: int|
                                    0 <= j < self.pending@.len() && #[trigger] self.pending@[j].id@
                                        == x;
                                if j < idx {
                                    assert(pend_pre[j].id@ == x);
                                } else {
                                    assert(pend_pre[j + 1].id@ == x);
                                }
                            }
                            assert forall|x: Seq<char>| pre.in_pending(x) && x != item.id@ implies
                                self.in_pending(x) by {
                                let j = choose|j: int|
                                    0 <= j < pend_pre.len() && #[trigger] pend_pre[j].id@ == x;
                                if j < idx {
                                    assert(self.pending@[j].id@ == x);
                                } else {
                                    assert(self.pending@[j - 1].id@ == x);
                                }
                            }
                        }
                        let installed_id = entry.id.clone();
                        let installed_edition = entry.edition;
                        let ghost reg_pre = reg@;
                        match reg.add_program(entry) {
                            Ok(()) => {
                                installed.push((installed_id, installed_edition));
                                proof {
                                    lemma_submap_trans(old(reg)@, reg_pre, reg@);
                                    assert forall|x: Seq<char>| pre_reg.dom().contains(x) implies
                                        reg@.dom().contains(x) by {
                                        assert(reg_pre.dom().contains(x));
                                    }
                                    lemma_step_pop(pre, *self, pre_reg, reg@, item);
                                    assert(old(installed)@.is_prefix_of(installed@));
                                    assert forall|j: int|
                                        old(installed)@.len() <= j < installed@.len() implies
                                        reg@.dom().contains((#[trigger] installed@[j]).0@) by {
                                        if j < installed@.len() - 1 {
                                            assert(reg_pre.dom().contains(installed@[j].0@));
                                        }
                                    }
                                }
                                continue;
                            },
                            Err(e) => {
                                proof {
                                    lemma_submap_trans(old(reg)@, reg_pre, reg@);
                                    assert(pre.in_scheduled(item.id@));
                                    assert forall|x: Seq<char>| pre.in_scheduled(x) implies
                                        self.in_scheduled(x) by {
                                        let j = choose|j: int|
                                            0 <= j < pre.scheduled@.len()
                                                && #[trigger] pre.scheduled@[j]@ == x;
                                        assert(self.scheduled@[j]@ == x);
                                    }
                                }
                                return ResolveStep::Failed(e);
                            },
                        }
                    },
                    None => {
                        proof {
                            assert(false);
                        }
                        continue;
                    },
                }
            }
            let scheduled_before = self.is_scheduled(&item.id);
            if scheduled_before {
                proof {
                    assert(pre.in_scheduled(item.id@)) by {
                        let j = choose|j: int|
                            0 <= j < self.scheduled@.len() && #[trigger] self.scheduled@[j]@
                                == item.id@;
                        assert(pre.scheduled@[j]@ == item.id@);
                    }
                    lemma_pending_eq(pre, *self);
                    lemma_step_pop(pre, *self, reg@, reg@, item);
                }
                continue;
            }
            self.scheduled.push(item.id.clone());
            self.awaiting = Some(item.id.clone());
            proof {
                let ghost mid = *self;
                assert forall|x: Seq<char>| pre.in_scheduled(x) || x == item.id@ implies
                    mid.in_scheduled(x) by {
                    if pre.in_scheduled(x) {
                        let j = choose|j: int|
                            0 <= j < pre.scheduled@.len() && #[trigger] pre.scheduled@[j]@ == x;
                        assert(mid.scheduled@[j]@ == x);
                    } else {
                        assert(mid.scheduled@[pre.scheduled@.len() as int]@ == x);
                    }
                }
                assert forall|x: Seq<char>| mid.in_scheduled(x) implies pre.in_scheduled(x) || x
                    == item.id@ by {
                    let j = choose|j: int|
                        0 <= j < mid.scheduled@.len() && #[trigger] mid.scheduled@[j]@ == x;
                    if j < pre.scheduled@.len() {
                        assert(pre.scheduled@[j]@ == x);
                    }
                }
                // Never scheduled means never made ready and never fetched.
                assert(!pre.has_ready(item.id@)) by {
                    if pre.has_ready(item.id@) {
                        let j = choose|j: int|
                            0 <= j < pre.stack@.len() && pre.stack@[j].ready
                                && #[trigger] pre.stack@[j].id@ == item.id@;
                        assert(pre.in_scheduled(item.id@));
                    }
                }
                assert(!self.has_ready(item.id@)) by {
                    if self.has_ready(item.id@) {
                        let j = choose|j: int|
                            0 <= j < self.stack@.len() && self.stack@[j].ready
                                && #[trigger] self.stack@[j].id@ == item.id@;
                        assert(pre.stack@[j].ready && pre.stack@[j].id@ == item.id@);
                        assert(pre.has_ready(item.id@));
                    }
                }
                assert(!self.in_pending(item.id@)) by {
                    if self.in_pending(item.id@) {
                        let j = choose|j: int|
                            0 <= j < self.pending@.len() && #[trigger] self.pending@[j].id@
                                == item.id@;
                        assert(pre.in_scheduled(item.id@));
                    }
                }
                // Re-establish the invariant for the extended schedule.
                assert forall|j: int| 0 <= j < self.scheduled@.len() implies self.covered(
                    reg@,
                    #[trigger] self.scheduled@[j]@,
                ) by {
                    let x = self.scheduled@[j]@;
                    if j < pre.scheduled@.len() {
                        assert(pre.covered(reg@, x));
                        if pre.has_ready(x) {
                            let k = choose|k: int|
                                0 <= k < pre.stack@.len() && pre.stack@[k].ready
                                    && #[trigger] pre.stack@[k].id@ == x;
                            if k < n {
                                assert(self.stack@[k].ready && self.stack@[k].id@ == x);
                                assert(self.has_ready(x));
                            } else {
                                assert(x == item.id@);
                            }
                        }
                    } else {
                        assert(x == item.id@);
                    }
                }
                assert forall|j: int| 0 <= j < self.seed_ids@.len() implies self.seed_covered(
                    reg@,
                    #[trigger] self.seed_ids@[j],
                ) by {
                    let s = self.seed_ids@[j];
                    assert(pre.seed_covered(reg@, s));
                    if pre.on_stack(s) {
                        let k = choose|k: int|
                            0 <= k < pre.stack@.len() && #[trigger] pre.stack@[k].id@ == s;
                        if k < n {
                            assert(self.stack@[k].id@ == s);
                            assert(self.on_stack(s));
                        } else {
                            assert(s == item.id@);
                            assert(self.in_scheduled(s));
                        }
                    } else if pre.in_scheduled(s) {
                        assert(self.in_scheduled(s));
                    }
                }
            }
            return ResolveStep::NeedProgram(item.id);
        }
    }

    /// Hands the resolver the program it asked for. Its imports join the
    /// walk, and the program itself becomes ready for installation once
    /// they are done.
    pub fn provide(&mut self, reg: &Registry, entry: ProgramEntry)
        requires
            old(self).inv(reg@),
            old(self).awaiting_id() == Some(entry.id@),
        ensures
            final(self).inv(reg@),
            final(self).awaiting_id() is None,
            final(self).seeds() == old(self).seeds(),
            // The program becomes ready for installation, after its imports.
            final(self).stack_ids() == old(self).stack_ids().push(entry.id@)
                + entry.entry_view().imports,
    {
        let ghost pre = *self;
        self.awaiting = None;
        self.stack.push(WorkItem { id: entry.id.clone(), ready: true });
        let ghost base = self.stack@;
        let mut k: usize = 0;
        while k < entry.imports.len()
            invariant
                k <= entry.imports@.len(),
                self.stack@.len() == base.len() + k,
                self.stack@.take(base.len() as int) == base,
                forall|j: int| base.len() <= j < self.stack@.len()
                    ==> !(#[trigger] self.stack@[j]).ready,
                forall|j: int| base.len() <= j < self.stack@.len()
                    ==> (#[trigger] self.stack@[j]).id@ == entry.imports@[j - base.len()]@,
                self.scheduled@ == pre.scheduled@,
                self.pending@ == pre.pending@,
                self.awaiting is None,
                self.seed_ids@ == pre.seed_ids@,
            decreases entry.imports@.len() - k,
        {
            self.stack.push(WorkItem { id: entry.imports[k].clone(), ready: false });
            proof {
                assert(self.stack@.take(base.len() as int) =~= base);
            }
            k = k + 1;
        }
        self.pending.push(entry);
        proof {
            let m = reg@;
            let nid = entry.id@;
            let pn = pre.stack@.len() as int;
            assert(base[pn] == self.stack@[pn]);
            assert(self.stack@[pn].id@ == nid && self.stack@[pn].ready);
            assert forall|x: Seq<char>| pre.on_stack(x) || x == nid implies self.on_stack(x) by {
                if pre.on_stack(x) {
                    let j = choose|j: int|
                        0 <= j < pre.stack@.len() && #[trigger] pre.stack@[j].id@ == x;
                    assert(base[j] == pre.stack@[j]);
                    assert(self.stack@[j].id@ == x);
                } else {
                    assert(self.stack@[pn].id@ == x);
                }
            }
            assert forall|x: Seq<char>| pre.has_ready(x) implies self.has_ready(x) by {
                let j = choose|j: int|
                    0 <= j < pre.stack@.len() && pre.stack@[j].ready && #[trigger] pre.stack@[j].id@
                        == x;
                assert(base[j] == pre.stack@[j]);
                assert(self.stack@[j].ready && self.stack@[j].id@ == x);
            }
            assert forall|x: Seq<char>| self.in_pending(x) implies pre.in_pending(x) || x
                == nid by {
                let j = choose|j: int|
                    0 <= j < self.pending@.len() && #[trigger] self.pending@[j].id@ == x;
                if j < pre.pending@.len() {
                    assert(pre.pending@[j].id@ == x);
                }
            }
            assert(self.in_pending(nid)) by {
                assert(self.pending@[pre.pending@.len() as int].id@ == nid);
            }
            assert forall|x: Seq<char>| pre.in_pending(x) implies self.in_pending(x) by {
                let j = choose|j: int|
                    0 <= j < pre.pending@.len() && #[trigger] pre.pending@[j].id@ == x;
                assert(self.pending@[j].id@ == x);
            }
            assert forall|x: Seq<char>| pre.in_scheduled(x) implies self.in_scheduled(x) by {
                let j = choose|j: int|
                    0 <= j < pre.scheduled@.len() && #[trigger] pre.scheduled@[j]@ == x;
                assert(self.scheduled@[j]@ == x);
            }
            assert forall|x: Seq<char>| self.in_scheduled(x) implies pre.in_scheduled(x) by {
                let j = choose|j: int|
                    0 <= j < self.scheduled@.len() && #[trigger] self.scheduled@[j]@ == x;
                assert(pre.scheduled@[j]@ == x);
            }
            // Each stack item is either an old one, the new ready item, or
            // one of the fresh not-ready imports.
            assert forall|j: int| 0 <= j < pn implies self.stack@[j] == pre.stack@[j] by {
                assert(base[j] == pre.stack@[j]);
            }
            assert forall|j: int|
                0 <= j < self.stack@.len() && (#[trigger] self.stack@[j]).ready implies j < pn
                    + 1 by {
                if j >= base.len() {
                    assert(!self.stack@[j].ready);
                }
            }
            // Ready uniqueness: the one new ready item was not ready before.
            assert forall|i: int, j: int|
                0 <= i < j < self.stack@.len() && (#[trigger] self.stack@[i]).ready
                    && (#[trigger] self.stack@[j]).ready implies self.stack@[i].id@
                    != self.stack@[j].id@ by {
                assert(j <= pn);
                if j == pn {
                    assert(i < pn);
                    if self.stack@[i].id@ == nid {
                        assert(pre.stack@[i].ready && pre.stack@[i].id@ == nid);
                        assert(pre.has_ready(nid));
                    }
                } else {
                    assert(pre.stack@[i].ready && pre.stack@[j].ready);
                }
            }
            // Scheduled ids stay covered: the awaited id is now ready.
            assert forall|j: int| 0 <= j < self.scheduled@.len() implies self.covered(
                m,
                #[trigger] self.scheduled@[j]@,
            ) by {
                let x = self.scheduled@[j]@;
                assert(pre.covered(m, x));
                if pre.awaiting_id() == Some(x) {
                    assert(x == nid);
                    assert(self.has_ready(x));
                }
            }
            assert forall|j: int| 0 <= j < self.seed_ids@.len() implies self.seed_covered(
                m,
                #[trigger] self.seed_ids@[j],
            ) by {
                let s = self.seed_ids@[j];
                assert(pre.seed_covered(m, s));
            }
            // Ready items not installed are pending; ready items and pending
            // programs are scheduled; no ready item is credits.
            assert forall|j: int|
                0 <= j < self.stack@.len() && (#[trigger] self.stack@[j]).ready && !m.dom().contains(
                    self.stack@[j].id@,
                ) implies self.in_pending(self.stack@[j].id@) by {
                if j < pn {
                    assert(pre.stack@[j].ready && pre.stack@[j].id@ == self.stack@[j].id@);
                    assert(pre.in_pending(self.stack@[j].id@));
                } else {
                    assert(j == pn);
                    assert(self.stack@[j].id@ == nid);
                }
            }
            assert forall|j: int|
                0 <= j < self.stack@.len() && (#[trigger] self.stack@[j]).ready implies
                self.in_scheduled(self.stack@[j].id@) by {
                if j < pn {
                    assert(pre.stack@[j].ready && pre.stack@[j].id@ == self.stack@[j].id@);
                    assert(pre.in_scheduled(self.stack@[j].id@));
                } else {
                    assert(j == pn);
                    assert(pre.in_scheduled(nid));
                }
            }
            assert forall|j: int| 0 <= j < self.pending@.len() implies self.in_scheduled(
                #[trigger] self.pending@[j].id@,
            ) by {
                if j < pre.pending@.len() {
                    assert(pre.pending@[j].id@ == self.pending@[j].id@);
                    assert(pre.in_scheduled(self.pending@[j].id@));
                } else {
                    assert(self.pending@[j].id@ == nid);
                    assert(pre.in_scheduled(nid));
                }
            }
            assert forall|j: int|
                0 <= j < self.stack@.len() && (#[trigger] self.stack@[j]).ready implies
                self.stack@[j].id@ != credits_id() by {
                if j < pn {
                    assert(pre.stack@[j].ready && pre.stack@[j].id@ == self.stack@[j].id@);
                } else {
                    assert(j == pn);
                }
            }
            assert(self.stack_ids() =~= pre.stack_ids().push(entry.id@)
                + entry.entry_view().imports);
        }
    }
}
/// Two states with the same pending programs agree on what is pending.
proof fn lemma_pending_eq(a: Resolver, b: Resolver)
    requires
        a.pending@ == b.pending@,
    ensures
        forall|x: Seq<char>| a.in_pending(x) == b.in_pending(x),
{
    assert forall|x: Seq<char>| a.in_pending(x) == b.in_pending(x) by {
        if a.in_pending(x) {
            let j = choose|j: int|
                0 <= j < a.pending@.len() && #[trigger] a.pending@[j].id@ == x;
            assert(b.pending@[j].id@ == x);
        }
        if b.in_pending(x) {
            let j = choose|j: int|
                0 <= j < b.pending@.len() && #[trigger] b.pending@[j].id@ == x;
            assert(a.pending@[j].id@ == x);
        }
    }
}

/// Transitivity of registry growth.
proof fn lemma_submap_trans(
    m1: Map<Seq<char>, EntryView>,
    m2: Map<Seq<char>, EntryView>,
    m3: Map<Seq<char>, EntryView>,
)
    requires
        m1.submap_of(m2),
        m2.submap_of(m3),
    ensures
        m1.submap_of(m3),
{
    assert forall|k: Seq<char>| #[trigger] m1.dom().contains(k) implies m3.dom().contains(k)
        && m1[k] == m3[k] by {
        if m2.dom().contains(k) {
            if m3.dom().contains(k) {
                assert(m1[k] == m2[k]);
                assert(m2[k] == m3[k]);
            } else {
                assert(false);
            }
        } else {
            assert(false);
        }
    }
}

/// The popped work item is disposed of, and the invariant stands: the item
/// is credits, installed, or scheduled; a ready item is installed; pending
/// lost at most the popped id's program; the registry only grew.
proof fn lemma_step_pop(
    pre: Resolver,
    post: Resolver,
    m_pre: Map<Seq<char>, EntryView>,
    m_post: Map<Seq<char>, EntryView>,
    item: WorkItem,
)
    requires
        pre.inv(m_pre),
        pre.awaiting_id() is None,
        pre.stack@.len() > 0,
        item == pre.stack@[pre.stack@.len() - 1],
        post.stack@ == pre.stack@.take(pre.stack@.len() - 1),
        post.scheduled@ == pre.scheduled@,
        post.awaiting is None,
        post.seed_ids@ == pre.seed_ids@,
        forall|x: Seq<char>| m_pre.dom().contains(x) ==> m_post.dom().contains(x),
        forall|x: Seq<char>| post.in_pending(x) ==> pre.in_pending(x),
        forall|x: Seq<char>| pre.in_pending(x) && x != item.id@ ==> post.in_pending(x),
        item.ready ==> m_post.dom().contains(item.id@),
        !item.ready ==> (forall|x: Seq<char>| pre.in_pending(x) ==> post.in_pending(x)),
        item.id@ == credits_id() || m_post.dom().contains(item.id@) || pre.in_scheduled(item.id@),
    ensures
        post.inv(m_post),
{
    let n = pre.stack@.len() - 1;
    assert forall|j: int| 0 <= j < post.stack@.len() implies post.stack@[j]
        == pre.stack@[j] by {}
    assert forall|x: Seq<char>| pre.in_scheduled(x) implies post.in_scheduled(x) by {
        let j = choose|j: int|
            0 <= j < pre.scheduled@.len() && #[trigger] pre.scheduled@[j]@ == x;
        assert(post.scheduled@[j]@ == x);
    }
    // Scheduled ids stay covered.
    assert forall|j: int| 0 <= j < post.scheduled@.len() implies post.covered(
        m_post,
        #[trigger] post.scheduled@[j]@,
    ) by {
        let x = post.scheduled@[j]@;
        assert(pre.covered(m_pre, x));
        if !m_post.dom().contains(x) {
            assert(pre.has_ready(x));
            let k = choose|k: int|
                0 <= k < pre.stack@.len() && pre.stack@[k].ready && #[trigger] pre.stack@[k].id@
                    == x;
            if k < n {
                assert(post.stack@[k].ready && post.stack@[k].id@ == x);
                assert(post.has_ready(x));
            } else {
                assert(item.ready && item.id@ == x);
                assert(false);
            }
        }
    }
    // Ready items not installed still have their program pending.
    assert forall|j: int|
        0 <= j < post.stack@.len() && (#[trigger] post.stack@[j]).ready && !m_post.dom().contains(
            post.stack@[j].id@,
        ) implies post.in_pending(post.stack@[j].id@) by {
        let x = post.stack@[j].id@;
        assert(pre.stack@[j].ready && pre.stack@[j].id@ == x);
        assert(!m_pre.dom().contains(x));
        assert(pre.in_pending(x));
        if item.ready {
            assert(x != item.id@);
        }
    }
    // Ready uniqueness is inherited.
    assert forall|i: int, j: int|
        0 <= i < j < post.stack@.len() && (#[trigger] post.stack@[i]).ready
            && (#[trigger] post.stack@[j]).ready implies post.stack@[i].id@
            != post.stack@[j].id@ by {
        assert(pre.stack@[i].ready && pre.stack@[j].ready);
    }
    // No seed is lost.
    assert forall|j: int| 0 <= j < post.seed_ids@.len() implies post.seed_covered(
        m_post,
        #[trigger] post.seed_ids@[j],
    ) by {
        let s = post.seed_ids@[j];
        assert(pre.seed_covered(m_pre, s));
        if s != credits_id() && !m_post.dom().contains(s) {
            if pre.on_stack(s) {
                let k = choose|k: int|
                    0 <= k < pre.stack@.len() && #[trigger] pre.stack@[k].id@ == s;
                if k < n {
                    assert(post.stack@[k].id@ == s);
                    assert(post.on_stack(s));
                } else {
                    assert(s == item.id@);
                    assert(pre.in_scheduled(s));
                    assert(post.in_scheduled(s));
                }
            } else {
                assert(pre.in_scheduled(s));
            }
        }
    }
    // Ready items and pending programs still come from scheduling.
    assert forall|j: int|
        0 <= j < post.stack@.len() && (#[trigger] post.stack@[j]).ready implies post.in_scheduled(
            post.stack@[j].id@,
        ) by {
        assert(pre.stack@[j].ready && pre.stack@[j].id@ == post.stack@[j].id@);
        assert(pre.in_scheduled(post.stack@[j].id@));
    }
    assert forall|j: int| 0 <= j < post.pending@.len() implies post.in_scheduled(
        #[trigger] post.pending@[j].id@,
    ) by {
        let x = post.pending@[j].id@;
        assert(post.in_pending(x));
        assert(pre.in_pending(x));
        let k = choose|k: int|
            0 <= k < pre.pending@.len() && #[trigger] pre.pending@[k].id@ == x;
        assert(pre.in_scheduled(x));
    }
    assert forall|j: int|
        0 <= j < post.stack@.len() && (#[trigger] post.stack@[j]).ready implies post.stack@[j].id@
            != credits_id() by {
        assert(pre.stack@[j].ready && pre.stack@[j].id@ == post.stack@[j].id@);
    }
}

} // verus!
