//! The in-memory program registry: the one piece of shared mutable state in
//! the service.
//!
//! The registry maps program ids to their import lists and installed
//! editions. It grows monotonically, and it maintains the closure property:
//! every import of an installed program is itself installed (or is
//! `credits.aleo`, which the VM carries from construction). Installation
//! rejects a program whose imports are not yet available, which is what
//! makes resolution of an import cycle fail rather than corrupt the table.

use vstd::prelude::*;
use crate::text::matches_lit;
use crate::text::chars_of;
use crate::text::push_all;
use crate::text::string_of;

verus! {

/// The program the VM always carries; it is never fetched or installed.
pub open spec fn credits_id() -> Seq<char> {
    "credits.aleo"@
}

/// Whether an id needs no installation: it is `credits.aleo` or present.
pub open spec fn available(m: Map<Seq<char>, EntryView>, id: Seq<char>) -> bool {
    id == credits_id() || m.dom().contains(id)
}

/// Whether this id reads `credits.aleo`.
pub fn is_credits(id: &String) -> (r: bool)
    ensures
        r == (id@ == credits_id()),
{
    let cs = chars_of(id.as_str());
    matches_lit(&cs, "credits.aleo")
}

/// A program as the registry records it: its id, the ids it imports, and
/// the edition it was installed under, when editions are enforced.
pub struct ProgramEntry {
    pub id: String,
    pub imports: Vec<String>,
    pub edition: Option<u16>,
}

/// The mathematical content of one registry entry.
pub struct EntryView {
    pub imports: Seq<Seq<char>>,
    pub edition: Option<u16>,
}

impl ProgramEntry {
    /// The entry's content, id aside.
    pub open spec fn entry_view(&self) -> EntryView {
        EntryView {
            imports: self.imports@.map_values(|s: String| s@),
            edition: self.edition,
        }
    }
}

/// Why an installation was refused.
pub enum RegistryError {
    /// The program is already installed.
    AlreadyPresent { id: String },
    /// An import of the program is neither `credits.aleo` nor installed.
    MissingImport { id: String, import: String },
}

impl RegistryError {
    /// The text of the failure, as the service reports it.
    pub open spec fn message_text(&self) -> Seq<char> {
        match self {
            RegistryError::AlreadyPresent { id } =>
                "Failed to add program '"@ + id@ + "': already present"@,
            RegistryError::MissingImport { id, import } =>
                "Failed to add program '"@ + id@ + "': missing import '"@ + import@ + "'"@,
        }
    }

    /// Renders the failure for a response body.
    pub fn message(&self) -> (r: String)
        ensures
            r@ == self.message_text(),
    {
        match self {
            RegistryError::AlreadyPresent { id } => {
                let mut out = chars_of("Failed to add program '");
                let mid = chars_of(id.as_str());
                push_all(&mut out, &mid);
                let tail = chars_of("': already present");
                push_all(&mut out, &tail);
                string_of(&out)
            },
            RegistryError::MissingImport { id, import } => {
                let mut out = chars_of("Failed to add program '");
                let mid = chars_of(id.as_str());
                push_all(&mut out, &mid);
                let sep = chars_of("': missing import '");
                push_all(&mut out, &sep);
                let imp = chars_of(import.as_str());
                push_all(&mut out, &imp);
                out.push('\'');
                proof {
                    reveal_strlit("'");
                    assert(out@ =~= self.message_text());
                }
                string_of(&out)
            },
        }
    }
}

/// The registry: installed programs, keyed by id.
pub struct Registry {
    entries: Vec<ProgramEntry>,
}

/// Every import of every installed program is available in the map.
pub open spec fn closed_under_imports(m: Map<Seq<char>, EntryView>) -> bool {
    forall|id: Seq<char>, k: int|
        m.dom().contains(id) && 0 <= k < m[id].imports.len()
            ==> available(m, #[trigger] m[id].imports[k])
}

impl View for Registry {
    type V = Map<Seq<char>, EntryView>;

    closed spec fn view(&self) -> Map<Seq<char>, EntryView> {
        Map::new(
            |id: Seq<char>|
                exists|i: int| 0 <= i < self.entries@.len() && #[trigger] self.entries@[i].id@ == id,
            |id: Seq<char>|
                self.entries@[choose|i: int|
                    0 <= i < self.entries@.len() && #[trigger] self.entries@[i].id@ == id].entry_view(),
        )
    }
}

impl Registry {
    /// No id is recorded twice.
    closed spec fn ids_distinct(&self) -> bool {
        forall|i: int, j: int|
            0 <= i < j < self.entries@.len()
                ==> #[trigger] self.entries@[i].id@ != #[trigger] self.entries@[j].id@
    }

    /// A sound registry: distinct ids, closed under imports.
    pub closed spec fn wf(&self) -> bool {
        self.ids_distinct() && closed_under_imports(self@)
    }

    /// A sound registry is closed under imports.
    pub proof fn lemma_wf_closed(&self)
        requires
            self.wf(),
        ensures
            closed_under_imports(self@),
    {
    }

    /// An empty registry.
    pub fn new() -> (r: Registry)
        ensures
            r@ == Map::<Seq<char>, EntryView>::empty(),
            r.wf(),
    {
        let r = Registry { entries: Vec::new() };
        proof {
            assert(r@ =~= Map::<Seq<char>, EntryView>::empty());
        }
        r
    }

    /// Whether a program is installed.
    pub fn contains_program(&self, id: &String) -> (r: bool)
        ensures
            r == self@.dom().contains(id@),
    {
        let mut i: usize = 0;
        while i < self.entries.len()
            invariant
                i <= self.entries@.len(),
                forall|j: int| 0 <= j < i ==> #[trigger] self.entries@[j].id@ != id@,
            decreases self.entries@.len() - i,
        {
            if self.entries[i].id == *id {
                return true;
            }
            i = i + 1;
        }
        false
    }

    /// Installs a program. Succeeds exactly when the program is not yet
    /// installed and every import is available; the registry grows by that
    /// one entry and never otherwise changes.
    pub fn add_program(&mut self, entry: ProgramEntry) -> (r: Result<(), RegistryError>)
        requires
            old(self).wf(),
        ensures
            final(self).wf(),
            old(self)@.submap_of(final(self)@),
            match r {
                Ok(()) => {
                    &&& !old(self)@.dom().contains(entry.id@)
                    &&& forall|k: int| 0 <= k < entry.entry_view().imports.len()
                        ==> available(old(self)@, #[trigger] entry.entry_view().imports[k])
                    &&& final(self)@ == old(self)@.insert(entry.id@, entry.entry_view())
                },
                Err(e) => {
                    &&& final(self)@ == old(self)@
                    &&& match e {
                        RegistryError::AlreadyPresent { id } => {
                            &&& id@ == entry.id@
                            &&& old(self)@.dom().contains(entry.id@)
                        },
                        RegistryError::MissingImport { id, import } => {
                            &&& id@ == entry.id@
                            &&& !old(self)@.dom().contains(entry.id@)
                            &&& exists|k: int| 0 <= k < entry.entry_view().imports.len()
                                && #[trigger] entry.entry_view().imports[k] == import@
                            &&& !available(old(self)@, import@)
                        },
                    }
                },
            },
    {
        if self.contains_program(&entry.id) {
            return Err(RegistryError::AlreadyPresent { id: entry.id.clone() });
        }
        let mut k: usize = 0;
        while k < entry.imports.len()
            invariant
                k <= entry.imports@.len(),
                forall|j: int| 0 <= j < k
                    ==> available(self@, #[trigger] entry.entry_view().imports[j]),
                self == old(self),
                old(self).wf(),
                !old(self)@.dom().contains(entry.id@),
            decreases entry.imports@.len() - k,
        {
            let import = &entry.imports[k];
            if !is_credits(import) && !self.contains_program(import) {
                proof {
                    assert(entry.entry_view().imports[k as int] == entry.imports@[k as int]@);
                }
                return Err(RegistryError::MissingImport {
                    id: entry.id.clone(),
                    import: import.clone(),
                });
            }
            proof {
                assert(entry.entry_view().imports[k as int] == entry.imports@[k as int]@);
            }
            k = k + 1;
        }
        let ghost pre = *self;
        let ghost eview = entry.entry_view();
        let ghost eid = entry.id@;
        self.entries.push(entry);
        proof {
            let n = pre.entries@.len() as int;
            assert(self.entries@ =~= pre.entries@.push(self.entries@[n]));
            assert(self.entries@[n].id@ == eid);
            // Distinctness: the old entries keep their ids; the new id is fresh.
            assert forall|i: int, j: int| 0 <= i < j < self.entries@.len()
                implies #[trigger] self.entries@[i].id@ != #[trigger] self.entries@[j].id@ by {
                if j < n {
                    assert(pre.entries@[i].id@ != pre.entries@[j].id@);
                } else {
                    assert(j == n);
                    if self.entries@[i].id@ == eid {
                        assert(exists|x: int| 0 <= x < pre.entries@.len()
                            && #[trigger] pre.entries@[x].id@ == eid);
                        assert(pre@.dom().contains(eid));
                    }
                }
            }
            // The new view is the old one with the entry inserted.
            assert forall|key: Seq<char>| #[trigger] self@.dom().contains(key)
                implies pre@.dom().contains(key) || key == eid by {
                let i = choose|i: int| 0 <= i < self.entries@.len()
                    && #[trigger] self.entries@[i].id@ == key;
                if i < n {
                    assert(pre.entries@[i].id@ == key);
                }
            }
            assert forall|key: Seq<char>| pre@.dom().contains(key)
                implies #[trigger] self@.dom().contains(key) by {
                let i = choose|i: int| 0 <= i < pre.entries@.len()
                    && #[trigger] pre.entries@[i].id@ == key;
                assert(self.entries@[i].id@ == key);
            }
            assert(self@.dom().contains(eid));
            assert forall|key: Seq<char>| pre@.dom().contains(key) && key != eid
                implies #[trigger] self@[key] == pre@[key] by {
                let i = choose|i: int| 0 <= i < self.entries@.len()
                    && #[trigger] self.entries@[i].id@ == key;
                let j = choose|j: int| 0 <= j < pre.entries@.len()
                    && #[trigger] pre.entries@[j].id@ == key;
                assert(self.entries@[j].id@ == key);
                if i != j {
                    assert(false);
                }
            }
            assert(self@[eid] == eview) by {
                let i = choose|i: int| 0 <= i < self.entries@.len()
                    && #[trigger] self.entries@[i].id@ == eid;
                if i < n {
                    assert(pre.entries@[i].id@ == eid);
                    assert(pre@.dom().contains(eid));
                }
                assert(i == n);
            }
            assert(self@ =~= pre@.insert(eid, eview));
            // Closure: the fresh entry's imports were all available before.
            assert forall|id: Seq<char>, k2: int|
                self@.dom().contains(id) && 0 <= k2 < self@[id].imports.len()
                implies available(self@, #[trigger] self@[id].imports[k2]) by {
                if id == eid {
                    assert(available(pre@, eview.imports[k2]));
                } else {
                    assert(pre@.dom().contains(id));
                    assert(self@[id] == pre@[id]);
                    assert(available(pre@, pre@[id].imports[k2]));
                }
            }
        }
        Ok(())
    }
}

/// The ids one import step beyond a set of installed ids.
pub open spec fn import_successors(
    m: Map<Seq<char>, EntryView>,
    s: Set<Seq<char>>,
) -> Set<Seq<char>> {
    Set::new(
        |t: Seq<char>|
            exists|id: Seq<char>, k: int|
                s.contains(id) && m.dom().contains(id) && 0 <= k < m[id].imports.len()
                    && #[trigger] m[id].imports[k] == t,
    )
}

/// The ids reachable from the seeds in at most `n` import steps.
pub open spec fn reachable_within(
    m: Map<Seq<char>, EntryView>,
    seeds: Set<Seq<char>>,
    n: nat,
) -> Set<Seq<char>>
    decreases n,
{
    if n == 0 {
        seeds
    } else {
        reachable_within(m, seeds, (n - 1) as nat).union(
            import_successors(m, reachable_within(m, seeds, (n - 1) as nat)),
        )
    }
}

/// Once resolution has made every
/// seed of an authorization available in a sound registry, everything
/// transitively reachable from those seeds through recorded imports is
/// available too, at any depth.
pub proof fn lemma_resolved_closure(reg: &Registry, seeds: Seq<Seq<char>>, n: nat)
    requires
        reg.wf(),
        forall|j: int| 0 <= j < seeds.len() ==> available(reg@, #[trigger] seeds[j]),
    ensures
        forall|id: Seq<char>|
            #[trigger] reachable_within(reg@, seeds.to_set(), n).contains(id) ==> available(
                reg@,
                id,
            ),
{
    reg.lemma_wf_closed();
    assert forall|id: Seq<char>| #[trigger] seeds.to_set().contains(id) implies available(
        reg@,
        id,
    ) by {
        let j = choose|j: int| 0 <= j < seeds.len() && seeds[j] == id;
        assert(available(reg@, seeds[j]));
    }
    lemma_closure_reachable(reg@, seeds.to_set(), n);
}

/// In a registry closed under imports, once every seed is
/// available, so is everything transitively reachable from the seeds
/// through recorded imports, at any depth.
pub proof fn lemma_closure_reachable(
    m: Map<Seq<char>, EntryView>,
    seeds: Set<Seq<char>>,
    n: nat,
)
    requires
        closed_under_imports(m),
        forall|id: Seq<char>| #[trigger] seeds.contains(id) ==> available(m, id),
    ensures
        forall|id: Seq<char>|
            #[trigger] reachable_within(m, seeds, n).contains(id) ==> available(m, id),
    decreases n,
{
    if n > 0 {
        lemma_closure_reachable(m, seeds, (n - 1) as nat);
        let prev = reachable_within(m, seeds, (n - 1) as nat);
        assert forall|t: Seq<char>| import_successors(m, prev).contains(t)
            implies available(m, t) by {
            let (id, k): (Seq<char>, int) = choose|id: Seq<char>, k: int|
                prev.contains(id) && m.dom().contains(id) && 0 <= k < m[id].imports.len()
                    && #[trigger] m[id].imports[k] == t;
            assert(available(m, m[id].imports[k]));
        }
    }
}

} // verus!
