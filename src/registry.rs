use vstd::prelude::*;
use vstd::hash_map::StringHashMap;
use crate::text::push_char;

verus! {

broadcast use vstd::hash_map::group_hash_map_axioms;

/// Tracks running processes by an identifier handed out at registration, so that each
/// can be cancelled later, or all at once at shutdown.
pub struct ProcessRegistry<H> {
    entries: Vec<(String, H)>,
    /// Every identifier handed out so far.
    issued: StringHashMap<bool>,
    /// The longest identifier handed out so far.
    longest: String,
}

/// Relies on `uuid::Uuid::new_v4` and its hyphenated text form: a random identifier.
#[verifier::external_body]
fn new_uuid() -> String {
    uuid::Uuid::new_v4().to_string()
}

impl<H> ProcessRegistry<H> {
    /// Each identifier is held once and was handed out, and none handed out is longer
    /// than `longest`.
    pub closed spec fn wf(&self) -> bool {
        &&& forall|i: int, j: int|
            0 <= i < j < self.entries@.len() ==> self.entries@[i].0@ != self.entries@[j].0@
        &&& forall|i: int| 0 <= i < self.entries@.len() ==> self.issued@.contains_key(#[trigger] self.entries@[i].0@)
        &&& forall|k: Seq<char>| #[trigger] self.issued@.contains_key(k) ==> k.len() <= self.longest@.len()
    }

    /// Every identifier handed out so far.
    pub closed spec fn issued(&self) -> Set<Seq<char>> {
        self.issued@.dom()
    }

    spec fn holds(&self, k: Seq<char>) -> bool {
        exists|i: int| 0 <= i < self.entries@.len() && self.entries@[i].0@ == k
    }

    spec fn slot(&self, k: Seq<char>) -> int {
        choose|i: int| 0 <= i < self.entries@.len() && self.entries@[i].0@ == k
    }

    /// Identifier to process handle.
    pub closed spec fn view(&self) -> Map<Seq<char>, H> {
        Map::new(|k: Seq<char>| self.holds(k), |k: Seq<char>| self.entries@[self.slot(k)].1)
    }

    proof fn lemma_slot(&self, i: int)
        requires
            self.wf(),
            0 <= i < self.entries@.len(),
        ensures
            self.view().contains_key(self.entries@[i].0@),
            self.view()[self.entries@[i].0@] == self.entries@[i].1,
    {
        let k = self.entries@[i].0@;
        assert(self.holds(k));
        let s = self.slot(k);
        assert(self.entries@[s].0@ == k);
        if s != i {
            if s < i {
                assert(self.entries@[s].0@ != self.entries@[i].0@);
            } else {
                assert(self.entries@[i].0@ != self.entries@[s].0@);
            }
        }
    }

    pub fn new() -> (r: Self)
        ensures
            r.wf(),
            r.view() == Map::<Seq<char>, H>::empty(),
            r.issued() == Set::<Seq<char>>::empty(),
    {
        let r = ProcessRegistry { entries: Vec::new(), issued: StringHashMap::new(), longest: String::new() };
        assert(r.issued() =~= Set::<Seq<char>>::empty());
        assert(r.view() =~= Map::<Seq<char>, H>::empty());
        r
    }

    /// Where `id` is held.
    fn position(&self, id: &str) -> (r: Option<usize>)
        requires
            self.wf(),
        ensures
            match r {
                Some(i) => i < self.entries@.len() && self.entries@[i as int].0@ == id@,
                None => !self.view().contains_key(id@),
            },
    {
        let mut i: usize = 0;
        while i < self.entries.len()
            invariant
                i <= self.entries@.len(),
                forall|j: int| 0 <= j < i ==> self.entries@[j].0@ != id@,
            decreases self.entries@.len() - i,
        {
            if self.entries[i].0 == id.to_owned() {
                return Some(i);
            }
            i = i + 1;
        }
        None
    }

    /// Whether a process is held under `id`.
    pub fn contains(&self, id: &str) -> (r: bool)
        requires
            self.wf(),
        ensures
            r == self.view().contains_key(id@),
    {
        match self.position(id) {
            Some(i) => {
                proof {
                    self.lemma_slot(i as int);
                }
                true
            },
            None => false,
        }
    }

    /// How many processes are held.
    pub fn len(&self) -> (r: usize)
        requires
            self.wf(),
        ensures
            r == self.view().dom().len(),
    {
        proof {
            self.lemma_len();
        }
        self.entries.len()
    }

    proof fn lemma_len(&self)
        requires
            self.wf(),
        ensures
            self.view().dom().finite(),
            self.view().dom().len() == self.entries@.len(),
    {
        let f = |i: int| self.entries@[i].0@;
        let x = vstd::set_lib::set_int_range(0, self.entries@.len() as int);
        vstd::set_lib::lemma_int_range(0, self.entries@.len() as int);
        assert(vstd::relations::injective_on(f, x));
        assert forall|k: Seq<char>| self.view().dom().contains(k) implies x.map(f).contains(k) by {
            assert(self.holds(k));
            let i = self.slot(k);
            assert(x.contains(i) && f(i) == k);
        }
        assert forall|k: Seq<char>| x.map(f).contains(k) implies self.view().dom().contains(k) by {
            let i = choose|i: int| x.contains(i) && f(i) == k;
            assert(0 <= i < self.entries@.len() && self.entries@[i].0@ == k);
        }
        assert(x.map(f) =~= self.view().dom());
        vstd::set_lib::lemma_map_size(x, self.view().dom(), f);
    }

    /// An identifier never handed out before: a random one, or where that was, the
    /// longest one handed out with a dash after it.
    fn fresh_id(&self) -> (r: String)
        requires
            self.wf(),
        ensures
            !self.issued().contains(r@),
            !self.view().contains_key(r@),
    {
        let id = new_uuid();
        let r = if !self.issued.contains_key(id.as_str()) {
            id
        } else {
            let mut alt = self.longest.clone();
            push_char(&mut alt, '-');
            alt
        };
        proof {
            if self.view().contains_key(r@) {
                assert(self.holds(r@));
                let i = self.slot(r@);
                assert(self.issued@.contains_key(self.entries@[i].0@));
            }
        }
        r
    }

    /// Stores `handle` under a new identifier and returns that identifier.
    pub fn register(&mut self, handle: H) -> (r: String)
        requires
            old(self).wf(),
        ensures
            final(self).wf(),
            !old(self).view().contains_key(r@),
            final(self).view() == old(self).view().insert(r@, handle),
            !old(self).issued().contains(r@),
            final(self).issued() == old(self).issued().insert(r@),
    {
        let id = self.fresh_id();
        let ghost old_view = self.view();
        self.entries.push((id.clone(), handle));
        self.issued.insert(id.clone(), true);
        if id.as_str().unicode_len() > self.longest.as_str().unicode_len() {
            self.longest = id.clone();
        }
        assert(self.issued() =~= old(self).issued().insert(id@));
        proof {
            let n = self.entries@.len() - 1;
            assert forall|i: int, j: int| 0 <= i < j < self.entries@.len() implies self.entries@[i].0@
                != self.entries@[j].0@ by {
                if j == n {
                    assert(old(self).entries@[i] == self.entries@[i]);
                    if old(self).entries@[i].0@ == id@ {
                        old(self).lemma_slot(i);
                    }
                }
            }
            let new_view = old_view.insert(id@, handle);
            assert forall|k: Seq<char>| #[trigger] self.view().contains_key(k) == new_view.contains_key(k) by {
                if old(self).holds(k) {
                    let i = old(self).slot(k);
                    assert(self.entries@[i] == old(self).entries@[i]);
                }
                if self.holds(k) && k != id@ {
                    let i = self.slot(k);
                    assert(i != n);
                    assert(old(self).entries@[i] == self.entries@[i]);
                }
                if k == id@ {
                    assert(self.entries@[n].0@ == id@);
                }
            }
            assert forall|k: Seq<char>| self.view().contains_key(k) implies self.view()[k] == new_view[k] by {
                if k == id@ {
                    self.lemma_slot(n);
                } else {
                    let i = old(self).slot(k);
                    assert(old(self).holds(k));
                    old(self).lemma_slot(i);
                    assert(self.entries@[i] == old(self).entries@[i]);
                    self.lemma_slot(i);
                }
            }
            assert(self.view() =~= old_view.insert(id@, handle));
        }
        id
    }

    /// Takes out the process held under `id`, if there is one.
    pub fn remove(&mut self, id: &str) -> (r: Option<H>)
        requires
            old(self).wf(),
        ensures
            final(self).wf(),
            match r {
                Some(h) => old(self).view().contains_key(id@) && h == old(self).view()[id@]
                    && final(self).view() == old(self).view().remove(id@),
                None => !old(self).view().contains_key(id@) && final(self).view() == old(
                    self,
                ).view(),
            },
            final(self).issued() == old(self).issued(),
    {
        match self.position(id) {
            None => None,
            Some(p) => {
                proof {
                    self.lemma_slot(p as int);
                }
                let ghost old_view = self.view();
                let ghost old_entries = self.entries@;
                let (_, h) = self.entries.remove(p);
                proof {
                    assert(self.entries@ =~= old_entries.take(p as int) + old_entries.skip(p + 1));
                    assert forall|i: int, j: int| 0 <= i < j < self.entries@.len() implies self.entries@[i].0@
                        != self.entries@[j].0@ by {
                        let oi = if i < p { i } else { i + 1 };
                        let oj = if j < p { j } else { j + 1 };
                        assert(self.entries@[i] == old_entries[oi]);
                        assert(self.entries@[j] == old_entries[oj]);
                    }
                    let new_view = old_view.remove(id@);
                    assert forall|k: Seq<char>| #[trigger] self.view().contains_key(k) == new_view.contains_key(k) by {
                        if self.holds(k) {
                            let i = self.slot(k);
                            let oi = if i < p { i } else { i + 1 };
                            assert(self.entries@[i] == old_entries[oi]);
                            assert(old(self).holds(k));
                            if k == id@ {
                                assert(oi != p);
                            }
                        }
                        if old(self).holds(k) && k != id@ {
                            let oi = old(self).slot(k);
                            assert(oi != p);
                            let i = if oi < p { oi } else { oi - 1 };
                            assert(self.entries@[i] == old_entries[oi]);
                        }
                    }
                    assert forall|k: Seq<char>| self.view().contains_key(k) implies self.view()[k] == new_view[k] by {
                        let i = self.slot(k);
                        assert(self.holds(k));
                        let oi = if i < p { i } else { i + 1 };
                        assert(self.entries@[i] == old_entries[oi]);
                        self.lemma_slot(i);
                        old(self).lemma_slot(oi);
                    }
                    assert(self.view() =~= old_view.remove(id@));
                }
                Some(h)
            },
        }
    }

    /// Takes out every process; the registry is left empty.
    pub fn drain(&mut self) -> (r: Vec<H>)
        requires
            old(self).wf(),
        ensures
            final(self).wf(),
            final(self).view() == Map::<Seq<char>, H>::empty(),
            r@.len() == old(self).view().dom().len(),
            forall|k: Seq<char>| #[trigger] old(self).view().contains_key(k) ==> r@.contains(
                old(self).view()[k],
            ),
            final(self).issued() == old(self).issued(),
    {
        proof {
            self.lemma_len();
        }
        let ghost old_entries = self.entries@;
        let mut out: Vec<H> = Vec::new();
        while self.entries.len() > 0
            invariant
                old_entries == old(self).entries@,
                self.issued@ == old(self).issued@,
                self.longest@ == old(self).longest@,
                self.entries@ == old_entries.take(self.entries@.len() as int),
                self.entries@.len() <= old_entries.len(),
                out@.len() + self.entries@.len() == old_entries.len(),
                forall|i: int|
                    self.entries@.len() <= i < old_entries.len() ==> out@.contains(
                        #[trigger] old_entries[i].1,
                    ),
            decreases self.entries@.len(),
        {
            let ghost n = self.entries@.len() - 1;
            let (_, h) = self.entries.pop().unwrap();
            let ghost before = out@;
            out.push(h);
            proof {
                assert(self.entries@ =~= old_entries.take(n));
                assert forall|i: int|
                    self.entries@.len() <= i < old_entries.len() implies out@.contains(
                        #[trigger] old_entries[i].1,
                    ) by {
                    if i == n {
                        assert(out@[out@.len() - 1] == h);
                    } else {
                        let j = choose|j: int| 0 <= j < before.len() && before[j] == old_entries[i].1;
                        assert(out@[j] == before[j]);
                    }
                }
            }
        }
        proof {
            assert forall|k: Seq<char>|
                #[trigger] old(self).view().contains_key(k) implies out@.contains(old(self).view()[k]) by {
                let i = old(self).slot(k);
                assert(old(self).holds(k));
                old(self).lemma_slot(i);
            }
            assert(self.view() =~= Map::<Seq<char>, H>::empty());
        }
        out
    }
}

/// A process registered and then killed is found the first time and not the second:
/// right after registration the new identifier is held with its handle, and once it
/// is taken out it is held no longer.
pub proof fn lemma_register_then_kill<H>(held: Map<Seq<char>, H>, id: Seq<char>, handle: H)
    requires
        !held.contains_key(id),
    ensures
        held.insert(id, handle).contains_key(id),
        held.insert(id, handle)[id] == handle,
        !held.insert(id, handle).remove(id).contains_key(id),
        held.insert(id, handle).remove(id) == held,
{
    assert(held.insert(id, handle).remove(id) =~= held);
}

} // verus!
