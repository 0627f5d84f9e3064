//! The registry of panel modules: each module under its id, with a visibility
//! switch, and the order in which the panel lists them.
use vstd::prelude::*;

use crate::module_trait::PanelModule;
use crate::text::str_eq;

verus! {

broadcast use vstd::seq_lib::group_seq_properties;

struct ModuleEntry<M> {
    id: String,
    module: M,
    visible: bool,
}

/// The modules of a panel, keyed by id (each id once), with the display order.
///
/// The order may name an id more than once (registering an id again appends it
/// again) and may name ids that are not registered (after `set_order`); the
/// panel lists the order's ids that are registered.
pub struct ModuleRegistry<M> {
    modules: Vec<ModuleEntry<M>>,
    order: Vec<String>,
}

/// `s` with the elements at `i` and `j` exchanged.
pub open spec fn swapped<A>(s: Seq<A>, i: int, j: int) -> Seq<A> {
    s.update(i, s[j]).update(j, s[i])
}

impl<M: PanelModule> ModuleRegistry<M> {
    /// The registered ids (each once).
    pub closed spec fn ids(&self) -> Seq<Seq<char>> {
        self.modules@.map_values(|e: ModuleEntry<M>| e.id@)
    }

    /// The display order.
    pub closed spec fn order_ids(&self) -> Seq<Seq<char>> {
        self.order@.map_values(|s: String| s@)
    }

    /// Whether `id` is registered.
    pub open spec fn has(&self, id: Seq<char>) -> bool {
        self.ids().contains(id)
    }

    /// The set of registered ids.
    pub open spec fn id_set(&self) -> Set<Seq<char>> {
        self.ids().to_set()
    }

    closed spec fn slot(&self, id: Seq<char>) -> int {
        choose|k: int| 0 <= k < self.ids().len() && self.ids()[k] == id
    }

    /// Whether `id` is shown: its switch when registered, else `true`.
    pub closed spec fn visible_of(&self, id: Seq<char>) -> bool {
        if self.has(id) {
            self.modules@[self.slot(id)].visible
        } else {
            true
        }
    }

    /// The module registered under `id`.
    pub closed spec fn module_of(&self, id: Seq<char>) -> M {
        self.modules@[self.slot(id)].module
    }

    /// The registered ids that are shown.
    pub open spec fn visible_set(&self) -> Set<Seq<char>> {
        self.id_set().filter(|k: Seq<char>| self.visible_of(k))
    }

    /// Each id is registered once.
    pub closed spec fn wf(&self) -> bool {
        self.ids().no_duplicates()
    }

    pub open spec fn present(&self) -> spec_fn(Seq<char>) -> bool {
        |k: Seq<char>| self.has(k)
    }

    /// The modules as the panel lists them: the order's registered ids.
    pub open spec fn listed(&self) -> Seq<Seq<char>> {
        self.order_ids().filter(self.present())
    }

    /// `other` holds the same modules, switches and order as `self`.
    pub open spec fn same_entries(&self, other: &Self) -> bool {
        &&& self.id_set() == other.id_set()
        &&& forall|k: Seq<char>| #[trigger] self.has(k) ==> self.module_of(k) == other.module_of(k)
        &&& forall|k: Seq<char>| self.visible_of(k) == #[trigger] other.visible_of(k)
    }

    /// `post` is `pre` after registering `m` under `id`.
    pub open spec fn registered(pre: &Self, post: &Self, id: Seq<char>, m: M) -> bool {
        &&& post.order_ids() == pre.order_ids().push(id)
        &&& post.id_set() == pre.id_set().insert(id)
        &&& forall|k: Seq<char>| #[trigger] post.has(k) == (pre.has(k) || k == id)
        &&& post.module_of(id) == m
        &&& post.visible_of(id)
        &&& forall|k: Seq<char>| k != id ==> (#[trigger] post.visible_of(k) == pre.visible_of(k))
        &&& forall|k: Seq<char>| k != id && #[trigger] post.has(k) ==> post.module_of(k) == pre.module_of(k)
    }

    /// `post` is `pre` with the switch of `id` set to `v`.
    pub open spec fn visibility_set(pre: &Self, post: &Self, id: Seq<char>, v: bool) -> bool {
        &&& post.order_ids() == pre.order_ids()
        &&& post.id_set() == pre.id_set()
        &&& forall|k: Seq<char>| #[trigger] post.has(k) ==> post.module_of(k) == pre.module_of(k)
        &&& post.visible_of(id) == (if pre.has(id) { v } else { true })
        &&& forall|k: Seq<char>| k != id ==> (#[trigger] post.visible_of(k) == pre.visible_of(k))
    }

    proof fn lemma_slot(&self, id: Seq<char>)
        requires
            self.has(id),
        ensures
            0 <= self.slot(id) < self.ids().len(),
            self.ids()[self.slot(id)] == id,
    {
    }

    proof fn lemma_slot_unique(&self, k: int)
        requires
            self.wf(),
            0 <= k < self.ids().len(),
        ensures
            self.has(self.ids()[k]),
            self.slot(self.ids()[k]) == k,
    {
        let id = self.ids()[k];
        assert(self.ids().contains(id));
        self.lemma_slot(id);
    }

    pub fn new() -> (r: Self)
        ensures
            r.wf(),
            r.id_set().is_empty(),
            r.order_ids() == Seq::<Seq<char>>::empty(),
    {
        let r = ModuleRegistry { modules: Vec::new(), order: Vec::new() };
        assert(r.ids() =~= Seq::<Seq<char>>::empty());
        assert(r.order_ids() =~= Seq::<Seq<char>>::empty());
        assert(r.id_set() =~= Set::<Seq<char>>::empty());
        r
    }

    fn find(&self, id: &str) -> (r: Option<usize>)
        requires
            self.wf(),
        ensures
            match r {
                Some(k) => k < self.ids().len() && self.ids()[k as int] == id@ && self.slot(id@)
                    == k,
                None => !self.has(id@),
            },
    {
        let mut k: usize = 0;
        while k < self.modules.len()
            invariant
                k <= self.modules.len(),
                self.wf(),
                forall|j: int| 0 <= j < k ==> self.ids()[j] != id@,
            decreases self.modules.len() - k,
        {
            if str_eq(self.modules[k].id.as_str(), id) {
                proof {
                    self.lemma_slot_unique(k as int);
                }
                return Some(k);
            }
            k = k + 1;
        }
        None
    }

    /// Registers `module` under its id, shown; the id goes to the end of the
    /// order. A module already registered under that id is replaced.
    pub fn register(&mut self, module: M)
        requires
            old(self).wf(),
        ensures
            final(self).wf(),
            Self::registered(old(self), final(self), module.spec_id(), module),
    {
        let id: String = module.id().to_owned();
        let ghost gid = id@;
        self.order.push(id.clone());
        assert(self.order_ids() =~= old(self).order_ids().push(gid));
        match self.find(id.as_str()) {
            Some(k) => {
                self.modules.set(k, ModuleEntry { id, module, visible: true });
                proof {
                    assert(self.ids() =~= old(self).ids());
                    self.lemma_slot_unique(k as int);
                    assert(self.id_set() =~= old(self).id_set().insert(gid));
                    assert forall|x: Seq<char>| x != gid && #[trigger] self.has(x) implies self.module_of(x)
                        == old(self).module_of(x) && self.visible_of(x) == old(self).visible_of(x) by {
                        old(self).lemma_slot(x);
                        old(self).lemma_slot_unique(old(self).slot(x));
                        self.lemma_slot_unique(old(self).slot(x));
                    }
                }
            },
            None => {
                let ghost before = self.ids();
                self.modules.push(ModuleEntry { id, module, visible: true });
                proof {
                    assert(self.ids() =~= before.push(gid));
                    assert(self.ids().no_duplicates());
                    self.lemma_slot_unique(before.len() as int);
                    assert(self.id_set() =~= old(self).id_set().insert(gid));
                    assert forall|x: Seq<char>| x != gid && #[trigger] self.has(x) implies self.module_of(x)
                        == old(self).module_of(x) && self.visible_of(x) == old(self).visible_of(x) by {
                        let j = choose|j: int| 0 <= j < self.ids().len() && self.ids()[j] == x;
                        assert(j < before.len());
                        assert(old(self).ids()[j] == x);
                        old(self).lemma_slot_unique(j);
                        self.lemma_slot_unique(j);
                    }
                }
            },
        }
    }

    /// The number of registered modules.
    pub fn len(&self) -> (r: usize)
        requires
            self.wf(),
        ensures
            r == self.id_set().len(),
    {
        proof {
            self.ids().unique_seq_to_set();
        }
        self.modules.len()
    }

    pub fn is_empty(&self) -> (r: bool)
        requires
            self.wf(),
        ensures
            r == self.id_set().is_empty(),
    {
        proof {
            self.ids().unique_seq_to_set();
            if self.ids().len() > 0 {
                assert(self.id_set().contains(self.ids()[0]));
            } else {
                assert(self.id_set() =~= Set::<Seq<char>>::empty());
            }
        }
        self.modules.len() == 0
    }

    /// Whether `id` is shown; an id that is not registered counts as shown.
    pub fn is_visible(&self, id: &str) -> (r: bool)
        requires
            self.wf(),
        ensures
            r == self.visible_of(id@),
    {
        match self.find(id) {
            Some(k) => self.modules[k].visible,
            None => true,
        }
    }

    /// Sets the switch of a registered `id`; does nothing for another id.
    pub fn set_visible(&mut self, id: &str, visible: bool)
        requires
            old(self).wf(),
        ensures
            final(self).wf(),
            Self::visibility_set(old(self), final(self), id@, visible),
    {
        match self.find(id) {
            Some(k) => {
                let e = self.modules.remove(k);
                let ModuleEntry { id: eid, module, visible: _ } = e;
                self.modules.insert(k, ModuleEntry { id: eid, module, visible });
                proof {
                    assert(self.ids() =~= old(self).ids());
                    assert(self.id_set() =~= old(self).id_set());
                    self.lemma_slot_unique(k as int);
                    assert forall|x: Seq<char>| #[trigger] self.has(x) implies self.module_of(x)
                        == old(self).module_of(x) && (x != id@ ==> self.visible_of(x)
                        == old(self).visible_of(x)) by {
                        old(self).lemma_slot(x);
                        old(self).lemma_slot_unique(old(self).slot(x));
                        self.lemma_slot_unique(old(self).slot(x));
                    }
                }
            },
            None => {},
        }
    }

    /// The number of registered modules that are shown.
    pub fn visible_count(&self) -> (r: usize)
        requires
            self.wf(),
        ensures
            r == self.visible_set().len(),
    {
        let ghost ids = self.ids();
        let mut c: usize = 0;
        let mut k: usize = 0;
        let ghost mut seen: Set<Seq<char>> = Set::empty();
        while k < self.modules.len()
            invariant
                k <= self.modules.len(),
                ids == self.ids(),
                self.wf(),
                seen == Set::new(|x: Seq<char>| exists|j: int| 0 <= j < k && ids[j] == x && self.modules@[j].visible),
                seen.finite(),
                c == seen.len(),
                c <= k,
            decreases self.modules.len() - k,
        {
            let ghost x = ids[k as int];
            proof {
                assert(!seen.contains(x)) by {
                    if seen.contains(x) {
                        let j = choose|j: int| 0 <= j < k && ids[j] == x && self.modules@[j].visible;
                        assert(ids[j] == ids[k as int]);
                    }
                }
            }
            if self.modules[k].visible {
                proof {
                    let next = Set::new(|y: Seq<char>| exists|j: int| 0 <= j < k + 1 && ids[j] == y && self.modules@[j].visible);
                    assert(next =~= seen.insert(x));
                    seen = next;
                }
                c = c + 1;
            } else {
                proof {
                    let next = Set::new(|y: Seq<char>| exists|j: int| 0 <= j < k + 1 && ids[j] == y && self.modules@[j].visible);
                    assert(next =~= seen);
                    seen = next;
                }
            }
            k = k + 1;
        }
        proof {
            assert forall|x: Seq<char>| seen.contains(x) <==> self.visible_set().contains(x) by {
                if seen.contains(x) {
                    let j = choose|j: int| 0 <= j < k && ids[j] == x && self.modules@[j].visible;
                    self.lemma_slot_unique(j);
                    assert(self.id_set().contains(x));
                }
                if self.visible_set().contains(x) {
                    assert(self.has(x));
                    self.lemma_slot(x);
                    let j = self.slot(x);
                    assert(exists|i: int| 0 <= i < k && ids[i] == x && self.modules@[i].visible);
                }
            }
            assert(seen =~= self.visible_set());
        }
        c
    }

    /// The id at position `n` of the order.
    pub fn nth_id(&self, n: usize) -> (r: Option<String>)
        ensures
            match r {
                Some(s) => n < self.order_ids().len() && s@ == self.order_ids()[n as int],
                None => n >= self.order_ids().len(),
            },
    {
        if n < self.order.len() {
            Some(self.order[n].clone())
        } else {
            None
        }
    }

    /// Exchanges two positions of the order when both exist.
    pub fn swap(&mut self, i: usize, j: usize)
        requires
            old(self).wf(),
        ensures
            final(self).wf(),
            final(self).same_entries(old(self)),
            final(self).order_ids() == (if i < old(self).order_ids().len() && j
                < old(self).order_ids().len() {
                swapped(old(self).order_ids(), i as int, j as int)
            } else {
                old(self).order_ids()
            }),
    {
        if i < self.order.len() && j < self.order.len() {
            self.swap_order(i, j);
        }
    }

    fn swap_order(&mut self, i: usize, j: usize)
        requires
            old(self).wf(),
            i < old(self).order_ids().len(),
            j < old(self).order_ids().len(),
        ensures
            final(self).wf(),
            final(self).same_entries(old(self)),
            final(self).order_ids() == swapped(old(self).order_ids(), i as int, j as int),
    {
        let a = self.order[i].clone();
        let b = self.order[j].clone();
        self.order.set(i, b);
        self.order.set(j, a);
        assert(self.order_ids() =~= swapped(old(self).order_ids(), i as int, j as int));
        assert(self.ids() =~= old(self).ids());
    }

    /// Moves the entry at `idx` one position up in the order.
    pub fn move_up(&mut self, idx: usize)
        requires
            old(self).wf(),
        ensures
            final(self).wf(),
            final(self).same_entries(old(self)),
            final(self).order_ids() == (if 0 < idx < old(self).order_ids().len() {
                swapped(old(self).order_ids(), idx as int, idx - 1)
            } else {
                old(self).order_ids()
            }),
    {
        if idx > 0 && idx < self.order.len() {
            self.swap_order(idx, idx - 1);
        }
    }

    /// Moves the entry at `idx` one position down in the order.
    pub fn move_down(&mut self, idx: usize)
        requires
            old(self).wf(),
            idx < usize::MAX,
        ensures
            final(self).wf(),
            final(self).same_entries(old(self)),
            final(self).order_ids() == (if idx + 1 < old(self).order_ids().len() {
                swapped(old(self).order_ids(), idx as int, idx + 1)
            } else {
                old(self).order_ids()
            }),
    {
        if idx + 1 < self.order.len() {
            self.swap_order(idx, idx + 1);
        }
    }

    /// The display order.
    pub fn order(&self) -> (r: &[String])
        ensures
            r@.map_values(|s: String| s@) == self.order_ids(),
    {
        self.order.as_slice()
    }

    /// Replaces the display order.
    pub fn set_order(&mut self, order: Vec<String>)
        requires
            old(self).wf(),
        ensures
            final(self).wf(),
            final(self).same_entries(old(self)),
            final(self).order_ids() == order@.map_values(|s: String| s@),
    {
        self.order = order;
        assert(self.ids() =~= old(self).ids());
    }

    /// `post` is `pre` with the module under `id` now `m`.
    pub open spec fn module_replaced(pre: &Self, post: &Self, id: Seq<char>, m: M) -> bool {
        &&& post.wf()
        &&& post.order_ids() == pre.order_ids()
        &&& post.id_set() == pre.id_set()
        &&& post.module_of(id) == m
        &&& forall|k: Seq<char>| k != id && #[trigger] post.has(k) ==> post.module_of(k) == pre.module_of(k)
        &&& forall|k: Seq<char>| #[trigger] post.visible_of(k) == pre.visible_of(k)
    }

    fn slot_mut(&mut self, k: usize) -> (r: &mut M)
        requires
            old(self).wf(),
            k < old(self).ids().len(),
        ensures
            *r == old(self).module_of(old(self).ids()[k as int]),
            Self::module_replaced(old(self), final(self), old(self).ids()[k as int], *final(r)),
    {
        proof {
            old(self).lemma_slot_unique(k as int);
        }
        proof {
            broadcast use lemma_entry_replaced;
        }
        &mut self.modules[k].module
    }

    /// The module at position `idx` of the order, with its id, when that id
    /// is registered.
    pub fn get_mut(&mut self, idx: usize) -> (r: Option<(String, &mut M)>)
        requires
            old(self).wf(),
        ensures
            final(self).wf(),
            match r {
                Some((id, m)) => {
                    &&& idx < old(self).order_ids().len()
                    &&& id@ == old(self).order_ids()[idx as int]
                    &&& old(self).has(id@)
                    &&& *m == old(self).module_of(id@)
                    &&& Self::module_replaced(old(self), final(self), id@, *final(m))
                },
                None => {
                    &&& !(idx < old(self).order_ids().len() && old(self).has(
                        old(self).order_ids()[idx as int],
                    ))
                    &&& *final(self) == *old(self)
                },
            },
    {
        if idx >= self.order.len() {
            return None;
        }
        let id = self.order[idx].clone();
        match self.find(id.as_str()) {
            Some(k) => Some((id, self.slot_mut(k))),
            None => None,
        }
    }

    /// The module registered under `id`, with its id.
    pub fn get_mut_by_id(&mut self, id: &str) -> (r: Option<(String, &mut M)>)
        requires
            old(self).wf(),
        ensures
            final(self).wf(),
            match r {
                Some((rid, m)) => {
                    &&& rid@ == id@
                    &&& old(self).has(id@)
                    &&& *m == old(self).module_of(id@)
                    &&& Self::module_replaced(old(self), final(self), id@, *final(m))
                },
                None => !old(self).has(id@) && *final(self) == *old(self),
            },
    {
        match self.find(id) {
            Some(k) => Some((id.to_owned(), self.slot_mut(k))),
            None => None,
        }
    }

    proof fn lemma_listed_step(&self, i: int)
        requires
            0 <= i < self.order_ids().len(),
        ensures
            self.order_ids().take(i + 1).filter(self.present()) == (if self.has(
                self.order_ids()[i],
            ) {
                self.order_ids().take(i).filter(self.present()).push(self.order_ids()[i])
            } else {
                self.order_ids().take(i).filter(self.present())
            }),
    {
        let s = self.order_ids();
        assert(s.take(i + 1) =~= s.take(i).push(s[i]));
        s.take(i).lemma_filter_push(s[i], self.present());
    }

    proof fn lemma_listed_split(&self, i: int)
        requires
            0 <= i <= self.order_ids().len(),
        ensures
            self.listed() == self.order_ids().take(i).filter(self.present()) + self.order_ids().skip(
                i,
            ).filter(self.present()),
    {
        let s = self.order_ids();
        assert(s =~= s.take(i) + s.skip(i));
        Seq::filter_distributes_over_add(s.take(i), s.skip(i), self.present());
    }

    /// The position in the order of the `pos`-th listed module.
    fn listed_slot(&self, pos: usize) -> (r: Option<usize>)
        ensures
            match r {
                Some(i) => pos < self.listed().len() && i < self.order_ids().len()
                    && self.order_ids()[i as int] == self.listed()[pos as int],
                None => pos >= self.listed().len(),
            },
    {
        let ghost s = self.order_ids();
        let ghost p = self.present();
        let mut count: usize = 0;
        let mut i: usize = 0;
        while i < self.order.len()
            invariant
                i <= self.order.len(),
                s == self.order_ids(),
                p == self.present(),
                count <= pos,
                count == s.take(i as int).filter(p).len(),
            decreases self.order.len() - i,
        {
            proof {
                self.lemma_listed_step(i as int);
            }
            if self.is_present(self.order[i].as_str()) {
                if count == pos {
                    proof {
                        self.lemma_listed_split(i + 1);
                        assert(s.take(i + 1).filter(p)[pos as int] == s[i as int]);
                    }
                    return Some(i);
                }
                count = count + 1;
            }
            i = i + 1;
        }
        proof {
            assert(s.take(i as int) =~= s);
        }
        None
    }

    fn is_present(&self, id: &str) -> (r: bool)
        ensures
            r == self.has(id@),
    {
        let mut k: usize = 0;
        while k < self.modules.len()
            invariant
                k <= self.modules.len(),
                forall|j: int| 0 <= j < k ==> self.ids()[j] != id@,
            decreases self.modules.len() - k,
        {
            if str_eq(self.modules[k].id.as_str(), id) {
                assert(self.ids()[k as int] == id@);
                return true;
            }
            k = k + 1;
        }
        false
    }

    /// How many modules the panel lists.
    pub fn listed_len(&self) -> (r: usize)
        ensures
            r == self.listed().len(),
    {
        let ghost s = self.order_ids();
        let ghost p = self.present();
        let mut count: usize = 0;
        let mut i: usize = 0;
        while i < self.order.len()
            invariant
                i <= self.order.len(),
                s == self.order_ids(),
                p == self.present(),
                count <= i,
                count == s.take(i as int).filter(p).len(),
            decreases self.order.len() - i,
        {
            proof {
                self.lemma_listed_step(i as int);
            }
            if self.is_present(self.order[i].as_str()) {
                count = count + 1;
            }
            i = i + 1;
        }
        proof {
            assert(s.take(i as int) =~= s);
        }
        count
    }

    /// The id of the `pos`-th listed module.
    pub fn listed_id(&self, pos: usize) -> (r: Option<String>)
        ensures
            match r {
                Some(id) => pos < self.listed().len() && id@ == self.listed()[pos as int],
                None => pos >= self.listed().len(),
            },
    {
        match self.listed_slot(pos) {
            Some(i) => Some(self.order[i].clone()),
            None => None,
        }
    }

    /// The `pos`-th listed module.
    pub fn module_at(&self, pos: usize) -> (r: Option<&M>)
        requires
            self.wf(),
        ensures
            match r {
                Some(m) => pos < self.listed().len() && *m == self.module_of(self.listed()[pos as int]),
                None => pos >= self.listed().len(),
            },
    {
        match self.listed_slot(pos) {
            Some(i) => {
                match self.find(self.order[i].as_str()) {
                    Some(k) => Some(&self.modules[k].module),
                    None => {
                        proof {
                            assert(self.listed().contains(self.listed()[pos as int]));
                        }
                        None
                    },
                }
            },
            None => None,
        }
    }

    /// The `pos`-th listed module, to change.
    pub fn module_at_mut(&mut self, pos: usize) -> (r: Option<&mut M>)
        requires
            old(self).wf(),
        ensures
            final(self).wf(),
            match r {
                Some(m) => {
                    &&& pos < old(self).listed().len()
                    &&& *m == old(self).module_of(old(self).listed()[pos as int])
                    &&& Self::module_replaced(
                        old(self),
                        final(self),
                        old(self).listed()[pos as int],
                        *final(m),
                    )
                },
                None => pos >= old(self).listed().len() && *final(self) == *old(self),
            },
    {
        match self.listed_slot(pos) {
            Some(i) => {
                let id = self.order[i].clone();
                match self.find(id.as_str()) {
                    Some(k) => Some(self.slot_mut(k)),
                    None => {
                        proof {
                            assert(self.listed().contains(self.listed()[pos as int]));
                        }
                        None
                    },
                }
            },
            None => None,
        }
    }

    /// The listed modules with their ids, in order.
    pub fn modules(&self) -> (r: Vec<(&String, &M)>)
        requires
            self.wf(),
        ensures
            r@.len() == self.listed().len(),
            forall|i: int|
                0 <= i < r@.len() ==> (#[trigger] r@[i]).0@ == self.listed()[i] && *r@[i].1
                    == self.module_of(self.listed()[i]),
    {
        let ghost s = self.order_ids();
        let ghost p = self.present();
        let mut r: Vec<(&String, &M)> = Vec::new();
        let mut i: usize = 0;
        while i < self.order.len()
            invariant
                i <= self.order.len(),
                self.wf(),
                s == self.order_ids(),
                p == self.present(),
                r@.len() == s.take(i as int).filter(p).len(),
                forall|j: int|
                    0 <= j < r@.len() ==> (#[trigger] r@[j]).0@ == s.take(i as int).filter(p)[j]
                        && *r@[j].1 == self.module_of(s.take(i as int).filter(p)[j]),
            decreases self.order.len() - i,
        {
            proof {
                self.lemma_listed_step(i as int);
            }
            match self.find(self.order[i].as_str()) {
                Some(k) => {
                    r.push((&self.order[i], &self.modules[k].module));
                },
                None => {},
            }
            i = i + 1;
        }
        proof {
            assert(s.take(i as int) =~= s);
        }
        r
    }
}

broadcast proof fn lemma_entry_replaced<M: PanelModule>(
pre: &ModuleRegistry<M>,
post: &ModuleRegistry<M>,
k: int,
m: M,
)
    requires
        pre.wf(),
        0 <= k < pre.ids().len(),
        post.order@ == pre.order@,
        post.modules@ == pre.modules@.update(
            k,
            ModuleEntry { id: pre.modules@[k].id, module: m, visible: pre.modules@[k].visible },
        ),
    ensures
        post.wf(),
        #[trigger] ModuleRegistry::<M>::module_replaced(pre, post, pre.ids()[k], m),
{
    assert(post.ids() =~= pre.ids());
    pre.lemma_slot_unique(k);
    post.lemma_slot_unique(k);
    assert(post.id_set() =~= pre.id_set());
    assert(post.order_ids() =~= pre.order_ids());
    assert forall|x: Seq<char>| #[trigger] post.has(x) implies (x != pre.ids()[k] ==> post.module_of(
        x,
    ) == pre.module_of(x)) && post.visible_of(x) == pre.visible_of(x) by {
        pre.lemma_slot(x);
        pre.lemma_slot_unique(pre.slot(x));
        post.lemma_slot_unique(pre.slot(x));
    }
    assert forall|x: Seq<char>| #[trigger] post.visible_of(x) == pre.visible_of(x) by {
        if post.has(x) {
            pre.lemma_slot(x);
            pre.lemma_slot_unique(pre.slot(x));
            post.lemma_slot_unique(pre.slot(x));
        }
    }
}



impl<M: PanelModule> Default for ModuleRegistry<M> {
    fn default() -> (r: Self)
        ensures
            r.wf(),
            r.id_set().is_empty(),
            r.order_ids() == Seq::<Seq<char>>::empty(),
    {
        Self::new()
    }
}

proof fn lemma_filter_agree(s: Seq<Seq<char>>, p: spec_fn(Seq<char>) -> bool, q: spec_fn(Seq<char>) -> bool)
    requires
        forall|i: int| 0 <= i < s.len() ==> p(#[trigger] s[i]) == q(s[i]),
    ensures
        s.filter(p) == s.filter(q),
    decreases s.len(),
{
    if s.len() > 0 {
        let t = s.drop_last();
        assert forall|i: int| 0 <= i < t.len() implies p(#[trigger] t[i]) == q(t[i]) by {
            assert(t[i] == s[i]);
        }
        lemma_filter_agree(t, p, q);
        assert(s == t.push(s.last()));
        t.lemma_filter_push(s.last(), p);
        t.lemma_filter_push(s.last(), q);
    }
}

/// Registering an id that the order does not name yet lists it last, after
/// the modules listed before.
pub proof fn lemma_listed_after_register<M: PanelModule>(
    pre: &ModuleRegistry<M>,
    post: &ModuleRegistry<M>,
    id: Seq<char>,
    m: M,
)
    requires
        ModuleRegistry::<M>::registered(pre, post, id, m),
        !pre.order_ids().contains(id),
    ensures
        post.listed() == pre.listed().push(id),
{
    let o = pre.order_ids();
    assert forall|i: int| 0 <= i < o.len() implies (pre.present())(#[trigger] o[i]) == (post.present())(
        o[i],
    ) by {
        assert(o[i] != id);
    }
    lemma_filter_agree(o, pre.present(), post.present());
    o.lemma_filter_push(id, post.present());
    assert(post.has(id));
}

/// Exchanging the same two positions twice gives back the order.
pub proof fn law_swap_twice<A>(s: Seq<A>, i: int, j: int)
    requires
        0 <= i < s.len(),
        0 <= j < s.len(),
    ensures
        swapped(swapped(s, i, j), i, j) == s,
{
    assert(swapped(swapped(s, i, j), i, j) =~= s);
}

/// Moving an entry up and then moving it back down gives back the order.
pub proof fn law_move_up_then_down<A>(s: Seq<A>, idx: int)
    requires
        0 < idx < s.len(),
    ensures
        swapped(swapped(s, idx, idx - 1), idx - 1, idx) == s,
{
    assert(swapped(swapped(s, idx, idx - 1), idx - 1, idx) =~= s);
}

/// Reordering keeps every id, as often as it occurred.
pub proof fn law_swap_is_permutation<A>(s: Seq<A>, i: int, j: int)
    requires
        0 <= i < s.len(),
        0 <= j < s.len(),
    ensures
        swapped(s, i, j).to_multiset() == s.to_multiset(),
{
    let t = s.update(i, s[j]);
    vstd::seq_lib::to_multiset_update(s, i, s[j]);
    vstd::seq_lib::to_multiset_update(t, j, s[i]);
    assert(s.to_multiset().contains(s[i]));
    assert(t[j] == s[j] || i == j);
    if i != j {
        assert(s.to_multiset().insert(s[j]).remove(s[i]).contains(s[j]));
    }
    assert(swapped(s, i, j).to_multiset() =~= s.to_multiset());
}

/// A module just registered is registered, shown, and is the module given;
/// the number of modules grows by one exactly when its id is new.
pub proof fn law_register_then_lookup<M: PanelModule>(
    pre: &ModuleRegistry<M>,
    post: &ModuleRegistry<M>,
    id: Seq<char>,
    m: M,
)
    requires
        pre.wf(),
        ModuleRegistry::<M>::registered(pre, post, id, m),
    ensures
        post.has(id),
        post.visible_of(id),
        post.module_of(id) == m,
        post.id_set().len() == pre.id_set().len() + (if pre.has(id) { 0int } else { 1int }),
{
    assert(post.id_set().contains(id));
    pre.ids().unique_seq_to_set();
    if pre.has(id) {
        assert(pre.id_set().contains(id));
        assert(pre.id_set().insert(id) =~= pre.id_set());
    }
}

/// After setting a registered module's switch, it reads back as set.
pub proof fn law_set_visible_then_read<M: PanelModule>(
    pre: &ModuleRegistry<M>,
    post: &ModuleRegistry<M>,
    id: Seq<char>,
    v: bool,
)
    requires
        ModuleRegistry::<M>::visibility_set(pre, post, id, v),
        pre.has(id),
    ensures
        post.visible_of(id) == v,
{
}

/// No more modules are shown than are registered.
pub proof fn law_visible_count_bounded<M: PanelModule>(r: &ModuleRegistry<M>)
    requires
        r.wf(),
    ensures
        r.visible_set().len() <= r.id_set().len(),
{
    r.ids().unique_seq_to_set();
    vstd::set_lib::lemma_len_subset(r.visible_set(), r.id_set());
}

} // verus!
