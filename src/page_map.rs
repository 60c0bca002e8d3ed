use vstd::prelude::*;
use crate::page::{PageEntry, PageView, PageContent, strs_view, opt_str_view};

verus! {

/// Inserts `x` into `list` just after the first occurrence of `anchor`, or at
/// the end when `anchor` does not occur.
pub open spec fn inserted_after(list: Seq<Seq<char>>, anchor: Seq<char>, x: Seq<char>) -> Seq<
    Seq<char>,
> {
    if list.contains(anchor) {
        list.insert(first_position(list, anchor) + 1, x)
    } else {
        list.push(x)
    }
}

/// The index of the first occurrence of `x` in `s`.
pub open spec fn first_position(s: Seq<Seq<char>>, x: Seq<char>) -> int
    recommends
        s.contains(x),
{
    choose|i: int| 0 <= i < s.len() && s[i] == x && forall|j: int| 0 <= j < i ==> s[j] != x
}

/// Where a new id goes in an ordered list: after `after` when one is named,
/// else at the front.
pub open spec fn placed(list: Seq<Seq<char>>, after: Option<Seq<char>>, x: Seq<char>) -> Seq<
    Seq<char>,
> {
    match after {
        Some(a) => inserted_after(list, a, x),
        None => seq![x] + list,
    }
}

/// A page with `x` placed among its children.
pub open spec fn with_child_placed(p: PageView, after: Option<Seq<char>>, x: Seq<char>) -> PageView {
    PageView { sub_pages: placed(p.sub_pages, after, x), ..p }
}

/// A list that holds `x` has a first occurrence of it.
pub proof fn lemma_first_position_exists(s: Seq<Seq<char>>, x: Seq<char>)
    requires
        s.contains(x),
    ensures
        0 <= first_position(s, x) < s.len(),
        s[first_position(s, x)] == x,
        forall|j: int| 0 <= j < first_position(s, x) ==> s[j] != x,
    decreases s.len(),
{
    let k = choose|k: int| 0 <= k < s.len() && s[k] == x;
    if exists|j: int| 0 <= j < k && s[j] == x {
        let t = s.subrange(0, k);
        let j = choose|j: int| 0 <= j < k && s[j] == x;
        assert(t[j] == x);
        lemma_first_position_exists(t, x);
        let f = first_position(t, x);
        assert(s[f] == x && forall|j2: int| 0 <= j2 < f ==> s[j2] != x ==> t[j2] != x);
        assert(forall|j2: int| 0 <= j2 < f ==> s[j2] == t[j2]);
        lemma_first_position(s, x, f);
    } else {
        lemma_first_position(s, x, k);
    }
}

/// The position at which `placed` puts the new id.
pub proof fn lemma_first_position(s: Seq<Seq<char>>, x: Seq<char>, i: int)
    requires
        0 <= i < s.len(),
        s[i] == x,
        forall|j: int| 0 <= j < i ==> s[j] != x,
    ensures
        s.contains(x),
        first_position(s, x) == i,
{
    assert(s[i] == x);
    let k = first_position(s, x);
    if k < i {
        assert(s[k] != x);
    } else if k > i {
        assert(s[i] != x);
    }
}

/// Finds the first position of `x` in `list`.
pub fn position_of(list: &Vec<String>, x: &String) -> (r: Option<usize>)
    ensures
        match r {
            Some(i) => i < list@.len() && strs_view(list@).contains(x@) && first_position(
                strs_view(list@),
                x@,
            ) == i,
            None => !strs_view(list@).contains(x@),
        },
{
    let ghost s = strs_view(list@);
    let mut i: usize = 0;
    while i < list.len()
        invariant
            i <= list@.len(),
            s == strs_view(list@),
            forall|j: int| 0 <= j < i ==> s[j] != x@,
        decreases list@.len() - i,
    {
        if list[i] == *x {
            proof {
                lemma_first_position(s, x@, i as int);
            }
            return Some(i);
        }
        i = i + 1;
    }
    assert(!s.contains(x@)) by {
        if s.contains(x@) {
            let k = choose|k: int| 0 <= k < s.len() && s[k] == x@;
            assert(s[k] != x@);
        }
    }
    None
}

/// Places `x` in `list` as `placed` says.
pub fn place_in(list: &mut Vec<String>, after: &Option<String>, x: String)
    ensures
        strs_view(final(list)@) == placed(
            strs_view(old(list)@),
            opt_str_view(*after),
            x@,
        ),
{
    let ghost s = strs_view(old(list)@);
    let ghost xv = x@;
    let ghost v0 = old(list)@;
    match after {
        Some(a) => {
            match position_of(list, a) {
                Some(i) => {
                    let n = list.len();
                    assert(i < n);
                    list.insert(i + 1, x);
                    proof {
                        lemma_strs_insert(v0, i as int + 1, x);
                    }
                },
                None => {
                    list.push(x);
                    proof {
                        lemma_strs_insert(v0, v0.len() as int, x);
                        assert(v0.insert(v0.len() as int, x) =~= v0.push(x));
                        assert(s.insert(s.len() as int, xv) =~= s.push(xv));
                    }
                },
            }
        },
        None => {
            list.insert(0, x);
            proof {
                lemma_strs_insert(v0, 0, x);
                assert(s.insert(0, xv) =~= seq![xv] + s);
            }
        },
    }
}

proof fn lemma_strs_insert(v: Seq<String>, i: int, x: String)
    requires
        0 <= i <= v.len(),
    ensures
        strs_view(v.insert(i, x)) == strs_view(v).insert(i, x@),
{
    assert(strs_view(v.insert(i, x)) =~= strs_view(v).insert(i, x@));
}

/// An empty page, held in a slot while the page stored there is edited.
fn blank_entry() -> PageEntry {
    PageEntry {
        id: String::new(),
        title: String::new(),
        content: PageContent { doctype: String::new(), body: String::new() },
        created_at: String::new(),
        updated_at: String::new(),
        pinned: false,
        starred: false,
        tags: None,
        parent_id: None,
        sub_pages: Vec::new(),
        is_in_trash: false,
    }
}

spec fn store_wf(entries: Seq<PageEntry>, contents: Map<Seq<char>, PageView>) -> bool {
    &&& forall|i: int, j: int|
        0 <= i < j < entries.len() ==> entries[i].id@ != entries[j].id@
    &&& forall|i: int|
        0 <= i < entries.len() ==> #[trigger] contents.contains_key(entries[i].id@)
            && contents[entries[i].id@] == entries[i]@
    &&& forall|k: Seq<char>|
        #[trigger] contents.contains_key(k) ==> exists|i: int|
            0 <= i < entries.len() && entries[i].id@ == k
}

proof fn lemma_store_update(
    entries: Seq<PageEntry>,
    contents: Map<Seq<char>, PageView>,
    i: int,
    e: PageEntry,
)
    requires
        store_wf(entries, contents),
        0 <= i < entries.len(),
        e.id@ == entries[i].id@,
    ensures
        store_wf(entries.update(i, e), contents.insert(e.id@, e@)),
{
    let ne = entries.update(i, e);
    let nc = contents.insert(e.id@, e@);
    assert forall|j: int| 0 <= j < ne.len() implies #[trigger] nc.contains_key(ne[j].id@)
        && nc[ne[j].id@] == ne[j]@ by {
        if j != i {
            assert(contents.contains_key(entries[j].id@));
        }
    }
    assert forall|k: Seq<char>| #[trigger] nc.contains_key(k) implies exists|j: int|
        0 <= j < ne.len() && ne[j].id@ == k by {
        if k == e.id@ {
            assert(ne[i].id@ == k);
        } else {
            let j = choose|j: int| 0 <= j < entries.len() && entries[j].id@ == k;
            assert(ne[j].id@ == k);
        }
    }
}

proof fn lemma_store_push(entries: Seq<PageEntry>, contents: Map<Seq<char>, PageView>, e: PageEntry)
    requires
        store_wf(entries, contents),
        !contents.contains_key(e.id@),
    ensures
        store_wf(entries.push(e), contents.insert(e.id@, e@)),
{
    let ne = entries.push(e);
    let nc = contents.insert(e.id@, e@);
    assert forall|i: int, j: int| 0 <= i < j < ne.len() implies ne[i].id@ != ne[j].id@ by {
        if j == entries.len() {
            assert(contents.contains_key(entries[i].id@));
        }
    }
    assert forall|j: int| 0 <= j < ne.len() implies #[trigger] nc.contains_key(ne[j].id@)
        && nc[ne[j].id@] == ne[j]@ by {
        if j < entries.len() {
            assert(contents.contains_key(entries[j].id@));
        }
    }
    assert forall|k: Seq<char>| #[trigger] nc.contains_key(k) implies exists|j: int|
        0 <= j < ne.len() && ne[j].id@ == k by {
        if k == e.id@ {
            assert(ne[entries.len() as int].id@ == k);
        } else {
            let j = choose|j: int| 0 <= j < entries.len() && entries[j].id@ == k;
            assert(ne[j].id@ == k);
        }
    }
}

/// The store that owns every page of a notebook, keyed by page id.
pub struct PageMap {
    entries: Vec<PageEntry>,
    contents: Ghost<Map<Seq<char>, PageView>>,
}

impl View for PageMap {
    type V = Map<Seq<char>, PageView>;

    closed spec fn view(&self) -> Map<Seq<char>, PageView> {
        self.contents@
    }
}

impl PageMap {
    /// Ids are unique, and the ghost contents mirror the stored pages.
    pub closed spec fn wf(&self) -> bool {
        store_wf(self.entries@, self.contents@)
    }

    /// The number of pages held; spec side.
    pub closed spec fn count(&self) -> nat {
        self.entries@.len()
    }

    /// An empty store.
    pub fn new() -> (r: PageMap)
        ensures
            r.wf(),
            r@ == Map::<Seq<char>, PageView>::empty(),
            r.count() == 0,
    {
        PageMap { entries: Vec::new(), contents: Ghost(Map::empty()) }
    }

    /// The number of pages held.
    pub fn len(&self) -> (r: usize)
        requires
            self.wf(),
        ensures
            r == self.count(),
    {
        self.entries.len()
    }

    fn index_of(&self, id: &String) -> (r: Option<usize>)
        requires
            self.wf(),
        ensures
            match r {
                Some(i) => i < self.entries@.len() && self.entries@[i as int].id@ == id@
                    && self@.contains_key(id@),
                None => !self@.contains_key(id@),
            },
    {
        let mut i: usize = 0;
        while i < self.entries.len()
            invariant
                i <= self.entries@.len(),
                self.wf(),
                forall|j: int| 0 <= j < i ==> self.entries@[j].id@ != id@,
            decreases self.entries@.len() - i,
        {
            if self.entries[i].id == *id {
                assert(self.contents@.contains_key(self.entries@[i as int].id@));
                return Some(i);
            }
            i = i + 1;
        }
        None
    }

    /// Whether a page with this id is held.
    pub fn contains(&self, id: &String) -> (r: bool)
        requires
            self.wf(),
        ensures
            r == self@.contains_key(id@),
    {
        self.index_of(id).is_some()
    }

    /// The page with this id, if held.
    pub fn get(&self, id: &String) -> (r: Option<&PageEntry>)
        requires
            self.wf(),
        ensures
            match r {
                Some(e) => self@.contains_key(id@) && e@ == self@[id@] && e.id@ == id@,
                None => !self@.contains_key(id@),
            },
    {
        match self.index_of(id) {
            Some(i) => {
                assert(self.contents@.contains_key(self.entries@[i as int].id@));
                Some(&self.entries[i])
            },
            None => None,
        }
    }

    /// Stores `e` under its id, replacing a page of the same id.
    pub fn insert(&mut self, e: PageEntry)
        requires
            old(self).wf(),
        ensures
            final(self).wf(),
            final(self)@ == old(self)@.insert(e.id@, e@),
            old(self)@.contains_key(e.id@) ==> final(self).count() == old(self).count(),
            !old(self)@.contains_key(e.id@) ==> final(self).count() == old(self).count() + 1,
    {
        let ghost k = e.id@;
        let ghost ev = e@;
        let ghost old_entries = self.entries@;
        match self.index_of(&e.id) {
            Some(i) => {
                proof {
                    lemma_store_update(old_entries, self.contents@, i as int, e);
                }
                self.entries.set(i, e);
                self.contents = Ghost(self.contents@.insert(k, ev));
            },
            None => {
                proof {
                    lemma_store_push(old_entries, self.contents@, e);
                }
                self.entries.push(e);
                self.contents = Ghost(self.contents@.insert(k, ev));
            },
        }
    }

    /// Places `x` among the children of page `parent` as `placed` says; no
    /// change when no such page is held.
    pub fn place_child(&mut self, parent: &String, after: &Option<String>, x: String)
        requires
            old(self).wf(),
        ensures
            final(self).wf(),
            old(self)@.contains_key(parent@) ==> final(self)@ == old(self)@.insert(
                parent@,
                with_child_placed(
                    old(self)@[parent@],
                    opt_str_view(*after),
                    x@,
                ),
            ),
            !old(self)@.contains_key(parent@) ==> final(self)@ == old(self)@,
            final(self).count() == old(self).count(),
    {
        let ghost old_entries = self.entries@;
        match self.index_of(parent) {
            Some(i) => {
                let mut e = blank_entry();
                self.entries.set_and_swap(i, &mut e);
                let ghost pv = e@;
                assert(pv == self.contents@[parent@]);
                place_in(&mut e.sub_pages, after, x);
                let ghost nv = e@;
                proof {
                    assert(e.id@ == old_entries[i as int].id@);
                    lemma_store_update(old_entries, self.contents@, i as int, e);
                }
                self.entries.set(i, e);
                assert(self.entries@ =~= old_entries.update(i as int, e));
                self.contents = Ghost(self.contents@.insert(parent@, nv));
                assert(nv =~= with_child_placed(
                    pv,
                    opt_str_view(*after),
                    x@,
                ));
            },
            None => {},
        }
    }

    /// Replaces the body text of page `id`; returns whether such a page is held.
    pub fn set_body(&mut self, id: &String, body: String) -> (r: bool)
        requires
            old(self).wf(),
        ensures
            final(self).wf(),
            r == old(self)@.contains_key(id@),
            r ==> final(self)@ == old(self)@.insert(
                id@,
                PageView { body: body@, ..old(self)@[id@] },
            ),
            !r ==> final(self)@ == old(self)@,
            final(self).count() == old(self).count(),
    {
        let ghost old_entries = self.entries@;
        match self.index_of(id) {
            Some(i) => {
                let mut e = blank_entry();
                self.entries.set_and_swap(i, &mut e);
                let ghost pv = e@;
                assert(pv == self.contents@[id@]);
                e.content.body = body;
                let ghost nv = e@;
                proof {
                    assert(e.id@ == old_entries[i as int].id@);
                    lemma_store_update(old_entries, self.contents@, i as int, e);
                }
                self.entries.set(i, e);
                assert(self.entries@ =~= old_entries.update(i as int, e));
                self.contents = Ghost(self.contents@.insert(id@, nv));
                assert(nv =~= PageView { body: body@, ..pv });
                true
            },
            None => false,
        }
    }

    /// The pages held, in storage order; each is the one stored under its id.
    pub fn entries(&self) -> (r: &Vec<PageEntry>)
        requires
            self.wf(),
        ensures
            r@.len() == self.count(),
            forall|i: int|
                0 <= i < r@.len() ==> self@.contains_key(#[trigger] r@[i].id@) && self@[r@[i].id@]
                    == r@[i]@,
            forall|k: Seq<char>|
                #[trigger] self@.contains_key(k) ==> exists|i: int| 0 <= i < r@.len() && r@[i].id@ == k,
    {
        &self.entries
    }
}

} // verus!
