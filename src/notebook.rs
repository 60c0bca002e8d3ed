use vstd::prelude::*;
use crate::clock::{fresh_id, now_rfc3339};
use crate::error::ErrorCode;
use crate::page::{PageEntry, PageView, strs_view, opt_str_view, copy_opt_str, fresh_page};
use crate::page_map::{
    PageMap, placed, with_child_placed, place_in, first_position, lemma_first_position_exists,
};

verus! {

/// A whole notebook: descriptive fields, the ordered root pages, and the
/// store that owns every page.
pub struct NebulaNotebook {
    pub id: String,
    pub name: String,
    pub thumbnail: Option<String>,
    pub created_at: String,
    pub pages: Vec<String>,
    pub page_map: PageMap,
    pub description: Option<String>,
    pub author: Option<String>,
    pub assets: Vec<String>,
    pub last_accessed_at: String,
    pub is_in_trash: bool,
}

/// Where `add_page` puts a new id: in the root list, among the children of a
/// page, or in no list at all.
pub enum Slot {
    Root,
    Child(Seq<char>),
    Nowhere,
}

/// The list that receives a new page, given the requested parent and anchor.
pub open spec fn slot(
    m: Map<Seq<char>, PageView>,
    parent: Option<Seq<char>>,
    after: Option<Seq<char>>,
) -> Slot {
    match parent {
        Some(p) => if m.contains_key(p) {
            Slot::Child(p)
        } else {
            Slot::Nowhere
        },
        None => match after {
            Some(a) => if !m.contains_key(a) {
                Slot::Nowhere
            } else {
                match m[a].parent_id {
                    Some(q) => if m.contains_key(q) {
                        Slot::Child(q)
                    } else {
                        Slot::Nowhere
                    },
                    None => Slot::Root,
                }
            },
            None => Slot::Root,
        },
    }
}

/// The page store after a new page `e` with id `n` is added at `s`.
pub open spec fn map_with_page(
    m: Map<Seq<char>, PageView>,
    s: Slot,
    after: Option<Seq<char>>,
    n: Seq<char>,
    e: PageView,
) -> Map<Seq<char>, PageView> {
    match s {
        Slot::Child(q) => m.insert(q, with_child_placed(m[q], after, n)).insert(n, e),
        _ => m.insert(n, e),
    }
}

/// The root list after a new id `n` is added at `s`.
pub open spec fn roots_with_page(
    roots: Seq<Seq<char>>,
    s: Slot,
    after: Option<Seq<char>>,
    n: Seq<char>,
) -> Seq<Seq<char>> {
    match s {
        Slot::Root => placed(roots, after, n),
        _ => roots,
    }
}

/// Every listed id names a stored page, and no id occurs twice in all the
/// ordering lists together (the root list and every child list).
pub open spec fn tree_ok(roots: Seq<Seq<char>>, m: Map<Seq<char>, PageView>) -> bool {
    &&& forall|x: Seq<char>| #[trigger] roots.contains(x) ==> m.contains_key(x)
    &&& forall|p: Seq<char>, x: Seq<char>|
        m.contains_key(p) && #[trigger] m[p].sub_pages.contains(x) ==> m.contains_key(x)
    &&& roots.no_duplicates()
    &&& forall|p: Seq<char>| #[trigger] m.contains_key(p) ==> m[p].sub_pages.no_duplicates()
    &&& forall|p: Seq<char>, x: Seq<char>|
        m.contains_key(p) && #[trigger] m[p].sub_pages.contains(x) ==> !roots.contains(x)
    &&& forall|p: Seq<char>, q: Seq<char>, x: Seq<char>|
        m.contains_key(p) && m.contains_key(q) && p != q && #[trigger] m[p].sub_pages.contains(x)
            ==> !#[trigger] m[q].sub_pages.contains(x)
}

/// The ancestors of page `id`, nearest first, following at most `fuel` parent
/// links; empty when `id` is not stored.
pub open spec fn ancestors(m: Map<Seq<char>, PageView>, id: Seq<char>, fuel: nat) -> Seq<Seq<char>>
    decreases fuel,
{
    if fuel == 0 || !m.contains_key(id) {
        seq![]
    } else {
        match m[id].parent_id {
            Some(p) => if m.contains_key(p) {
                seq![p] + ancestors(m, p, (fuel - 1) as nat)
            } else {
                seq![]
            },
            None => seq![],
        }
    }
}

/// Inserting a fresh id into a list adds exactly that id and keeps the list
/// free of duplicates.
proof fn lemma_insert_fresh(list: Seq<Seq<char>>, i: int, x: Seq<char>)
    requires
        !list.contains(x),
        0 <= i <= list.len(),
    ensures
        forall|y: Seq<char>| #[trigger] list.insert(i, x).contains(y) <==> list.contains(y) || y == x,
        list.no_duplicates() ==> list.insert(i, x).no_duplicates(),
{
    let r = list.insert(i, x);
    assert forall|y: Seq<char>| #[trigger] r.contains(y) <==> list.contains(y) || y == x by {
        if r.contains(y) {
            let k = choose|k: int| 0 <= k < r.len() && r[k] == y;
            if k < i {
                assert(list[k] == y);
            } else if k > i {
                assert(list[k - 1] == y);
            }
        }
        if list.contains(y) {
            let k = choose|k: int| 0 <= k < list.len() && list[k] == y;
            if k < i {
                assert(r[k] == y);
            } else {
                assert(r[k + 1] == y);
            }
        }
        if y == x {
            assert(r[i] == y);
        }
    }
    if list.no_duplicates() {
        assert forall|a: int, b: int| 0 <= a < r.len() && 0 <= b < r.len() && a != b implies r[a]
            != r[b] by {
            if a == i {
                if b < i {
                    assert(r[b] == list[b]);
                } else {
                    assert(r[b] == list[b - 1]);
                }
            } else if b == i {
                if a < i {
                    assert(r[a] == list[a]);
                } else {
                    assert(r[a] == list[a - 1]);
                }
            } else {
                let a2 = if a < i { a } else { a - 1 };
                let b2 = if b < i { b } else { b - 1 };
                assert(r[a] == list[a2] && r[b] == list[b2]);
            }
        }
    }
}

/// Placing a fresh id adds exactly that id to a list and keeps it free of
/// duplicates.
proof fn lemma_placed(list: Seq<Seq<char>>, after: Option<Seq<char>>, x: Seq<char>)
    requires
        !list.contains(x),
    ensures
        forall|y: Seq<char>| #[trigger] placed(list, after, x).contains(y) <==> list.contains(y) || y == x,
        list.no_duplicates() ==> placed(list, after, x).no_duplicates(),
{
    match after {
        Some(a) => if list.contains(a) {
            lemma_first_position_exists(list, a);
            lemma_insert_fresh(list, first_position(list, a) + 1, x);
        } else {
            assert(list.push(x) =~= list.insert(list.len() as int, x));
            lemma_insert_fresh(list, list.len() as int, x);
        },
        None => {
            assert(seq![x] + list =~= list.insert(0, x));
            lemma_insert_fresh(list, 0, x);
        },
    }
}

/// Adding a page under a fresh id keeps every listed id stored and every id
/// in at most one list, once.
pub proof fn lemma_add_keeps_tree(
    roots: Seq<Seq<char>>,
    m: Map<Seq<char>, PageView>,
    parent: Option<Seq<char>>,
    after: Option<Seq<char>>,
    n: Seq<char>,
    title: Seq<char>,
    now: Seq<char>,
)
    requires
        tree_ok(roots, m),
        !m.contains_key(n),
    ensures
        tree_ok(
            roots_with_page(roots, slot(m, parent, after), after, n),
            map_with_page(m, slot(m, parent, after), after, n, fresh_page(n, title, parent, now)),
        ),
{
    let s = slot(m, parent, after);
    let e = fresh_page(n, title, parent, now);
    let r2 = roots_with_page(roots, s, after, n);
    let m2 = map_with_page(m, s, after, n, e);
    assert(!roots.contains(n));
    assert(forall|p: Seq<char>| m.contains_key(p) ==> !#[trigger] m[p].sub_pages.contains(n));
    lemma_placed(roots, after, n);
    assert(e.sub_pages =~= Seq::<Seq<char>>::empty());
    match s {
        Slot::Child(q) => {
            lemma_placed(m[q].sub_pages, after, n);
            assert(r2 == roots);
            assert(forall|p: Seq<char>| #[trigger] m2.contains_key(p) ==> m.contains_key(p) || p == n);
            assert forall|p: Seq<char>, x: Seq<char>|
                m2.contains_key(p) && #[trigger] m2[p].sub_pages.contains(x) implies m2.contains_key(x)
                && !r2.contains(x) by {
                if p != n && p != q {
                    assert(m2[p] == m[p]);
                }
            }
            assert forall|p: Seq<char>, p2: Seq<char>, x: Seq<char>|
                m2.contains_key(p) && m2.contains_key(p2) && p != p2 && #[trigger] m2[p].sub_pages.contains(
                    x,
                ) implies !#[trigger] m2[p2].sub_pages.contains(x) by {
                if p != n && p != q {
                    assert(m2[p] == m[p]);
                }
                if p2 != n && p2 != q {
                    assert(m2[p2] == m[p2]);
                }
            }
            assert forall|p: Seq<char>| #[trigger] m2.contains_key(p) implies m2[p].sub_pages.no_duplicates() by {
                if p != n && p != q {
                    assert(m2[p] == m[p]);
                }
            }
        },
        _ => {
            assert(forall|p: Seq<char>| #[trigger] m2.contains_key(p) ==> m.contains_key(p) || p == n);
            assert forall|p: Seq<char>, x: Seq<char>|
                m2.contains_key(p) && #[trigger] m2[p].sub_pages.contains(x) implies m2.contains_key(x)
                && !r2.contains(x) by {
                if p != n {
                    assert(m2[p] == m[p]);
                }
            }
            assert forall|p: Seq<char>, p2: Seq<char>, x: Seq<char>|
                m2.contains_key(p) && m2.contains_key(p2) && p != p2 && #[trigger] m2[p].sub_pages.contains(
                    x,
                ) implies !#[trigger] m2[p2].sub_pages.contains(x) by {
                if p != n {
                    assert(m2[p] == m[p]);
                }
                if p2 != n {
                    assert(m2[p2] == m[p2]);
                }
            }
            assert forall|p: Seq<char>| #[trigger] m2.contains_key(p) implies m2[p].sub_pages.no_duplicates() by {
                if p != n {
                    assert(m2[p] == m[p]);
                }
            }
        },
    }
}

/// `after` is `before` with a page of id `n` added as `add_page` places it:
/// created with `title`, `parent` and time `now`.
pub open spec fn page_added(
    before: NebulaNotebook,
    after_nb: NebulaNotebook,
    n: Seq<char>,
    now: Seq<char>,
    title: Seq<char>,
    parent: Option<Seq<char>>,
    after: Option<Seq<char>>,
) -> bool {
    let m = before.page_map@;
    let s = slot(m, parent, after);
    &&& !m.contains_key(n)
    &&& after_nb.page_map@ == map_with_page(m, s, after, n, fresh_page(n, title, parent, now))
    &&& strs_view(after_nb.pages@) == roots_with_page(strs_view(before.pages@), s, after, n)
    &&& after_nb.page_map.count() == before.page_map.count() + 1
}

/// The fields that page operations leave alone are unchanged.
pub open spec fn same_header(a: NebulaNotebook, b: NebulaNotebook) -> bool {
    &&& a.id == b.id
    &&& a.name == b.name
    &&& a.thumbnail == b.thumbnail
    &&& a.created_at == b.created_at
    &&& a.description == b.description
    &&& a.author == b.author
    &&& a.assets == b.assets
    &&& a.last_accessed_at == b.last_accessed_at
    &&& a.is_in_trash == b.is_in_trash
}

/// A page added under a parent that is not stored is kept in the store but
/// lands in no ordering list.
pub proof fn lemma_orphan_unlisted(
    before: NebulaNotebook,
    after_nb: NebulaNotebook,
    n: Seq<char>,
    now: Seq<char>,
    title: Seq<char>,
    parent: Seq<char>,
    after: Option<Seq<char>>,
)
    requires
        before.tree(),
        !before.page_map@.contains_key(parent),
        page_added(before, after_nb, n, now, title, Some(parent), after),
    ensures
        after_nb.page_map@.contains_key(n),
        !strs_view(after_nb.pages@).contains(n),
        forall|q: Seq<char>|
            #[trigger] after_nb.page_map@.contains_key(q) ==> !after_nb.page_map@[q].sub_pages.contains(
                n,
            ),
{
    let m = before.page_map@;
    let m2 = after_nb.page_map@;
    assert(fresh_page(n, title, Some(parent), now).sub_pages =~= Seq::<Seq<char>>::empty());
    assert forall|q: Seq<char>| #[trigger] m2.contains_key(q) implies !m2[q].sub_pages.contains(n) by {
        if q != n {
            assert(m2[q] == m[q]);
            assert(m.contains_key(q));
        }
    }
}

impl NebulaNotebook {
    /// The notebook is well formed: its page store keeps its invariant.
    pub open spec fn wf(&self) -> bool {
        self.page_map.wf()
    }

    /// The ordered root ids and the page store satisfy `tree_ok`.
    pub open spec fn tree(&self) -> bool {
        tree_ok(strs_view(self.pages@), self.page_map@)
    }

    /// An empty notebook with a random id, created now.
    pub fn new(name: String) -> (r: NebulaNotebook)
        ensures
            r.wf(),
            r.tree(),
            r.name == name,
            r.page_map@ == Map::<Seq<char>, PageView>::empty(),
            r.pages@.len() == 0,
            r.assets@.len() == 0,
            r.thumbnail is None,
            r.description is None,
            r.author is None,
            !r.is_in_trash,
            r.last_accessed_at@ == r.created_at@,
    {
        let id = fresh_id();
        let created_at = now_rfc3339();
        let last_accessed_at = created_at.clone();
        let r = NebulaNotebook {
            id,
            name,
            thumbnail: None,
            created_at,
            pages: Vec::new(),
            page_map: PageMap::new(),
            description: None,
            author: None,
            assets: Vec::new(),
            last_accessed_at,
            is_in_trash: false,
        };
        assert(strs_view(r.pages@) =~= Seq::<Seq<char>>::empty());
        r
    }

    /// A copy of the page with this id, or `NotFoundError`.
    pub fn get_page(&self, page_id: &String) -> (r: Result<PageEntry, ErrorCode>)
        requires
            self.wf(),
        ensures
            match r {
                Ok(e) => self.page_map@.contains_key(page_id@) && e@ == self.page_map@[page_id@],
                Err(c) => !self.page_map@.contains_key(page_id@) && c == ErrorCode::NotFoundError,
            },
    {
        match self.page_map.get(page_id) {
            Some(e) => Ok(e.copy()),
            None => Err(ErrorCode::NotFoundError),
        }
    }

    /// The ancestors of a page, nearest first and root last, that a view
    /// must expand to reveal it; empty for an unknown id. At most as many
    /// links are followed as there are pages, which bounds the walk should
    /// the parent links ever form a cycle.
    pub fn pages_to_expand(&self, page_id: &String) -> (r: Vec<String>)
        requires
            self.wf(),
        ensures
            strs_view(r@) == ancestors(self.page_map@, page_id@, self.page_map.count()),
    {
        let ghost m = self.page_map@;
        let mut r: Vec<String> = Vec::new();
        let mut cur = page_id.clone();
        let mut fuel = self.page_map.len();
        while fuel > 0
            invariant
                self.wf(),
                m == self.page_map@,
                strs_view(r@) + ancestors(m, cur@, fuel as nat) == ancestors(
                    m,
                    page_id@,
                    self.page_map.count(),
                ),
            decreases fuel,
        {
            let parent = match self.page_map.get(&cur) {
                Some(e) => copy_opt_str(&e.parent_id),
                None => None,
            };
            match parent {
                Some(p) => {
                    if self.page_map.contains(&p) {
                        let ghost before = strs_view(r@);
                        r.push(p.clone());
                        assert(strs_view(r@) =~= before.push(p@));
                        assert(seq![p@] + ancestors(m, p@, (fuel - 1) as nat) =~= ancestors(
                            m,
                            cur@,
                            fuel as nat,
                        ));
                        assert(before.push(p@) + ancestors(m, p@, (fuel - 1) as nat) =~= before + (
                        seq![p@] + ancestors(m, p@, (fuel - 1) as nat)));
                        cur = p;
                        fuel = fuel - 1;
                    } else {
                        assert(ancestors(m, cur@, fuel as nat) =~= seq![]);
                        assert(strs_view(r@) + seq![] =~= strs_view(r@));
                        return r;
                    }
                },
                None => {
                    assert(ancestors(m, cur@, fuel as nat) =~= seq![]);
                    assert(strs_view(r@) + seq![] =~= strs_view(r@));
                    return r;
                },
            }
        }
        assert(strs_view(r@) + seq![] =~= strs_view(r@));
        r
    }

    /// Adds a page under the given id, which no stored page may have, created
    /// at `now`, and places it as `add_page` does. Returns the id.
    pub fn insert_page(
        &mut self,
        new_id: String,
        now: String,
        title: String,
        parent_id: Option<String>,
        insert_after: Option<String>,
    ) -> (r: String)
        requires
            old(self).wf(),
            !old(self).page_map@.contains_key(new_id@),
        ensures
            final(self).wf(),
            r@ == new_id@,
            page_added(
                *old(self),
                *final(self),
                new_id@,
                now@,
                title@,
                opt_str_view(parent_id),
                opt_str_view(insert_after),
            ),
            same_header(*old(self), *final(self)),
            old(self).tree() ==> final(self).tree(),
    {
        let ghost m = self.page_map@;
        let ghost roots = strs_view(self.pages@);
        let ghost pv = opt_str_view(parent_id);
        let ghost av = opt_str_view(insert_after);
        let entry = PageEntry::create(new_id.clone(), title, copy_opt_str(&parent_id), now);
        match &parent_id {
            Some(p) => {
                self.page_map.place_child(p, &insert_after, new_id.clone());
            },
            None => match &insert_after {
                Some(a) => {
                    let anchor_parent = match self.page_map.get(a) {
                        Some(e) => Some(copy_opt_str(&e.parent_id)),
                        None => None,
                    };
                    match anchor_parent {
                        Some(Some(q)) => {
                            self.page_map.place_child(&q, &insert_after, new_id.clone());
                        },
                        Some(None) => {
                            place_in(&mut self.pages, &insert_after, new_id.clone());
                        },
                        None => {},
                    }
                },
                None => {
                    place_in(&mut self.pages, &insert_after, new_id.clone());
                },
            },
        }
        self.page_map.insert(entry);
        proof {
            if tree_ok(roots, m) {
                lemma_add_keeps_tree(roots, m, pv, av, new_id@, title@, now@);
            }
        }
        new_id
    }

    /// Adds a page under `new_id`, created at `now`, placed as `add_page`
    /// places it, and returns the id; `None`, with the notebook unchanged,
    /// exactly when `new_id` already names a page.
    pub fn add_page_with_id(
        &mut self,
        new_id: String,
        now: String,
        title: String,
        parent_id: Option<String>,
        insert_after: Option<String>,
    ) -> (r: Option<String>)
        requires
            old(self).wf(),
        ensures
            final(self).wf(),
            r is None <==> old(self).page_map@.contains_key(new_id@),
            match r {
                Some(n) => n@ == new_id@ && page_added(
                    *old(self),
                    *final(self),
                    new_id@,
                    now@,
                    title@,
                    opt_str_view(parent_id),
                    opt_str_view(insert_after),
                ),
                None => *final(self) == *old(self),
            },
            same_header(*old(self), *final(self)),
            old(self).tree() ==> final(self).tree(),
    {
        if self.page_map.contains(&new_id) {
            return None;
        }
        Some(self.insert_page(new_id, now, title, parent_id, insert_after))
    }

    /// Adds a page titled `title` under a fresh random id and returns that
    /// id. With a parent named, the page goes among that parent's children:
    /// after `insert_after` (at the end when it is not among them), or first.
    /// With no parent but an anchor, it goes just after the anchor in the
    /// anchor's parent's children, or in the root list when the anchor is a
    /// root. With neither, it goes first among the roots. A named parent or
    /// anchor that is not stored leaves the page in no list. `None` only when
    /// the random id already names a page (so never on a notebook whose ids
    /// all differ in length from a drawn one); the notebook is then unchanged.
    pub fn add_page(
        &mut self,
        title: String,
        parent_id: Option<String>,
        insert_after: Option<String>,
    ) -> (r: Option<String>)
        requires
            old(self).wf(),
        ensures
            final(self).wf(),
            match r {
                Some(n) => n@.len() == 36 && page_added(
                    *old(self),
                    *final(self),
                    n@,
                    final(self).page_map@[n@].created_at,
                    title@,
                    opt_str_view(parent_id),
                    opt_str_view(insert_after),
                ),
                None => *final(self) == *old(self) && exists|k: Seq<char>|
                    k.len() == 36 && #[trigger] old(self).page_map@.contains_key(k),
            },
            same_header(*old(self), *final(self)),
            old(self).tree() ==> final(self).tree(),
    {
        let id = fresh_id();
        let now = now_rfc3339();
        let ghost idv = id@;
        let ghost nv = now@;
        let r = self.add_page_with_id(id, now, title, parent_id, insert_after);
        proof {
            if r is Some {
                assert(self.page_map@[r->Some_0@].created_at == nv);
            } else {
                assert(old(self).page_map@.contains_key(idv));
            }
        }
        r
    }

    /// Replaces the body of page `page_id`; returns whether the page exists.
    /// Nothing changes when it does not.
    pub fn update_page_content(&mut self, page_id: &String, new_body: String) -> (r: bool)
        requires
            old(self).wf(),
        ensures
            final(self).wf(),
            r == old(self).page_map@.contains_key(page_id@),
            r ==> final(self).page_map@ == old(self).page_map@.insert(
                page_id@,
                PageView { body: new_body@, ..old(self).page_map@[page_id@] },
            ),
            !r ==> final(self).page_map@ == old(self).page_map@,
            final(self).pages == old(self).pages,
            same_header(*old(self), *final(self)),
    {
        self.page_map.set_body(page_id, new_body)
    }

    /// Records an access at time `now`.
    pub fn mark_accessed(&mut self, now: String)
        ensures
            final(self).last_accessed_at == now,
            final(self).page_map == old(self).page_map,
            final(self).pages == old(self).pages,
            final(self).id == old(self).id,
            final(self).name == old(self).name,
            final(self).thumbnail == old(self).thumbnail,
            final(self).created_at == old(self).created_at,
            final(self).description == old(self).description,
            final(self).author == old(self).author,
            final(self).assets == old(self).assets,
            final(self).is_in_trash == old(self).is_in_trash,
    {
        self.last_accessed_at = now;
    }
}

} // verus!
