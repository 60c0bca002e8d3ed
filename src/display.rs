use vstd::prelude::*;
use crate::notebook::NebulaNotebook;
use crate::page::{PageEntry, PageView, strs_view, opt_str_view, copy_opt_str};

verus! {

broadcast use vstd::std_specs::vec::axiom_vec_decreases_to_view;

/// A lightweight node of the navigation view: no body, children inline.
#[derive(Debug)]
pub struct PageSimple {
    pub id: String,
    pub parent_id: Option<String>,
    pub title: String,
    pub pinned: bool,
    pub starred: bool,
    pub sub_pages: Vec<PageSimple>,
}

/// A navigation node as a mathematical value.
pub struct DisplayNode {
    pub id: Seq<char>,
    pub parent_id: Option<Seq<char>>,
    pub title: Seq<char>,
    pub pinned: bool,
    pub starred: bool,
    pub children: Seq<DisplayNode>,
}

/// The node shown for stored page `id`, with children down to `depth` more
/// levels.
pub open spec fn display_node(m: Map<Seq<char>, PageView>, id: Seq<char>, depth: nat) -> DisplayNode
    decreases depth, 0nat,
{
    let p = m[id];
    DisplayNode {
        id: p.id,
        parent_id: p.parent_id,
        title: p.title,
        pinned: p.pinned,
        starred: p.starred,
        children: if depth == 0 {
            seq![]
        } else {
            display_list(m, p.sub_pages, (depth - 1) as nat)
        },
    }
}

/// The nodes shown for a list of ids, in order, skipping ids that name no
/// stored page.
pub open spec fn display_list(m: Map<Seq<char>, PageView>, ids: Seq<Seq<char>>, depth: nat) -> Seq<
    DisplayNode,
>
    decreases depth, ids.len() + 1,
{
    if ids.len() == 0 {
        seq![]
    } else {
        let rest = display_list(m, ids.drop_last(), depth);
        if m.contains_key(ids.last()) {
            rest.push(display_node(m, ids.last(), depth))
        } else {
            rest
        }
    }
}

/// What a built navigation node denotes.
pub open spec fn simple_view(n: PageSimple) -> DisplayNode
    decreases n, 0nat,
{
    DisplayNode {
        id: n.id@,
        parent_id: opt_str_view(n.parent_id),
        title: n.title@,
        pinned: n.pinned,
        starred: n.starred,
        children: simple_views(n.sub_pages@),
    }
}

/// What a list of built navigation nodes denotes.
pub open spec fn simple_views(ns: Seq<PageSimple>) -> Seq<DisplayNode>
    decreases ns, 1nat,
{
    if ns.len() == 0 {
        seq![]
    } else {
        simple_views(ns.drop_last()).push(simple_view(ns.last()))
    }
}

/// Unfolds `display_list` over one more id.
proof fn lemma_display_list_step(m: Map<Seq<char>, PageView>, ids: Seq<Seq<char>>, i: int, depth: nat)
    requires
        0 <= i < ids.len(),
    ensures
        display_list(m, ids.take(i + 1), depth) == if m.contains_key(ids[i]) {
            display_list(m, ids.take(i), depth).push(display_node(m, ids[i], depth))
        } else {
            display_list(m, ids.take(i), depth)
        },
{
    assert(ids.take(i + 1).drop_last() =~= ids.take(i));
    assert(ids.take(i + 1).last() == ids[i]);
}

/// Unfolds `simple_views` over one more node.
proof fn lemma_simple_views_push(ns: Seq<PageSimple>, n: PageSimple)
    ensures
        simple_views(ns.push(n)) == simple_views(ns).push(simple_view(n)),
{
    assert(ns.push(n).drop_last() =~= ns);
}

impl NebulaNotebook {
    /// The navigation node of stored page `page`, with its stored children
    /// in order down to `depth` more levels.
    pub fn recursive_convert(&self, page: &PageEntry, depth: usize) -> (r: PageSimple)
        requires
            self.wf(),
            self.page_map@.contains_key(page.id@),
            self.page_map@[page.id@] == page@,
        ensures
            simple_view(r) == display_node(self.page_map@, page.id@, depth as nat),
        decreases depth,
    {
        let ghost m = self.page_map@;
        let ghost subs = strs_view(page.sub_pages@);
        let mut kids: Vec<PageSimple> = Vec::new();
        if depth > 0 {
            let mut i: usize = 0;
            while i < page.sub_pages.len()
                invariant
                    self.wf(),
                    m == self.page_map@,
                    depth > 0,
                    subs == strs_view(page.sub_pages@),
                    i <= page.sub_pages@.len(),
                    simple_views(kids@) == display_list(m, subs.take(i as int), (depth - 1) as nat),
                decreases page.sub_pages@.len() - i,
            {
                proof {
                    lemma_display_list_step(m, subs, i as int, (depth - 1) as nat);
                }
                match self.page_map.get(&page.sub_pages[i]) {
                    Some(c) => {
                        let n = self.recursive_convert(c, depth - 1);
                        proof {
                            lemma_simple_views_push(kids@, n);
                        }
                        kids.push(n);
                    },
                    None => {},
                }
                i = i + 1;
            }
            assert(subs.take(subs.len() as int) =~= subs);
        }
        let r = PageSimple {
            id: page.id.clone(),
            parent_id: copy_opt_str(&page.parent_id),
            title: page.title.clone(),
            pinned: page.pinned,
            starred: page.starred,
            sub_pages: kids,
        };
        assert(simple_view(r).children == simple_views(kids@));
        r
    }

    /// The navigation view: the stored root pages in order, each with its
    /// stored descendants in order. Ids that name no stored page are
    /// skipped. Depth is bounded by the number of pages.
    pub fn get_simple_pages(&self) -> (r: Vec<PageSimple>)
        requires
            self.wf(),
        ensures
            simple_views(r@) == display_list(
                self.page_map@,
                strs_view(self.pages@),
                self.page_map.count(),
            ),
    {
        let ghost m = self.page_map@;
        let ghost roots = strs_view(self.pages@);
        let depth = self.page_map.len();
        let mut r: Vec<PageSimple> = Vec::new();
        let mut i: usize = 0;
        while i < self.pages.len()
            invariant
                self.wf(),
                m == self.page_map@,
                depth == self.page_map.count(),
                roots == strs_view(self.pages@),
                i <= self.pages@.len(),
                simple_views(r@) == display_list(m, roots.take(i as int), depth as nat),
            decreases self.pages@.len() - i,
        {
            proof {
                lemma_display_list_step(m, roots, i as int, depth as nat);
            }
            match self.page_map.get(&self.pages[i]) {
                Some(c) => {
                    let n = self.recursive_convert(c, depth);
                    proof {
                        lemma_simple_views_push(r@, n);
                    }
                    r.push(n);
                },
                None => {},
            }
            i = i + 1;
        }
        assert(roots.take(roots.len() as int) =~= roots);
        r
    }
}

/// Building the navigation view twice from one notebook gives the same
/// structure: both results denote the same nodes.
pub proof fn lemma_display_deterministic(nb: NebulaNotebook, a: Seq<PageSimple>, b: Seq<PageSimple>)
    requires
        simple_views(a) == display_list(nb.page_map@, strs_view(nb.pages@), nb.page_map.count()),
        simple_views(b) == display_list(nb.page_map@, strs_view(nb.pages@), nb.page_map.count()),
    ensures
        simple_views(a) == simple_views(b),
{
}

} // verus!
