use vstd::prelude::*;
use crate::clock::{fresh_id, now_rfc3339};

verus! {

/// The text of a page: a format tag and a body.
#[derive(Debug)]
pub struct PageContent {
    pub doctype: String,
    pub body: String,
}

/// One node of the page tree.
#[derive(Debug)]
pub struct PageEntry {
    pub id: String,
    pub title: String,
    pub content: PageContent,
    pub created_at: String,
    pub updated_at: String,
    pub pinned: bool,
    pub starred: bool,
    pub tags: Option<Vec<String>>,
    pub parent_id: Option<String>,
    pub sub_pages: Vec<String>,
    pub is_in_trash: bool,
}

/// A page as a mathematical value.
pub struct PageView {
    pub id: Seq<char>,
    pub title: Seq<char>,
    pub doctype: Seq<char>,
    pub body: Seq<char>,
    pub created_at: Seq<char>,
    pub updated_at: Seq<char>,
    pub pinned: bool,
    pub starred: bool,
    pub tags: Option<Seq<Seq<char>>>,
    pub parent_id: Option<Seq<char>>,
    pub sub_pages: Seq<Seq<char>>,
    pub is_in_trash: bool,
}

/// The texts of a list of strings.
pub open spec fn strs_view(v: Seq<String>) -> Seq<Seq<char>> {
    v.map_values(|s: String| s@)
}

pub open spec fn opt_str_view(o: Option<String>) -> Option<Seq<char>> {
    match o {
        Some(s) => Some(s@),
        None => None,
    }
}

pub open spec fn opt_strs_view(o: Option<Vec<String>>) -> Option<Seq<Seq<char>>> {
    match o {
        Some(v) => Some(strs_view(v@)),
        None => None,
    }
}

/// The format tag of a fresh page.
pub open spec fn markdown_tag() -> Seq<char> {
    seq!['m', 'a', 'r', 'k', 'd', 'o', 'w', 'n']
}

/// A page as created: untitled content, no flags, no children.
pub open spec fn fresh_page(
    id: Seq<char>,
    title: Seq<char>,
    parent_id: Option<Seq<char>>,
    now: Seq<char>,
) -> PageView {
    PageView {
        id,
        title,
        doctype: markdown_tag(),
        body: Seq::empty(),
        created_at: now,
        updated_at: now,
        pinned: false,
        starred: false,
        tags: None,
        parent_id,
        sub_pages: Seq::empty(),
        is_in_trash: false,
    }
}

impl View for PageEntry {
    type V = PageView;

    open spec fn view(&self) -> PageView {
        PageView {
            id: self.id@,
            title: self.title@,
            doctype: self.content.doctype@,
            body: self.content.body@,
            created_at: self.created_at@,
            updated_at: self.updated_at@,
            pinned: self.pinned,
            starred: self.starred,
            tags: opt_strs_view(self.tags),
            parent_id: opt_str_view(self.parent_id),
            sub_pages: strs_view(self.sub_pages@),
            is_in_trash: self.is_in_trash,
        }
    }
}

/// A copy of a string.
pub fn copy_str(s: &String) -> (r: String)
    ensures
        r@ == s@,
{
    s.clone()
}

/// A copy of an optional string.
pub fn copy_opt_str(o: &Option<String>) -> (r: Option<String>)
    ensures
        opt_str_view(r) == opt_str_view(*o),
{
    match o {
        Some(s) => Some(s.clone()),
        None => None,
    }
}

/// A copy of a list of strings.
pub fn copy_strs(v: &Vec<String>) -> (r: Vec<String>)
    ensures
        strs_view(r@) == strs_view(v@),
{
    let mut r: Vec<String> = Vec::with_capacity(v.len());
    let mut i: usize = 0;
    while i < v.len()
        invariant
            i <= v@.len(),
            r@ == v@.subrange(0, i as int),
        decreases v@.len() - i,
    {
        r.push(v[i].clone());
        i = i + 1;
        assert(r@ =~= v@.subrange(0, i as int));
    }
    assert(v@.subrange(0, v@.len() as int) =~= v@);
    r
}

impl PageContent {
    /// Empty markdown content.
    pub fn new() -> (r: PageContent)
        ensures
            r.doctype@ == markdown_tag(),
            r.body@ == Seq::<char>::empty(),
    {
        let doctype = "markdown".to_owned();
        proof {
            reveal_strlit("markdown");
            assert(doctype@ =~= markdown_tag());
        }
        PageContent { doctype, body: String::new() }
    }

    pub fn copy(&self) -> (r: PageContent)
        ensures
            r.doctype@ == self.doctype@,
            r.body@ == self.body@,
    {
        PageContent { doctype: self.doctype.clone(), body: self.body.clone() }
    }
}

impl PageEntry {
    /// A fresh page with the given identifier and creation time.
    pub fn create(id: String, title: String, parent_id: Option<String>, now: String) -> (r:
        PageEntry)
        ensures
            r@ == fresh_page(id@, title@, opt_str_view(parent_id), now@),
    {
        let updated_at = now.clone();
        let r = PageEntry {
            id,
            title,
            content: PageContent::new(),
            created_at: now,
            updated_at,
            pinned: false,
            starred: false,
            tags: None,
            parent_id,
            sub_pages: Vec::new(),
            is_in_trash: false,
        };
        assert(strs_view(r.sub_pages@) =~= Seq::<Seq<char>>::empty());
        r
    }

    /// A fresh page with a random identifier, stamped with the current time.
    pub fn new(title: String, parent_id: Option<String>) -> (r: PageEntry)
        ensures
            r@.title == title@,
            r@.parent_id == opt_str_view(parent_id),
            r@ == fresh_page(r@.id, title@, opt_str_view(parent_id), r@.created_at),
    {
        let id = fresh_id();
        let now = now_rfc3339();
        PageEntry::create(id, title, parent_id, now)
    }

    /// A copy that shares nothing with this page.
    pub fn copy(&self) -> (r: PageEntry)
        ensures
            r@ == self@,
    {
        let tags = match &self.tags {
            Some(t) => Some(copy_strs(t)),
            None => None,
        };
        PageEntry {
            id: self.id.clone(),
            title: self.title.clone(),
            content: self.content.copy(),
            created_at: self.created_at.clone(),
            updated_at: self.updated_at.clone(),
            pinned: self.pinned,
            starred: self.starred,
            tags,
            parent_id: copy_opt_str(&self.parent_id),
            sub_pages: copy_strs(&self.sub_pages),
            is_in_trash: self.is_in_trash,
        }
    }
}

} // verus!
