use nebula_notebook::display::PageSimple;
use nebula_notebook::error::ErrorCode;
use nebula_notebook::notebook::NebulaNotebook;

fn s(x: &str) -> String {
    x.to_string()
}

fn notebook() -> NebulaNotebook {
    NebulaNotebook::new(s("Notes"))
}

fn roots(nb: &NebulaNotebook) -> Vec<String> {
    nb.pages.clone()
}

fn children(nb: &NebulaNotebook, id: &str) -> Vec<String> {
    nb.get_page(&s(id)).unwrap().sub_pages
}

fn same_nodes(a: &[PageSimple], b: &[PageSimple]) -> bool {
    a.len() == b.len()
        && a.iter().zip(b.iter()).all(|(x, y)| {
            x.id == y.id
                && x.parent_id == y.parent_id
                && x.title == y.title
                && x.pinned == y.pinned
                && x.starred == y.starred
                && same_nodes(&x.sub_pages, &y.sub_pages)
        })
}

fn all_list_ids(nb: &NebulaNotebook) -> Vec<String> {
    let mut out = nb.pages.clone();
    for e in nb.page_map.entries() {
        out.extend(e.sub_pages.iter().cloned());
    }
    out
}

#[test]
fn new_notebook_is_empty() {
    let nb = notebook();
    assert_eq!(nb.name, "Notes");
    assert!(nb.pages.is_empty());
    assert_eq!(nb.page_map.len(), 0);
    assert_eq!(nb.created_at, nb.last_accessed_at);
    assert!(!nb.id.is_empty());
}

#[test]
fn insertion_ordering_scenario() {
    let mut nb = notebook();
    nb.insert_page(s("A"), s("t0"), s("A"), None, None);
    assert_eq!(roots(&nb), vec![s("A")]);
    nb.insert_page(s("B"), s("t1"), s("B"), None, Some(s("A")));
    assert_eq!(roots(&nb), vec![s("A"), s("B")]);
    nb.insert_page(s("C"), s("t2"), s("C"), Some(s("A")), None);
    assert_eq!(children(&nb, "A"), vec![s("C")]);
    nb.insert_page(s("D"), s("t3"), s("D"), Some(s("A")), Some(s("C")));
    assert_eq!(children(&nb, "A"), vec![s("C"), s("D")]);
    assert_eq!(roots(&nb), vec![s("A"), s("B")]);
}

#[test]
fn insert_without_anchor_goes_first() {
    let mut nb = notebook();
    nb.insert_page(s("A"), s("t"), s("A"), None, None);
    nb.insert_page(s("B"), s("t"), s("B"), None, None);
    assert_eq!(roots(&nb), vec![s("B"), s("A")]);
    nb.insert_page(s("C"), s("t"), s("C"), Some(s("A")), None);
    nb.insert_page(s("D"), s("t"), s("D"), Some(s("A")), None);
    assert_eq!(children(&nb, "A"), vec![s("D"), s("C")]);
}

#[test]
fn unknown_anchor_appends() {
    let mut nb = notebook();
    nb.insert_page(s("A"), s("t"), s("A"), None, None);
    nb.insert_page(s("C"), s("t"), s("C"), Some(s("A")), None);
    nb.insert_page(s("D"), s("t"), s("D"), Some(s("A")), Some(s("nope")));
    assert_eq!(children(&nb, "A"), vec![s("C"), s("D")]);
}

#[test]
fn anchor_with_parent_places_among_siblings() {
    let mut nb = notebook();
    nb.insert_page(s("A"), s("t"), s("A"), None, None);
    nb.insert_page(s("C"), s("t"), s("C"), Some(s("A")), None);
    nb.insert_page(s("D"), s("t"), s("D"), Some(s("A")), Some(s("C")));
    nb.insert_page(s("X"), s("t"), s("X"), None, Some(s("C")));
    assert_eq!(children(&nb, "A"), vec![s("C"), s("X"), s("D")]);
    assert_eq!(roots(&nb), vec![s("A")]);
    assert!(children(&nb, "C").is_empty());
    assert_eq!(nb.get_page(&s("X")).unwrap().parent_id, None);
}

#[test]
fn ancestor_path_scenario() {
    let mut nb = notebook();
    nb.insert_page(s("A"), s("t"), s("A"), None, None);
    nb.insert_page(s("C"), s("t"), s("C"), Some(s("A")), None);
    nb.insert_page(s("E"), s("t"), s("E"), Some(s("C")), None);
    assert_eq!(nb.pages_to_expand(&s("E")), vec![s("C"), s("A")]);
    assert_eq!(nb.pages_to_expand(&s("A")), Vec::<String>::new());
    assert_eq!(nb.pages_to_expand(&s("unknown")), Vec::<String>::new());
}

#[test]
fn flatten_twice_is_identical() {
    let mut nb = notebook();
    nb.insert_page(s("A"), s("t"), s("Alpha"), None, None);
    nb.insert_page(s("C"), s("t"), s("Gamma"), Some(s("A")), None);
    nb.insert_page(s("E"), s("t"), s("Eps"), Some(s("C")), None);
    nb.insert_page(s("B"), s("t"), s("Beta"), None, Some(s("A")));
    let first = nb.get_simple_pages();
    let second = nb.get_simple_pages();
    assert!(same_nodes(&first, &second));
    assert_eq!(first.len(), 2);
    assert_eq!(first[0].id, "A");
    assert_eq!(first[0].title, "Alpha");
    assert_eq!(first[1].id, "B");
    assert_eq!(first[0].sub_pages.len(), 1);
    assert_eq!(first[0].sub_pages[0].id, "C");
    assert_eq!(first[0].sub_pages[0].parent_id, Some(s("A")));
    assert_eq!(first[0].sub_pages[0].sub_pages[0].id, "E");
    assert!(first[0].sub_pages[0].sub_pages[0].sub_pages.is_empty());
}

#[test]
fn orphan_page_is_stored_but_not_shown() {
    let mut nb = notebook();
    nb.insert_page(s("A"), s("t"), s("A"), None, None);
    let id = nb.add_page(s("lost"), Some(s("missing")), None).unwrap();
    let page = nb.get_page(&id).unwrap();
    assert_eq!(page.title, "lost");
    assert_eq!(page.parent_id, Some(s("missing")));
    assert_eq!(roots(&nb), vec![s("A")]);
    assert!(!all_list_ids(&nb).contains(&id));
    let view = nb.get_simple_pages();
    assert_eq!(view.len(), 1);
    assert_eq!(view[0].id, "A");
    assert!(view[0].sub_pages.is_empty());
}

#[test]
fn unknown_anchor_without_parent_is_orphan() {
    let mut nb = notebook();
    nb.insert_page(s("A"), s("t"), s("A"), None, None);
    nb.insert_page(s("Z"), s("t"), s("Z"), None, Some(s("missing")));
    assert_eq!(roots(&nb), vec![s("A")]);
    assert!(nb.get_page(&s("Z")).is_ok());
}

#[test]
fn add_page_keeps_lists_unique_and_resolved() {
    let mut nb = notebook();
    let a = nb.add_page(s("a"), None, None).unwrap();
    let b = nb.add_page(s("b"), None, Some(a.clone())).unwrap();
    let c = nb.add_page(s("c"), Some(a.clone()), None).unwrap();
    let d = nb.add_page(s("d"), Some(a.clone()), Some(c.clone())).unwrap();
    let e = nb.add_page(s("e"), None, Some(c.clone())).unwrap();
    let f = nb.add_page(s("f"), Some(d.clone()), None).unwrap();
    assert_eq!(roots(&nb), vec![a.clone(), b.clone()]);
    assert_eq!(children(&nb, &a), vec![c.clone(), e.clone(), d.clone()]);
    assert_eq!(children(&nb, &d), vec![f.clone()]);
    let ids = all_list_ids(&nb);
    for (i, x) in ids.iter().enumerate() {
        assert!(nb.get_page(x).is_ok());
        assert!(!ids[i + 1..].contains(x));
    }
    assert_eq!(ids.len(), 6);
}

#[test]
fn add_page_creates_fresh_markdown_page() {
    let mut nb = notebook();
    let id = nb.add_page(s("First"), None, None).unwrap();
    assert_eq!(id.len(), 36);
    let page = nb.get_page(&id).unwrap();
    assert_eq!(page.id, id);
    assert_eq!(page.content.doctype, "markdown");
    assert_eq!(page.content.body, "");
    assert!(!page.pinned && !page.starred && !page.is_in_trash);
    assert!(page.tags.is_none());
    assert!(page.sub_pages.is_empty());
    assert_eq!(page.created_at, page.updated_at);
    assert!(!page.created_at.is_empty());
    let other = nb.add_page(s("Second"), None, None).unwrap();
    assert_ne!(id, other);
    assert_eq!(roots(&nb), vec![other, id]);
}

#[test]
fn get_page_unknown_is_not_found() {
    let nb = notebook();
    assert_eq!(nb.get_page(&s("nope")).err(), Some(ErrorCode::NotFoundError));
}

#[test]
fn update_page_content_replaces_body() {
    let mut nb = notebook();
    nb.insert_page(s("A"), s("t"), s("A"), None, None);
    assert!(nb.update_page_content(&s("A"), s("# hello")));
    assert_eq!(nb.get_page(&s("A")).unwrap().content.body, "# hello");
    assert!(!nb.update_page_content(&s("B"), s("x")));
    assert_eq!(nb.page_map.len(), 1);
}

#[test]
fn mark_accessed_sets_time() {
    let mut nb = notebook();
    nb.mark_accessed(s("2024-01-01T00:00:00+00:00"));
    assert_eq!(nb.last_accessed_at, "2024-01-01T00:00:00+00:00");
}

#[test]
fn add_page_with_taken_id_changes_nothing() {
    let mut nb = notebook();
    assert_eq!(nb.add_page_with_id(s("A"), s("t0"), s("A"), None, None), Some(s("A")));
    assert_eq!(nb.add_page_with_id(s("A"), s("t1"), s("again"), None, None), None);
    assert_eq!(roots(&nb), vec![s("A")]);
    assert_eq!(nb.page_map.len(), 1);
    let page = nb.get_page(&s("A")).unwrap();
    assert_eq!(page.title, "A");
    assert_eq!(page.created_at, "t0");
}

#[test]
fn add_page_with_id_places_under_parent() {
    let mut nb = notebook();
    nb.add_page_with_id(s("A"), s("t"), s("A"), None, None);
    assert_eq!(nb.add_page_with_id(s("C"), s("t"), s("C"), Some(s("A")), None), Some(s("C")));
    assert_eq!(children(&nb, "A"), vec![s("C")]);
    assert_eq!(nb.pages_to_expand(&s("C")), vec![s("A")]);
}

#[test]
fn mark_accessed_keeps_other_fields() {
    let mut nb = notebook();
    nb.insert_page(s("A"), s("t"), s("A"), None, None);
    let id = nb.id.clone();
    let created = nb.created_at.clone();
    nb.mark_accessed(s("later"));
    assert_eq!(nb.id, id);
    assert_eq!(nb.created_at, created);
    assert_eq!(nb.name, "Notes");
    assert_eq!(roots(&nb), vec![s("A")]);
    assert!(nb.thumbnail.is_none() && nb.description.is_none() && nb.author.is_none());
    assert!(nb.assets.is_empty() && !nb.is_in_trash);
}
