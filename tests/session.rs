use nebula_notebook::error::ErrorCode;
use nebula_notebook::metadata::{add_notebook_to_metadata_file, MetaDataFile, NotebookMetadata, NotebookResponse};
use nebula_notebook::notebook::NebulaNotebook;
use nebula_notebook::session::AppState;

#[test]
fn session_load_and_unload() {
    let mut st = AppState::new();
    assert!(st.notebook.is_none());
    assert_eq!(st.unload_notebook().err(), Some(ErrorCode::NotebookNotLoadedYet));
    st.set_notebook(NebulaNotebook::new("one".to_string()));
    st.set_notebook(NebulaNotebook::new("two".to_string()));
    assert_eq!(st.notebook.as_ref().unwrap().name, "two");
    let nb = st.unload_notebook().unwrap();
    assert_eq!(nb.name, "two");
    assert!(st.notebook.is_none());
}

#[test]
fn metadata_is_appended() {
    let nb = NebulaNotebook::new("Work".to_string());
    let md = nb.metadata();
    assert_eq!(md.id, nb.id);
    assert_eq!(md.name, "Work");
    assert_eq!(md.thumbnail, None);
    let first = add_notebook_to_metadata_file(None, &md);
    assert_eq!(first.notebooks.len(), 1);
    assert_eq!(first.notebooks[0].name, "Work");
    let other = NotebookMetadata { id: "x".to_string(), name: "Home".to_string(), thumbnail: Some("t.png".to_string()) };
    let second = add_notebook_to_metadata_file(Some(first), &other);
    assert_eq!(second.notebooks.len(), 2);
    assert_eq!(second.notebooks[0].name, "Work");
    assert_eq!(second.notebooks[1].id, "x");
    assert_eq!(second.notebooks[1].thumbnail, Some("t.png".to_string()));
    let empty = MetaDataFile { notebooks: Vec::new() };
    assert_eq!(add_notebook_to_metadata_file(Some(empty), &other).notebooks.len(), 1);
}

#[test]
fn notebook_response_copies_fields() {
    let mut nb = NebulaNotebook::new("Work".to_string());
    nb.insert_page("A".to_string(), "t".to_string(), "A".to_string(), None, None);
    let view = nb.get_simple_pages();
    let r = NotebookResponse::new(&nb, view);
    assert_eq!(r.id, nb.id);
    assert_eq!(r.name, "Work");
    assert_eq!(r.created_at, nb.created_at);
    assert_eq!(r.last_accessed_at, nb.last_accessed_at);
    assert_eq!(r.pages.len(), 1);
    assert_eq!(r.pages[0].id, "A");
    assert!(r.assets.is_empty());
}
