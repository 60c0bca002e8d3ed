use vstd::prelude::*;
use crate::display::PageSimple;
use crate::notebook::NebulaNotebook;
use crate::page::{PageEntry, strs_view, opt_str_view, copy_opt_str, copy_strs};

verus! {

/// One record of the notebook index: enough to list a notebook without
/// loading it.
#[derive(Debug)]
pub struct NotebookMetadata {
    pub id: String,
    pub name: String,
    pub thumbnail: Option<String>,
}

/// The notebook index.
#[derive(Debug)]
pub struct MetaDataFile {
    pub notebooks: Vec<NotebookMetadata>,
}

/// Two index records hold the same text.
pub open spec fn same_record(a: NotebookMetadata, b: NotebookMetadata) -> bool {
    &&& a.id@ == b.id@
    &&& a.name@ == b.name@
    &&& opt_str_view(a.thumbnail) == opt_str_view(b.thumbnail)
}

impl NotebookMetadata {
    pub fn copy(&self) -> (r: NotebookMetadata)
        ensures
            same_record(r, *self),
    {
        NotebookMetadata {
            id: self.id.clone(),
            name: self.name.clone(),
            thumbnail: copy_opt_str(&self.thumbnail),
        }
    }
}

impl NebulaNotebook {
    /// The index record of this notebook.
    pub fn metadata(&self) -> (r: NotebookMetadata)
        ensures
            r.id@ == self.id@,
            r.name@ == self.name@,
            opt_str_view(r.thumbnail) == opt_str_view(self.thumbnail),
    {
        NotebookMetadata {
            id: self.id.clone(),
            name: self.name.clone(),
            thumbnail: copy_opt_str(&self.thumbnail),
        }
    }
}

/// The index after a notebook is registered: the existing index, or an
/// empty one when there is none yet, with `metadata` appended.
pub fn add_notebook_to_metadata_file(existing: Option<MetaDataFile>, metadata: &NotebookMetadata) -> (r:
    MetaDataFile)
    ensures
        match existing {
            Some(f) => r.notebooks@.len() == f.notebooks@.len() + 1 && r.notebooks@.subrange(
                0,
                f.notebooks@.len() as int,
            ) == f.notebooks@,
            None => r.notebooks@.len() == 1,
        },
        same_record(r.notebooks@.last(), *metadata),
{
    let mut data = match existing {
        Some(f) => f,
        None => MetaDataFile { notebooks: Vec::new() },
    };
    let ghost before = data.notebooks@;
    data.notebooks.push(metadata.copy());
    assert(data.notebooks@.subrange(0, before.len() as int) =~= before);
    data
}

/// A freshly created notebook, as handed back to a caller.
pub struct Response {
    pub notebook: NebulaNotebook,
}

/// A loaded notebook as shown to a caller: its descriptive fields and the
/// navigation view of its pages.
#[derive(Debug)]
pub struct NotebookResponse {
    pub id: String,
    pub name: String,
    pub last_accessed_at: String,
    pub created_at: String,
    pub assets: Vec<String>,
    pub pages: Vec<PageSimple>,
    pub thumbnail: Option<String>,
    pub description: Option<String>,
    pub author: Option<String>,
}

impl NotebookResponse {
    /// The response for `notebook` with the view `pages_simple`.
    pub fn new(notebook: &NebulaNotebook, pages_simple: Vec<PageSimple>) -> (r: NotebookResponse)
        ensures
            r.id@ == notebook.id@,
            r.name@ == notebook.name@,
            r.last_accessed_at@ == notebook.last_accessed_at@,
            r.created_at@ == notebook.created_at@,
            strs_view(r.assets@) == strs_view(notebook.assets@),
            r.pages == pages_simple,
            opt_str_view(r.thumbnail) == opt_str_view(notebook.thumbnail),
            opt_str_view(r.description) == opt_str_view(notebook.description),
            opt_str_view(r.author) == opt_str_view(notebook.author),
    {
        NotebookResponse {
            id: notebook.id.clone(),
            name: notebook.name.clone(),
            last_accessed_at: notebook.last_accessed_at.clone(),
            created_at: notebook.created_at.clone(),
            assets: copy_strs(&notebook.assets),
            pages: pages_simple,
            thumbnail: copy_opt_str(&notebook.thumbnail),
            description: copy_opt_str(&notebook.description),
            author: copy_opt_str(&notebook.author),
        }
    }
}

/// A page as handed to a caller, with the ancestors to expand to reveal it.
#[derive(Debug)]
pub struct LoadPageResponse {
    pub page: PageEntry,
    pub expanded: Vec<String>,
}

/// The navigation view after a page was added, and the new page's id.
#[derive(Debug)]
pub struct AddPageResponse {
    pub pages: Vec<PageSimple>,
    pub new_page_id: String,
}

} // verus!
