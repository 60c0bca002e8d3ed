use vstd::prelude::*;
use crate::error::ErrorCode;
use crate::notebook::NebulaNotebook;

verus! {

/// The single active-notebook slot.
pub struct AppState {
    pub notebook: Option<NebulaNotebook>,
}

impl AppState {
    /// A session with no notebook loaded.
    pub fn new() -> (r: AppState)
        ensures
            r.notebook is None,
    {
        AppState { notebook: None }
    }

    /// Installs `notebook` as the active one. A notebook that was active
    /// before is dropped without being saved.
    pub fn set_notebook(&mut self, notebook: NebulaNotebook)
        ensures
            final(self).notebook == Some(notebook),
    {
        self.notebook = Some(notebook);
    }

    /// Takes the active notebook out of the slot, leaving it empty, so that
    /// it can be saved; `NotebookNotLoadedYet` when none is active.
    pub fn unload_notebook(&mut self) -> (r: Result<NebulaNotebook, ErrorCode>)
        ensures
            final(self).notebook is None,
            match old(self).notebook {
                Some(nb) => r == Ok::<NebulaNotebook, ErrorCode>(nb),
                None => r == Err::<NebulaNotebook, ErrorCode>(ErrorCode::NotebookNotLoadedYet),
            },
    {
        match self.notebook.take() {
            Some(nb) => Ok(nb),
            None => Err(ErrorCode::NotebookNotLoadedYet),
        }
    }
}

} // verus!
