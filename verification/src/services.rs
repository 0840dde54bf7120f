//! The services the study workspace calls on.

use crate::export::CanvasExportService;
use crate::reading::ReadingSupportService;
use vstd::prelude::*;

verus! {

/// Reading support and canvas export, as the workspace uses them.
#[derive(Debug)]
pub struct AppServices {
    pub reading_support: ReadingSupportService,
    pub canvas_export: CanvasExportService,
}

impl Default for AppServices {
    fn default() -> (s: Self)
        ensures
            s.reading_support == ReadingSupportService,
            s.canvas_export == CanvasExportService,
    {
        AppServices { reading_support: ReadingSupportService, canvas_export: CanvasExportService }
    }
}

} // verus!
