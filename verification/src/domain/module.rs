//! The modules of the repository.
use vstd::prelude::*;

use crate::routes::render::{module_csv_row, module_csv_row_text, module_html_row, module_html_row_text};

verus! {

/// A module with its localized (display) name.
#[derive(Debug, Clone)]
pub struct Module {
    pub name: String,
    pub localized_name: String,
}

impl Module {
    /// `name, localized name`.
    pub fn as_csv_row(&self) -> (s: String)
        ensures
            s@ == module_csv_row_text(*self),
    {
        module_csv_row(self)
    }

    /// This module as an HTML table row.
    pub fn as_html_row(&self) -> (s: String)
        ensures
            s@ == module_html_row_text(*self),
    {
        module_html_row(self)
    }
}

} // verus!
