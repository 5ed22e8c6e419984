//! The query and JSON shapes of the modules listing.
use vstd::prelude::*;

use crate::domain::module::Module as DomainModule;

verus! {

/// The query of the modules listing: an optional module name.
#[derive(Debug, Clone)]
pub struct ModulesQuery {
    pub name: Option<String>,
}

/// A module as the API reports it.
#[derive(Debug, Clone)]
pub struct Module {
    pub name: String,
    pub localized_name: String,
}

impl From<DomainModule> for Module {
    fn from(value: DomainModule) -> (r: Module) {
        Module { name: value.name, localized_name: value.localized_name }
    }
}

impl vstd::std_specs::convert::FromSpecImpl<DomainModule> for Module {
    open spec fn obeys_from_spec() -> bool {
        true
    }

    open spec fn from_spec(value: DomainModule) -> Module {
        Module { name: value.name, localized_name: value.localized_name }
    }
}

} // verus!
