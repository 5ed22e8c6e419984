//! The logic of the modules listing.
use vstd::prelude::*;

use crate::domain::module::Module;
use crate::routes::dto::modules::Module as ModuleDto;
use crate::routes::negotiate::{format_for, opt_text, response_format, ResponseFormat};
use crate::routes::render::{
    join_lines, module_csv_rows, module_html_rows, modules_csv, modules_table_html, table_text,
};

verus! {

/// The module name a listing is narrowed to: a given, non-empty name.
pub fn module_name_filter(name: &Option<String>) -> (r: Option<&str>)
    ensures
        match name {
            Some(s) => if s@.len() > 0 {
                r matches Some(f) && f@ == s@
            } else {
                r is None
            },
            None => r is None,
        },
{
    match name {
        Some(s) => {
            let f = s.as_str();
            if f.unicode_len() > 0 {
                Some(f)
            } else {
                None
            }
        },
        None => None,
    }
}

/// The answer to a modules listing, before it is written out.
#[derive(Debug, Clone)]
pub enum ModulesBody {
    Html(String),
    Json(Vec<ModuleDto>),
    Csv(String),
}

/// The API shape of each module, in order.
pub open spec fn module_dtos_of(ms: Seq<Module>) -> Seq<ModuleDto> {
    ms.map_values(|m: Module| ModuleDto { name: m.name, localized_name: m.localized_name })
}

/// `b` answers the listing of `modules` in `format`.
pub open spec fn modules_body_is(b: ModulesBody, modules: Seq<Module>, format: ResponseFormat) -> bool {
    match format {
        ResponseFormat::Html => b matches ModulesBody::Html(s) && s@ == table_text(
            join_lines(module_html_rows(modules)),
        ),
        ResponseFormat::Json => b matches ModulesBody::Json(rows) && rows@ == module_dtos_of(
            modules,
        ),
        ResponseFormat::Csv => b matches ModulesBody::Csv(s) && s@ == join_lines(
            module_csv_rows(modules),
        ) + seq!['\n'],
    }
}

/// The API shape of each module, in order.
pub fn module_dtos(modules: &[Module]) -> (rows: Vec<ModuleDto>)
    ensures
        rows@ == module_dtos_of(modules@),
{
    let mut rows: Vec<ModuleDto> = Vec::new();
    let mut i: usize = 0;
    while i < modules.len()
        invariant
            i <= modules@.len(),
            rows@ == module_dtos_of(modules@.take(i as int)),
        decreases modules@.len() - i,
    {
        let m = &modules[i];
        let dto = ModuleDto::from(
            Module { name: m.name.clone(), localized_name: m.localized_name.clone() },
        );
        rows.push(dto);
        assert(modules@.take(i + 1) =~= modules@.take(i as int).push(modules@[i as int]));
        i = i + 1;
    }
    assert(modules@.take(i as int) =~= modules@);
    rows
}

/// The modules listing in the representation the `Accept` header asks for.
pub fn modules_listing(modules: &[Module], accept: Option<&str>) -> (b: ModulesBody)
    ensures
        modules_body_is(b, modules@, format_for(opt_text(accept))),
{
    match response_format(accept) {
        ResponseFormat::Html => ModulesBody::Html(modules_table_html(modules)),
        ResponseFormat::Json => ModulesBody::Json(module_dtos(modules)),
        ResponseFormat::Csv => ModulesBody::Csv(modules_csv(modules)),
    }
}

} // verus!
