//! The HTML tables and the comma-separated text of the listings.
use vstd::prelude::*;

use crate::domain::module::Module;
use crate::domain::release::{ModuleRelease, Release};
use crate::text::{contains_spec, lemma_contains_middle, push_char};

verus! {

/// Lines joined with `\n` between them (no line break after the last).
pub open spec fn join_lines(rows: Seq<Seq<char>>) -> Seq<char>
    decreases rows.len(),
{
    if rows.len() == 0 {
        Seq::empty()
    } else if rows.len() == 1 {
        rows[0]
    } else {
        join_lines(rows.drop_last()) + seq!['\n'] + rows.last()
    }
}

proof fn lemma_join_lines_step(rows: Seq<Seq<char>>, i: int)
    requires
        0 <= i < rows.len(),
    ensures
        join_lines(rows.take(i + 1)) == if i == 0 {
            rows[0]
        } else {
            join_lines(rows.take(i)) + seq!['\n'] + rows[i]
        },
{
    assert(rows.take(i + 1).drop_last() =~= rows.take(i));
    if i == 0 {
        assert(rows.take(1).len() == 1);
    }
}

/// How a flag is written: `true` or `false`.
pub open spec fn bool_text(b: bool) -> Seq<char> {
    if b {
        "true"@
    } else {
        "false"@
    }
}

fn push_bool(s: &mut String, b: bool)
    ensures
        final(s)@ == old(s)@ + bool_text(b),
{
    if b {
        s.append("true");
    } else {
        s.append("false");
    }
}

/// `name, localized name, version, url`.
pub open spec fn release_csv_row_text(r: Release) -> Seq<char> {
    r.name@ + ", "@ + r.localized_name@ + ", "@ + r.version.text() + ", "@ + r.url@
}

/// A release as one comma-separated line.
pub fn release_csv_row(release: &Release) -> (s: String)
    ensures
        s@ == release_csv_row_text(*release),
{
    let mut s = String::new();
    s.append(release.name.as_str());
    s.append(", ");
    s.append(release.localized_name.as_str());
    s.append(", ");
    release.version.push_text(&mut s);
    s.append(", ");
    s.append(release.url.as_str());
    assert(s@ =~= release_csv_row_text(*release));
    s
}

/// A table row linking the module's page (with the `rc` and `ms` flags) and
/// the release.
pub open spec fn release_html_row_text(
    r: Release,
    base_url: Seq<char>,
    use_candidate: bool,
    use_milestones: bool,
) -> Seq<char> {
    "<tr>\n  <td><a href='"@ + base_url + "/"@ + r.name@ + "?rc="@ + bool_text(use_candidate)
        + "&ms="@ + bool_text(use_milestones) + "'>"@ + r.name@ + "</a></td>\n  <td>"@
        + r.localized_name@ + "</td>\n  <td><a href='"@ + r.url@ + "'>"@ + r.version.text()
        + "</a></td>\n</tr>"@
}

/// Every row of the latest-releases HTML table shows the release's localized
/// name in its second cell, right after the cell that links the module.
pub proof fn law_release_html_row_shows_localized_name(
    r: Release,
    base_url: Seq<char>,
    use_candidate: bool,
    use_milestones: bool,
)
    ensures
        contains_spec(
            release_html_row_text(r, base_url, use_candidate, use_milestones),
            "</a></td>\n  <td>"@ + r.localized_name@ + "</td>"@,
        ),
{
    reveal_strlit("</td>\n  <td><a href='");
    reveal_strlit("</td>");
    reveal_strlit("\n  <td><a href='");
    let x = "<tr>\n  <td><a href='"@ + base_url + "/"@ + r.name@ + "?rc="@ + bool_text(use_candidate)
        + "&ms="@ + bool_text(use_milestones) + "'>"@ + r.name@;
    let needle = "</a></td>\n  <td>"@ + r.localized_name@ + "</td>"@;
    let y = "\n  <td><a href='"@ + r.url@ + "'>"@ + r.version.text() + "</a></td>\n</tr>"@;
    assert("</td>\n  <td><a href='"@ =~= "</td>"@ + "\n  <td><a href='"@);
    assert(release_html_row_text(r, base_url, use_candidate, use_milestones) =~= x + needle + y);
    lemma_contains_middle(x, needle, y);
}

/// A release as an HTML table row.
pub fn release_html_row(
    release: &Release,
    base_url: &str,
    use_candidate: bool,
    use_milestones: bool,
) -> (s: String)
    ensures
        s@ == release_html_row_text(*release, base_url@, use_candidate, use_milestones),
{
    let mut s = String::new();
    s.append("<tr>\n  <td><a href='");
    s.append(base_url);
    s.append("/");
    s.append(release.name.as_str());
    s.append("?rc=");
    push_bool(&mut s, use_candidate);
    s.append("&ms=");
    push_bool(&mut s, use_milestones);
    s.append("'>");
    s.append(release.name.as_str());
    s.append("</a></td>\n  <td>");
    s.append(release.localized_name.as_str());
    s.append("</td>\n  <td><a href='");
    s.append(release.url.as_str());
    s.append("'>");
    release.version.push_text(&mut s);
    s.append("</a></td>\n</tr>");
    assert(s@ =~= release_html_row_text(*release, base_url@, use_candidate, use_milestones));
    s
}

/// A table row linking the module's page with the `rc` flag alone.
pub open spec fn release_rc_html_row_text(r: Release, base_url: Seq<char>, use_candidate: bool) -> Seq<
    char,
> {
    "<tr>\n  <td><a href='"@ + base_url + "/"@ + r.name@ + "?rc="@ + bool_text(use_candidate)
        + "'>"@ + r.name@ + "</a></td>\n  <td>"@ + r.localized_name@ + "</td>\n  <td><a href='"@
        + r.url@ + "'>"@ + r.version.text() + "</a></td>\n</tr>"@
}

impl Release {
    /// This release as an HTML table row whose module link carries the `rc`
    /// flag alone.
    pub fn as_html_row(&self, base_url: &str, use_candidate: bool) -> (s: String)
        ensures
            s@ == release_rc_html_row_text(*self, base_url@, use_candidate),
    {
        let mut s = String::new();
        s.append("<tr>\n  <td><a href='");
        s.append(base_url);
        s.append("/");
        s.append(self.name.as_str());
        s.append("?rc=");
        push_bool(&mut s, use_candidate);
        s.append("'>");
        s.append(self.name.as_str());
        s.append("</a></td>\n  <td>");
        s.append(self.localized_name.as_str());
        s.append("</td>\n  <td><a href='");
        s.append(self.url.as_str());
        s.append("'>");
        self.version.push_text(&mut s);
        s.append("</a></td>\n</tr>");
        assert(s@ =~= release_rc_html_row_text(*self, base_url@, use_candidate));
        s
    }
}

/// `version, date, url`.
pub open spec fn module_release_csv_row_text(r: ModuleRelease) -> Seq<char> {
    r.version.text() + ", "@ + r.date_time@ + ", "@ + r.url@
}

/// A version of a module as one comma-separated line.
pub fn module_release_csv_row(r: &ModuleRelease) -> (s: String)
    ensures
        s@ == module_release_csv_row_text(*r),
{
    let mut s = String::new();
    r.version.push_text(&mut s);
    s.append(", ");
    s.append(r.date_time.as_str());
    s.append(", ");
    s.append(r.url.as_str());
    assert(s@ =~= module_release_csv_row_text(*r));
    s
}

/// A table row linking the version, then its date.
pub open spec fn module_release_html_row_text(r: ModuleRelease) -> Seq<char> {
    "<tr>\n  <td><a href='"@ + r.url@ + "'>"@ + r.version.text() + "</a></td>\n  <td>"@
        + r.date_time@ + "</td>\n</tr>"@
}

/// A version of a module as an HTML table row.
pub fn module_release_html_row(r: &ModuleRelease) -> (s: String)
    ensures
        s@ == module_release_html_row_text(*r),
{
    let mut s = String::new();
    s.append("<tr>\n  <td><a href='");
    s.append(r.url.as_str());
    s.append("'>");
    r.version.push_text(&mut s);
    s.append("</a></td>\n  <td>");
    s.append(r.date_time.as_str());
    s.append("</td>\n</tr>");
    assert(s@ =~= module_release_html_row_text(*r));
    s
}

impl ModuleRelease {
    /// This version as one comma-separated line.
    pub fn as_csv_row(&self) -> (s: String)
        ensures
            s@ == module_release_csv_row_text(*self),
    {
        module_release_csv_row(self)
    }

    /// This version as an HTML table row.
    pub fn as_html_row(&self) -> (s: String)
        ensures
            s@ == module_release_html_row_text(*self),
    {
        module_release_html_row(self)
    }
}

/// `name, localized name`.
pub open spec fn module_csv_row_text(m: Module) -> Seq<char> {
    m.name@ + ", "@ + m.localized_name@
}

/// A module as one comma-separated line.
pub fn module_csv_row(m: &Module) -> (s: String)
    ensures
        s@ == module_csv_row_text(*m),
{
    let mut s = String::new();
    s.append(m.name.as_str());
    s.append(", ");
    s.append(m.localized_name.as_str());
    assert(s@ =~= module_csv_row_text(*m));
    s
}

/// A table row with the module's name and localized name.
pub open spec fn module_html_row_text(m: Module) -> Seq<char> {
    "<tr>\n  <td>"@ + m.name@ + "</td>\n  <td>"@ + m.localized_name@ + "</td>\n</tr>"@
}

/// A module as an HTML table row.
pub fn module_html_row(m: &Module) -> (s: String)
    ensures
        s@ == module_html_row_text(*m),
{
    let mut s = String::new();
    s.append("<tr>\n  <td>");
    s.append(m.name.as_str());
    s.append("</td>\n  <td>");
    s.append(m.localized_name.as_str());
    s.append("</td>\n</tr>");
    assert(s@ =~= module_html_row_text(*m));
    s
}

/// The wrapper of every table.
pub open spec fn table_text(rows: Seq<char>) -> Seq<char> {
    "<table rules=\"all\">"@ + rows + "</table>"@
}

/// The rows of the latest-releases table.
pub open spec fn release_html_rows(
    releases: Seq<Release>,
    base_url: Seq<char>,
    use_candidate: bool,
    use_milestones: bool,
) -> Seq<Seq<char>> {
    Seq::new(
        releases.len(),
        |i: int| release_html_row_text(releases[i], base_url, use_candidate, use_milestones),
    )
}

/// The latest-releases table: one row per release.
pub fn releases_table_html(
    base_url: &str,
    use_candidate: bool,
    use_milestones: bool,
    releases: &[Release],
) -> (s: String)
    ensures
        s@ == table_text(
            join_lines(release_html_rows(releases@, base_url@, use_candidate, use_milestones)),
        ),
{
    let ghost rows = release_html_rows(releases@, base_url@, use_candidate, use_milestones);
    let mut body = String::new();
    let mut i: usize = 0;
    while i < releases.len()
        invariant
            i <= releases@.len(),
            rows == release_html_rows(releases@, base_url@, use_candidate, use_milestones),
            body@ == join_lines(rows.take(i as int)),
        decreases releases@.len() - i,
    {
        if i > 0 {
            push_char(&mut body, '\n');
        }
        let row = release_html_row(&releases[i], base_url, use_candidate, use_milestones);
        body.append(row.as_str());
        proof {
            lemma_join_lines_step(rows, i as int);
        }
        i = i + 1;
    }
    assert(rows.take(i as int) =~= rows);
    let mut s = String::new();
    s.append("<table rules=\"all\">");
    s.append(body.as_str());
    s.append("</table>");
    assert(s@ =~= table_text(join_lines(rows)));
    s
}

/// The rows of one module's table.
pub open spec fn module_release_html_rows(rs: Seq<ModuleRelease>) -> Seq<Seq<char>> {
    Seq::new(rs.len(), |i: int| module_release_html_row_text(rs[i]))
}

/// One module's table: one row per version.
pub fn module_releases_table_html(module_releases: &[ModuleRelease]) -> (s: String)
    ensures
        s@ == table_text(join_lines(module_release_html_rows(module_releases@))),
{
    let ghost rows = module_release_html_rows(module_releases@);
    let mut body = String::new();
    let mut i: usize = 0;
    while i < module_releases.len()
        invariant
            i <= module_releases@.len(),
            rows == module_release_html_rows(module_releases@),
            body@ == join_lines(rows.take(i as int)),
        decreases module_releases@.len() - i,
    {
        if i > 0 {
            push_char(&mut body, '\n');
        }
        let row = module_release_html_row(&module_releases[i]);
        body.append(row.as_str());
        proof {
            lemma_join_lines_step(rows, i as int);
        }
        i = i + 1;
    }
    assert(rows.take(i as int) =~= rows);
    let mut s = String::new();
    s.append("<table rules=\"all\">");
    s.append(body.as_str());
    s.append("</table>");
    assert(s@ =~= table_text(join_lines(rows)));
    s
}

/// The rows of the modules table.
pub open spec fn module_html_rows(ms: Seq<Module>) -> Seq<Seq<char>> {
    Seq::new(ms.len(), |i: int| module_html_row_text(ms[i]))
}

/// The modules table: one row per module.
pub fn modules_table_html(modules: &[Module]) -> (s: String)
    ensures
        s@ == table_text(join_lines(module_html_rows(modules@))),
{
    let ghost rows = module_html_rows(modules@);
    let mut body = String::new();
    let mut i: usize = 0;
    while i < modules.len()
        invariant
            i <= modules@.len(),
            rows == module_html_rows(modules@),
            body@ == join_lines(rows.take(i as int)),
        decreases modules@.len() - i,
    {
        if i > 0 {
            push_char(&mut body, '\n');
        }
        let row = module_html_row(&modules[i]);
        body.append(row.as_str());
        proof {
            lemma_join_lines_step(rows, i as int);
        }
        i = i + 1;
    }
    assert(rows.take(i as int) =~= rows);
    let mut s = String::new();
    s.append("<table rules=\"all\">");
    s.append(body.as_str());
    s.append("</table>");
    assert(s@ =~= table_text(join_lines(rows)));
    s
}

/// The lines of the latest-releases text.
pub open spec fn release_csv_rows(releases: Seq<Release>) -> Seq<Seq<char>> {
    Seq::new(releases.len(), |i: int| release_csv_row_text(releases[i]))
}

/// The latest releases as comma-separated lines, each ending in `\n` (an
/// empty list gives a single `\n`).
pub fn releases_csv(releases: &[Release]) -> (s: String)
    ensures
        s@ == join_lines(release_csv_rows(releases@)) + seq!['\n'],
{
    let ghost rows = release_csv_rows(releases@);
    let mut s = String::new();
    let mut i: usize = 0;
    while i < releases.len()
        invariant
            i <= releases@.len(),
            rows == release_csv_rows(releases@),
            s@ == join_lines(rows.take(i as int)),
        decreases releases@.len() - i,
    {
        if i > 0 {
            push_char(&mut s, '\n');
        }
        let row = release_csv_row(&releases[i]);
        s.append(row.as_str());
        proof {
            lemma_join_lines_step(rows, i as int);
        }
        i = i + 1;
    }
    assert(rows.take(i as int) =~= rows);
    push_char(&mut s, '\n');
    s
}

/// The lines of one module's text.
pub open spec fn module_release_csv_rows(rs: Seq<ModuleRelease>) -> Seq<Seq<char>> {
    Seq::new(rs.len(), |i: int| module_release_csv_row_text(rs[i]))
}

/// One module's versions as comma-separated lines, each ending in `\n`.
pub fn module_releases_csv(module_releases: &[ModuleRelease]) -> (s: String)
    ensures
        s@ == join_lines(module_release_csv_rows(module_releases@)) + seq!['\n'],
{
    let ghost rows = module_release_csv_rows(module_releases@);
    let mut s = String::new();
    let mut i: usize = 0;
    while i < module_releases.len()
        invariant
            i <= module_releases@.len(),
            rows == module_release_csv_rows(module_releases@),
            s@ == join_lines(rows.take(i as int)),
        decreases module_releases@.len() - i,
    {
        if i > 0 {
            push_char(&mut s, '\n');
        }
        let row = module_release_csv_row(&module_releases[i]);
        s.append(row.as_str());
        proof {
            lemma_join_lines_step(rows, i as int);
        }
        i = i + 1;
    }
    assert(rows.take(i as int) =~= rows);
    push_char(&mut s, '\n');
    s
}

/// The lines of the modules text.
pub open spec fn module_csv_rows(ms: Seq<Module>) -> Seq<Seq<char>> {
    Seq::new(ms.len(), |i: int| module_csv_row_text(ms[i]))
}

/// The modules as comma-separated lines, each ending in `\n`.
pub fn modules_csv(modules: &[Module]) -> (s: String)
    ensures
        s@ == join_lines(module_csv_rows(modules@)) + seq!['\n'],
{
    let ghost rows = module_csv_rows(modules@);
    let mut s = String::new();
    let mut i: usize = 0;
    while i < modules.len()
        invariant
            i <= modules@.len(),
            rows == module_csv_rows(modules@),
            s@ == join_lines(rows.take(i as int)),
        decreases modules@.len() - i,
    {
        if i > 0 {
            push_char(&mut s, '\n');
        }
        let row = module_csv_row(&modules[i]);
        s.append(row.as_str());
        proof {
            lemma_join_lines_step(rows, i as int);
        }
        i = i + 1;
    }
    assert(rows.take(i as int) =~= rows);
    push_char(&mut s, '\n');
    s
}

} // verus!
