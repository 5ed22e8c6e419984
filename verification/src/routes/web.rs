//! What the web front end's fallback route serves for a path that no API
//! route takes, and the headers of a served file.
use vstd::prelude::*;

use crate::text::{chars_of, str_equal, string_of_range};

verus! {

/// `s` without its leading slashes.
pub open spec fn without_leading_slashes(s: Seq<char>) -> Seq<char>
    decreases s.len(),
{
    if s.len() > 0 && s[0] == '/' {
        without_leading_slashes(s.drop_first())
    } else {
        s
    }
}

/// The number of leading slashes of `s`.
pub open spec fn leading_slashes(s: Seq<char>) -> nat
    decreases s.len(),
{
    if s.len() > 0 && s[0] == '/' {
        1 + leading_slashes(s.drop_first())
    } else {
        0
    }
}

proof fn lemma_leading_slashes(s: Seq<char>)
    ensures
        leading_slashes(s) <= s.len(),
        without_leading_slashes(s) == s.subrange(leading_slashes(s) as int, s.len() as int),
        forall|j: int| 0 <= j < leading_slashes(s) ==> s[j] == '/',
        leading_slashes(s) < s.len() ==> s[leading_slashes(s) as int] != '/',
    decreases s.len(),
{
    if s.len() > 0 && s[0] == '/' {
        lemma_leading_slashes(s.drop_first());
        assert(s.drop_first().subrange(
            leading_slashes(s.drop_first()) as int,
            s.drop_first().len() as int,
        ) =~= s.subrange(leading_slashes(s) as int, s.len() as int));
        assert forall|j: int| 0 <= j < leading_slashes(s) implies s[j] == '/' by {
            if j > 0 {
                assert(s[j] == s.drop_first()[j - 1]);
            }
        }
    } else {
        assert(s.subrange(0, s.len() as int) =~= s);
    }
}

/// The asset path of a request path: the path without its leading slashes.
pub fn asset_path(uri_path: &str) -> (r: String)
    ensures
        r@ == without_leading_slashes(uri_path@),
{
    let v = chars_of(uri_path);
    let n = v.len();
    let mut i: usize = 0;
    proof {
        lemma_leading_slashes(uri_path@);
    }
    while i < n && v[i] == '/'
        invariant
            v@ == uri_path@,
            n == v@.len(),
            i <= leading_slashes(uri_path@),
            leading_slashes(uri_path@) <= n,
            forall|j: int| 0 <= j < leading_slashes(uri_path@) ==> uri_path@[j] == '/',
            leading_slashes(uri_path@) < n ==> uri_path@[leading_slashes(uri_path@) as int] != '/',
        decreases n - i,
    {
        i = i + 1;
    }
    string_of_range(v.as_slice(), i, n)
}

/// What the fallback route answers.
#[derive(Debug, Clone)]
pub enum FallbackPlan {
    /// Not found.
    NotFound,
    /// The embedded file of this path, or not found when there is none.
    Serve(String),
}

/// `s` starts with `prefix`.
pub open spec fn starts_with(s: Seq<char>, prefix: Seq<char>) -> bool {
    prefix.len() <= s.len() && s.subrange(0, prefix.len() as int) == prefix
}

/// The fallback route's answer for an asset path, given whether an embedded
/// file has that path: API paths (`sls/...`) are not found; the root and
/// paths without a dot (routes of the single-page application) serve
/// `index.html`; an existing file is served; anything else is not found.
pub open spec fn fallback_plan_spec(path: Seq<char>, exists: bool) -> Option<Seq<char>> {
    if starts_with(path, "sls/"@) {
        None
    } else if path.len() == 0 {
        Some("index.html"@)
    } else if exists {
        Some(path)
    } else if !path.contains('.') {
        Some("index.html"@)
    } else {
        None
    }
}

fn has_prefix(s: &Vec<char>, prefix: &str) -> (r: bool)
    ensures
        r == starts_with(s@, prefix@),
{
    let p = chars_of(prefix);
    if p.len() > s.len() {
        return false;
    }
    let mut i: usize = 0;
    while i < p.len()
        invariant
            i <= p@.len(),
            p@ == prefix@,
            p@.len() <= s@.len(),
            forall|j: int| 0 <= j < i ==> s@[j] == p@[j],
        decreases p@.len() - i,
    {
        if s[i] != p[i] {
            assert(s@.subrange(0, p@.len() as int)[i as int] != prefix@[i as int]);
            return false;
        }
        i = i + 1;
    }
    assert(s@.subrange(0, p@.len() as int) =~= prefix@);
    true
}

fn has_dot(s: &Vec<char>) -> (r: bool)
    ensures
        r == s@.contains('.'),
{
    let mut i: usize = 0;
    while i < s.len()
        invariant
            i <= s@.len(),
            forall|j: int| 0 <= j < i ==> s@[j] != '.',
        decreases s@.len() - i,
    {
        if s[i] == '.' {
            assert(s@[i as int] == '.');
            return true;
        }
        i = i + 1;
    }
    false
}

/// The fallback route's answer for an asset path (see `fallback_plan_spec`).
pub fn fallback_plan(path: &str, exists: bool) -> (r: FallbackPlan)
    ensures
        match fallback_plan_spec(path@, exists) {
            Some(p) => r matches FallbackPlan::Serve(s) && s@ == p,
            None => r is NotFound,
        },
{
    let v = chars_of(path);
    if has_prefix(&v, "sls/") {
        FallbackPlan::NotFound
    } else if v.len() == 0 {
        FallbackPlan::Serve(String::from_str("index.html"))
    } else if exists {
        FallbackPlan::Serve(String::from_str(path))
    } else if !has_dot(&v) {
        FallbackPlan::Serve(String::from_str("index.html"))
    } else {
        FallbackPlan::NotFound
    }
}

/// The content type that `mime_guess` gives a path (by its extension; the
/// generic binary type when it knows none).
pub uninterp spec fn guessed_content_type(path: Seq<char>) -> Seq<char>;

/// Calls `mime_guess::from_path(path).first_or_octet_stream()` and returns
/// the MIME type's text; the contract claims only that the text is the one
/// `mime_guess` gives for this path.
#[verifier::external_body]
fn content_type_of(path: &str) -> (r: String)
    ensures
        r@ == guessed_content_type(path@),
{
    let mime = mime_guess::from_path(path).first_or_octet_stream();
    mime.as_ref().to_string()
}

/// How long a served file may be cached: `index.html` must be revalidated,
/// fingerprinted assets under `assets/` may be kept for a year, other files
/// get no caching header.
pub open spec fn cache_control_spec(path: Seq<char>) -> Option<Seq<char>> {
    if path == "index.html"@ {
        Some("no-cache"@)
    } else if starts_with(path, "assets/"@) {
        Some("public, max-age=31536000, immutable"@)
    } else {
        None
    }
}

/// The headers of a served file.
#[derive(Debug, Clone)]
pub struct FileHeaders {
    pub content_type: String,
    pub cache_control: Option<&'static str>,
}

/// The content type and caching header of a served file.
pub fn file_headers(path: &str) -> (h: FileHeaders)
    ensures
        h.content_type@ == guessed_content_type(path@),
        match cache_control_spec(path@) {
            Some(c) => h.cache_control matches Some(v) && v@ == c,
            None => h.cache_control is None,
        },
{
    let v = chars_of(path);
    let cache_control = if str_equal(path, "index.html") {
        Some("no-cache")
    } else if has_prefix(&v, "assets/") {
        Some("public, max-age=31536000, immutable")
    } else {
        None
    };
    FileHeaders { content_type: content_type_of(path), cache_control }
}

} // verus!
