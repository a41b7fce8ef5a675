//! Content-type inference from a request path: paths ending in a separator
//! are HTML; otherwise a fixed extension table keyed on the text after the
//! final dot decides, and an unknown or missing extension yields no header
//! at all.

use vstd::prelude::*;

use crate::text::{lemma_suffix_after_last_at, rfind_char, str_eq, suffix_after_last};

verus! {

/// The fixed extension table: the MIME type for a path suffix, if the
/// suffix is known.
pub open spec fn mime_of_suffix(suffix: Seq<char>) -> Option<Seq<char>> {
    if suffix == "css"@ {
        Some("text/css"@)
    } else if suffix == "html"@ {
        Some("text/html"@)
    } else if suffix == "xml"@ {
        Some("application/xml"@)
    } else if suffix == "js"@ {
        Some("application/javascript"@)
    } else if suffix == "json"@ {
        Some("application/json"@)
    } else if suffix == "svg"@ {
        Some("image/svg+xml"@)
    } else if suffix == "png"@ {
        Some("image/png"@)
    } else if suffix == "jpeg"@ {
        Some("image/jpeg"@)
    } else if suffix == "jpg"@ {
        Some("image/jpeg"@)
    } else if suffix == "ico"@ {
        Some("image/x-icon"@)
    } else if suffix == "ttf"@ {
        Some("font/ttf"@)
    } else if suffix == "woff2"@ {
        Some("font/woff2"@)
    } else if suffix == "txt"@ {
        Some("text/plain"@)
    } else {
        None
    }
}

/// Whether `c` occurs in `s`.
pub open spec fn has_char(s: Seq<char>, c: char) -> bool {
    exists|j: int| 0 <= j < s.len() && s[j] == c
}

/// The content type served for a request path: `text/html` for any path
/// ending in `/`, otherwise the table entry for the text after the final
/// dot, when the path has one.  A path without an extension yields
/// nothing: no header is served and the browser sniffs.
pub open spec fn spec_content_type(path: Seq<char>) -> Option<Seq<char>> {
    if path.len() > 0 && path.last() == '/' {
        Some("text/html"@)
    } else if has_char(path, '.') {
        mime_of_suffix(suffix_after_last(path, '.'))
    } else {
        None
    }
}

/// The view of an optional borrowed string.
pub open spec fn opt_str_view(r: Option<&str>) -> Option<Seq<char>> {
    match r {
        Some(s) => Some(s@),
        None => None,
    }
}

/// The content type to serve for `request_path`, per the fixed table.
pub fn content_type_of(request_path: &str) -> (r: Option<&'static str>)
    ensures
        opt_str_view(r) == spec_content_type(request_path@),
{
    let n = request_path.unicode_len();
    if n > 0 && request_path.get_char(n - 1) == '/' {
        return Some("text/html");
    }
    let suffix_start: usize = match rfind_char(request_path, '.') {
        Some(i) => {
            proof {
                lemma_suffix_after_last_at(request_path@, '.', i as int);
            }
            i + 1
        },
        None => {
            return None;
        },
    };
    let suffix = request_path.substring_char(suffix_start, n);
    proof {
        assert(suffix@ =~= suffix_after_last(request_path@, '.'));
    }
    if str_eq(suffix, "css") {
        Some("text/css")
    } else if str_eq(suffix, "html") {
        Some("text/html")
    } else if str_eq(suffix, "xml") {
        Some("application/xml")
    } else if str_eq(suffix, "js") {
        Some("application/javascript")
    } else if str_eq(suffix, "json") {
        Some("application/json")
    } else if str_eq(suffix, "svg") {
        Some("image/svg+xml")
    } else if str_eq(suffix, "png") {
        Some("image/png")
    } else if str_eq(suffix, "jpeg") {
        Some("image/jpeg")
    } else if str_eq(suffix, "jpg") {
        Some("image/jpeg")
    } else if str_eq(suffix, "ico") {
        Some("image/x-icon")
    } else if str_eq(suffix, "ttf") {
        Some("font/ttf")
    } else if str_eq(suffix, "woff2") {
        Some("font/woff2")
    } else if str_eq(suffix, "txt") {
        Some("text/plain")
    } else {
        None
    }
}

} // verus!
