//! The fixed security header set served with every response, as recommended
//! for browser-facing endpoints: frame denial, sniffing protection, strict
//! transport security with a one-year max-age including subdomains, and a
//! same-origin referrer policy.

use vstd::prelude::*;

verus! {

/// The four security header pairs, in serving order.
pub open spec fn security_headers_view() -> Seq<(Seq<char>, Seq<char>)> {
    seq![
        ("X-Frame-Options"@, "DENY"@),
        ("X-Content-Type-Options"@, "nosniff"@),
        ("Strict-Transport-Security"@, "max-age=31536000 ; includeSubDomains"@),
        ("Referrer-Policy"@, "same-origin"@),
    ]
}

/// List of recommended security headers.  These headers enable browser
/// security features, such as iFrame policies and MIME sniffing limits.
pub fn security_headers() -> (r: Vec<(String, String)>)
    ensures
        r.deep_view() =~= security_headers_view(),
{
    let mut r: Vec<(String, String)> = Vec::new();
    r.push(("X-Frame-Options".to_owned(), "DENY".to_owned()));
    r.push(("X-Content-Type-Options".to_owned(), "nosniff".to_owned()));
    r.push((
        "Strict-Transport-Security".to_owned(),
        "max-age=31536000 ; includeSubDomains".to_owned(),
    ));
    r.push(("Referrer-Policy".to_owned(), "same-origin".to_owned()));
    proof {
        assert(r.deep_view() =~= security_headers_view());
    }
    r
}

} // verus!
