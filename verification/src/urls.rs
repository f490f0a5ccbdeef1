use vstd::prelude::*;

verus! {

/// What resolving a page address against a project's base address yields:
/// the normalized absolute address, or nothing where neither the address
/// alone nor the pair resolves. The outcome depends on the two texts alone.
pub uninterp spec fn resolved_url(base: Seq<char>, url: Seq<char>) -> Option<Seq<char>>;

/// Relies on url::Url::parse and url::Url::join: an absolute address
/// parses on its own; a relative one is joined onto the base; the result
/// is the parsed address's normalized text. The error's text reports why
/// resolution failed.
#[verifier::external_body]
pub fn build_url(base: &str, url: &str) -> (r: Result<String, String>)
    ensures
        match r {
            Ok(s) => resolved_url(base@, url@) == Some(s@),
            Err(_) => resolved_url(base@, url@) is None,
        },
{
    let parsed = match url::Url::parse(url) {
        Ok(u) => Ok(u),
        Err(url::ParseError::RelativeUrlWithoutBase) => {
            url::Url::parse(base).and_then(|b| b.join(url))
        },
        Err(e) => Err(e),
    };
    parsed.map(|u| u.as_str().to_string()).map_err(|e| e.to_string())
}

} // verus!
