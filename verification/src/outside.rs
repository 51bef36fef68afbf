use vstd::prelude::*;

verus! {

/// What `mime_guess` answers for a file name. The guess resolves the name's
/// extension against a fixed built-in table, so it is a function of the name
/// alone; its value only gets a name here.
pub uninterp spec fn guessed_mime_of(name: Seq<char>) -> Seq<char>;

/// Relies on uuid's `Uuid::new_v4` and its `Display` form: a fresh random
/// version-4 UUID rendered hyphenated, which is 36 characters. Nothing is
/// promised of the value itself: two calls may in principle collide, and the
/// caller checks the drawn id against the registry instead.
#[verifier::external_body]
pub(crate) fn fresh_workspace_id() -> (r: String)
    ensures
        r@.len() == 36,
{
    uuid::Uuid::new_v4().to_string()
}

/// Relies on chrono's `Local::now` and `DateTime::to_rfc3339`: the current
/// local time rendered as an RFC 3339 string. The result depends on the
/// clock, so nothing is promised of it.
#[verifier::external_body]
pub(crate) fn current_timestamp() -> String {
    chrono::Local::now().to_rfc3339()
}

/// Relies on mime_guess's `from_path` and `MimeGuess::first_or_octet_stream`:
/// the MIME type guessed from the name's extension, `application/octet-stream`
/// where the table knows no mapping. Both outcomes are non-empty strings.
#[verifier::external_body]
pub(crate) fn guess_mime(name: &str) -> (r: String)
    ensures
        r@ == guessed_mime_of(name@),
        r@.len() > 0,
{
    mime_guess::from_path(name).first_or_octet_stream().to_string()
}

} // verus!
