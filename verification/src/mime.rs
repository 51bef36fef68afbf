use vstd::prelude::*;

verus! {

/// `s` ends with `suf`.
pub open spec fn spec_has_suffix(s: Seq<char>, suf: Seq<char>) -> bool {
    suf.len() <= s.len() && s.subrange(s.len() - suf.len(), s.len() as int) == suf
}

/// The read-time MIME policy: derive the type from the file name's extension,
/// falling back to an opaque binary type. This is deliberately independent of
/// the write-time policy, where the caller's declared MIME type is trusted.
pub open spec fn spec_read_mime(name: Seq<char>) -> Seq<char> {
    if spec_has_suffix(name, ".png"@) {
        "image/png"@
    } else if spec_has_suffix(name, ".jpg"@) || spec_has_suffix(name, ".jpeg"@) {
        "image/jpeg"@
    } else if spec_has_suffix(name, ".mp4"@) {
        "video/mp4"@
    } else if spec_has_suffix(name, ".webm"@) {
        "video/webm"@
    } else {
        "application/octet-stream"@
    }
}

fn has_suffix(s: &str, suf: &str) -> (r: bool)
    ensures
        r == spec_has_suffix(s@, suf@),
{
    let n = s.unicode_len();
    let m = suf.unicode_len();
    if m > n {
        return false;
    }
    let mut i: usize = 0;
    while i < m
        invariant
            i <= m <= n,
            n == s@.len(),
            m == suf@.len(),
            forall|j: int| 0 <= j < i ==> s@[n - m + j] == suf@[j],
        decreases m - i,
    {
        if s.get_char(n - m + i) != suf.get_char(i) {
            proof {
                assert(s@.subrange(n - m, n as int)[i as int] != suf@[i as int]);
            }
            return false;
        }
        i = i + 1;
    }
    proof {
        assert(s@.subrange(n - m, n as int) =~= suf@);
    }
    true
}

/// The MIME type served when an asset is read back, derived from the file
/// name's extension with `application/octet-stream` as the fixed fallback.
pub fn read_mime(name: &str) -> (r: String)
    ensures
        r@ == spec_read_mime(name@),
{
    if has_suffix(name, ".png") {
        "image/png".to_owned()
    } else if has_suffix(name, ".jpg") || has_suffix(name, ".jpeg") {
        "image/jpeg".to_owned()
    } else if has_suffix(name, ".mp4") {
        "video/mp4".to_owned()
    } else if has_suffix(name, ".webm") {
        "video/webm".to_owned()
    } else {
        "application/octet-stream".to_owned()
    }
}

} // verus!
