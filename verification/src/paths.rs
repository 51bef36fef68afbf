use vstd::prelude::*;

verus! {

/// The resolved file name of a path: everything after the last `/`, or the
/// whole path when it holds no `/`. A path that ends in `/` resolves to the
/// empty name, which callers reject.
pub open spec fn spec_base_name(s: Seq<char>) -> Seq<char>
    decreases s.len(),
{
    if s.len() == 0 {
        s
    } else if s.last() == '/' {
        Seq::empty()
    } else {
        spec_base_name(s.drop_last()).push(s.last())
    }
}

/// The directory part of a path: everything before the last `/`, or the
/// empty string when it holds no `/`.
pub open spec fn spec_dir_name(s: Seq<char>) -> Seq<char>
    decreases s.len(),
{
    if s.len() == 0 {
        Seq::empty()
    } else if s.last() == '/' {
        s.drop_last()
    } else {
        spec_dir_name(s.drop_last())
    }
}

proof fn lemma_base_name_after_slash(s: Seq<char>, i: int)
    requires
        0 <= i < s.len(),
        s[i] == '/',
        forall|j: int| i < j < s.len() ==> s[j] != '/',
    ensures
        spec_base_name(s) =~= s.subrange(i + 1, s.len() as int),
        spec_dir_name(s) =~= s.subrange(0, i),
    decreases s.len(),
{
    if i == s.len() - 1 {
        assert(s.last() == '/');
    } else {
        assert(s.last() != '/');
        assert forall|j: int| i < j < s.drop_last().len() implies s.drop_last()[j] != '/' by {
            assert(s.drop_last()[j] == s[j]);
        }
        lemma_base_name_after_slash(s.drop_last(), i);
        assert(spec_base_name(s) =~= s.drop_last().subrange(i + 1, s.len() - 1).push(s.last()));
    }
}

proof fn lemma_base_name_no_slash(s: Seq<char>)
    requires
        forall|j: int| 0 <= j < s.len() ==> s[j] != '/',
    ensures
        spec_base_name(s) =~= s,
        spec_dir_name(s) =~= Seq::<char>::empty(),
    decreases s.len(),
{
    if s.len() > 0 {
        assert(s.last() != '/');
        lemma_base_name_no_slash(s.drop_last());
    }
}

/// A resolved name that names no file: empty, the current directory `.`, or
/// the parent directory `..`. Such names are refused wherever a blob file
/// name is needed.
pub open spec fn spec_unusable_name(s: Seq<char>) -> bool {
    s.len() == 0 || s =~= seq!['.'] || s =~= seq!['.', '.']
}

/// Whether `s` is unusable as a blob file name, per `spec_unusable_name`.
pub fn unusable_name(s: &str) -> (r: bool)
    ensures
        r == spec_unusable_name(s@),
{
    let n = s.unicode_len();
    if n == 0 {
        return true;
    }
    if n == 1 {
        let c = s.get_char(0);
        proof {
            if c == '.' {
                assert(s@ =~= seq!['.']);
            }
        }
        return c == '.';
    }
    if n == 2 {
        let c0 = s.get_char(0);
        let c1 = s.get_char(1);
        proof {
            if c0 == '.' && c1 == '.' {
                assert(s@ =~= seq!['.', '.']);
            }
        }
        return c0 == '.' && c1 == '.';
    }
    false
}

/// The index of the last `/` in the path, if any.
fn find_last_slash(path: &str) -> (r: Option<usize>)
    ensures
        match r {
            Some(i) => i < path@.len() && path@[i as int] == '/' && (forall|j: int|
                i < j < path@.len() ==> path@[j] != '/'),
            None => forall|j: int| 0 <= j < path@.len() ==> path@[j] != '/',
        },
{
    let n = path.unicode_len();
    let mut i = n;
    while i > 0
        invariant
            i <= n,
            n == path@.len(),
            forall|j: int| i <= j < n ==> path@[j] != '/',
        decreases i,
    {
        i = i - 1;
        if path.get_char(i) == '/' {
            return Some(i);
        }
    }
    None
}

/// The resolved file name of `path`, per `spec_base_name`.
pub fn base_name(path: &str) -> (r: String)
    ensures
        r@ == spec_base_name(path@),
{
    let n = path.unicode_len();
    match find_last_slash(path) {
        Some(i) => {
            proof {
                lemma_base_name_after_slash(path@, i as int);
            }
            path.substring_char(i + 1, n).to_owned()
        },
        None => {
            proof {
                lemma_base_name_no_slash(path@);
            }
            path.to_owned()
        },
    }
}

/// The directory part of `path`, per `spec_dir_name`.
pub fn dir_name(path: &str) -> (r: String)
    ensures
        r@ == spec_dir_name(path@),
{
    match find_last_slash(path) {
        Some(i) => {
            proof {
                lemma_base_name_after_slash(path@, i as int);
            }
            path.substring_char(0, i).to_owned()
        },
        None => {
            proof {
                lemma_base_name_no_slash(path@);
            }
            String::new()
        },
    }
}

} // verus!
