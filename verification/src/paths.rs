use vstd::prelude::*;
use vstd::string::*;

verus! {

/// What `Path::join` gives on Unix for a base path and a further component.
pub open spec fn path_join(base: Seq<char>, rel: Seq<char>) -> Seq<char> {
    if rel.len() > 0 && rel[0] == '/' {
        rel
    } else if base.len() == 0 || base.last() == '/' {
        base + rel
    } else {
        base + seq!['/'] + rel
    }
}

/// Joins `rel` onto `base` the way `Path::join` does on Unix.
pub fn join(base: &str, rel: &str) -> (r: String)
    ensures
        r@ == path_join(base@, rel@),
{
    let rel_len = rel.unicode_len();
    if rel_len > 0 && rel.get_char(0) == '/' {
        return String::from_str(rel);
    }
    let base_len = base.unicode_len();
    let mut r = String::from_str(base);
    if base_len == 0 || base.get_char(base_len - 1) == '/' {
        r.append(rel);
    } else {
        r.append("/");
        proof { reveal_strlit("/"); }
        r.append(rel);
    }
    r
}

} // verus!
