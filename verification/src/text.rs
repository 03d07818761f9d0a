//! Comparing and joining strings, stated over their characters.

use vstd::prelude::*;
use vstd::string::{StrSliceExecFns, StringExecFns, StringSliceAdditionalSpecFns};

verus! {

/// Whether two strings hold the same characters.
pub fn same_text(a: &str, b: &str) -> (r: bool)
    ensures
        r == (a@ == b@),
{
    let x = a.as_bytes();
    let y = b.as_bytes();
    proof {
        vstd::utf8::encode_utf8_decode_utf8(a@);
        vstd::utf8::encode_utf8_decode_utf8(b@);
    }
    if x.len() != y.len() {
        return false;
    }
    let n: usize = x.len();
    let mut i: usize = 0;
    while i < n
        invariant
            i <= n,
            n == x@.len(),
            n == y@.len(),
            x@ == a.spec_bytes(),
            y@ == b.spec_bytes(),
            forall|k: int| 0 <= k < i ==> x@[k] == y@[k],
        decreases n - i,
    {
        if x[i] != y[i] {
            return false;
        }
        i += 1;
    }
    assert(x@ =~= y@);
    true
}

/// The path of `child` below `base`, with `/` between the two where `base`
/// does not end in one. A `child` that starts at the root stands alone.
pub open spec fn joined(base: Seq<char>, child: Seq<char>) -> Seq<char> {
    if child.len() > 0 && child[0] == '/' {
        child
    } else if base.len() == 0 || base.last() == '/' {
        base + child
    } else {
        base + seq!['/'] + child
    }
}

/// Joins two paths.
pub fn join_path(base: &str, child: &str) -> (r: String)
    ensures
        r@ == joined(base@, child@),
{
    if child.unicode_len() > 0 && child.get_char(0) == '/' {
        return child.to_owned();
    }
    let n: usize = base.unicode_len();
    if n == 0 || base.get_char(n - 1) == '/' {
        return base.to_owned().concat(child);
    }
    proof {
        reveal_strlit("/");
    }
    base.to_owned().concat("/").concat(child)
}

/// Whether a member of a workspace stands for every entry of a directory: it
/// ends in `/*`.
pub open spec fn is_glob(member: Seq<char>) -> bool {
    member.len() >= 2 && member[member.len() - 2] == '/' && member[member.len() - 1] == '*'
}

/// What stands before the `/*` of a member.
pub open spec fn glob_prefix(member: Seq<char>) -> Seq<char> {
    member.subrange(0, member.len() - 2)
}

/// The directory that a member ending in `/*` names, if it is one.
pub fn split_glob(member: &str) -> (r: Option<&str>)
    ensures
        match r {
            Some(prefix) => is_glob(member@) && prefix@ == glob_prefix(member@),
            None => !is_glob(member@),
        },
{
    let n: usize = member.unicode_len();
    if n >= 2 && member.get_char(n - 2) == '/' && member.get_char(n - 1) == '*' {
        Some(member.substring_char(0, n - 2))
    } else {
        None
    }
}

} // verus!
