//! File system paths as text, joined the way `Path::join` joins them on
//! Unix: a relative component is appended after a `/` separator, and an
//! absolute one replaces the path.
use vstd::prelude::*;

verus! {

/// `dir.join(name)`.
pub open spec fn join_path_spec(dir: Seq<char>, name: Seq<char>) -> Seq<char> {
    if name.len() > 0 && name[0] == '/' {
        name
    } else if dir.len() == 0 || dir.last() == '/' {
        dir + name
    } else {
        dir + seq!['/'] + name
    }
}

/// `Path::join` on Unix.
pub fn join_path(dir: &str, name: &str) -> (r: String)
    ensures
        r@ == join_path_spec(dir@, name@),
{
    if name.unicode_len() > 0 && name.get_char(0) == '/' {
        return name.to_owned();
    }
    let n = dir.unicode_len();
    let mut out = dir.to_owned();
    if n > 0 && dir.get_char(n - 1) != '/' {
        crate::text::push_char(&mut out, '/');
    }
    out.append(name);
    out
}

} // verus!
