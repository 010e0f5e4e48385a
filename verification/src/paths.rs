//! Paths as text, with `/` between their parts.

use vstd::prelude::*;

use crate::text::chars_of;

verus! {

/// The path of the entry `name` in the directory `dir`; an absolute `name` stands
/// for itself.
pub open spec fn path_in(dir: Seq<char>, name: Seq<char>) -> Seq<char> {
    if name.len() > 0 && name[0] == '/' {
        name
    } else if dir.len() == 0 || dir.last() == '/' {
        dir + name
    } else {
        dir + "/"@ + name
    }
}

/// The path of the entry `name` in the directory `dir`; an absolute `name` stands
/// for itself.
pub fn under(dir: &str, name: &str) -> (r: String)
    ensures
        r@ == path_in(dir@, name@),
{
    let ns = chars_of(name);
    if ns.len() > 0 && ns[0] == '/' {
        return name.to_owned();
    }
    let cs = chars_of(dir);
    let mut out = dir.to_owned();
    if cs.len() > 0 && cs[cs.len() - 1] != '/' {
        out.append("/");
    }
    out.append(name);
    out
}

/// A path below a directory begins with the directory and ends with the name,
/// with one slash between them; an absolute name is a path by itself.
pub proof fn law_paths_begin_with_their_directory(dir: Seq<char>, name: Seq<char>)
    requires
        name.len() > 0,
    ensures
        path_in(dir, name).skip(path_in(dir, name).len() - name.len()) == name,
        name[0] == '/' ==> path_in(dir, name) == name,
        name[0] != '/' && dir.len() > 0 && dir.last() != '/' ==> path_in(dir, name).len() == dir.len()
            + 1 + name.len() && path_in(dir, name).take(dir.len() as int) == dir && path_in(
            dir,
            name,
        )[dir.len() as int] == '/',
        name[0] != '/' && dir.len() > 0 && dir.last() == '/' ==> path_in(dir, name).len()
            == dir.len() + name.len() && path_in(dir, name).take(dir.len() as int) == dir,
{
    reveal_strlit("/");
    assert(path_in(dir, name).skip(path_in(dir, name).len() - name.len()) =~= name);
    if name[0] != '/' {
        assert(path_in(dir, name).take(dir.len() as int) =~= dir);
    }
}

} // verus!
