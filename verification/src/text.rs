//! Text predicates the pack manager's rules are built from: the `.wav`
//! extension filter, the `"packs"` naming convention for container
//! directories, and path concatenation.

use vstd::prelude::*;
use vstd::string::*;

verus! {

/// A file name designates an audio clip when it ends in `.wav` and has a
/// non-empty stem before the extension (so a bare `.wav` is not a clip),
/// matching how a file name's extension is conventionally read.
pub open spec fn is_wav_name(s: Seq<char>) -> bool {
    &&& s.len() >= 5
    &&& s[s.len() - 4] == '.'
    &&& s[s.len() - 3] == 'w'
    &&& s[s.len() - 2] == 'a'
    &&& s[s.len() - 1] == 'v'
}

/// The substring `packs` starts at position `i` of `s`.
pub open spec fn packs_at(s: Seq<char>, i: int) -> bool {
    &&& 0 <= i
    &&& i + 5 <= s.len()
    &&& s[i] == 'p'
    &&& s[i + 1] == 'a'
    &&& s[i + 2] == 'c'
    &&& s[i + 3] == 'k'
    &&& s[i + 4] == 's'
}

/// A directory name marks a container (a collection of packs, never a pack
/// itself) exactly when it contains the substring `packs` anywhere.
pub open spec fn is_container_name(s: Seq<char>) -> bool {
    exists|i: int| packs_at(s, i)
}

/// A path joined with one more component: `parent`, a slash, `name`.
pub open spec fn path_join_spec(parent: Seq<char>, name: Seq<char>) -> Seq<char> {
    parent + seq!['/'] + name
}

/// Decides the `.wav` extension filter on a file name.
pub fn is_wav_file(name: &str) -> (r: bool)
    ensures
        r == is_wav_name(name@),
{
    let n = name.unicode_len();
    if n < 5 {
        return false;
    }
    name.get_char(n - 4) == '.' && name.get_char(n - 3) == 'w' && name.get_char(n - 2) == 'a'
        && name.get_char(n - 1) == 'v'
}

/// Decides whether a directory name follows the container naming convention,
/// i.e. contains the substring `packs`.
pub fn is_container_dir(name: &str) -> (r: bool)
    ensures
        r == is_container_name(name@),
{
    let n = name.unicode_len();
    if n < 5 {
        assert(forall|i: int| !packs_at(name@, i));
        return false;
    }
    let mut i: usize = 0;
    while i <= n - 5
        invariant
            5 <= n == name@.len(),
            i <= n - 4,
            forall|j: int| 0 <= j < i ==> !packs_at(name@, j),
        decreases n - i,
    {
        if name.get_char(i) == 'p' && name.get_char(i + 1) == 'a' && name.get_char(i + 2) == 'c'
            && name.get_char(i + 3) == 'k' && name.get_char(i + 4) == 's' {
            assert(packs_at(name@, i as int));
            return true;
        }
        i = i + 1;
    }
    assert(forall|j: int| i <= j ==> !packs_at(name@, j));
    false
}

/// Joins a parent path and a child component with a slash.
pub fn path_join(parent: &str, name: &str) -> (r: String)
    ensures
        r@ == path_join_spec(parent@, name@),
{
    let mut s = String::from_str(parent);
    s.append("/");
    s.append(name);
    proof {
        reveal_strlit("/");
        assert(s@ =~= path_join_spec(parent@, name@));
    }
    s
}

/// Character-by-character string equality, pinned to the views.
pub fn str_eq(a: &str, b: &str) -> (r: bool)
    ensures
        r == (a@ == b@),
{
    let na = a.unicode_len();
    let nb = b.unicode_len();
    if na != nb {
        proof {
            assert(a@ != b@) by {
                assert(a@.len() != b@.len());
            }
        }
        return false;
    }
    let mut i: usize = 0;
    while i < na
        invariant
            na == a@.len(),
            na == b@.len(),
            i <= na,
            forall|j: int| 0 <= j < i ==> a@[j] == b@[j],
        decreases na - i,
    {
        if a.get_char(i) != b.get_char(i) {
            return false;
        }
        i = i + 1;
    }
    proof {
        assert(a@ =~= b@);
    }
    true
}

} // verus!
