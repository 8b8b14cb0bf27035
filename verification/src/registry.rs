//! The registry façade: the discovered pack collection, lookup by name,
//! play-target selection, and the composed load (provision, then discover).

use vstd::prelude::*;
use crate::discovery::scan_spec;
use crate::discovery::scan_tree;
use crate::fs_tree::DirTree;
use crate::pack::Pack;
use crate::pack::PackModel;
use crate::provision::CacheState;
use crate::provision::Step;
use crate::provision::apply_trace;
use crate::provision::provision_run;
use crate::provision::provisioned;
use crate::provision::trace_spec;
use crate::text::str_eq;

verus! {

/// The discovered packs, in discovery order.
#[derive(Debug, PartialEq, Eq)]
pub struct Packs {
    pub packs: Vec<Pack>,
}

impl View for Packs {
    type V = Seq<PackModel>;

    open spec fn view(&self) -> Seq<PackModel> {
        self.packs.deep_view()
    }
}

/// The first pack with the given name, if any.
pub open spec fn find_spec(s: Seq<PackModel>, name: Seq<char>) -> Option<PackModel>
    decreases s.len(),
{
    if s.len() == 0 {
        None
    } else if s[0].name == name {
        Some(s[0])
    } else {
        find_spec(s.drop_first(), name)
    }
}

/// The play target that selects every pack.
pub open spec fn all_target() -> Seq<char> {
    seq!['a', 'l', 'l']
}

/// The packs a play request visits, in order: all of them for the target
/// `all`, else the first pack whose name matches the target, else none.
pub open spec fn selection_spec(s: Seq<PackModel>, target: Seq<char>) -> Seq<PackModel> {
    if target == all_target() {
        s
    } else {
        match find_spec(s, target) {
            Some(p) => seq![p],
            None => Seq::empty(),
        }
    }
}

/// `find_spec` returns the first pack of the given name, and returns nothing
/// exactly when no pack has that name.
pub proof fn lemma_find_first_match(s: Seq<PackModel>, name: Seq<char>)
    ensures
        (find_spec(s, name) is None) <==> (forall|i: int|
            0 <= i < s.len() ==> #[trigger] s[i].name != name),
        (find_spec(s, name) is Some) ==> (exists|i: int|
            0 <= i < s.len() && find_spec(s, name) == Some(#[trigger] s[i]) && s[i].name == name
                && (forall|j: int| 0 <= j < i ==> #[trigger] s[j].name != name)),
    decreases s.len(),
{
    if s.len() > 0 {
        if s[0].name == name {
            assert(find_spec(s, name) == Some(s[0]));
        } else {
            lemma_find_first_match(s.drop_first(), name);
            let rest = s.drop_first();
            assert(forall|i: int| 0 <= i < rest.len() ==> #[trigger] rest[i] == s[i + 1]);
            assert(forall|i: int| 1 <= i < s.len() ==> #[trigger] s[i] == rest[i - 1]);
            if find_spec(rest, name) is Some {
                let i0 = choose|i: int|
                    0 <= i < rest.len() && find_spec(rest, name) == Some(#[trigger] rest[i])
                        && rest[i].name == name && (forall|j: int|
                        0 <= j < i ==> #[trigger] rest[j].name != name);
                assert(s[i0 + 1] == rest[i0]);
                assert(forall|j: int| 0 <= j < i0 + 1 ==> #[trigger] s[j].name != name) by {
                    assert(forall|j: int| 1 <= j < i0 + 1 ==> s[j] == rest[j - 1]);
                }
            }
        }
    }
}

/// Selection semantics: the target `all` visits every pack exactly once, in
/// discovery order; any other target visits the first pack of that name, or
/// no pack at all when none has that name.
pub proof fn lemma_selection_semantics(s: Seq<PackModel>, target: Seq<char>)
    ensures
        target == all_target() ==> selection_spec(s, target) == s,
        target != all_target() ==> selection_spec(s, target).len() <= 1,
        target != all_target() ==> ((selection_spec(s, target).len() == 0) <==> (forall|i: int|
            0 <= i < s.len() ==> #[trigger] s[i].name != target)),
        target != all_target() && selection_spec(s, target).len() == 1 ==> (exists|i: int|
            0 <= i < s.len() && selection_spec(s, target)[0] == #[trigger] s[i] && s[i].name
                == target && (forall|j: int| 0 <= j < i ==> #[trigger] s[j].name != target)),
{
    lemma_find_first_match(s, target);
}

impl Packs {
    /// Looks a pack up by name: the first one of that name, in discovery
    /// order, or nothing when no pack has that name.
    pub fn find_by_name(&self, name: &str) -> (r: Option<&Pack>)
        ensures
            match r {
                Some(p) => find_spec(self@, name@) == Some(p@),
                None => find_spec(self@, name@) is None,
            },
    {
        let n = self.packs.len();
        proof {
            assert(self@.skip(0) =~= self@);
        }
        for i in 0..n
            invariant
                n == self.packs.len(),
                find_spec(self@, name@) == find_spec(self@.skip(i as int), name@),
        {
            proof {
                assert(self@.skip(i as int)[0] == self@[i as int]);
            }
            if str_eq(self.packs[i].name.as_str(), name) {
                return Some(&self.packs[i]);
            }
            proof {
                assert(self@.skip(i as int).drop_first() =~= self@.skip(i + 1));
            }
        }
        proof {
            assert(self@.skip(n as int) =~= Seq::<PackModel>::empty());
        }
        None
    }

    /// The packs a play request for `target` visits, in order: every pack
    /// for the target `all`, else the first pack named `target`, else none.
    pub fn select(&self, target: &str) -> (sel: Vec<&Pack>)
        ensures
            sel.deep_view() == selection_spec(self@, target@),
    {
        if str_eq(target, "all") {
            proof {
                reveal_strlit("all");
                assert(target@ =~= all_target());
            }
            let n = self.packs.len();
            let mut sel: Vec<&Pack> = Vec::new();
            for i in 0..n
                invariant
                    n == self.packs.len(),
                    sel.len() == i,
                    forall|j: int| 0 <= j < i ==> sel.deep_view()[j] == self@[j],
            {
                sel.push(&self.packs[i]);
            }
            proof {
                assert(sel.deep_view() =~= self@);
            }
            sel
        } else {
            proof {
                reveal_strlit("all");
                assert("all"@ =~= all_target());
            }
            match self.find_by_name(target) {
                Some(p) => {
                    let mut sel: Vec<&Pack> = Vec::new();
                    sel.push(p);
                    proof {
                        assert(sel.deep_view() =~= seq![p@]);
                    }
                    sel
                },
                None => {
                    let sel: Vec<&Pack> = Vec::new();
                    proof {
                        assert(sel.deep_view() =~= Seq::<PackModel>::empty());
                    }
                    sel
                },
            }
        }
    }
}

/// Applies `f` to every discovered pack, in discovery order.
pub fn process_packs<F: Fn(&Pack)>(packs: &Packs, f: F)
    requires
        forall|i: int| 0 <= i < packs.packs@.len() ==> call_requires(f, (&packs.packs@[i],)),
{
    let n = packs.packs.len();
    for i in 0..n
        invariant
            n == packs.packs.len(),
            forall|j: int| 0 <= j < n ==> call_requires(f, (&packs.packs@[j],)),
    {
        f(&packs.packs[i]);
    }
}

/// One full load: the provisioning steps owed from `state`, in order, the
/// fully provisioned state they leave behind, and the packs discovered in
/// the extracted tree, whose directory sits under the path `parent`.
pub fn load(state: &CacheState, tree: &DirTree, parent: &str) -> (r: (Vec<Step>, CacheState, Packs))
    ensures
        r.0@ == trace_spec(*state),
        r.1 == apply_trace(*state, trace_spec(*state)),
        provisioned(r.1),
        r.2@ == scan_spec(*tree, parent@),
{
    let (steps, end) = provision_run(state);
    let packs = scan_tree(tree, parent);
    (steps, end, Packs { packs })
}

} // verus!
