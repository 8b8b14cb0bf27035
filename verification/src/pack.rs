//! The pack entity: a named, ordered collection of audio clips drawn from
//! one directory, and its playback plan.

use vstd::prelude::*;
use crate::text::path_join;
use crate::text::path_join_spec;

verus! {

/// The mathematical value of a pack: display name, path of the directory the
/// pack was found in, and its clip file names in stored order.
pub ghost struct PackModel {
    pub name: Seq<char>,
    pub base: Seq<char>,
    pub sounds: Seq<Seq<char>>,
}

/// A named collection of ordered audio clips drawn from one directory.
/// `sounds` holds file names relative to `base`, in stored order.
#[derive(Debug, PartialEq, Eq)]
pub struct Pack {
    pub name: String,
    pub base: String,
    pub sounds: Vec<String>,
}

impl View for Pack {
    type V = PackModel;

    open spec fn view(&self) -> PackModel {
        PackModel { name: self.name@, base: self.base@, sounds: self.sounds.deep_view() }
    }
}

impl DeepView for Pack {
    type V = PackModel;

    open spec fn deep_view(&self) -> PackModel {
        self.view()
    }
}

/// The full path of clip `i` of pack `p`: the pack's base joined with the
/// clip's file name.
pub open spec fn clip_path_spec(p: PackModel, i: int) -> Seq<char> {
    path_join_spec(p.base, p.sounds[i])
}

/// The playback plan of a pack: one full path per clip, the clip stored at
/// position `i` standing at position `i` of the plan, so clips play strictly
/// in stored order when the plan is walked front to back.
pub open spec fn play_plan_spec(p: PackModel) -> Seq<Seq<char>> {
    Seq::new(p.sounds.len(), |i: int| clip_path_spec(p, i))
}

/// Playback ordering: the plan is exactly as long as the clip list and its
/// entry at position `i` is the path of the clip stored at position `i`, so
/// a caller that walks the plan front to back, finishing each clip before
/// opening the next, plays the clips strictly in the pack's stored order.
pub proof fn lemma_play_plan_ordered(p: PackModel)
    ensures
        play_plan_spec(p).len() == p.sounds.len(),
        forall|i: int| 0 <= i < p.sounds.len() ==> play_plan_spec(p)[i] == clip_path_spec(p, i),
{
}

impl Pack {
    /// Builds the ordered playback plan for this pack.
    pub fn play_plan(&self) -> (plan: Vec<String>)
        ensures
            plan.deep_view() == play_plan_spec(self@),
    {
        let mut plan: Vec<String> = Vec::new();
        let n = self.sounds.len();
        for i in 0..n
            invariant
                n == self.sounds.len(),
                plan.len() == i,
                forall|j: int| 0 <= j < i ==> plan.deep_view()[j] == clip_path_spec(self@, j),
        {
            plan.push(path_join(self.base.as_str(), self.sounds[i].as_str()));
        }
        proof {
            assert(plan.deep_view() =~= play_plan_spec(self@));
        }
        plan
    }
}

} // verus!
