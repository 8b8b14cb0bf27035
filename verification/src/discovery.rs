//! Pack discovery: a depth-first walk of a directory tree that turns every
//! directory into one pack — unless the directory's name follows the
//! container naming convention — and collects each directory's `.wav` files,
//! in stored order, as that pack's clips.

use vstd::prelude::*;
use crate::fs_tree::DirTree;
use crate::pack::Pack;
use crate::pack::PackModel;
use crate::text::is_container_dir;
use crate::text::is_container_name;
use crate::text::is_wav_file;
use crate::text::is_wav_name;
use crate::text::path_join;
use crate::text::path_join_spec;

verus! {

/// The clip list of one directory: the file names that pass the `.wav`
/// filter, keeping their stored order.
pub open spec fn wav_clips(files: Seq<Seq<char>>) -> Seq<Seq<char>>
    decreases files.len(),
{
    if files.len() == 0 {
        Seq::empty()
    } else {
        wav_clips(files.drop_last()) + if is_wav_name(files.last()) {
            seq![files.last()]
        } else {
            Seq::empty()
        }
    }
}

/// The pack a directory would yield for itself: named after the directory,
/// based at the directory's path, holding the directory's own clips only.
pub open spec fn own_pack(t: DirTree, parent: Seq<char>) -> PackModel {
    PackModel {
        name: t.name@,
        base: path_join_spec(parent, t.name@),
        sounds: wav_clips(t.files.deep_view()),
    }
}

/// What discovery yields for directory `t` sitting under the path `parent`:
/// everything the subdirectories yield, in order, then one pack for `t`
/// itself — unless `t`'s name marks it as a container.
pub open spec fn scan_spec(t: DirTree, parent: Seq<char>) -> Seq<PackModel>
    decreases t, 1int,
{
    let children = scan_list_spec(t.subdirs@, path_join_spec(parent, t.name@));
    if is_container_name(t.name@) {
        children
    } else {
        children.push(own_pack(t, parent))
    }
}

/// Discovery over a list of sibling directories, in order.
pub open spec fn scan_list_spec(ts: Seq<DirTree>, parent: Seq<char>) -> Seq<PackModel>
    decreases ts, 0int,
{
    if ts.len() == 0 {
        Seq::empty()
    } else {
        scan_list_spec(ts.drop_last(), parent) + scan_spec(ts.last(), parent)
    }
}

/// How many packs discovery owes for the tree rooted at `t`: one per
/// directory whose name lacks the container mark, none for the others,
/// whatever any directory contains.
pub open spec fn emitted_count(t: DirTree) -> nat
    decreases t, 1int,
{
    emitted_count_list(t.subdirs@) + if is_container_name(t.name@) {
        0nat
    } else {
        1nat
    }
}

/// The owed pack count over a list of sibling directories.
pub open spec fn emitted_count_list(ts: Seq<DirTree>) -> nat
    decreases ts, 0int,
{
    if ts.len() == 0 {
        0nat
    } else {
        emitted_count_list(ts.drop_last()) + emitted_count(ts.last())
    }
}

/// Every name in `sounds` carries the `.wav` extension.
pub open spec fn all_wav(sounds: Seq<Seq<char>>) -> bool {
    forall|j: int| 0 <= j < sounds.len() ==> is_wav_name(#[trigger] sounds[j])
}

/// The `.wav` filter lets only `.wav` names through.
pub proof fn lemma_wav_clips_all_wav(files: Seq<Seq<char>>)
    ensures
        all_wav(wav_clips(files)),
    decreases files.len(),
{
    if files.len() > 0 {
        lemma_wav_clips_all_wav(files.drop_last());
    }
}

/// Extension filter: a file name without the `.wav` extension never appears
/// in any discovered pack's clip list, however deep the tree.
pub proof fn lemma_extension_filter(t: DirTree, parent: Seq<char>)
    ensures
        forall|i: int|
            0 <= i < scan_spec(t, parent).len() ==> all_wav(
                #[trigger] scan_spec(t, parent)[i].sounds,
            ),
    decreases t, 1int,
{
    lemma_extension_filter_list(t.subdirs@, path_join_spec(parent, t.name@));
    lemma_wav_clips_all_wav(t.files.deep_view());
    let res = scan_spec(t, parent);
    let children = scan_list_spec(t.subdirs@, path_join_spec(parent, t.name@));
    assert forall|i: int| 0 <= i < res.len() implies all_wav(#[trigger] res[i].sounds) by {
        if i < children.len() {
            assert(res[i] == children[i]);
            assert(all_wav(children[i].sounds));
        } else {
            assert(res[i] == own_pack(t, parent));
        }
    }
}

/// Extension filter over a list of sibling directories.
pub proof fn lemma_extension_filter_list(ts: Seq<DirTree>, parent: Seq<char>)
    ensures
        forall|i: int|
            0 <= i < scan_list_spec(ts, parent).len() ==> all_wav(
                #[trigger] scan_list_spec(ts, parent)[i].sounds,
            ),
    decreases ts, 0int,
{
    if ts.len() > 0 {
        lemma_extension_filter_list(ts.drop_last(), parent);
        lemma_extension_filter(ts.last(), parent);
        let res = scan_list_spec(ts, parent);
        let prefix = scan_list_spec(ts.drop_last(), parent);
        let tail = scan_spec(ts.last(), parent);
        assert forall|i: int| 0 <= i < res.len() implies all_wav(#[trigger] res[i].sounds) by {
            if i < prefix.len() {
                assert(res[i] == prefix[i]);
                assert(all_wav(prefix[i].sounds));
            } else {
                assert(res[i] == tail[i - prefix.len()]);
                assert(all_wav(tail[i - prefix.len()].sounds));
            }
        }
    }
}

/// Naming exclusion: a directory whose name contains `packs` yields no pack
/// of its own — discovery on it yields exactly its children's packs — while
/// any other directory yields exactly one pack for itself, clips or no
/// clips; in all, one pack per visited non-container directory.
pub proof fn lemma_naming_exclusion(t: DirTree, parent: Seq<char>)
    ensures
        is_container_name(t.name@) ==> scan_spec(t, parent) == scan_list_spec(
            t.subdirs@,
            path_join_spec(parent, t.name@),
        ),
        !is_container_name(t.name@) ==> scan_spec(t, parent) == scan_list_spec(
            t.subdirs@,
            path_join_spec(parent, t.name@),
        ).push(own_pack(t, parent)),
        scan_spec(t, parent).len() == emitted_count(t),
    decreases t, 1int,
{
    lemma_naming_exclusion_list(t.subdirs@, path_join_spec(parent, t.name@));
}

/// The pack count over a list of sibling directories matches what is owed.
pub proof fn lemma_naming_exclusion_list(ts: Seq<DirTree>, parent: Seq<char>)
    ensures
        scan_list_spec(ts, parent).len() == emitted_count_list(ts),
    decreases ts, 0int,
{
    if ts.len() > 0 {
        lemma_naming_exclusion_list(ts.drop_last(), parent);
        lemma_naming_exclusion(ts.last(), parent);
    }
}

/// Depth-first composition: discovery walks siblings in order, children
/// before the directory that contains them, so splitting a sibling list
/// anywhere splits the discovered packs in the same place.
pub proof fn lemma_scan_list_concat(a: Seq<DirTree>, b: Seq<DirTree>, parent: Seq<char>)
    ensures
        scan_list_spec(a + b, parent) == scan_list_spec(a, parent) + scan_list_spec(b, parent),
    decreases b.len(),
{
    if b.len() == 0 {
        assert(a + b =~= a);
        assert(scan_list_spec(a, parent) + scan_list_spec(b, parent) =~= scan_list_spec(
            a,
            parent,
        ));
    } else {
        assert((a + b).drop_last() =~= a + b.drop_last());
        assert((a + b).last() == b.last());
        lemma_scan_list_concat(a, b.drop_last(), parent);
        assert(scan_list_spec(a, parent) + scan_list_spec(b.drop_last(), parent) + scan_spec(
            b.last(),
            parent,
        ) =~= scan_list_spec(a, parent) + scan_list_spec(b, parent));
    }
}

/// Collects the `.wav` file names of one directory, in stored order.
pub fn collect_wavs(files: &Vec<String>) -> (clips: Vec<String>)
    ensures
        clips.deep_view() == wav_clips(files.deep_view()),
{
    let mut clips: Vec<String> = Vec::new();
    let n = files.len();
    for i in 0..n
        invariant
            n == files.len(),
            clips.deep_view() =~= wav_clips(files.deep_view().take(i as int)),
    {
        if is_wav_file(files[i].as_str()) {
            clips.push(files[i].clone());
        }
        proof {
            let fv = files.deep_view();
            assert(fv.take(i + 1).drop_last() =~= fv.take(i as int));
            assert(fv.take(i + 1).last() == fv[i as int]);
        }
    }
    proof {
        assert(files.deep_view().take(n as int) =~= files.deep_view());
    }
    clips
}

/// Discovers the packs of the tree rooted at `t`, whose own directory sits
/// under the path `parent`: depth-first, children before the directory that
/// contains them, one pack per directory whose name lacks the container mark.
pub fn scan_tree(t: &DirTree, parent: &str) -> (packs: Vec<Pack>)
    ensures
        packs.deep_view() == scan_spec(*t, parent@),
    decreases *t,
{
    let base = path_join(parent, t.name.as_str());
    let mut packs: Vec<Pack> = Vec::new();
    let nd = t.subdirs.len();
    for i in 0..nd
        invariant
            nd == t.subdirs.len(),
            base@ == path_join_spec(parent@, t.name@),
            packs.deep_view() =~= scan_list_spec(t.subdirs@.take(i as int), base@),
        decreases nd - i,
    {
        assert(decreases_to!(*t => t.subdirs@[i as int]));
        let mut sub = scan_tree(&t.subdirs[i], base.as_str());
        packs.append(&mut sub);
        proof {
            let ds = t.subdirs@;
            assert(ds.take(i + 1).drop_last() =~= ds.take(i as int));
            assert(ds.take(i + 1).last() == ds[i as int]);
            assert(packs.deep_view() =~= scan_list_spec(ds.take(i + 1), base@));
        }
    }
    proof {
        assert(t.subdirs@.take(nd as int) =~= t.subdirs@);
    }
    if !is_container_dir(t.name.as_str()) {
        let clips = collect_wavs(&t.files);
        let own = Pack { name: t.name.clone(), base, sounds: clips };
        packs.push(own);
        proof {
            assert(packs.deep_view() =~= scan_spec(*t, parent@));
        }
    }
    packs
}

} // verus!
