use std::cell::RefCell;

use trellis_sounds::fs_tree::DirTree;
use trellis_sounds::discovery::scan_tree;
use trellis_sounds::pack::Pack;
use trellis_sounds::provision::CacheState;
use trellis_sounds::provision::Step;
use trellis_sounds::registry::load;
use trellis_sounds::registry::process_packs;
use trellis_sounds::registry::Packs;

fn pack(name: &str, base: &str, sounds: &[&str]) -> Pack {
    Pack {
        name: String::from(name),
        base: String::from(base),
        sounds: sounds.iter().map(|s| String::from(*s)).collect(),
    }
}

fn sample() -> Packs {
    Packs {
        packs: vec![
            pack("x", "cache/sound_packs/groupA_packs/x", &["a.wav"]),
            pack("y", "cache/sound_packs/y", &["b.wav", "c.wav"]),
            pack("x", "cache/sound_packs/other/x", &["d.wav"]),
        ],
    }
}

#[test]
fn find_by_name_returns_first_match() {
    let packs = sample();
    let found = packs.find_by_name("x").expect("pack x should be found");
    assert_eq!(found.base, "cache/sound_packs/groupA_packs/x");
    let found = packs.find_by_name("y").expect("pack y should be found");
    assert_eq!(found.sounds, vec!["b.wav".to_string(), "c.wav".to_string()]);
    assert!(packs.find_by_name("z").is_none());
}

#[test]
fn select_all_visits_every_pack_once_in_order() {
    let packs = sample();
    let sel = packs.select("all");
    assert_eq!(sel.len(), 3);
    assert_eq!(sel[0].base, "cache/sound_packs/groupA_packs/x");
    assert_eq!(sel[1].base, "cache/sound_packs/y");
    assert_eq!(sel[2].base, "cache/sound_packs/other/x");
}

#[test]
fn select_by_name_visits_first_match_only() {
    let packs = sample();
    let sel = packs.select("x");
    assert_eq!(sel.len(), 1);
    assert_eq!(sel[0].base, "cache/sound_packs/groupA_packs/x");
}

#[test]
fn select_unknown_name_visits_nothing() {
    let packs = sample();
    assert!(packs.select("nothere").is_empty());
}

#[test]
fn process_packs_visits_in_discovery_order() {
    let packs = sample();
    let visited: RefCell<Vec<String>> = RefCell::new(Vec::new());
    process_packs(&packs, |p: &Pack| visited.borrow_mut().push(p.base.clone()));
    assert_eq!(
        visited.into_inner(),
        vec![
            "cache/sound_packs/groupA_packs/x".to_string(),
            "cache/sound_packs/y".to_string(),
            "cache/sound_packs/other/x".to_string(),
        ]
    );
}

#[test]
fn load_provisions_and_matches_independent_scan() {
    let tree = DirTree {
        name: String::from("sound_packs"),
        files: vec![],
        subdirs: vec![
            DirTree {
                name: String::from("groupA_packs"),
                files: vec![],
                subdirs: vec![DirTree {
                    name: String::from("x"),
                    files: vec![String::from("a.wav")],
                    subdirs: vec![],
                }],
            },
            DirTree {
                name: String::from("y"),
                files: vec![String::from("b.wav"), String::from("c.wav")],
                subdirs: vec![],
            },
        ],
    };
    let missing = CacheState { root_exists: false, archive_exists: false, extracted_exists: false };
    let (steps, end, packs) = load(&missing, &tree, "cache");
    assert_eq!(steps, vec![Step::CreateRoot, Step::FetchArchive, Step::ExtractArchive]);
    assert!(end.root_exists && end.archive_exists && end.extracted_exists);
    let independent = scan_tree(&tree, "cache");
    assert_eq!(packs.packs, independent);
    assert_eq!(packs.packs.len(), 2);
    assert_eq!(packs.packs[0].name, "x");
    assert_eq!(packs.packs[1].name, "y");
}
