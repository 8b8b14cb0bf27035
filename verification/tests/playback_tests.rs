use trellis_sounds::pack::Pack;

#[test]
fn play_plan_keeps_stored_order() {
    let pack = Pack {
        name: String::from("y"),
        base: String::from("cache/sound_packs/y"),
        sounds: vec![
            String::from("b.wav"),
            String::from("c.wav"),
            String::from("a.wav"),
        ],
    };
    let plan = pack.play_plan();
    assert_eq!(
        plan,
        vec![
            "cache/sound_packs/y/b.wav".to_string(),
            "cache/sound_packs/y/c.wav".to_string(),
            "cache/sound_packs/y/a.wav".to_string(),
        ]
    );
}

#[test]
fn play_plan_of_empty_pack_is_empty() {
    let pack = Pack {
        name: String::from("quiet"),
        base: String::from("cache/sound_packs/quiet"),
        sounds: vec![],
    };
    assert!(pack.play_plan().is_empty());
}
