use device_query::Keycode;
use sodkat::event::{GlobalSodKatEvent, SodKatModifier, SodKatState};
use sodkat::setting::{ComboState, Setting, SodKatKey};
use sodkat::sodkat::{is_down, SodKat};

fn press(keycode: Keycode, modifier: Vec<SodKatModifier>) -> GlobalSodKatEvent {
    GlobalSodKatEvent { keycode, state: SodKatState::Press, modifier }
}

fn release(keycode: Keycode, modifier: Vec<SodKatModifier>) -> GlobalSodKatEvent {
    GlobalSodKatEvent { keycode, state: SodKatState::Release, modifier }
}

fn save_table() -> Setting {
    Setting {
        app_name: "test".to_string(),
        version: "0".to_string(),
        keys: vec![SodKatKey {
            key: "C s".to_string(),
            scope: vec![],
            function: "save".to_string(),
        }],
    }
}

#[test]
fn detector_polls_every_ten_milliseconds() {
    assert_eq!(SodKat::new().delay(), 10);
}

#[test]
fn modkeys_lists_each_held_modifier_once() {
    let keys = vec![
        Keycode::A,
        Keycode::RShift,
        Keycode::LControl,
        Keycode::LShift,
        Keycode::RControl,
        Keycode::LMeta,
    ];
    assert_eq!(
        SodKat::modkeys(&keys),
        vec![SodKatModifier::SHIFT, SodKatModifier::CONTROL, SodKatModifier::META]
    );
    assert_eq!(SodKat::modkeys(&vec![Keycode::A, Keycode::Space]), vec![]);
    assert_eq!(SodKat::modkeys(&vec![]), vec![]);
    assert_eq!(SodKat::modkeys(&vec![Keycode::RAlt]), vec![SodKatModifier::ALT]);
}

#[test]
fn is_down_finds_keys_of_the_snapshot() {
    let keys = vec![Keycode::A, Keycode::LControl];
    assert!(is_down(&keys, &Keycode::A));
    assert!(is_down(&keys, &Keycode::LControl));
    assert!(!is_down(&keys, &Keycode::RControl));
    assert!(!is_down(&vec![], &Keycode::A));
}

#[test]
fn unchanged_snapshot_gives_no_event() {
    let keys = vec![Keycode::A, Keycode::LShift];
    assert_eq!(SodKat::transitions(&keys, &keys), vec![]);
    assert_eq!(SodKat::transitions(&vec![], &vec![]), vec![]);
}

#[test]
fn presses_come_before_releases_in_snapshot_order() {
    let last = vec![Keycode::LShift, Keycode::A, Keycode::B];
    let now = vec![Keycode::D, Keycode::LShift, Keycode::C];
    let shift = vec![SodKatModifier::SHIFT];
    assert_eq!(
        SodKat::transitions(&last, &now),
        vec![
            press(Keycode::D, shift.clone()),
            press(Keycode::C, shift.clone()),
            release(Keycode::A, shift.clone()),
            release(Keycode::B, shift.clone()),
        ]
    );
}

#[test]
fn modifier_keys_produce_no_event() {
    let none: Vec<Keycode> = vec![];
    let mods = vec![Keycode::LControl, Keycode::RAlt, Keycode::LMeta, Keycode::RShift];
    assert_eq!(SodKat::transitions(&none, &mods), vec![]);
    assert_eq!(SodKat::transitions(&mods, &none), vec![]);
}

#[test]
fn modifiers_come_from_the_previous_snapshot() {
    // Control and S go down in the same poll: the press sees no modifier yet.
    let none: Vec<Keycode> = vec![];
    let both = vec![Keycode::LControl, Keycode::S];
    assert_eq!(SodKat::transitions(&none, &both), vec![press(Keycode::S, vec![])]);
    // Control and S come up in the same poll: the release still sees Control.
    assert_eq!(
        SodKat::transitions(&both, &none),
        vec![release(Keycode::S, vec![SodKatModifier::CONTROL])]
    );
}

#[test]
fn a_key_listed_twice_in_a_snapshot_gives_two_events() {
    let none: Vec<Keycode> = vec![];
    let twice = vec![Keycode::A, Keycode::A];
    assert_eq!(
        SodKat::transitions(&none, &twice),
        vec![press(Keycode::A, vec![]), press(Keycode::A, vec![])]
    );
}

fn run(snapshots: Vec<Vec<Keycode>>) -> Vec<(GlobalSodKatEvent, Option<String>)> {
    let setting = save_table();
    let mut combo = ComboState::new();
    let mut seen = Vec::new();
    let mut last: Vec<Keycode> = Vec::new();
    for keys in snapshots {
        for ev in SodKat::transitions(&last, &keys) {
            let hit = setting.find(&mut combo, &ev, String::new()).map(|k| k.function.clone());
            seen.push((ev, hit));
        }
        last = keys;
    }
    assert!(!combo.is_armed());
    seen
}

#[test]
fn control_held_before_s_resolves_press_and_release() {
    let seen = run(vec![
        vec![],
        vec![Keycode::LControl],
        vec![Keycode::LControl, Keycode::S],
        vec![Keycode::LControl],
        vec![],
    ]);
    let control = vec![SodKatModifier::CONTROL];
    assert_eq!(
        seen,
        vec![
            (press(Keycode::S, control.clone()), Some("save".to_string())),
            (release(Keycode::S, control.clone()), Some("save".to_string())),
        ]
    );
}

#[test]
fn control_and_s_in_one_poll_resolve_on_release_only() {
    let seen = run(vec![
        vec![],
        vec![Keycode::LControl, Keycode::S],
        vec![Keycode::LControl],
        vec![],
    ]);
    assert_eq!(
        seen,
        vec![
            (press(Keycode::S, vec![]), None),
            (release(Keycode::S, vec![SodKatModifier::CONTROL]), Some("save".to_string())),
        ]
    );
}

#[test]
fn listen_keeps_the_snapshot_for_the_next_round() {
    let sodkat = SodKat::new();
    let mut last: Vec<Keycode> = vec![];
    let first = sodkat.listen(&mut last, vec![Keycode::LShift, Keycode::A]);
    assert_eq!(first, vec![press(Keycode::A, vec![])]);
    assert_eq!(last, vec![Keycode::LShift, Keycode::A]);
    let second = sodkat.listen(&mut last, vec![Keycode::LShift, Keycode::B]);
    let shift = vec![SodKatModifier::SHIFT];
    assert_eq!(second, vec![press(Keycode::B, shift.clone()), release(Keycode::A, shift)]);
    assert_eq!(last, vec![Keycode::LShift, Keycode::B]);
    assert_eq!(sodkat.listen(&mut last, vec![]), vec![release(Keycode::B, vec![SodKatModifier::SHIFT])]);
    assert!(last.is_empty());
}
