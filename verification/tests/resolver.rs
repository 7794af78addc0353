use device_query::Keycode;
use sodkat::event::{GlobalSodKatEvent, SodKatModifier, SodKatState};
use sodkat::pattern::split_steps;
use sodkat::setting::{ComboState, Setting, SodKatKey};

fn binding(key: &str, scope: &[&str], function: &str) -> SodKatKey {
    SodKatKey {
        key: key.to_string(),
        scope: scope.iter().map(|s| s.to_string()).collect(),
        function: function.to_string(),
    }
}

fn table(keys: Vec<SodKatKey>) -> Setting {
    Setting { app_name: "test".to_string(), version: "0".to_string(), keys }
}

fn action(hit: Option<&SodKatKey>) -> Option<&str> {
    hit.map(|k| k.function.as_str())
}

fn global() -> String {
    String::new()
}

#[test]
fn default_setting_holds_one_global_binding() {
    let setting = Setting::default();
    assert_eq!(setting.app_name, "SodKat");
    assert_eq!(setting.version, "1.0.0");
    assert_eq!(setting.keys, vec![binding("C-S-A s", &[], "do_something")]);
}

#[test]
fn new_keeps_what_was_loaded() {
    let loaded = table(vec![binding("C s", &["editor.exe"], "save")]);
    assert_eq!(Setting::new(Some(loaded.clone())), loaded);
}

#[test]
fn new_falls_back_to_the_default() {
    assert_eq!(Setting::new(None), Setting::default());
}

#[test]
fn patterns_split_into_steps() {
    assert_eq!(split_steps("s"), vec!["s"]);
    assert_eq!(split_steps("C s"), vec!["C s"]);
    assert_eq!(split_steps("c s"), vec!["c", "s"]);
    assert_eq!(split_steps("C-A x y"), vec!["C-A x", "y"]);
    assert_eq!(split_steps("x C-A y"), vec!["x", "C-A y"]);
    assert_eq!(split_steps("A-C x M-S y"), vec!["A-C x", "M-S y"]);
    assert_eq!(split_steps("C-S-A s"), vec!["C-S-A s"]);
    assert_eq!(split_steps("a b c"), vec!["a", "b", "c"]);
}

#[test]
fn odd_patterns_still_split() {
    assert_eq!(split_steps(""), vec![""]);
    assert_eq!(split_steps(" "), vec!["", ""]);
    assert_eq!(split_steps("a "), vec!["a", ""]);
    assert_eq!(split_steps("C"), vec!["C"]);
    assert_eq!(split_steps("C "), vec!["C "]);
    assert_eq!(split_steps("C  s"), vec!["C ", "s"]);
    assert_eq!(split_steps("C- s"), vec!["C-", "s"]);
    assert_eq!(split_steps("-C s"), vec!["-C", "s"]);
    assert_eq!(split_steps("CA s"), vec!["CA", "s"]);
    assert_eq!(split_steps("C-B s"), vec!["C-B", "s"]);
    assert_eq!(split_steps("C-C s"), vec!["C-C s"]);
}

#[test]
fn split_code_is_the_step_split() {
    let setting = Setting::default();
    assert_eq!(setting.split_code("C-A x y"), vec!["C-A x", "y"]);
    assert_eq!(setting.split_code("C s"), vec!["C s"]);
}

#[test]
fn scope_filter_accepts_global_unknown_and_listed() {
    let setting = Setting::default();
    let editor = vec!["editor.exe".to_string()];
    let none: Vec<String> = vec![];
    assert!(setting.filter_scope(&"editor.exe".to_string(), &editor));
    assert!(!setting.filter_scope(&"browser.exe".to_string(), &editor));
    assert!(!setting.filter_scope(&"Editor.exe".to_string(), &editor));
    assert!(setting.filter_scope(&"".to_string(), &editor));
    assert!(setting.filter_scope(&"browser.exe".to_string(), &none));
    assert!(setting.filter_scope(&"".to_string(), &none));
    let two = vec!["a.exe".to_string(), "b.exe".to_string()];
    assert!(setting.filter_scope(&"b.exe".to_string(), &two));
    assert!(!setting.filter_scope(&"c.exe".to_string(), &two));
}

#[test]
fn single_step_binding_resolves_and_stays_idle() {
    let setting = table(vec![binding("C s", &[], "save")]);
    let mut combo = ComboState::new();
    assert_eq!(action(setting.find_code(&mut combo, "C s", &global())), Some("save"));
    assert!(!combo.is_armed());
    assert_eq!(action(setting.find_code(&mut combo, "s", &global())), None);
    assert_eq!(action(setting.find_code(&mut combo, "C", &global())), None);
    assert!(!combo.is_armed());
}

#[test]
fn resolving_again_gives_the_same_binding() {
    let setting = table(vec![binding("x", &[], "one"), binding("C s", &[], "save")]);
    let mut combo = ComboState::new();
    for _ in 0..3 {
        assert_eq!(action(setting.find_code(&mut combo, "C s", &global())), Some("save"));
        assert!(!combo.is_armed());
        assert_eq!(action(setting.find_code(&mut combo, "q", &global())), None);
        assert!(!combo.is_armed());
    }
}

#[test]
fn chord_round_trip() {
    let setting = table(vec![binding("C-A x y", &[], "chord")]);
    let mut combo = ComboState::new();
    assert_eq!(action(setting.find_code(&mut combo, "C-A x", &global())), None);
    assert!(combo.is_armed());
    assert_eq!(combo.prefix(), Some(&"C-A x".to_string()));
    assert_eq!(action(setting.find_code(&mut combo, "y", &global())), Some("chord"));
    assert!(!combo.is_armed());
    assert_eq!(combo.prefix(), None);
}

#[test]
fn chord_decay() {
    let setting = table(vec![binding("C-A x y", &[], "chord"), binding("z", &[], "plain")]);
    let mut combo = ComboState::new();
    assert_eq!(action(setting.find_code(&mut combo, "C-A x", &global())), None);
    assert!(combo.is_armed());
    // "z" does not complete the chord and is not tried as a single step.
    assert_eq!(action(setting.find_code(&mut combo, "z", &global())), None);
    assert!(!combo.is_armed());
    // The event after that is resolved from the idle state.
    assert_eq!(action(setting.find_code(&mut combo, "z", &global())), Some("plain"));
    assert_eq!(action(setting.find_code(&mut combo, "y", &global())), None);
    assert!(!combo.is_armed());
}

#[test]
fn scope_filtering() {
    let setting = table(vec![binding("C s", &["editor.exe"], "save")]);
    let mut combo = ComboState::new();
    let hit = setting.find_code(&mut combo, "C s", &"editor.exe".to_string());
    assert_eq!(action(hit), Some("save"));
    let hit = setting.find_code(&mut combo, "C s", &"browser.exe".to_string());
    assert_eq!(action(hit), None);
    let hit = setting.find_code(&mut combo, "C s", &global());
    assert_eq!(action(hit), Some("save"));

    let open = table(vec![binding("C s", &[], "save")]);
    assert_eq!(action(open.find_code(&mut combo, "C s", &"browser.exe".to_string())), Some("save"));
    assert_eq!(action(open.find_code(&mut combo, "C s", &global())), Some("save"));
    assert!(!combo.is_armed());
}

#[test]
fn table_order_precedence() {
    let setting = table(vec![binding("C s", &[], "first"), binding("C s", &[], "second")]);
    let mut combo = ComboState::new();
    for _ in 0..2 {
        assert_eq!(action(setting.find_code(&mut combo, "C s", &global())), Some("first"));
    }
    let swapped = table(vec![binding("C s", &[], "second"), binding("C s", &[], "first")]);
    assert_eq!(action(swapped.find_code(&mut combo, "C s", &global())), Some("second"));
}

#[test]
fn later_binding_is_used_when_the_earlier_is_out_of_scope() {
    let setting = table(vec![
        binding("C s", &["editor.exe"], "editor_save"),
        binding("C s", &[], "save"),
    ]);
    let mut combo = ComboState::new();
    let hit = setting.find_code(&mut combo, "C s", &"browser.exe".to_string());
    assert_eq!(action(hit), Some("save"));
    let hit = setting.find_code(&mut combo, "C s", &"editor.exe".to_string());
    assert_eq!(action(hit), Some("editor_save"));
}

#[test]
fn earlier_single_step_wins_over_a_later_chord() {
    let setting = table(vec![binding("x", &[], "plain"), binding("x y", &[], "chord")]);
    let mut combo = ComboState::new();
    assert_eq!(action(setting.find_code(&mut combo, "x", &global())), Some("plain"));
    assert!(!combo.is_armed());
}

#[test]
fn earlier_chord_wins_over_a_later_single_step() {
    let setting = table(vec![binding("x y", &[], "chord"), binding("x", &[], "plain")]);
    let mut combo = ComboState::new();
    assert_eq!(action(setting.find_code(&mut combo, "x", &global())), None);
    assert!(combo.is_armed());
    assert_eq!(action(setting.find_code(&mut combo, "y", &global())), Some("chord"));
    assert!(!combo.is_armed());
}

#[test]
fn arming_respects_scope_but_completion_does_not() {
    let setting = table(vec![binding("x y", &["editor.exe"], "chord")]);
    let mut combo = ComboState::new();
    assert_eq!(action(setting.find_code(&mut combo, "x", &"browser.exe".to_string())), None);
    assert!(!combo.is_armed());
    assert_eq!(action(setting.find_code(&mut combo, "x", &"editor.exe".to_string())), None);
    assert!(combo.is_armed());
    let hit = setting.find_code(&mut combo, "y", &"browser.exe".to_string());
    assert_eq!(action(hit), Some("chord"));
    assert!(!combo.is_armed());
}

#[test]
fn completion_takes_the_first_binding_with_the_whole_pattern() {
    let setting = table(vec![
        binding("x y", &["editor.exe"], "scoped"),
        binding("x z", &[], "other"),
        binding("x y", &[], "global"),
    ]);
    let mut combo = ComboState::new();
    assert_eq!(action(setting.find_code(&mut combo, "x", &"browser.exe".to_string())), None);
    assert!(combo.is_armed());
    let hit = setting.find_code(&mut combo, "y", &"browser.exe".to_string());
    assert_eq!(action(hit), Some("scoped"));
}

#[test]
fn chord_with_modifiers_in_both_steps() {
    let setting = table(vec![binding("A-C x M-S y", &[], "both")]);
    let mut combo = ComboState::new();
    assert_eq!(action(setting.find_code(&mut combo, "A-C x", &global())), None);
    assert!(combo.is_armed());
    assert_eq!(action(setting.find_code(&mut combo, "M-S y", &global())), Some("both"));
    assert!(!combo.is_armed());
}

#[test]
fn longer_patterns_arm_and_never_complete() {
    let setting = table(vec![binding("a b c", &[], "long")]);
    let mut combo = ComboState::new();
    assert_eq!(action(setting.find_code(&mut combo, "a", &global())), None);
    assert!(combo.is_armed());
    assert_eq!(action(setting.find_code(&mut combo, "b", &global())), None);
    assert!(!combo.is_armed());
    assert_eq!(action(setting.find_code(&mut combo, "c", &global())), None);
}

#[test]
fn empty_table_resolves_nothing() {
    let setting = table(vec![]);
    let mut combo = ComboState::new();
    assert_eq!(action(setting.find_code(&mut combo, "C s", &global())), None);
    assert!(!combo.is_armed());
    combo.set("x".to_string());
    assert_eq!(action(setting.find_code(&mut combo, "y", &global())), None);
    assert!(!combo.is_armed());
}

#[test]
fn combo_state_set_and_reset() {
    let mut combo = ComboState::new();
    assert!(!combo.is_armed());
    assert_eq!(combo.prefix(), None);
    combo.set("C-A x".to_string());
    assert!(combo.is_armed());
    assert_eq!(combo.prefix(), Some(&"C-A x".to_string()));
    combo.set("q".to_string());
    assert_eq!(combo.prefix(), Some(&"q".to_string()));
    combo.reset();
    assert!(!combo.is_armed());
    assert_eq!(combo.prefix(), None);
}

#[test]
fn find_resolves_an_event_by_its_encoding() {
    let setting = table(vec![binding("C s", &[], "save"), binding("A-S f4 y", &[], "chord")]);
    let mut combo = ComboState::new();
    let save = GlobalSodKatEvent {
        keycode: Keycode::S,
        state: SodKatState::Press,
        modifier: vec![SodKatModifier::CONTROL],
    };
    assert_eq!(action(setting.find(&mut combo, &save, global())), Some("save"));
    let bare = GlobalSodKatEvent {
        keycode: Keycode::S,
        state: SodKatState::Press,
        modifier: vec![],
    };
    assert_eq!(action(setting.find(&mut combo, &bare, global())), None);
    let first = GlobalSodKatEvent {
        keycode: Keycode::F4,
        state: SodKatState::Press,
        modifier: vec![SodKatModifier::SHIFT, SodKatModifier::ALT],
    };
    assert_eq!(action(setting.find(&mut combo, &first, global())), None);
    assert!(combo.is_armed());
    let second = GlobalSodKatEvent {
        keycode: Keycode::Y,
        state: SodKatState::Release,
        modifier: vec![],
    };
    assert_eq!(action(setting.find(&mut combo, &second, global())), Some("chord"));
    assert!(!combo.is_armed());
}

#[test]
fn default_binding_is_not_in_canonical_order() {
    // The default pattern lists its modifiers as C-S-A; events encode as A-C-S.
    let setting = Setting::default();
    let mut combo = ComboState::new();
    let ev = GlobalSodKatEvent {
        keycode: Keycode::S,
        state: SodKatState::Press,
        modifier: vec![SodKatModifier::CONTROL, SodKatModifier::SHIFT, SodKatModifier::ALT],
    };
    assert_eq!(ev.tokenize(), "A-C-S s");
    assert_eq!(action(setting.find(&mut combo, &ev, global())), None);
    assert_eq!(action(setting.find_code(&mut combo, "C-S-A s", &global())), Some("do_something"));
}
