use profile_translator::menu::{has_suffix, is_quit, menu_options};

#[test]
fn options_are_matching_files_then_quit() {
    let files: Vec<String> =
        vec!["./a.json".to_string(), "./b.trans".to_string(), "./c.json".to_string(), "./d.prov".to_string()];
    assert_eq!(menu_options(&files, ".json"), vec!["./a.json", "./c.json", "Quit"]);
    assert_eq!(menu_options(&files, ".trans"), vec!["./b.trans", "Quit"]);
    assert_eq!(menu_options(&Vec::new(), ".prov"), vec!["Quit"]);
}

#[test]
fn suffix_test() {
    assert!(has_suffix("x.json", ".json"));
    assert!(has_suffix(".json", ".json"));
    assert!(has_suffix("abc", ""));
    assert!(!has_suffix("x.json.bak", ".json"));
    assert!(!has_suffix("json", ".json"));
}

#[test]
fn quit_choice() {
    assert!(is_quit(&"Quit".to_string()));
    assert!(!is_quit(&"./Quit.json".to_string()));
}
