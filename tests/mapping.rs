use profile_translator::mapping::{load_parameter_maps, split_line, MappingError};

fn lines(ls: &[&str]) -> Vec<String> {
    ls.iter().map(|l| l.to_string()).collect()
}

fn s(x: &str) -> String {
    x.to_string()
}

#[test]
fn split_line_gives_code_and_name() {
    assert_eq!(split_line("1,FOO"), Some((s("1"), s("FOO"))));
    assert_eq!(split_line("12,"), Some((s("12"), s(""))));
    assert_eq!(split_line("3,BAR,extra"), Some((s("3"), s("BAR"))));
    assert_eq!(split_line("NOCOMMA"), None);
    assert_eq!(split_line(""), None);
}

#[test]
fn distinct_lines_give_a_bijection() {
    let t = load_parameter_maps(&lines(&["1,FOO", "2,BAR", "3,QUX"])).unwrap();
    assert_eq!(t.code_to_name.len(), 3);
    assert_eq!(t.name_to_code.len(), 3);
    for code in ["1", "2", "3"] {
        let name = t.code_to_name.get(&s(code)).unwrap();
        assert_eq!(t.name_to_code.get(name), Some(&s(code)));
    }
    assert_eq!(t.code_to_name.get(&s("2")), Some(&s("BAR")));
    assert_eq!(t.name_to_code.get(&s("QUX")), Some(&s("3")));
    assert_eq!(t.code_to_name.get(&s("4")), None);
}

#[test]
fn duplicate_code_last_write_wins() {
    let t = load_parameter_maps(&lines(&["1,FOO", "1,BAR"])).unwrap();
    assert_eq!(t.code_to_name.get(&s("1")), Some(&s("BAR")));
    assert_eq!(t.code_to_name.len(), 1);
    assert_eq!(t.name_to_code.get(&s("FOO")), Some(&s("1")));
    assert_eq!(t.name_to_code.get(&s("BAR")), Some(&s("1")));
}

#[test]
fn duplicate_name_last_write_wins() {
    let t = load_parameter_maps(&lines(&["1,FOO", "2,FOO"])).unwrap();
    assert_eq!(t.name_to_code.get(&s("FOO")), Some(&s("2")));
    assert_eq!(t.code_to_name.len(), 2);
    assert_eq!(t.name_to_code.len(), 1);
}

#[test]
fn line_without_delimiter_is_refused() {
    let r = load_parameter_maps(&lines(&["1,FOO", "BROKEN", "2,BAR"]));
    assert_eq!(r.err(), Some(MappingError::MissingField(1)));
    let r = load_parameter_maps(&lines(&["BROKEN"]));
    assert_eq!(r.err(), Some(MappingError::MissingField(0)));
}

#[test]
fn empty_lines_are_skipped() {
    let t = load_parameter_maps(&lines(&["", "1,FOO", "", "2,BAR"])).unwrap();
    assert_eq!(t.code_to_name.len(), 2);
    assert_eq!(t.code_to_name.get(&s("1")), Some(&s("FOO")));
}

#[test]
fn empty_file_gives_empty_tables() {
    let t = load_parameter_maps(&Vec::new()).unwrap();
    assert_eq!(t.code_to_name.len(), 0);
    assert_eq!(t.name_to_code.len(), 0);
}

#[test]
fn non_ascii_fields_are_kept() {
    let t = load_parameter_maps(&lines(&["7,Drück", "ü,x"])).unwrap();
    assert_eq!(t.code_to_name.get(&s("7")), Some(&s("Drück")));
    assert_eq!(t.name_to_code.get(&s("x")), Some(&s("ü")));
}
