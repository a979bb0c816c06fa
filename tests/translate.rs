use profile_translator::document::{Parameter, Profile, Profiles};
use profile_translator::mapping::{load_parameter_maps, MappingTable};
use profile_translator::translate::{
    parameter_key, resolve_source, update_profiles, update_profiles_by, Diagnostic, KeyMode,
};

fn s(x: &str) -> String {
    x.to_string()
}

fn table(ls: &[&str]) -> MappingTable {
    load_parameter_maps(&ls.iter().map(|l| l.to_string()).collect()).unwrap()
}

fn param(provider: i8, name: &str, edi: Option<u16>) -> Parameter {
    Parameter { provider_no: provider, short_name: s(name), edifact_no: edi }
}

fn doc(profiles: Vec<Profile>) -> Profiles {
    Profiles { doc_name: s("doc"), me_address: s("addr"), profiles }
}

#[test]
fn two_hop_translation() {
    let source = table(&["1,FOO", "2,BAR"]);
    let target = table(&["1,BAZ"]);
    let mut d = doc(vec![Profile { name: s("P"), parameters: vec![param(3, "FOO", Some(11))] }]);
    let notes = update_profiles(&mut d, &source, &target, &5);
    assert_eq!(d.profiles[0].parameters[0], param(5, "BAZ", Some(11)));
    assert!(notes.is_empty());
}

#[test]
fn unknown_name_is_kept_and_reported() {
    let source = table(&["1,FOO", "2,BAR"]);
    let target = table(&["1,BAZ", "-1,TRAP"]);
    let mut d = doc(vec![Profile { name: s("P"), parameters: vec![param(0, "UNKNOWN", None)] }]);
    let notes = update_profiles(&mut d, &source, &target, &2);
    assert_eq!(d.profiles[0].parameters[0].short_name, "UNKNOWN");
    assert_eq!(d.profiles[0].parameters[0].provider_no, 2);
    assert_eq!(
        notes,
        vec![
            Diagnostic::MissingInSource { profile: s("P"), field: s("UNKNOWN") },
            Diagnostic::MissingInTarget { profile: s("P"), code: s("-1"), field: s("UNKNOWN") },
        ]
    );
}

#[test]
fn code_missing_in_target_is_kept_and_reported() {
    let source = table(&["1,FOO", "2,BAR"]);
    let target = table(&["1,BAZ"]);
    let mut d = doc(vec![Profile { name: s("Q"), parameters: vec![param(0, "BAR", None)] }]);
    let notes = update_profiles(&mut d, &source, &target, &1);
    assert_eq!(d.profiles[0].parameters[0].short_name, "BAR");
    assert_eq!(
        notes,
        vec![Diagnostic::MissingInTarget { profile: s("Q"), code: s("2"), field: s("BAR") }]
    );
}

#[test]
fn provider_is_stamped_on_every_parameter() {
    let source = table(&["1,FOO"]);
    let target = table(&["1,BAZ"]);
    let mut d = doc(vec![
        Profile { name: s("A"), parameters: vec![param(-4, "FOO", None), param(127, "NONE", None)] },
        Profile { name: s("B"), parameters: vec![param(7, "X", Some(3))] },
    ]);
    update_profiles(&mut d, &source, &target, &-9);
    for p in &d.profiles {
        for q in &p.parameters {
            assert_eq!(q.provider_no, -9);
        }
    }
}

#[test]
fn structure_is_preserved() {
    let source = table(&["1,FOO", "2,BAR"]);
    let target = table(&["1,BAZ", "2,QUX"]);
    let mut d = doc(vec![
        Profile { name: s("A"), parameters: vec![param(0, "FOO", Some(1)), param(0, "BAR", Some(2))] },
        Profile { name: s("B"), parameters: vec![] },
        Profile { name: s("C"), parameters: vec![param(0, "ZED", Some(3))] },
    ]);
    let notes = update_profiles(&mut d, &source, &target, &4);
    assert_eq!(d.doc_name, "doc");
    assert_eq!(d.me_address, "addr");
    assert_eq!(d.profiles.len(), 3);
    assert_eq!(d.profiles[0].parameters, vec![param(4, "BAZ", Some(1)), param(4, "QUX", Some(2))]);
    assert!(d.profiles[1].parameters.is_empty());
    assert_eq!(d.profiles[2].parameters, vec![param(4, "ZED", Some(3))]);
    assert_eq!(d.profiles[2].name, "C");
    assert_eq!(notes.len(), 2);
}

#[test]
fn diagnostics_follow_document_order() {
    let source = table(&["1,FOO"]);
    let target = table(&["9,NINE"]);
    let mut d = doc(vec![
        Profile { name: s("A"), parameters: vec![param(0, "FOO", None)] },
        Profile { name: s("B"), parameters: vec![param(0, "GONE", None)] },
    ]);
    let notes = update_profiles(&mut d, &source, &target, &0);
    assert_eq!(
        notes,
        vec![
            Diagnostic::MissingInTarget { profile: s("A"), code: s("1"), field: s("FOO") },
            Diagnostic::MissingInSource { profile: s("B"), field: s("GONE") },
            Diagnostic::MissingInTarget { profile: s("B"), code: s("-1"), field: s("GONE") },
        ]
    );
}

#[test]
fn parameter_setters() {
    let mut p = param(1, "OLD", Some(8));
    p.set_provider(&6);
    p.set_short_name("NEW");
    assert_eq!(p, param(6, "NEW", Some(8)));
    let mut pr = Profile { name: s("base"), parameters: vec![] };
    pr.append_name("_new");
    assert_eq!(pr.name, "base_new");
}

#[test]
fn edifact_number_is_rendered_in_decimal() {
    assert_eq!(parameter_key(&param(0, "N", Some(1234)), KeyMode::EdifactNo), Some(s("1234")));
    assert_eq!(parameter_key(&param(0, "N", Some(0)), KeyMode::EdifactNo), Some(s("0")));
    assert_eq!(parameter_key(&param(0, "N", Some(65535)), KeyMode::EdifactNo), Some(s("65535")));
    assert_eq!(parameter_key(&param(0, "N", None), KeyMode::EdifactNo), None);
    assert_eq!(parameter_key(&param(0, "N", Some(5)), KeyMode::ShortName), Some(s("N")));
}

#[test]
fn source_resolution_by_mode() {
    let source = table(&["10,FOO"]);
    assert_eq!(resolve_source(&Some(s("FOO")), KeyMode::ShortName, &source), Some(s("10")));
    assert_eq!(resolve_source(&Some(s("10")), KeyMode::ShortName, &source), None);
    assert_eq!(resolve_source(&Some(s("10")), KeyMode::EdifactNo, &source), Some(s("10")));
    assert_eq!(resolve_source(&Some(s("FOO")), KeyMode::EdifactNo, &source), None);
    assert_eq!(resolve_source(&None, KeyMode::EdifactNo, &source), None);
}

#[test]
fn translation_by_edifact_number() {
    let source = table(&["4321,FOO", "17,BAR"]);
    let target = table(&["4321,BAZ"]);
    let mut d = doc(vec![Profile {
        name: s("E"),
        parameters: vec![param(0, "FOO", Some(4321)), param(0, "BAR", Some(17)), param(0, "NONE", None)],
    }]);
    let notes = update_profiles_by(&mut d, &source, &target, &3, KeyMode::EdifactNo);
    assert_eq!(
        d.profiles[0].parameters,
        vec![param(3, "BAZ", Some(4321)), param(3, "BAR", Some(17)), param(3, "NONE", None)]
    );
    assert_eq!(
        notes,
        vec![
            Diagnostic::MissingInTarget { profile: s("E"), code: s("17"), field: s("17") },
            Diagnostic::MissingInSource { profile: s("E"), field: s("") },
            Diagnostic::MissingInTarget { profile: s("E"), code: s("-1"), field: s("") },
        ]
    );
}
