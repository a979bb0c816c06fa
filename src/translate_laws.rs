use vstd::prelude::*;
use crate::document::ProfilesView;
use crate::mapping::MappingView;
use crate::translate::{
    canonical_code, field_text, key_of, parameter_notes, sentinel_code, translated_document,
    DiagnosticView, KeyMode,
};

verus! {

/// Every parameter of a translated document carries the chosen provider,
/// whatever it carried before.
pub proof fn lemma_provider_stamped(
    d: ProfilesView,
    provider: i8,
    mode: KeyMode,
    source: MappingView,
    target: MappingView,
)
    ensures
        forall|i: int, j: int|
            0 <= i < d.profiles.len() && 0 <= j < d.profiles[i].parameters.len()
                ==> (#[trigger] translated_document(d, provider, mode, source, target).profiles[i].parameters[j]).provider_no
                == provider,
{
    assert forall|i: int, j: int|
        0 <= i < d.profiles.len() && 0 <= j < d.profiles[i].parameters.len() implies
        (#[trigger] translated_document(d, provider, mode, source, target).profiles[i].parameters[j]).provider_no
            == provider by {
        let out = translated_document(d, provider, mode, source, target);
        assert(out.profiles[i].parameters.len() == d.profiles[i].parameters.len());
    }
}

/// The identifying field of the parameter at (`i`, `j`) is missing, or has
/// no entry in the direction of the source mapping that the mode reads.
pub open spec fn unresolved_in_source(
    d: ProfilesView,
    mode: KeyMode,
    source: MappingView,
    i: int,
    j: int,
) -> bool {
    match key_of(d.profiles[i].parameters[j], mode) {
        None => true,
        Some(k) => match mode {
            KeyMode::ShortName => !source.name_to_code.contains_key(k),
            KeyMode::EdifactNo => !source.code_to_name.contains_key(k),
        },
    }
}

/// A parameter whose identifying field has no entry in the source mapping
/// gets the sentinel as its canonical code, keeps its short name, and is
/// reported: first as missing in the source, then as missing in the target
/// under the sentinel.
pub proof fn lemma_unresolved_name_kept(
    d: ProfilesView,
    provider: i8,
    mode: KeyMode,
    source: MappingView,
    target: MappingView,
    i: int,
    j: int,
)
    requires
        0 <= i < d.profiles.len(),
        0 <= j < d.profiles[i].parameters.len(),
        unresolved_in_source(d, mode, source, i, j),
    ensures
        canonical_code(d.profiles[i].parameters[j], mode, source) == sentinel_code(),
        translated_document(d, provider, mode, source, target).profiles[i].parameters[j].short_name
            == d.profiles[i].parameters[j].short_name,
        parameter_notes(d.profiles[i].name, d.profiles[i].parameters[j], mode, source, target)
            == seq![
            DiagnosticView::MissingInSource {
                profile: d.profiles[i].name,
                field: field_text(d.profiles[i].parameters[j], mode),
            },
            DiagnosticView::MissingInTarget {
                profile: d.profiles[i].name,
                code: sentinel_code(),
                field: field_text(d.profiles[i].parameters[j], mode),
            },
        ],
{
}

/// Translation keeps the shape of a document: the label, the address, the
/// number and names of the profiles, the number of parameters of each, and
/// every parameter field but the short name and the provider.
pub proof fn lemma_structure_preserved(
    d: ProfilesView,
    provider: i8,
    mode: KeyMode,
    source: MappingView,
    target: MappingView,
)
    ensures
        ({
            let out = translated_document(d, provider, mode, source, target);
            &&& out.doc_name == d.doc_name
            &&& out.me_address == d.me_address
            &&& out.profiles.len() == d.profiles.len()
            &&& forall|i: int| 0 <= i < d.profiles.len() ==> {
                &&& (#[trigger] out.profiles[i]).name == d.profiles[i].name
                &&& out.profiles[i].parameters.len() == d.profiles[i].parameters.len()
                &&& forall|j: int| 0 <= j < d.profiles[i].parameters.len()
                    ==> (#[trigger] out.profiles[i].parameters[j]).edifact_no
                    == d.profiles[i].parameters[j].edifact_no
            }
        }),
{
}

} // verus!
