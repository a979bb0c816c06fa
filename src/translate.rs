use vstd::prelude::*;
use vstd::string::StringExecFns;
use crate::document::{Parameter, ParameterView, Profile, ProfileView, Profiles, ProfilesView};
use crate::mapping::{MappingTable, MappingView};

verus! {

/// Which field of a parameter identifies it in the source mapping.
#[derive(Debug, Clone, Copy, PartialEq, Eq, Structural)]
pub enum KeyMode {
    /// The short name is looked up among the names of the source mapping.
    ShortName,
    /// The EDIFACT number, in decimal, is looked up among its codes.
    EdifactNo,
}

/// The decimal digits.
pub open spec fn digit_chars() -> Seq<char> {
    seq!['0', '1', '2', '3', '4', '5', '6', '7', '8', '9']
}

/// The decimal text of a number, without sign or leading zeros.
pub open spec fn decimal_text(n: nat) -> Seq<char>
    decreases n,
{
    if n < 10 {
        seq![digit_chars()[n as int]]
    } else {
        decimal_text(n / 10).push(digit_chars()[(n % 10) as int])
    }
}

/// Relies on `u16`'s `Display` (through `to_string`): an unsigned integer is
/// written in decimal, with no sign and no leading zeros.
#[verifier::external_body]
fn u16_text(n: u16) -> (r: String)
    ensures
        r@ == decimal_text(n as nat),
{
    n.to_string()
}

/// The canonical code reported where the source lookup fails.
pub open spec fn sentinel_code() -> Seq<char> {
    seq!['-', '1']
}

/// The identifying field of a parameter as text; `None` where the mode asks
/// for an EDIFACT number that the parameter lacks.
pub open spec fn key_of(p: ParameterView, mode: KeyMode) -> Option<Seq<char>> {
    match mode {
        KeyMode::ShortName => Some(p.short_name),
        KeyMode::EdifactNo => match p.edifact_no {
            Some(n) => Some(decimal_text(n as nat)),
            None => None,
        },
    }
}

/// The identifying field as it is reported: empty where there is none.
pub open spec fn field_text(p: ParameterView, mode: KeyMode) -> Seq<char> {
    match key_of(p, mode) {
        Some(k) => k,
        None => Seq::empty(),
    }
}

/// The canonical code that the source mapping gives a key: by name to code,
/// or, for an EDIFACT number, the number itself where the mapping knows it
/// as a code.
pub open spec fn source_code(key: Option<Seq<char>>, mode: KeyMode, source: MappingView) -> Option<
    Seq<char>,
> {
    match key {
        None => None,
        Some(k) => match mode {
            KeyMode::ShortName => if source.name_to_code.contains_key(k) {
                Some(source.name_to_code[k])
            } else {
                None
            },
            KeyMode::EdifactNo => if source.code_to_name.contains_key(k) {
                Some(k)
            } else {
                None
            },
        },
    }
}

/// The canonical code of a parameter, where the source lookup succeeds.
pub open spec fn canonical_of(p: ParameterView, mode: KeyMode, source: MappingView) -> Option<
    Seq<char>,
> {
    source_code(key_of(p, mode), mode, source)
}

/// The canonical code of a parameter, or the sentinel.
pub open spec fn canonical_code(p: ParameterView, mode: KeyMode, source: MappingView) -> Seq<char> {
    match canonical_of(p, mode, source) {
        Some(c) => c,
        None => sentinel_code(),
    }
}

/// The new short name: the target name of the canonical code, or the old
/// name where either lookup fails. The sentinel never reaches the target.
pub open spec fn translated_name(
    p: ParameterView,
    mode: KeyMode,
    source: MappingView,
    target: MappingView,
) -> Seq<char> {
    match canonical_of(p, mode, source) {
        Some(c) => if target.code_to_name.contains_key(c) {
            target.code_to_name[c]
        } else {
            p.short_name
        },
        None => p.short_name,
    }
}

/// A parameter after translation.
pub open spec fn translated_parameter(
    p: ParameterView,
    provider: i8,
    mode: KeyMode,
    source: MappingView,
    target: MappingView,
) -> ParameterView {
    ParameterView {
        provider_no: provider,
        short_name: translated_name(p, mode, source, target),
        edifact_no: p.edifact_no,
    }
}

/// A profile after translation.
pub open spec fn translated_profile(
    p: ProfileView,
    provider: i8,
    mode: KeyMode,
    source: MappingView,
    target: MappingView,
) -> ProfileView {
    ProfileView {
        name: p.name,
        parameters: p.parameters.map_values(
            |q: ParameterView| translated_parameter(q, provider, mode, source, target),
        ),
    }
}

/// A document after translation.
pub open spec fn translated_document(
    d: ProfilesView,
    provider: i8,
    mode: KeyMode,
    source: MappingView,
    target: MappingView,
) -> ProfilesView {
    ProfilesView {
        doc_name: d.doc_name,
        me_address: d.me_address,
        profiles: d.profiles.map_values(
            |p: ProfileView| translated_profile(p, provider, mode, source, target),
        ),
    }
}

/// A lookup failure met while translating; it does not stop the run.
/// `field` is the identifying field of the parameter as text.
#[derive(Debug, PartialEq, Eq)]
pub enum Diagnostic {
    /// The field has no entry in the source mapping.
    MissingInSource { profile: String, field: String },
    /// The canonical code has no entry in the target mapping; `code` is the
    /// sentinel where the source lookup failed already.
    MissingInTarget { profile: String, code: String, field: String },
}

/// The abstract value of a `Diagnostic`.
pub enum DiagnosticView {
    MissingInSource { profile: Seq<char>, field: Seq<char> },
    MissingInTarget { profile: Seq<char>, code: Seq<char>, field: Seq<char> },
}

impl View for Diagnostic {
    type V = DiagnosticView;

    open spec fn view(&self) -> DiagnosticView {
        match self {
            Diagnostic::MissingInSource { profile, field } => DiagnosticView::MissingInSource {
                profile: profile@,
                field: field@,
            },
            Diagnostic::MissingInTarget { profile, code, field } => DiagnosticView::MissingInTarget {
                profile: profile@,
                code: code@,
                field: field@,
            },
        }
    }
}

/// The diagnostics of one parameter of the named profile.
pub open spec fn parameter_notes(
    profile: Seq<char>,
    p: ParameterView,
    mode: KeyMode,
    source: MappingView,
    target: MappingView,
) -> Seq<DiagnosticView> {
    let field = field_text(p, mode);
    match canonical_of(p, mode, source) {
        None => seq![
            DiagnosticView::MissingInSource { profile, field },
            DiagnosticView::MissingInTarget { profile, code: sentinel_code(), field },
        ],
        Some(c) => if target.code_to_name.contains_key(c) {
            Seq::empty()
        } else {
            seq![DiagnosticView::MissingInTarget { profile, code: c, field }]
        },
    }
}

/// The diagnostics of a sequence of parameters, in order.
pub open spec fn parameters_notes(
    profile: Seq<char>,
    ps: Seq<ParameterView>,
    mode: KeyMode,
    source: MappingView,
    target: MappingView,
) -> Seq<DiagnosticView>
    decreases ps.len(),
{
    if ps.len() == 0 {
        Seq::empty()
    } else {
        parameters_notes(profile, ps.drop_last(), mode, source, target) + parameter_notes(
            profile,
            ps.last(),
            mode,
            source,
            target,
        )
    }
}

/// The diagnostics of a sequence of profiles, in document order.
pub open spec fn profiles_notes(
    ps: Seq<ProfileView>,
    mode: KeyMode,
    source: MappingView,
    target: MappingView,
) -> Seq<DiagnosticView>
    decreases ps.len(),
{
    if ps.len() == 0 {
        Seq::empty()
    } else {
        profiles_notes(ps.drop_last(), mode, source, target) + parameters_notes(
            ps.last().name,
            ps.last().parameters,
            mode,
            source,
            target,
        )
    }
}

/// The views of a list of diagnostics.
pub open spec fn notes_view(ns: Seq<Diagnostic>) -> Seq<DiagnosticView> {
    ns.map_values(|n: Diagnostic| n@)
}

/// The view of an optional text.
pub open spec fn text_opt(o: Option<String>) -> Option<Seq<char>> {
    match o {
        Some(s) => Some(s@),
        None => None,
    }
}

fn sentinel() -> (r: String)
    ensures
        r@ == sentinel_code(),
{
    let r = String::from_str("-1");
    proof {
        reveal_strlit("-1");
        assert(r@ =~= sentinel_code());
    }
    r
}

/// The identifying field of a parameter as text.
pub fn parameter_key(parameter: &Parameter, mode: KeyMode) -> (r: Option<String>)
    ensures
        text_opt(r) == key_of(parameter@, mode),
{
    match mode {
        KeyMode::ShortName => Some(parameter.short_name.clone()),
        KeyMode::EdifactNo => match parameter.edifact_no {
            Some(n) => Some(u16_text(n)),
            None => None,
        },
    }
}

/// Resolves a key through the source mapping to a canonical code.
pub fn resolve_source(key: &Option<String>, mode: KeyMode, source: &MappingTable) -> (r: Option<
    String,
>)
    requires
        source.wf(),
    ensures
        text_opt(r) == source_code(text_opt(*key), mode, source@),
{
    match key {
        None => None,
        Some(k) => match mode {
            KeyMode::ShortName => match source.name_to_code.get(k) {
                Some(code) => Some(code.clone()),
                None => None,
            },
            KeyMode::EdifactNo => match source.code_to_name.get(k) {
                Some(_) => Some(k.clone()),
                None => None,
            },
        },
    }
}

/// Translates one parameter of the named profile: stamps the provider,
/// resolves its key to a canonical code and the code to a new name, and
/// records each failed lookup in `notes`.
pub fn translate_parameter(
    parameter: &mut Parameter,
    profile: &String,
    source: &MappingTable,
    target: &MappingTable,
    provider: &i8,
    mode: KeyMode,
    notes: &mut Vec<Diagnostic>,
)
    requires
        source.wf(),
        target.wf(),
    ensures
        final(parameter)@ == translated_parameter(old(parameter)@, *provider, mode, source@, target@),
        notes_view(final(notes)@) == notes_view(old(notes)@) + parameter_notes(
            profile@,
            old(parameter)@,
            mode,
            source@,
            target@,
        ),
{
    let ghost before = notes_view(notes@);
    let ghost start = parameter@;
    parameter.set_provider(provider);
    let key = parameter_key(parameter, mode);
    let field = match &key {
        Some(k) => k.clone(),
        None => String::new(),
    };
    assert(field@ == field_text(start, mode));
    match resolve_source(&key, mode, source) {
        None => {
            notes.push(Diagnostic::MissingInSource { profile: profile.clone(), field: field.clone() });
            notes.push(
                Diagnostic::MissingInTarget { profile: profile.clone(), code: sentinel(), field },
            );
        },
        Some(code) => {
            match target.code_to_name.get(&code) {
                None => {
                    notes.push(Diagnostic::MissingInTarget { profile: profile.clone(), code, field });
                },
                Some(name) => {
                    parameter.set_short_name(name.as_str());
                },
            }
        },
    }
    assert(notes_view(notes@) =~= before + parameter_notes(profile@, start, mode, source@, target@));
}

/// Translates every parameter of a profile, in order.
pub fn translate_profile(
    profile: &mut Profile,
    source: &MappingTable,
    target: &MappingTable,
    provider: &i8,
    mode: KeyMode,
    notes: &mut Vec<Diagnostic>,
)
    requires
        source.wf(),
        target.wf(),
    ensures
        final(profile)@ == translated_profile(old(profile)@, *provider, mode, source@, target@),
        notes_view(final(notes)@) == notes_view(old(notes)@) + parameters_notes(
            old(profile)@.name,
            old(profile)@.parameters,
            mode,
            source@,
            target@,
        ),
{
    let ghost start = old(profile)@;
    let ghost before = notes_view(notes@);
    let n = profile.parameters.len();
    let mut j: usize = 0;
    while j < n
        invariant
            n == profile.parameters@.len() == start.parameters.len(),
            j <= n,
            profile.name@ == start.name,
            source.wf(),
            target.wf(),
            forall|k: int| 0 <= k < j ==> #[trigger] profile.parameters@[k]@ == translated_parameter(
                start.parameters[k],
                *provider,
                mode,
                source@,
                target@,
            ),
            forall|k: int| j <= k < n ==> #[trigger] profile.parameters@[k]@ == start.parameters[k],
            notes_view(notes@) == before + parameters_notes(
                start.name,
                start.parameters.take(j as int),
                mode,
                source@,
                target@,
            ),
        decreases n - j,
    {
        translate_parameter(
            &mut profile.parameters[j],
            &profile.name,
            source,
            target,
            provider,
            mode,
            notes,
        );
        proof {
            let ps = start.parameters.take(j + 1);
            assert(ps.drop_last() =~= start.parameters.take(j as int));
            assert(ps.last() == start.parameters[j as int]);
            let a = parameters_notes(start.name, start.parameters.take(j as int), mode, source@, target@);
            let b = parameter_notes(start.name, start.parameters[j as int], mode, source@, target@);
            assert(before + (a + b) =~= before + a + b);
        }
        j = j + 1;
    }
    assert(start.parameters.take(n as int) =~= start.parameters);
    assert(profile@.parameters =~= start.parameters.map_values(
        |q: ParameterView| translated_parameter(q, *provider, mode, source@, target@),
    ));
}

/// Translates the whole document in place, in the given key mode: every
/// parameter of every profile gets the provider and, where both lookups
/// succeed, its new name. Returns the diagnostics of the failed lookups, in
/// document order.
pub fn update_profiles_by(
    profiles: &mut Profiles,
    source: &MappingTable,
    target: &MappingTable,
    provider: &i8,
    mode: KeyMode,
) -> (notes: Vec<Diagnostic>)
    requires
        source.wf(),
        target.wf(),
    ensures
        final(profiles)@ == translated_document(old(profiles)@, *provider, mode, source@, target@),
        notes_view(notes@) == profiles_notes(old(profiles)@.profiles, mode, source@, target@),
{
    let ghost start = old(profiles)@;
    let mut notes: Vec<Diagnostic> = Vec::new();
    let n = profiles.profiles.len();
    let mut i: usize = 0;
    assert(notes_view(notes@) =~= Seq::empty());
    while i < n
        invariant
            n == profiles.profiles@.len() == start.profiles.len(),
            i <= n,
            profiles.doc_name@ == start.doc_name,
            profiles.me_address@ == start.me_address,
            source.wf(),
            target.wf(),
            forall|k: int| 0 <= k < i ==> #[trigger] profiles.profiles@[k]@ == translated_profile(
                start.profiles[k],
                *provider,
                mode,
                source@,
                target@,
            ),
            forall|k: int| i <= k < n ==> #[trigger] profiles.profiles@[k]@ == start.profiles[k],
            notes_view(notes@) == profiles_notes(start.profiles.take(i as int), mode, source@, target@),
        decreases n - i,
    {
        translate_profile(&mut profiles.profiles[i], source, target, provider, mode, &mut notes);
        proof {
            let ps = start.profiles.take(i + 1);
            assert(ps.drop_last() =~= start.profiles.take(i as int));
            assert(ps.last() == start.profiles[i as int]);
        }
        i = i + 1;
    }
    assert(start.profiles.take(n as int) =~= start.profiles);
    assert(profiles@.profiles =~= start.profiles.map_values(
        |p: ProfileView| translated_profile(p, *provider, mode, source@, target@),
    ));
    notes
}

/// Translates the whole document by short name: each name goes to its code
/// in the source mapping, and the code to its name in the target mapping.
pub fn update_profiles(
    profiles: &mut Profiles,
    source: &MappingTable,
    target: &MappingTable,
    provider: &i8,
) -> (notes: Vec<Diagnostic>)
    requires
        source.wf(),
        target.wf(),
    ensures
        final(profiles)@ == translated_document(
            old(profiles)@,
            *provider,
            KeyMode::ShortName,
            source@,
            target@,
        ),
        notes_view(notes@) == profiles_notes(
            old(profiles)@.profiles,
            KeyMode::ShortName,
            source@,
            target@,
        ),
{
    update_profiles_by(profiles, source, target, provider, KeyMode::ShortName)
}

} // verus!
