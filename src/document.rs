use vstd::prelude::*;
use vstd::string::StringExecFns;

verus! {

/// One remappable unit of a profile.
#[derive(Debug, PartialEq, Eq)]
pub struct Parameter {
    pub provider_no: i8,
    pub short_name: String,
    pub edifact_no: Option<u16>,
}

/// A named group of parameters.
#[derive(Debug, PartialEq, Eq)]
pub struct Profile {
    pub name: String,
    pub parameters: Vec<Parameter>,
}

/// The document: a label, an address and its profiles.
#[derive(Debug, PartialEq, Eq)]
pub struct Profiles {
    pub doc_name: String,
    pub me_address: String,
    pub profiles: Vec<Profile>,
}

/// The abstract value of a `Parameter`.
pub struct ParameterView {
    pub provider_no: i8,
    pub short_name: Seq<char>,
    pub edifact_no: Option<u16>,
}

/// The abstract value of a `Profile`.
pub struct ProfileView {
    pub name: Seq<char>,
    pub parameters: Seq<ParameterView>,
}

/// The abstract value of a `Profiles` document.
pub struct ProfilesView {
    pub doc_name: Seq<char>,
    pub me_address: Seq<char>,
    pub profiles: Seq<ProfileView>,
}

impl View for Parameter {
    type V = ParameterView;

    open spec fn view(&self) -> ParameterView {
        ParameterView {
            provider_no: self.provider_no,
            short_name: self.short_name@,
            edifact_no: self.edifact_no,
        }
    }
}

impl View for Profile {
    type V = ProfileView;

    open spec fn view(&self) -> ProfileView {
        ProfileView { name: self.name@, parameters: self.parameters@.map_values(|p: Parameter| p@) }
    }
}

impl View for Profiles {
    type V = ProfilesView;

    open spec fn view(&self) -> ProfilesView {
        ProfilesView {
            doc_name: self.doc_name@,
            me_address: self.me_address@,
            profiles: self.profiles@.map_values(|p: Profile| p@),
        }
    }
}

impl Profile {
    /// Appends `s` to the profile's name.
    pub fn append_name(&mut self, s: &str)
        ensures
            final(self).name@ == old(self).name@ + s@,
            final(self).parameters == old(self).parameters,
    {
        self.name.append(s);
    }
}

impl Parameter {
    /// Overwrites the provider tag.
    pub fn set_provider(&mut self, id: &i8)
        ensures
            final(self)@ == (ParameterView { provider_no: *id, ..old(self)@ }),
    {
        self.provider_no = *id;
    }

    /// Overwrites the short name.
    pub fn set_short_name(&mut self, new_name: &str)
        ensures
            final(self)@ == (ParameterView { short_name: new_name@, ..old(self)@ }),
    {
        self.short_name = new_name.to_owned();
    }
}

} // verus!
