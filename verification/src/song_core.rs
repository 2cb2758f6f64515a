//! Song-core metadata of a version 2 map: contributors, and the mods a map
//! suggests or requires.
use vstd::prelude::*;

verus! {

/// Someone credited in the map's info file.
#[derive(Clone, Debug)]
pub struct ContributorV2 {
    pub role: String,
    pub name: String,
    pub icon_path: String,
}

/// A mod the map suggests.
#[derive(Clone, Debug, PartialEq, Eq)]
pub enum SuggestionModName {
    Chroma,
    Custom(String),
}

/// A mod the map requires.
#[derive(Clone, Debug, PartialEq, Eq)]
pub enum RequirementModName {
    Chroma,
    Noodle,
    Vivify,
    MappingExtensions,
    Custom(String),
}

/// The name shown for a suggested mod.
pub open spec fn suggestion_display_name(m: SuggestionModName) -> Seq<char> {
    match m {
        SuggestionModName::Chroma => "Chroma"@,
        SuggestionModName::Custom(s) => s@,
    }
}

/// The name shown for a required mod.
pub open spec fn requirement_display_name(m: RequirementModName) -> Seq<char> {
    match m {
        RequirementModName::Chroma => "Chroma"@,
        RequirementModName::Noodle => "Noodle Extensions"@,
        RequirementModName::Vivify => "Vivify"@,
        RequirementModName::MappingExtensions => "Mapping Extensions"@,
        RequirementModName::Custom(s) => s@,
    }
}

impl SuggestionModName {
    /// The mod's name as shown to the user: its own name for a known mod, the
    /// written name for any other.
    pub fn display_name(&self) -> (r: &str)
        ensures
            r@ == suggestion_display_name(*self),
    {
        match self {
            SuggestionModName::Chroma => "Chroma",
            SuggestionModName::Custom(s) => s.as_str(),
        }
    }
}

impl RequirementModName {
    /// The mod's name as shown to the user: its own name for a known mod, the
    /// written name for any other.
    pub fn display_name(&self) -> (r: &str)
        ensures
            r@ == requirement_display_name(*self),
    {
        match self {
            RequirementModName::Chroma => "Chroma",
            RequirementModName::Noodle => "Noodle Extensions",
            RequirementModName::Vivify => "Vivify",
            RequirementModName::MappingExtensions => "Mapping Extensions",
            RequirementModName::Custom(s) => s.as_str(),
        }
    }
}

/// The names shown for the known mods, and a custom mod shown by the name
/// written for it.
pub proof fn lemma_mod_display_names(name: String)
    ensures
        suggestion_display_name(SuggestionModName::Chroma) == "Chroma"@,
        suggestion_display_name(SuggestionModName::Custom(name)) == name@,
        requirement_display_name(RequirementModName::Chroma) == "Chroma"@,
        requirement_display_name(RequirementModName::Noodle) == "Noodle Extensions"@,
        requirement_display_name(RequirementModName::Vivify) == "Vivify"@,
        requirement_display_name(RequirementModName::MappingExtensions) == "Mapping Extensions"@,
        requirement_display_name(RequirementModName::Custom(name)) == name@,
{
}

} // verus!
