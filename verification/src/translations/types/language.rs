use vstd::prelude::*;

verus! {

/// Language of the user interface.
#[allow(non_camel_case_types)]
#[derive(Clone, Copy, Debug, PartialEq, Eq, Structural, Hash)]
pub enum Language {
    EN,
    IT,
    FR,
    ES,
    PL,
    DE,
    UK,
    ZH,
    ZH_TW,
    RO,
    KO,
    PT,
    TR,
    RU,
    EL,
    SV,
    FI,
    JA,
    UZ,
    VI,
    ID,
    NL,
}

impl Language {
    /// Whether the glyphs of the language's script take about twice the
    /// horizontal space of a Latin letter.
    pub open spec fn wide_script(self) -> bool {
        self == Language::JA || self == Language::KO || self == Language::ZH || self
            == Language::ZH_TW
    }

    /// Tells whether the language is written in a wide script.
    pub fn is_wide_script(self) -> (wide: bool)
        ensures
            wide == self.wide_script(),
    {
        match self {
            Language::JA | Language::KO | Language::ZH | Language::ZH_TW => true,
            _ => false,
        }
    }
}

impl Default for Language {
    fn default() -> (language: Language)
        ensures
            language == Language::EN,
    {
        Language::EN
    }
}

} // verus!
