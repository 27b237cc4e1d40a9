use crate::text::push_char;
use vstd::prelude::*;

verus! {

/// Upper layer service of a connection, as far as it is known.
#[derive(Debug, PartialEq, Eq, Hash)]
pub enum Service {
    /// The service is known by this name.
    Name(String),
    /// The service is not known.
    Unknown,
}

impl View for Service {
    type V = Option<Seq<char>>;

    open spec fn view(&self) -> Option<Seq<char>> {
        match self {
            Service::Name(name) => Some(name@),
            Service::Unknown => None,
        }
    }
}

/// What is rendered for a service: its name, or a question mark where it is
/// not known.
pub open spec fn service_label(service: Option<Seq<char>>) -> Seq<char> {
    match service {
        Some(name) => name,
        None => seq!['?'],
    }
}

impl Clone for Service {
    fn clone(&self) -> (copy: Self)
        ensures
            copy == *self,
    {
        match self {
            Service::Name(name) => Service::Name(name.clone()),
            Service::Unknown => Service::Unknown,
        }
    }
}

impl Service {
    /// The text rendered for the service.
    pub fn to_text(&self) -> (text: String)
        ensures
            text@ == service_label(self@),
    {
        match self {
            Service::Name(name) => name.clone(),
            Service::Unknown => {
                let mut text = String::new();
                push_char(&mut text, '?');
                assert(text@ =~= seq!['?']);
                text
            },
        }
    }
}

} // verus!
