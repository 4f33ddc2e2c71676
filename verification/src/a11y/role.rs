use vstd::prelude::*;

verus! {

/// Semantic role of a UI element, following WAI-ARIA conventions.
#[derive(Debug, Clone, Copy, PartialEq, Eq, Hash, Structural)]
pub enum Role {
    Button,
    TextInput,
    Checkbox,
    Switch,
    Slider,
    ProgressBar,
    Image,
    Heading { level: u8 },
    Label,
    Link,
    List,
    ListItem,
    Dialog,
    Alert,
    Navigation,
    Main,
    NoRole,
}

/// The ARIA role string of each role.
pub open spec fn aria_role_of(r: Role) -> Seq<char> {
    match r {
        Role::Button => "button"@,
        Role::TextInput => "textbox"@,
        Role::Checkbox => "checkbox"@,
        Role::Switch => "switch"@,
        Role::Slider => "slider"@,
        Role::ProgressBar => "progressbar"@,
        Role::Image => "img"@,
        Role::Heading { .. } => "heading"@,
        Role::Label => "label"@,
        Role::Link => "link"@,
        Role::List => "list"@,
        Role::ListItem => "listitem"@,
        Role::Dialog => "dialog"@,
        Role::Alert => "alert"@,
        Role::Navigation => "navigation"@,
        Role::Main => "main"@,
        Role::NoRole => "none"@,
    }
}

/// The ARIA level of a role: the heading level for headings, nothing otherwise.
pub open spec fn aria_level_of(r: Role) -> Option<u8> {
    match r {
        Role::Heading { level } => Some(level),
        _ => Option::None,
    }
}

impl Role {
    /// ARIA role string for web output.
    pub fn aria_role(&self) -> (s: &'static str)
        ensures
            s@ == aria_role_of(*self),
    {
        match self {
            Role::Button => "button",
            Role::TextInput => "textbox",
            Role::Checkbox => "checkbox",
            Role::Switch => "switch",
            Role::Slider => "slider",
            Role::ProgressBar => "progressbar",
            Role::Image => "img",
            Role::Heading { .. } => "heading",
            Role::Label => "label",
            Role::Link => "link",
            Role::List => "list",
            Role::ListItem => "listitem",
            Role::Dialog => "dialog",
            Role::Alert => "alert",
            Role::Navigation => "navigation",
            Role::Main => "main",
            Role::NoRole => "none",
        }
    }

    /// ARIA level attribute (only relevant for headings).
    pub fn aria_level(&self) -> (l: Option<u8>)
        ensures
            l == aria_level_of(*self),
    {
        if let Role::Heading { level } = self {
            Some(*level)
        } else {
            Option::None
        }
    }
}

} // verus!
