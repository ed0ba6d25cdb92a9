//! What every rule says about itself.

use vstd::prelude::*;

verus! {

/// The category that a rule belongs to.
#[derive(Debug, Clone, Copy, PartialEq, Eq, Structural, Hash)]
pub enum Tag {
    Atx,
    AtxClosed,
    BlankLines,
    Bullet,
    Code,
    Emphasis,
    HardTab,
    Headers,
    Hr,
    Html,
    Indentation,
    LineLength,
    Links,
    Ol,
    Spaces,
    Ul,
    Url,
    Whitespace,
}

/// The fixed description of a rule: its name, what it checks, the categories
/// it belongs to and the other names it goes by.
#[derive(Debug, Clone, PartialEq, Eq)]
pub struct Metadata {
    pub name: &'static str,
    pub description: &'static str,
    pub tags: Vec<Tag>,
    pub aliases: Vec<&'static str>,
}

/// What a violation carries of the rule that found it.
pub struct Label {
    pub name: Seq<char>,
    pub description: Seq<char>,
    pub alias: Seq<char>,
}

/// The mathematical content of a [`Metadata`].
pub struct MetadataView {
    pub name: Seq<char>,
    pub description: Seq<char>,
    pub tags: Seq<Tag>,
    pub aliases: Seq<Seq<char>>,
}

impl MetadataView {
    /// A rule has at least one alias.
    pub open spec fn wf(self) -> bool {
        self.aliases.len() >= 1
    }

    /// The name, the description and the first alias.
    pub open spec fn label(self) -> Label {
        Label { name: self.name, description: self.description, alias: self.aliases[0] }
    }
}

impl View for Metadata {
    type V = MetadataView;

    open spec fn view(&self) -> MetadataView {
        MetadataView {
            name: self.name@,
            description: self.description@,
            tags: self.tags@,
            aliases: self.aliases@.map_values(|alias: &'static str| alias@),
        }
    }
}

impl Metadata {
    /// A rule has at least one alias.
    pub open spec fn wf(&self) -> bool {
        self@.wf()
    }

    /// The name, the description and the first alias.
    pub open spec fn label(&self) -> Label {
        self@.label()
    }
}

} // verus!
