//! Kinds of description that can be generated for a compilation.

use vstd::prelude::*;

verus! {

/// The format of a generated description.
#[derive(Debug, PartialEq, Eq, Copy, Clone, Structural)]
pub enum DescriptionType {
    Markdown,
    Json,
    Yaml,
}

/// The media type of each description format.
pub open spec fn media_type(ty: DescriptionType) -> Seq<char> {
    match ty {
        DescriptionType::Markdown => "text/markdown"@,
        DescriptionType::Json => "application/json"@,
        DescriptionType::Yaml => "application/yaml"@,
    }
}

impl DescriptionType {
    /// The media type under which a description of this format is served.
    pub fn content_type(&self) -> (r: &'static str)
        ensures
            r@ == media_type(*self),
    {
        match self {
            Self::Markdown => "text/markdown",
            Self::Json => "application/json",
            Self::Yaml => "application/yaml",
        }
    }
}

/// Different description formats are served under different media types.
pub proof fn lemma_media_types_distinct(a: DescriptionType, b: DescriptionType)
    requires
        a != b,
    ensures
        media_type(a) != media_type(b),
{
    reveal_strlit("text/markdown");
    reveal_strlit("application/json");
    reveal_strlit("application/yaml");
    assert("text/markdown"@[0] != "application/json"@[0]);
    assert("text/markdown"@[0] != "application/yaml"@[0]);
    assert("application/json"@[12] != "application/yaml"@[12]);
}

/// Generates a description as JSON.
pub struct JsonDescriptionGenerator;

/// Generates a description as YAML.
pub struct YamlDescriptionGenerator;

} // verus!
