//! The caller-supplied resource descriptor.

use vstd::prelude::*;

verus! {

/// The conformance profile version this emitter targets; the
/// `conformance.version` resource attribute equals this exact string.
pub const CONFORMANCE_VERSION: &'static str = "0.1.0";

/// The required resource attributes, supplied by the caller: the producing
/// tool and the target under observation. `conformance.version` is fixed to
/// [`CONFORMANCE_VERSION`] and emitted automatically.
#[derive(Debug, Clone, PartialEq, Eq)]
pub struct Resource {
    tool_name: String,
    tool_version: String,
    target_name: String,
    target_language: String,
}

/// The mathematical value of a [`Resource`].
pub struct ResourceShape {
    pub tool_name: Seq<char>,
    pub tool_version: Seq<char>,
    pub target_name: Seq<char>,
    pub target_language: Seq<char>,
}

impl View for Resource {
    type V = ResourceShape;

    closed spec fn view(&self) -> ResourceShape {
        ResourceShape {
            tool_name: self.tool_name@,
            tool_version: self.tool_version@,
            target_name: self.target_name@,
            target_language: self.target_language@,
        }
    }
}

/// The ordered resource attributes of `r`, as `(key, value)` pairs.
pub open spec fn attribute_pairs(r: ResourceShape) -> Seq<(Seq<char>, Seq<char>)> {
    seq![
        ("conformance.version"@, CONFORMANCE_VERSION@),
        ("conformance.tool.name"@, r.tool_name),
        ("conformance.tool.version"@, r.tool_version),
        ("conformance.target.name"@, r.target_name),
        ("conformance.target.language"@, r.target_language),
    ]
}

impl Resource {
    /// Builds a resource descriptor from the tool name/version (the producer)
    /// and the target name/language (the implementation under observation).
    pub fn new(tool_name: String, tool_version: String, target_name: String, target_language: String) -> (r: Resource)
        ensures
            r@ == (ResourceShape {
                tool_name: tool_name@,
                tool_version: tool_version@,
                target_name: target_name@,
                target_language: target_language@,
            }),
    {
        Resource { tool_name, tool_version, target_name, target_language }
    }

    /// The ordered resource attributes as `(key, value)` pairs, with
    /// `conformance.version` first. Every attribute is a string value.
    pub fn attributes(&self) -> (r: Vec<(&'static str, String)>)
        ensures
            r@.map_values(|p: (&'static str, String)| (p.0@, p.1@)) == attribute_pairs(self@),
    {
        let mut out: Vec<(&'static str, String)> = Vec::new();
        out.push(("conformance.version", String::from_str(CONFORMANCE_VERSION)));
        out.push(("conformance.tool.name", self.tool_name.clone()));
        out.push(("conformance.tool.version", self.tool_version.clone()));
        out.push(("conformance.target.name", self.target_name.clone()));
        out.push(("conformance.target.language", self.target_language.clone()));
        proof {
            assert(out@.map_values(|p: (&'static str, String)| (p.0@, p.1@)) =~= attribute_pairs(self@));
        }
        out
    }
}

} // verus!
