//! The configuration model: what a policy asks to be done to a request or a
//! response.
use vstd::prelude::*;

verus! {

/// A policy: the transform of requests and the transform of responses.
#[derive(Clone, Debug, Default)]
pub struct LocalTransformationConfig {
    pub request: Option<LocalTransform>,
    pub response: Option<LocalTransform>,
}

/// What to do to one message: headers to add, to set and to remove, in the
/// order given, and an optional new body.
#[derive(Clone, Debug, Default)]
pub struct LocalTransform {
    pub add: Vec<NameValuePair>,
    pub set: Vec<NameValuePair>,
    pub remove: Vec<String>,
    pub body: Option<BodyTransform>,
}

/// A new body: the template that renders it, and whether the old body is
/// parsed as JSON first.
#[derive(Clone, Debug, Default)]
pub struct BodyTransform {
    pub parse_as: BodyParseBehavior,
    pub value: String,
}

/// A header name and the template of its value.
#[derive(Clone, Debug, Default)]
pub struct NameValuePair {
    pub name: String,
    pub value: String,
}

/// How the body is read before the templates are rendered.
#[derive(Clone, Copy, Debug, Default, PartialEq, Eq, Structural)]
pub enum BodyParseBehavior {
    #[default]
    AsString,
    AsJson,
}

impl BodyTransform {
    /// The body transform needs no work: no JSON parsing and no template.
    pub open spec fn is_empty_spec(&self) -> bool {
        self.parse_as == BodyParseBehavior::AsString && self.value@.len() == 0
    }

    /// Whether the body transform needs no work: no JSON parsing and no template.
    pub fn is_empty(&self) -> (r: bool)
        ensures
            r == self.is_empty_spec(),
    {
        self.parse_as == BodyParseBehavior::AsString && self.value.as_str().is_empty()
    }
}

impl LocalTransform {
    /// The transform asks for nothing: no header to add, set or remove, and no
    /// body work.
    pub open spec fn is_empty_spec(&self) -> bool {
        &&& self.add@.len() == 0
        &&& self.set@.len() == 0
        &&& self.remove@.len() == 0
        &&& match self.body {
            Some(b) => b.is_empty_spec(),
            None => true,
        }
    }

    /// Whether the transform asks for nothing.
    pub fn is_empty(&self) -> (r: bool)
        ensures
            r == self.is_empty_spec(),
    {
        self.add.len() == 0 && self.set.len() == 0 && self.remove.len() == 0 && match &self.body {
            Some(b) => b.is_empty(),
            None => true,
        }
    }
}

} // verus!
