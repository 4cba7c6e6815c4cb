//! The schema tree that the targets read.

use vstd::prelude::*;

verus! {

/// The primitive types of the "type" form.
#[derive(Clone, Copy, Debug, PartialEq, Eq, Structural)]
pub enum Type {
    Boolean,
    String,
    Timestamp,
    Int8,
    Uint8,
    Int16,
    Uint16,
    Int32,
    Uint32,
    Float32,
    Float64,
}

/// One named member of a schema: a property, a discriminator mapping entry,
/// or a definition.
#[derive(Debug)]
pub struct Member {
    pub name: String,
    pub schema: Schema,
}

/// The shape of a schema node.
#[derive(Debug)]
pub enum Form {
    Empty,
    Ref(String),
    Type(Type),
    Enum(Vec<String>),
    Elements(Box<Schema>),
    Properties { required: Vec<Member>, optional: Vec<Member> },
    Discriminator { tag: String, mapping: Vec<Member> },
    Values(Box<Schema>),
}

/// A schema node. Only the root carries `definitions`; nested nodes leave it empty.
#[derive(Debug)]
pub struct Schema {
    pub definitions: Vec<Member>,
    pub form: Form,
}

impl Member {
    pub fn new(name: String, schema: Schema) -> (r: Member)
        ensures
            r.name == name,
            r.schema == schema,
    {
        Member { name, schema }
    }
}

impl Schema {
    /// A nested schema node of the given form.
    pub fn of_form(form: Form) -> (r: Schema)
        ensures
            r.definitions@.len() == 0,
            r.form == form,
    {
        Schema { definitions: Vec::new(), form }
    }

    /// A root schema node with its definitions.
    pub fn with_definitions(definitions: Vec<Member>, form: Form) -> (r: Schema)
        ensures
            r.definitions == definitions,
            r.form == form,
    {
        Schema { definitions, form }
    }
}

} // verus!
