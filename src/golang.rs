//! The Go target: structs, string-backed enums, and tagged unions with
//! generated JSON marshalling.

use vstd::prelude::*;
use crate::config::ConfigError;
use crate::naming::{debug_quoted, quoted, extend, file_stem, name, name_of, pascal_of, single, snake_of, stem, to_pascal, to_snake};
use crate::schema::{Form, Member, Schema, Type};

verus! {

/// A Go declaration or type expression.
#[derive(Debug)]
pub enum Ast {
    EmptyInterface,
    Boolean,
    Int8,
    Uint8,
    Int16,
    Uint16,
    Int32,
    Uint32,
    Float32,
    Float64,
    String,
    Time,
    StrConstant(String),
    /// A named constant: its name, its type's name and its value.
    Const(String, String, Box<Ast>),
    Array(Box<Ast>),
    StringMap(Box<Ast>),
    Struct(String, Vec<Property>),
    DiscriminatorStruct {
        /// the name of the struct
        name: String,
        /// the name of the tag's type
        tag: String,
        /// the tag's field name in the struct
        tag_short: String,
        /// the tag's key in JSON
        tag_json: String,
        /// the variants that carry fields
        variants: Vec<DiscriminatorVariant>,
    },
    Identifier(String),
    Typedef(String, Box<Ast>),
    Sequence(Vec<Ast>),
}

/// One variant of a tagged union.
#[derive(Debug)]
pub struct DiscriminatorVariant {
    /// the variant's struct name
    pub name: String,
    /// the tag value that selects it in JSON
    pub name_json: String,
    pub properties: Vec<Property>,
}

/// One field of a struct.
#[derive(Debug)]
pub struct Property {
    pub name: String,
    pub required: bool,
    pub json: String,
    pub ast: Ast,
}

/// The value that an [`Ast`] stands for, with text as character sequences.
pub enum Node {
    EmptyInterface,
    Boolean,
    Int8,
    Uint8,
    Int16,
    Uint16,
    Int32,
    Uint32,
    Float32,
    Float64,
    String,
    Time,
    StrConstant(Seq<char>),
    Const(Seq<char>, Seq<char>, Box<Node>),
    Array(Box<Node>),
    StringMap(Box<Node>),
    Struct(Seq<char>, Seq<FieldNode>),
    DiscriminatorStruct {
        name: Seq<char>,
        tag: Seq<char>,
        tag_short: Seq<char>,
        tag_json: Seq<char>,
        variants: Seq<VariantNode>,
    },
    Identifier(Seq<char>),
    Typedef(Seq<char>, Box<Node>),
    Sequence(Seq<Node>),
}

/// The value of a [`Property`].
pub struct FieldNode {
    pub name: Seq<char>,
    pub required: bool,
    pub json: Seq<char>,
    pub ast: Node,
}

/// The value of a [`DiscriminatorVariant`].
pub struct VariantNode {
    pub name: Seq<char>,
    pub name_json: Seq<char>,
    pub properties: Seq<FieldNode>,
}

pub open spec fn node_of(a: Ast) -> Node
    decreases a,
{
    match a {
        Ast::EmptyInterface => Node::EmptyInterface,
        Ast::Boolean => Node::Boolean,
        Ast::Int8 => Node::Int8,
        Ast::Uint8 => Node::Uint8,
        Ast::Int16 => Node::Int16,
        Ast::Uint16 => Node::Uint16,
        Ast::Int32 => Node::Int32,
        Ast::Uint32 => Node::Uint32,
        Ast::Float32 => Node::Float32,
        Ast::Float64 => Node::Float64,
        Ast::String => Node::String,
        Ast::Time => Node::Time,
        Ast::StrConstant(s) => Node::StrConstant(s@),
        Ast::Const(n, t, v) => Node::Const(n@, t@, Box::new(node_of(*v))),
        Ast::Array(e) => Node::Array(Box::new(node_of(*e))),
        Ast::StringMap(e) => Node::StringMap(Box::new(node_of(*e))),
        Ast::Struct(n, ps) => Node::Struct(n@, fields_of(ps@)),
        Ast::DiscriminatorStruct { name, tag, tag_short, tag_json, variants } => Node::DiscriminatorStruct {
            name: name@,
            tag: tag@,
            tag_short: tag_short@,
            tag_json: tag_json@,
            variants: variants_of(variants@),
        },
        Ast::Identifier(n) => Node::Identifier(n@),
        Ast::Typedef(n, v) => Node::Typedef(n@, Box::new(node_of(*v))),
        Ast::Sequence(s) => Node::Sequence(nodes_of(s@)),
    }
}

pub open spec fn nodes_of(s: Seq<Ast>) -> Seq<Node>
    decreases s,
{
    if s.len() == 0 {
        Seq::empty()
    } else {
        nodes_of(s.drop_last()).push(node_of(s[s.len() - 1]))
    }
}

pub open spec fn fields_of(s: Seq<Property>) -> Seq<FieldNode>
    decreases s,
{
    if s.len() == 0 {
        Seq::empty()
    } else {
        let p = s[s.len() - 1];
        fields_of(s.drop_last()).push(
            FieldNode { name: p.name@, required: p.required, json: p.json@, ast: node_of(p.ast) },
        )
    }
}

pub open spec fn variants_of(s: Seq<DiscriminatorVariant>) -> Seq<VariantNode>
    decreases s,
{
    if s.len() == 0 {
        Seq::empty()
    } else {
        let v = s[s.len() - 1];
        variants_of(s.drop_last()).push(
            VariantNode { name: v.name@, name_json: v.name_json@, properties: fields_of(v.properties@) },
        )
    }
}

impl View for Ast {
    type V = Node;

    open spec fn view(&self) -> Node {
        node_of(*self)
    }
}


/// The Go type of a primitive.
pub open spec fn primitive(t: Type) -> Node {
    match t {
        Type::Boolean => Node::Boolean,
        Type::String => Node::String,
        Type::Timestamp => Node::Time,
        Type::Int8 => Node::Int8,
        Type::Uint8 => Node::Uint8,
        Type::Int16 => Node::Int16,
        Type::Uint16 => Node::Uint16,
        Type::Int32 => Node::Int32,
        Type::Uint32 => Node::Uint32,
        Type::Float32 => Node::Float32,
        Type::Float64 => Node::Float64,
    }
}

/// The constants of an enum whose type is `ty` and whose path is `path`, one per value.
pub open spec fn enum_consts(path: Seq<String>, ty: Seq<char>, vals: Seq<String>) -> Seq<Node>
    decreases vals.len(),
{
    if vals.len() == 0 {
        Seq::empty()
    } else {
        let v = vals.last();
        enum_consts(path, ty, vals.drop_last()).push(
            Node::Const(name_of(path.push(v)), ty, Box::new(Node::StrConstant(v@))),
        )
    }
}

/// What transforming a schema at `path` appends to the declarations, and the
/// type expression that stands for it.
pub open spec fn lowered(path: Seq<String>, s: Schema) -> (Seq<Node>, Node)
    decreases s,
{
    match s.form {
        Form::Empty => (Seq::empty(), Node::EmptyInterface),
        Form::Ref(d) => (Seq::empty(), Node::Identifier(name_of(seq![d]))),
        Form::Type(t) => (Seq::empty(), primitive(t)),
        Form::Enum(vals) => {
            let id = name_of(path);
            (
                seq![Node::Typedef(id, Box::new(Node::String))] + enum_consts(path, id, vals@),
                Node::Identifier(id),
            )
        },
        Form::Elements(e) => {
            let r = lowered(path, *e);
            (r.0, Node::Array(Box::new(r.1)))
        },
        Form::Properties { required, optional } => {
            let rq = members(path, required@, true);
            let op = members(path, optional@, false);
            let id = name_of(path);
            (rq.0 + op.0 + seq![Node::Struct(id, rq.1 + op.1)], Node::Identifier(id))
        },
        Form::Discriminator { tag, mapping } => {
            let tag_name = name_of(path.push(tag));
            let m = mapping_decls(path, tag, tag_name, mapping@);
            let id = name_of(path);
            (
                seq![Node::Typedef(tag_name, Box::new(Node::String))] + m.0 + seq![
                    Node::DiscriminatorStruct {
                        name: id,
                        tag: tag_name,
                        tag_short: pascal_of(tag@),
                        tag_json: tag@,
                        variants: m.1,
                    },
                ],
                Node::Identifier(id),
            )
        },
        Form::Values(e) => {
            let r = lowered(path, *e);
            (r.0, Node::StringMap(Box::new(r.1)))
        },
    }
}

/// The declarations and the fields of a list of properties, each transformed
/// at `path` extended by its name.
pub open spec fn members(path: Seq<String>, ms: Seq<Member>, required: bool) -> (Seq<Node>, Seq<FieldNode>)
    decreases ms,
{
    if ms.len() == 0 {
        (Seq::empty(), Seq::empty())
    } else {
        let m = ms[ms.len() - 1];
        let init = members(path, ms.drop_last(), required);
        let r = lowered(path.push(m.name), m.schema);
        (
            init.0 + r.0,
            init.1.push(FieldNode { name: pascal_of(m.name@), required, json: m.name@, ast: r.1 }),
        )
    }
}

/// The declarations and the variants of a discriminator's mapping: one tag
/// constant for each entry, and a variant for each entry of properties form.
pub open spec fn mapping_decls(path: Seq<String>, tag: String, tag_name: Seq<char>, ms: Seq<Member>) -> (Seq<Node>, Seq<VariantNode>)
    decreases ms,
{
    if ms.len() == 0 {
        (Seq::empty(), Seq::empty())
    } else {
        let m = ms[ms.len() - 1];
        let init = mapping_decls(path, tag, tag_name, ms.drop_last());
        let c = Node::Const(
            name_of(path.push(tag).push(m.name)),
            tag_name,
            Box::new(Node::StrConstant(m.name@)),
        );
        match m.schema.form {
            Form::Properties { required, optional } => {
                let rq = members(path, required@, true);
                let op = members(path, optional@, false);
                (
                    init.0.push(c) + rq.0 + op.0,
                    init.1.push(
                        VariantNode {
                            name: name_of(path.push(m.name)),
                            name_json: m.name@,
                            properties: rq.1 + op.1,
                        },
                    ),
                )
            },
            _ => (init.0.push(c), init.1),
        }
    }
}

/// What naming a top-level result appends: nothing for a bare identifier,
/// else an alias called `id`.
pub open spec fn hoisted(id: Seq<char>, a: Node) -> Seq<Node> {
    match a {
        Node::Identifier(_) => Seq::empty(),
        _ => seq![Node::Typedef(id, Box::new(a))],
    }
}

/// The declarations of a root schema's definitions, each at the path of its own name.
pub open spec fn definition_decls(ms: Seq<Member>) -> Seq<Node>
    decreases ms.len(),
{
    if ms.len() == 0 {
        Seq::empty()
    } else {
        let m = ms.last();
        let r = lowered(seq![m.name], m.schema);
        definition_decls(ms.drop_last()) + r.0 + hoisted(pascal_of(m.name@), r.1)
    }
}

/// The whole declaration sequence for a root schema, whose own declarations
/// are named from `root_name`.
pub open spec fn transformed(root_name: String, s: Schema) -> Node {
    let r = lowered(seq![root_name], s);
    Node::Sequence(definition_decls(s.definitions@) + r.0 + hoisted(pascal_of(root_name@), r.1))
}

proof fn lemma_nodes_push(s: Seq<Ast>, a: Ast)
    ensures
        nodes_of(s.push(a)) == nodes_of(s).push(a@),
        node_of(Ast::String) == Node::String,
{
    assert(s.push(a).drop_last() =~= s);
}

proof fn lemma_fields_push(s: Seq<Property>, p: Property)
    ensures
        fields_of(s.push(p)) == fields_of(s).push(
            FieldNode { name: p.name@, required: p.required, json: p.json@, ast: p.ast@ },
        ),
{
    assert(s.push(p).drop_last() =~= s);
}

proof fn lemma_variants_push(s: Seq<DiscriminatorVariant>, v: DiscriminatorVariant)
    ensures
        variants_of(s.push(v)) == variants_of(s).push(
            VariantNode { name: v.name@, name_json: v.name_json@, properties: fields_of(v.properties@) },
        ),
{
    assert(s.push(v).drop_last() =~= s);
}

/// The Go target: names the package and the root type.
pub struct Target {
    pub root_name: String,
    pub pkg_name: String,
}

impl Target {
    /// Derives the package name from the output directory's last component
    /// and the root name from the input's file name; either is `None` where
    /// the path has no such component in valid text.
    pub fn new(out_dir_name: Option<&str>, input_file_name: Option<&str>) -> (r: Result<Target, ConfigError>)
        ensures
            out_dir_name is None ==> r == Err::<Target, ConfigError>(ConfigError::PackageName),
            out_dir_name is Some && input_file_name is None ==> r == Err::<Target, ConfigError>(ConfigError::FileName),
            out_dir_name is Some && input_file_name is Some ==> r is Ok
                && r->Ok_0.pkg_name@ == snake_of(out_dir_name->Some_0@)
                && r->Ok_0.root_name@ == snake_of(stem(input_file_name->Some_0@)),
    {
        let pkg = match out_dir_name {
            Some(d) => d,
            None => return Err(ConfigError::PackageName),
        };
        let file = match input_file_name {
            Some(f) => f,
            None => return Err(ConfigError::FileName),
        };
        let pkg_name = to_snake(pkg);
        let root_name = to_snake(file_stem(file));
        Ok(Target { root_name, pkg_name })
    }

    /// The name of the file that this target writes in the output directory.
    pub fn file_name(&self) -> (r: String)
        ensures
            r@ == self.root_name@ + ".go"@,
    {
        let mut r = self.root_name.clone();
        r.append(".go");
        r
    }

    /// The Go type of a primitive.
    fn primitive(t: Type) -> (r: Ast)
        ensures
            r@ == primitive(t),
    {
        match t {
            Type::Boolean => Ast::Boolean,
            Type::String => Ast::String,
            Type::Timestamp => Ast::Time,
            Type::Int8 => Ast::Int8,
            Type::Uint8 => Ast::Uint8,
            Type::Int16 => Ast::Int16,
            Type::Uint16 => Ast::Uint16,
            Type::Int32 => Ast::Int32,
            Type::Uint32 => Ast::Uint32,
            Type::Float32 => Ast::Float32,
            Type::Float64 => Ast::Float64,
        }
    }

    /// Transforms a schema at `path`, appending the declarations that it needs
    /// to `seq`, and returns the type expression that stands for it.
    pub fn transform_subschema(&self, seq: &mut Vec<Ast>, path: &Vec<String>, schema: &Schema) -> (r: Ast)
        ensures
            nodes_of(final(seq)@) == nodes_of(old(seq)@) + lowered(path@, *schema).0,
            r@ == lowered(path@, *schema).1,
        decreases schema,
    {
        let ghost s0 = seq@;
        proof {
            reveal_with_fuel(node_of, 2);
        }
        match &schema.form {
            Form::Empty => {
                assert(nodes_of(seq@) =~= nodes_of(s0) + Seq::<Node>::empty());
                Ast::EmptyInterface
            },
            Form::Ref(d) => {
                assert(nodes_of(seq@) =~= nodes_of(s0) + Seq::<Node>::empty());
                Ast::Identifier(name(&single(d)))
            },
            Form::Type(t) => {
                assert(nodes_of(seq@) =~= nodes_of(s0) + Seq::<Node>::empty());
                Self::primitive(*t)
            },
            Form::Enum(vals) => {
                let enum_name = name(path);
                proof { lemma_nodes_push(seq@, Ast::Typedef(enum_name, Box::new(Ast::String))); }
                seq.push(Ast::Typedef(enum_name.clone(), Box::new(Ast::String)));
                let mut i: usize = 0;
                assert(nodes_of(seq@) =~= nodes_of(s0) + seq![Node::Typedef(enum_name@, Box::new(Node::String))]
                    + enum_consts(path@, enum_name@, vals@.take(0)));
                while i < vals.len()
                    invariant
                        i <= vals@.len(),
                        enum_name@ == name_of(path@),
                        nodes_of(seq@) == nodes_of(s0) + seq![Node::Typedef(enum_name@, Box::new(Node::String))]
                            + enum_consts(path@, enum_name@, vals@.take(i as int)),
                    decreases vals@.len() - i,
                {
                    assert(vals@.take(i as int + 1).drop_last() =~= vals@.take(i as int));
                    let c = Ast::Const(name(&extend(path, &vals[i])), enum_name.clone(), Box::new(Ast::StrConstant(vals[i].clone())));
                    proof { lemma_nodes_push(seq@, c); }
                    let ghost expected = Node::Const(name_of(path@.push(vals@[i as int])), enum_name@, Box::new(Node::StrConstant(vals@[i as int]@)));
                    proof { reveal_with_fuel(node_of, 2); }
                    assert(c@ == expected);
                    assert(enum_consts(path@, enum_name@, vals@.take(i + 1)) == enum_consts(path@, enum_name@, vals@.take(i as int)).push(expected));
                    seq.push(c);
                    i = i + 1;
                    assert(nodes_of(seq@) =~= nodes_of(s0) + seq![Node::Typedef(enum_name@, Box::new(Node::String))]
                        + enum_consts(path@, enum_name@, vals@.take(i as int)));
                }
                assert(vals@.take(i as int) =~= vals@);
                Ast::Identifier(enum_name)
            },
            Form::Elements(e) => {
                let a = self.transform_subschema(seq, path, e);
                Ast::Array(Box::new(a))
            },
            Form::Properties { required, optional } => {
                let mut props: Vec<Property> = Vec::new();
                self.transform_members(seq, path, required, true, &mut props);
                self.transform_members(seq, path, optional, false, &mut props);
                let id = name(path);
                proof {
                    assert(fields_of(Seq::<Property>::empty()) =~= Seq::<FieldNode>::empty());
                    lemma_nodes_push(seq@, Ast::Struct(id, props));
                }
                seq.push(Ast::Struct(id.clone(), props));
                Ast::Identifier(id)
            },
            Form::Discriminator { tag, mapping } => {
                let tag_enum_name = name(&extend(path, tag));
                proof { lemma_nodes_push(seq@, Ast::Typedef(tag_enum_name, Box::new(Ast::String))); }
                seq.push(Ast::Typedef(tag_enum_name.clone(), Box::new(Ast::String)));
                let ghost s1 = seq@;
                assert(nodes_of(s1) =~= nodes_of(s0) + seq![Node::Typedef(tag_enum_name@, Box::new(Node::String))]);
                assert(nodes_of(seq@) =~= nodes_of(s1) + mapping_decls(path@, *tag, tag_enum_name@, mapping@.take(0)).0);
                assert(variants_of(Seq::<DiscriminatorVariant>::empty()) =~= mapping_decls(path@, *tag, tag_enum_name@, mapping@.take(0)).1);
                assert(decreases_to!(*schema => *mapping));
                let mut variants: Vec<DiscriminatorVariant> = Vec::new();
                let mut i: usize = 0;
                while i < mapping.len()
                    invariant
                        i <= mapping@.len(),
                        decreases_to!(*schema => *mapping),
                        tag_enum_name@ == name_of(path@.push(*tag)),
                        nodes_of(s1) == nodes_of(s0) + seq![Node::Typedef(tag_enum_name@, Box::new(Node::String))],
                        nodes_of(seq@) == nodes_of(s1) + mapping_decls(path@, *tag, tag_enum_name@, mapping@.take(i as int)).0,
                        variants_of(variants@) == mapping_decls(path@, *tag, tag_enum_name@, mapping@.take(i as int)).1,
                    decreases mapping@.len() - i,
                {
                    assert(mapping@.take(i as int + 1).drop_last() =~= mapping@.take(i as int));
                    let entry = &mapping[i];
                    let ghost prev = mapping_decls(path@, *tag, tag_enum_name@, mapping@.take(i as int));
                    let ghost seq_before = seq@;
                    let c = Ast::Const(
                        name(&extend(&extend(path, tag), &entry.name)),
                        tag_enum_name.clone(),
                        Box::new(Ast::StrConstant(entry.name.clone())),
                    );
                    let ghost cn = Node::Const(
                        name_of(path@.push(*tag).push(entry.name)),
                        tag_enum_name@,
                        Box::new(Node::StrConstant(entry.name@)),
                    );
                    proof {
                        reveal_with_fuel(node_of, 2);
                        assert(c@ == cn);
                        lemma_nodes_push(seq@, c);
                    }
                    seq.push(c);
                    if let Form::Properties { required, optional } = &entry.schema.form {
                        let mut props: Vec<Property> = Vec::new();
                        proof {
                            assert(fields_of(props@) =~= Seq::<FieldNode>::empty());
                            assert(decreases_to!(*mapping => mapping@));
                            assert(decreases_to!(mapping@ => mapping@[i as int]));
                            assert(decreases_to!(*entry => entry.schema));
                            assert(decreases_to!(entry.schema => entry.schema.form));
                            assert(decreases_to!(entry.schema.form => *required));
                            assert(decreases_to!(entry.schema.form => *optional));
                            assert(decreases_to!(*schema => *required));
                        }
                        self.transform_members(seq, path, required, true, &mut props);
                        self.transform_members(seq, path, optional, false, &mut props);
                        let v = DiscriminatorVariant {
                            name: name(&extend(path, &entry.name)),
                            name_json: entry.name.clone(),
                            properties: props,
                        };
                        proof {
                            let rq = members(path@, required@, true);
                            let op = members(path@, optional@, false);
                            assert(fields_of(props@) =~= rq.1 + op.1);
                            assert(nodes_of(seq@) =~= nodes_of(s1) + (prev.0.push(cn) + rq.0 + op.0));
                            lemma_variants_push(variants@, v);
                        }
                        variants.push(v);
                    } else {
                        assert(nodes_of(seq@) =~= nodes_of(s1) + prev.0.push(cn));
                    }
                    i = i + 1;
                    proof {
                        assert(mapping@.take(i as int).drop_last() =~= mapping@.take(i - 1));
                        assert(mapping@.take(i as int)[i - 1] == mapping@[i - 1]);
                    }
                }
                assert(mapping@.take(i as int) =~= mapping@);
                let id = name(path);
                let d = Ast::DiscriminatorStruct {
                    name: id.clone(),
                    tag: tag_enum_name,
                    tag_short: to_pascal(tag.as_str()),
                    tag_json: tag.clone(),
                    variants,
                };
                proof { lemma_nodes_push(seq@, d); }
                seq.push(d);
                Ast::Identifier(id)
            },
            Form::Values(e) => {
                let a = self.transform_subschema(seq, path, e);
                Ast::StringMap(Box::new(a))
            },
        }
    }

    /// Transforms each of `ms` at `path` extended by its name, appending the
    /// declarations to `seq` and one field per member to `props`.
    fn transform_members(&self, seq: &mut Vec<Ast>, path: &Vec<String>, ms: &Vec<Member>, required: bool, props: &mut Vec<Property>)
        ensures
            nodes_of(final(seq)@) == nodes_of(old(seq)@) + members(path@, ms@, required).0,
            fields_of(final(props)@) == fields_of(old(props)@) + members(path@, ms@, required).1,
        decreases ms,
    {
        let ghost s0 = seq@;
        let ghost p0 = props@;
        let mut i: usize = 0;
        while i < ms.len()
            invariant
                i <= ms@.len(),
                nodes_of(seq@) == nodes_of(s0) + members(path@, ms@.take(i as int), required).0,
                fields_of(props@) == fields_of(p0) + members(path@, ms@.take(i as int), required).1,
            decreases ms@.len() - i,
        {
            assert(ms@.take(i as int + 1).drop_last() =~= ms@.take(i as int));
            let m = &ms[i];
            let a = self.transform_subschema(seq, &extend(path, &m.name), &m.schema);
            let p = Property { name: to_pascal(m.name.as_str()), required, json: m.name.clone(), ast: a };
            proof { lemma_fields_push(props@, p); }
            props.push(p);
            i = i + 1;
            proof {
                assert(nodes_of(seq@) =~= nodes_of(s0) + members(path@, ms@.take(i as int), required).0);
                assert(fields_of(props@) =~= fields_of(p0) + members(path@, ms@.take(i as int), required).1);
            }
        }
        assert(ms@.take(i as int) =~= ms@);
    }

    /// Appends an alias for `ast` unless it is a bare identifier already; the
    /// alias is named from `label`, or from the root name where it is `None`.
    pub fn ensure_has_name(&self, label: Option<&String>, seq: &mut Vec<Ast>, ast: Ast)
        ensures
            nodes_of(final(seq)@) == nodes_of(old(seq)@) + hoisted(
                pascal_of(
                    match label {
                        Some(l) => l@,
                        None => self.root_name@,
                    },
                ),
                ast@,
            ),
    {
        match ast {
            Ast::Identifier(_) => {
                assert(nodes_of(seq@) =~= nodes_of(seq@) + Seq::<Node>::empty());
            },
            _ => {
                let id = match label {
                    Some(l) => to_pascal(l.as_str()),
                    None => to_pascal(self.root_name.as_str()),
                };
                let t = Ast::Typedef(id, Box::new(ast));
                proof {
                    lemma_nodes_push(seq@, t);
                    assert(nodes_of(seq@.push(t)) =~= nodes_of(seq@) + seq![t@]);
                }
                seq.push(t);
            },
        }
    }

    /// Transforms each definition, naming it after itself, then the root,
    /// naming it after the input file.
    pub fn transform(&self, schema: &Schema) -> (r: Ast)
        ensures
            r@ == transformed(self.root_name, *schema),
    {
        let mut seq: Vec<Ast> = Vec::new();
        let defs = &schema.definitions;
        let mut i: usize = 0;
        assert(nodes_of(seq@) =~= definition_decls(defs@.take(0)));
        while i < defs.len()
            invariant
                i <= defs@.len(),
                nodes_of(seq@) == definition_decls(defs@.take(i as int)),
            decreases defs@.len() - i,
        {
            let d = &defs[i];
            let a = self.transform_subschema(&mut seq, &single(&d.name), &d.schema);
            self.ensure_has_name(Some(&d.name), &mut seq, a);
            i = i + 1;
            proof {
                assert(defs@.take(i as int).drop_last() =~= defs@.take(i - 1));
                assert(defs@.take(i as int).last() == defs@[i - 1]);
            }
        }
        assert(defs@.take(i as int) =~= defs@);
        let a = self.transform_subschema(&mut seq, &single(&self.root_name), schema);
        self.ensure_has_name(None, &mut seq, a);
        Ast::Sequence(seq)
    }
}


/// The Go source text of a node.
pub open spec fn go_text(n: Node) -> Seq<char>
    decreases n,
{
    match n {
        Node::EmptyInterface => "interface{}"@,
        Node::Boolean => "bool"@,
        Node::Int8 => "int8"@,
        Node::Uint8 => "uint8"@,
        Node::Int16 => "int16"@,
        Node::Uint16 => "uint16"@,
        Node::Int32 => "int32"@,
        Node::Uint32 => "uint32"@,
        Node::Float32 => "float32"@,
        Node::Float64 => "float64"@,
        Node::String => "string"@,
        Node::Time => "time.Time"@,
        Node::StrConstant(s) => debug_quoted(s),
        Node::Const(name, ty, v) => "const "@ + name + " "@ + ty + " = "@ + go_text(*v) + "\n"@,
        Node::Array(e) => "[]"@ + go_text(*e),
        Node::StringMap(e) => "map[string]"@ + go_text(*e),
        Node::Struct(name, fs) => "type "@ + name + " struct {\n"@ + fields_text(fs) + "}\n"@,
        Node::DiscriminatorStruct { name, tag, tag_short, tag_json, variants } =>
            union_struct_text(name, tag, tag_short, tag_json, variants)
            + marshal_text(name, tag_short, tag_json, variants)
            + unmarshal_text(name, tag_short, tag_json, variants)
            + variant_structs(variants),
        Node::Identifier(id) => id,
        Node::Typedef(name, v) => "type "@ + name + " = "@ + go_text(*v) + "\n"@,
        Node::Sequence(ns) => lines_text(ns),
    }
}

/// A union's struct: its tag field and one embedded field per variant.
pub open spec fn union_struct_text(name: Seq<char>, tag: Seq<char>, tag_short: Seq<char>, tag_json: Seq<char>, vs: Seq<VariantNode>) -> Seq<char> {
    "type "@ + name + " struct {\n"@
        + "\t"@ + tag_short + " "@ + tag + " `json:"@ + debug_quoted(tag_json) + "`\n"@
        + embedded_lines(vs)
        + "}\n"@ + "\n"@
}

/// A union's `MarshalJSON`: a switch on the tag, failing with the sentinel error.
pub open spec fn marshal_text(name: Seq<char>, tag_short: Seq<char>, tag_json: Seq<char>, vs: Seq<VariantNode>) -> Seq<char> {
    "func (v "@ + name + ") MarshalJSON() ([]byte, error) {\n"@
        + "\tswitch v."@ + tag_short + " {\n"@
        + marshal_cases(tag_json, vs)
        + "\t}\n"@ + "\treturn nil, ErrUnknownVariant\n"@ + "}\n"@
}

/// A union's `UnmarshalJSON`: reads the tag, then a switch on it, failing
/// with the sentinel error.
pub open spec fn unmarshal_text(name: Seq<char>, tag_short: Seq<char>, tag_json: Seq<char>, vs: Seq<VariantNode>) -> Seq<char> {
    "func (v *"@ + name + ") UnmarshalJSON(b []byte) error {\n"@
        + "\tvar obj map[string]interface{}\n"@
        + "\tif err := json.Unmarshal(b, &obj); err != nil { return err }\n"@
        + "\ttag, ok := obj["@ + debug_quoted(tag_json) + "].(string)\n"@
        + "\tif !ok { return ErrUnknownVariant }\n"@
        + "\tv."@ + tag_short + " = tag\n"@
        + "\tswitch tag {\n"@
        + unmarshal_cases(vs)
        + "\t}\n"@ + "\treturn ErrUnknownVariant\n"@ + "}\n"@
}

/// The fields of a struct, one line each; optional ones are pointers.
pub open spec fn fields_text(fs: Seq<FieldNode>) -> Seq<char>
    decreases fs,
{
    if fs.len() == 0 {
        Seq::empty()
    } else {
        let f = fs[fs.len() - 1];
        fields_text(fs.drop_last()) + "\t"@ + f.name + " "@ + (if f.required { ""@ } else { "*"@ })
            + go_text(f.ast) + " `json:\""@ + f.json + "\"`\n"@
    }
}

/// Each node followed by a blank line.
pub open spec fn lines_text(ns: Seq<Node>) -> Seq<char>
    decreases ns,
{
    if ns.len() == 0 {
        Seq::empty()
    } else {
        lines_text(ns.drop_last()) + go_text(ns[ns.len() - 1]) + "\n"@
    }
}

/// One embedded field per variant.
pub open spec fn embedded_lines(vs: Seq<VariantNode>) -> Seq<char>
    decreases vs.len(),
{
    if vs.len() == 0 {
        Seq::empty()
    } else {
        embedded_lines(vs.drop_last()) + "\t"@ + vs.last().name + "\n"@
    }
}

/// The marshalling switch: one case per variant, keyed by its JSON tag.
pub open spec fn marshal_cases(tag_json: Seq<char>, vs: Seq<VariantNode>) -> Seq<char>
    decreases vs.len(),
{
    if vs.len() == 0 {
        Seq::empty()
    } else {
        let v = vs.last();
        marshal_cases(tag_json, vs.drop_last())
            + "\tcase "@ + debug_quoted(v.name_json) + ":\n"@
            + "\t\treturn json.Marshal(struct { Tag string `json:"@ + debug_quoted(tag_json) + "`; "@ + v.name
            + " }{ Tag: "@ + debug_quoted(v.name_json) + ", "@ + v.name + ": v."@ + v.name + " });\n"@
    }
}

/// The unmarshalling switch: one case per variant, keyed by its JSON tag.
pub open spec fn unmarshal_cases(vs: Seq<VariantNode>) -> Seq<char>
    decreases vs.len(),
{
    if vs.len() == 0 {
        Seq::empty()
    } else {
        let v = vs.last();
        unmarshal_cases(vs.drop_last())
            + "\tcase "@ + debug_quoted(v.name_json) + ":\n"@
            + "\t\treturn json.Unmarshal(b, &v."@ + v.name + ")\n"@
    }
}

/// One struct per variant with its own fields.
pub open spec fn variant_structs(vs: Seq<VariantNode>) -> Seq<char>
    decreases vs,
{
    if vs.len() == 0 {
        Seq::empty()
    } else {
        let v = vs[vs.len() - 1];
        variant_structs(vs.drop_last()) + "type "@ + v.name + " struct {\n"@ + fields_text(v.properties) + "}\n"@
    }
}

/// The text that starts every generated file of package `pkg`.
pub open spec fn preamble(pkg: Seq<char>) -> Seq<char> {
    "package "@ + pkg + "\n"@
        + "import \"time\"\n"@
        + "import \"encoding/json\"\n"@
        + "import \"errors\"\n"@
        + "var ErrUnknownVariant = errors.New(\""@ + pkg + ": unknown discriminator tag value\")\n"@
}


proof fn lemma_fields_text_step(ps: Seq<Property>, i: int)
    requires
        0 <= i < ps.len(),
    ensures
        ({
            let f = FieldNode { name: ps[i].name@, required: ps[i].required, json: ps[i].json@, ast: ps[i].ast@ };
            &&& fields_of(ps.take(i + 1)) == fields_of(ps.take(i)).push(f)
            &&& fields_text(fields_of(ps.take(i + 1))) == fields_text(fields_of(ps.take(i))) + "\t"@ + f.name + " "@
                + (if f.required { ""@ } else { "*"@ }) + go_text(f.ast) + " `json:\""@ + f.json + "\"`\n"@
        }),
{
    assert(ps.take(i).push(ps[i]) =~= ps.take(i + 1));
    lemma_fields_push(ps.take(i), ps[i]);
    let f = FieldNode { name: ps[i].name@, required: ps[i].required, json: ps[i].json@, ast: ps[i].ast@ };
    assert(fields_of(ps.take(i)).push(f).drop_last() =~= fields_of(ps.take(i)));
}

proof fn lemma_variants_step(vs: Seq<DiscriminatorVariant>, i: int)
    requires
        0 <= i < vs.len(),
    ensures
        ({
            let v = VariantNode { name: vs[i].name@, name_json: vs[i].name_json@, properties: fields_of(vs[i].properties@) };
            &&& variants_of(vs.take(i + 1)) == variants_of(vs.take(i)).push(v)
            &&& variants_of(vs.take(i + 1)).drop_last() == variants_of(vs.take(i))
            &&& variants_of(vs.take(i + 1)).last() == v
            &&& variants_of(vs.take(i + 1))[variants_of(vs.take(i + 1)).len() - 1] == v
        }),
{
    assert(vs.take(i).push(vs[i]) =~= vs.take(i + 1));
    lemma_variants_push(vs.take(i), vs[i]);
    assert(variants_of(vs.take(i + 1)).drop_last() =~= variants_of(vs.take(i)));
}

/// Writes the fields of a struct.
fn write_fields(out: &mut String, props: &Vec<Property>)
    ensures
        final(out)@ == old(out)@ + fields_text(fields_of(props@)),
    decreases props,
{
    let ghost start = out@;
    let mut i: usize = 0;
    assert(props@.take(0) =~= Seq::<Property>::empty());
    assert(out@ =~= start + fields_text(fields_of(props@.take(0))));
    while i < props.len()
        invariant
            i <= props@.len(),
            out@ == start + fields_text(fields_of(props@.take(i as int))),
        decreases props@.len() - i,
    {
        let p = &props[i];
        proof {
            lemma_fields_text_step(props@, i as int);
            assert(decreases_to!(*props => props@));
            assert(decreases_to!(props@ => props@[i as int]));
            assert(decreases_to!(props@[i as int] => props@[i as int].ast));
        }
        out.append("\t");
        out.append(p.name.as_str());
        out.append(" ");
        out.append(if p.required { "" } else { "*" });
        write_ast(out, &p.ast);
        out.append(" `json:\"");
        out.append(p.json.as_str());
        out.append("\"`\n");
        i = i + 1;
        assert(out@ =~= start + fields_text(fields_of(props@.take(i as int))));
    }
    assert(props@.take(i as int) =~= props@);
}

/// Writes each node followed by a blank line.
fn write_lines(out: &mut String, asts: &Vec<Ast>)
    ensures
        final(out)@ == old(out)@ + lines_text(nodes_of(asts@)),
    decreases asts,
{
    let ghost start = out@;
    let mut i: usize = 0;
    assert(asts@.take(0) =~= Seq::<Ast>::empty());
    assert(out@ =~= start + lines_text(nodes_of(asts@.take(0))));
    while i < asts.len()
        invariant
            i <= asts@.len(),
            out@ == start + lines_text(nodes_of(asts@.take(i as int))),
        decreases asts@.len() - i,
    {
        proof {
            assert(asts@.take(i + 1).drop_last() =~= asts@.take(i as int));
            lemma_nodes_push(asts@.take(i as int), asts@[i as int]);
            let x = nodes_of(asts@.take(i + 1));
            assert(x.drop_last() =~= nodes_of(asts@.take(i as int)));
            assert(decreases_to!(*asts => asts@));
            assert(decreases_to!(asts@ => asts@[i as int]));
        }
        write_ast(out, &asts[i]);
        out.append("\n");
        i = i + 1;
        assert(out@ =~= start + lines_text(nodes_of(asts@.take(i as int))));
    }
    assert(asts@.take(i as int) =~= asts@);
}

/// Writes one struct per variant.
fn write_variant_structs(out: &mut String, vs: &Vec<DiscriminatorVariant>)
    ensures
        final(out)@ == old(out)@ + variant_structs(variants_of(vs@)),
    decreases vs,
{
    let ghost start = out@;
    let mut i: usize = 0;
    assert(vs@.take(0) =~= Seq::<DiscriminatorVariant>::empty());
    assert(out@ =~= start + variant_structs(variants_of(vs@.take(0))));
    while i < vs.len()
        invariant
            i <= vs@.len(),
            out@ == start + variant_structs(variants_of(vs@.take(i as int))),
        decreases vs@.len() - i,
    {
        let v = &vs[i];
        proof {
            lemma_variants_step(vs@, i as int);
            assert(decreases_to!(*vs => vs@));
            assert(decreases_to!(vs@ => vs@[i as int]));
            assert(decreases_to!(vs@[i as int] => vs@[i as int].properties));
        }
        out.append("type ");
        out.append(v.name.as_str());
        out.append(" struct {\n");
        write_fields(out, &v.properties);
        out.append("}\n");
        i = i + 1;
        assert(out@ =~= start + variant_structs(variants_of(vs@.take(i as int))));
    }
    assert(vs@.take(i as int) =~= vs@);
}

/// Writes one embedded field per variant.
fn write_embedded(out: &mut String, vs: &Vec<DiscriminatorVariant>)
    ensures
        final(out)@ == old(out)@ + embedded_lines(variants_of(vs@)),
{
    let ghost start = out@;
    let mut i: usize = 0;
    assert(vs@.take(0) =~= Seq::<DiscriminatorVariant>::empty());
    assert(out@ =~= start + embedded_lines(variants_of(vs@.take(0))));
    while i < vs.len()
        invariant
            i <= vs@.len(),
            out@ == start + embedded_lines(variants_of(vs@.take(i as int))),
        decreases vs@.len() - i,
    {
        proof { lemma_variants_step(vs@, i as int); }
        out.append("\t");
        out.append(vs[i].name.as_str());
        out.append("\n");
        i = i + 1;
        assert(out@ =~= start + embedded_lines(variants_of(vs@.take(i as int))));
    }
    assert(vs@.take(i as int) =~= vs@);
}

/// Writes the marshalling cases, one per variant.
fn write_marshal_cases(out: &mut String, tag_json: &String, vs: &Vec<DiscriminatorVariant>)
    ensures
        final(out)@ == old(out)@ + marshal_cases(tag_json@, variants_of(vs@)),
{
    let ghost start = out@;
    let tag_q = quoted(tag_json.as_str());
    let mut i: usize = 0;
    assert(vs@.take(0) =~= Seq::<DiscriminatorVariant>::empty());
    assert(out@ =~= start + marshal_cases(tag_json@, variants_of(vs@.take(0))));
    while i < vs.len()
        invariant
            i <= vs@.len(),
            tag_q@ == debug_quoted(tag_json@),
            out@ == start + marshal_cases(tag_json@, variants_of(vs@.take(i as int))),
        decreases vs@.len() - i,
    {
        proof { lemma_variants_step(vs@, i as int); }
        let v = &vs[i];
        let json_q = quoted(v.name_json.as_str());
        out.append("\tcase ");
        out.append(json_q.as_str());
        out.append(":\n");
        out.append("\t\treturn json.Marshal(struct { Tag string `json:");
        out.append(tag_q.as_str());
        out.append("`; ");
        out.append(v.name.as_str());
        out.append(" }{ Tag: ");
        out.append(json_q.as_str());
        out.append(", ");
        out.append(v.name.as_str());
        out.append(": v.");
        out.append(v.name.as_str());
        out.append(" });\n");
        i = i + 1;
        assert(out@ =~= start + marshal_cases(tag_json@, variants_of(vs@.take(i as int))));
    }
    assert(vs@.take(i as int) =~= vs@);
}

/// Writes the unmarshalling cases, one per variant.
fn write_unmarshal_cases(out: &mut String, vs: &Vec<DiscriminatorVariant>)
    ensures
        final(out)@ == old(out)@ + unmarshal_cases(variants_of(vs@)),
{
    let ghost start = out@;
    let mut i: usize = 0;
    assert(vs@.take(0) =~= Seq::<DiscriminatorVariant>::empty());
    assert(out@ =~= start + unmarshal_cases(variants_of(vs@.take(0))));
    while i < vs.len()
        invariant
            i <= vs@.len(),
            out@ == start + unmarshal_cases(variants_of(vs@.take(i as int))),
        decreases vs@.len() - i,
    {
        proof { lemma_variants_step(vs@, i as int); }
        let v = &vs[i];
        let json_q = quoted(v.name_json.as_str());
        out.append("\tcase ");
        out.append(json_q.as_str());
        out.append(":\n");
        out.append("\t\treturn json.Unmarshal(b, &v.");
        out.append(v.name.as_str());
        out.append(")\n");
        i = i + 1;
        assert(out@ =~= start + unmarshal_cases(variants_of(vs@.take(i as int))));
    }
    assert(vs@.take(i as int) =~= vs@);
}

/// Writes a union's struct.
fn write_union_struct(out: &mut String, name: &String, tag: &String, tag_short: &String, tag_json: &String, vs: &Vec<DiscriminatorVariant>)
    ensures
        final(out)@ == old(out)@ + union_struct_text(name@, tag@, tag_short@, tag_json@, variants_of(vs@)),
{
    let ghost start = out@;
    let tag_q = quoted(tag_json.as_str());
    out.append("type ");
    out.append(name.as_str());
    out.append(" struct {\n");
    out.append("\t");
    out.append(tag_short.as_str());
    out.append(" ");
    out.append(tag.as_str());
    out.append(" `json:");
    out.append(tag_q.as_str());
    out.append("`\n");
    write_embedded(out, vs);
    out.append("}\n");
    out.append("\n");
    assert(out@ =~= start + union_struct_text(name@, tag@, tag_short@, tag_json@, variants_of(vs@)));
}

/// Writes a union's `MarshalJSON`.
fn write_marshal(out: &mut String, name: &String, tag_short: &String, tag_json: &String, vs: &Vec<DiscriminatorVariant>)
    ensures
        final(out)@ == old(out)@ + marshal_text(name@, tag_short@, tag_json@, variants_of(vs@)),
{
    let ghost start = out@;
    out.append("func (v ");
    out.append(name.as_str());
    out.append(") MarshalJSON() ([]byte, error) {\n");
    out.append("\tswitch v.");
    out.append(tag_short.as_str());
    out.append(" {\n");
    write_marshal_cases(out, tag_json, vs);
    out.append("\t}\n");
    out.append("\treturn nil, ErrUnknownVariant\n");
    out.append("}\n");
    assert(out@ =~= start + marshal_text(name@, tag_short@, tag_json@, variants_of(vs@)));
}

/// Writes a union's `UnmarshalJSON`.
fn write_unmarshal(out: &mut String, name: &String, tag_short: &String, tag_json: &String, vs: &Vec<DiscriminatorVariant>)
    ensures
        final(out)@ == old(out)@ + unmarshal_text(name@, tag_short@, tag_json@, variants_of(vs@)),
{
    let ghost start = out@;
    let tag_q = quoted(tag_json.as_str());
    out.append("func (v *");
    out.append(name.as_str());
    out.append(") UnmarshalJSON(b []byte) error {\n");
    out.append("\tvar obj map[string]interface{}\n");
    out.append("\tif err := json.Unmarshal(b, &obj); err != nil { return err }\n");
    out.append("\ttag, ok := obj[");
    out.append(tag_q.as_str());
    out.append("].(string)\n");
    out.append("\tif !ok { return ErrUnknownVariant }\n");
    out.append("\tv.");
    out.append(tag_short.as_str());
    out.append(" = tag\n");
    out.append("\tswitch tag {\n");
    write_unmarshal_cases(out, vs);
    out.append("\t}\n");
    out.append("\treturn ErrUnknownVariant\n");
    out.append("}\n");
    assert(out@ =~= start + unmarshal_text(name@, tag_short@, tag_json@, variants_of(vs@)));
}

/// Writes the Go text of a node.
fn write_ast(out: &mut String, ast: &Ast)
    ensures
        final(out)@ == old(out)@ + go_text(ast@),
    decreases ast,
{
    let ghost start = out@;
    match ast {
        Ast::EmptyInterface => out.append("interface{}"),
        Ast::Boolean => out.append("bool"),
        Ast::Int8 => out.append("int8"),
        Ast::Uint8 => out.append("uint8"),
        Ast::Int16 => out.append("int16"),
        Ast::Uint16 => out.append("uint16"),
        Ast::Int32 => out.append("int32"),
        Ast::Uint32 => out.append("uint32"),
        Ast::Float32 => out.append("float32"),
        Ast::Float64 => out.append("float64"),
        Ast::String => out.append("string"),
        Ast::Time => out.append("time.Time"),
        Ast::StrConstant(s) => {
            let q = quoted(s.as_str());
            out.append(q.as_str());
        },
        Ast::Const(name, ty, v) => {
            out.append("const ");
            out.append(name.as_str());
            out.append(" ");
            out.append(ty.as_str());
            out.append(" = ");
            write_ast(out, &**v);
            out.append("\n");
            assert(out@ =~= start + go_text(ast@));
        },
        Ast::Array(e) => {
            out.append("[]");
            write_ast(out, &**e);
            assert(out@ =~= start + go_text(ast@));
        },
        Ast::StringMap(e) => {
            out.append("map[string]");
            write_ast(out, &**e);
            assert(out@ =~= start + go_text(ast@));
        },
        Ast::Struct(name, props) => {
            out.append("type ");
            out.append(name.as_str());
            out.append(" struct {\n");
            write_fields(out, props);
            out.append("}\n");
            assert(out@ =~= start + go_text(ast@));
        },
        Ast::DiscriminatorStruct { name, tag, tag_short, tag_json, variants } => {
            write_union_struct(out, name, tag, tag_short, tag_json, variants);
            write_marshal(out, name, tag_short, tag_json, variants);
            write_unmarshal(out, name, tag_short, tag_json, variants);
            write_variant_structs(out, variants);
            assert(out@ =~= start + go_text(ast@));
        },
        Ast::Identifier(id) => out.append(id.as_str()),
        Ast::Typedef(name, v) => {
            out.append("type ");
            out.append(name.as_str());
            out.append(" = ");
            write_ast(out, &**v);
            out.append("\n");
            assert(out@ =~= start + go_text(ast@));
        },
        Ast::Sequence(asts) => write_lines(out, asts),
    }
}

impl Target {
    /// The Go text of a node.
    pub fn serialize_ast(&self, out: &mut String, ast: &Ast)
        ensures
            final(out)@ == old(out)@ + go_text(ast@),
    {
        write_ast(out, ast);
    }

    /// The whole file: the package's preamble, then the declarations.
    pub fn serialize(&self, ast: &Ast) -> (r: String)
        ensures
            r@ == preamble(self.pkg_name@) + go_text(ast@),
    {
        let mut out = String::new();
        out.append("package ");
        out.append(self.pkg_name.as_str());
        out.append("\n");
        out.append("import \"time\"\n");
        out.append("import \"encoding/json\"\n");
        out.append("import \"errors\"\n");
        out.append("var ErrUnknownVariant = errors.New(\"");
        out.append(self.pkg_name.as_str());
        out.append(": unknown discriminator tag value\")\n");
        write_ast(&mut out, ast);
        assert(out@ =~= preamble(self.pkg_name@) + go_text(ast@));
        out
    }
}

} // verus!
