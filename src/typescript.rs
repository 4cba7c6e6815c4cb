//! The TypeScript target: interfaces, literal unions, and tagged unions as
//! unions of interfaces with a literal-typed tag.

use vstd::prelude::*;
use crate::config::ConfigError;
use crate::naming::{debug_quoted, extend, file_stem, name, name_of, pascal_of, quoted, single, stem, to_pascal};
use crate::schema::{Form, Member, Schema, Type};

verus! {

/// A TypeScript declaration or type expression.
#[derive(Debug)]
pub enum Ast {
    Any,
    Boolean,
    Number,
    String,
    /// A string literal type.
    Constant(String),
    Array(Box<Ast>),
    StringMap(Box<Ast>),
    /// An interface: its name, and its fields as name, required, type.
    Interface(String, Vec<(String, bool, Ast)>),
    Union(Vec<Ast>),
    Identifier(String),
    Typedef(String, Box<Ast>),
    Sequence(Vec<Ast>),
}

/// The value that an [`Ast`] stands for, with text as character sequences.
pub enum Node {
    Any,
    Boolean,
    Number,
    String,
    Constant(Seq<char>),
    Array(Box<Node>),
    StringMap(Box<Node>),
    Interface(Seq<char>, Seq<(Seq<char>, bool, Node)>),
    Union(Seq<Node>),
    Identifier(Seq<char>),
    Typedef(Seq<char>, Box<Node>),
    Sequence(Seq<Node>),
}

pub open spec fn node_of(a: Ast) -> Node
    decreases a,
{
    match a {
        Ast::Any => Node::Any,
        Ast::Boolean => Node::Boolean,
        Ast::Number => Node::Number,
        Ast::String => Node::String,
        Ast::Constant(s) => Node::Constant(s@),
        Ast::Array(e) => Node::Array(Box::new(node_of(*e))),
        Ast::StringMap(e) => Node::StringMap(Box::new(node_of(*e))),
        Ast::Interface(n, ps) => Node::Interface(n@, fields_of(ps@)),
        Ast::Union(s) => Node::Union(nodes_of(s@)),
        Ast::Identifier(n) => Node::Identifier(n@),
        Ast::Typedef(n, v) => Node::Typedef(n@, Box::new(node_of(*v))),
        Ast::Sequence(s) => Node::Sequence(nodes_of(s@)),
    }
}

pub open spec fn nodes_of(s: Seq<Ast>) -> Seq<Node>
    decreases s,
{
    if s.len() == 0 {
        Seq::empty()
    } else {
        nodes_of(s.drop_last()).push(node_of(s[s.len() - 1]))
    }
}

pub open spec fn fields_of(s: Seq<(String, bool, Ast)>) -> Seq<(Seq<char>, bool, Node)>
    decreases s,
{
    if s.len() == 0 {
        Seq::empty()
    } else {
        let p = s[s.len() - 1];
        fields_of(s.drop_last()).push((p.0@, p.1, node_of(p.2)))
    }
}

impl View for Ast {
    type V = Node;

    open spec fn view(&self) -> Node {
        node_of(*self)
    }
}

/// The TypeScript type of a primitive: every number kind is `number`, and a
/// timestamp is a string.
pub open spec fn primitive(t: Type) -> Node {
    match t {
        Type::Boolean => Node::Boolean,
        Type::String | Type::Timestamp => Node::String,
        _ => Node::Number,
    }
}

/// One string literal type per value.
pub open spec fn literals(vals: Seq<String>) -> Seq<Node>
    decreases vals.len(),
{
    if vals.len() == 0 {
        Seq::empty()
    } else {
        literals(vals.drop_last()).push(Node::Constant(vals.last()@))
    }
}

/// What transforming a schema at `path` appends to the declarations, and the
/// type expression that stands for it.
pub open spec fn lowered(path: Seq<String>, s: Schema) -> (Seq<Node>, Node)
    decreases s,
{
    match s.form {
        Form::Empty => (Seq::empty(), Node::Any),
        Form::Ref(d) => (Seq::empty(), Node::Identifier(name_of(seq![d]))),
        Form::Type(t) => (Seq::empty(), primitive(t)),
        Form::Enum(vals) => (Seq::empty(), Node::Union(literals(vals@))),
        Form::Elements(e) => {
            let r = lowered(path, *e);
            (r.0, Node::Array(Box::new(r.1)))
        },
        Form::Properties { required, optional } => {
            let rq = members(path, required@, true);
            let op = members(path, optional@, false);
            let id = name_of(path);
            (rq.0 + op.0 + seq![Node::Interface(id, rq.1 + op.1)], Node::Identifier(id))
        },
        Form::Discriminator { tag, mapping } => {
            let m = mapping_decls(path, tag, mapping@);
            (m.0, Node::Union(m.1))
        },
        Form::Values(e) => {
            let r = lowered(path, *e);
            (r.0, Node::StringMap(Box::new(r.1)))
        },
    }
}

/// The declarations and the fields of a list of properties, each transformed
/// at `path` extended by its name.
pub open spec fn members(path: Seq<String>, ms: Seq<Member>, required: bool) -> (Seq<Node>, Seq<(Seq<char>, bool, Node)>)
    decreases ms,
{
    if ms.len() == 0 {
        (Seq::empty(), Seq::empty())
    } else {
        let m = ms[ms.len() - 1];
        let init = members(path, ms.drop_last(), required);
        let r = lowered(path.push(m.name), m.schema);
        (init.0 + r.0, init.1.push((m.name@, required, r.1)))
    }
}

/// The declarations and the union members of a discriminator's mapping: an
/// interface for each entry of properties form, whose first field is the tag
/// typed as the entry's value.
pub open spec fn mapping_decls(path: Seq<String>, tag: String, ms: Seq<Member>) -> (Seq<Node>, Seq<Node>)
    decreases ms,
{
    if ms.len() == 0 {
        (Seq::empty(), Seq::empty())
    } else {
        let m = ms[ms.len() - 1];
        let init = mapping_decls(path, tag, ms.drop_last());
        let vpath = path.push(m.name);
        match m.schema.form {
            Form::Properties { required, optional } => {
                let rq = members(vpath, required@, true);
                let op = members(vpath, optional@, false);
                let id = name_of(vpath);
                let fields = seq![(tag@, true, Node::Constant(m.name@))] + rq.1 + op.1;
                (init.0 + rq.0 + op.0 + seq![Node::Interface(id, fields)], init.1.push(Node::Identifier(id)))
            },
            _ => init,
        }
    }
}

/// What naming a top-level result appends: nothing for a bare identifier,
/// else an alias called `id`.
pub open spec fn hoisted(id: Seq<char>, a: Node) -> Seq<Node> {
    match a {
        Node::Identifier(_) => Seq::empty(),
        _ => seq![Node::Typedef(id, Box::new(a))],
    }
}

/// The declarations of a root schema's definitions, each at the path of its own name.
pub open spec fn definition_decls(ms: Seq<Member>) -> Seq<Node>
    decreases ms.len(),
{
    if ms.len() == 0 {
        Seq::empty()
    } else {
        let m = ms.last();
        let r = lowered(seq![m.name], m.schema);
        definition_decls(ms.drop_last()) + r.0 + hoisted(pascal_of(m.name@), r.1)
    }
}

/// The whole declaration sequence for a root schema, whose own declarations
/// are named from `root_name`.
pub open spec fn transformed(root_name: String, s: Schema) -> Node {
    let r = lowered(seq![root_name], s);
    Node::Sequence(definition_decls(s.definitions@) + r.0 + hoisted(pascal_of(root_name@), r.1))
}

proof fn lemma_nodes_push(s: Seq<Ast>, a: Ast)
    ensures
        nodes_of(s.push(a)) == nodes_of(s).push(a@),
{
    assert(s.push(a).drop_last() =~= s);
}

proof fn lemma_fields_push(s: Seq<(String, bool, Ast)>, p: (String, bool, Ast))
    ensures
        fields_of(s.push(p)) == fields_of(s).push((p.0@, p.1, p.2@)),
{
    assert(s.push(p).drop_last() =~= s);
}

/// The TypeScript target: names the root type.
pub struct Target {
    pub root_name: String,
}

impl Target {
    /// Derives the root name from the input's file name, which is `None`
    /// where the path has none in valid text.
    pub fn new(input_file_name: Option<&str>) -> (r: Result<Target, ConfigError>)
        ensures
            input_file_name is None ==> r == Err::<Target, ConfigError>(ConfigError::FileName),
            input_file_name is Some ==> r is Ok && r->Ok_0.root_name@ == pascal_of(stem(input_file_name->Some_0@)),
    {
        match input_file_name {
            Some(f) => Ok(Target { root_name: to_pascal(file_stem(f)) }),
            None => Err(ConfigError::FileName),
        }
    }

    /// The name of the file that this target writes in the output directory.
    pub fn file_name(&self) -> (r: String)
        ensures
            r@ == "index.ts"@,
    {
        String::from_str("index.ts")
    }

    /// The TypeScript type of a primitive.
    fn primitive(t: Type) -> (r: Ast)
        ensures
            r@ == primitive(t),
    {
        match t {
            Type::Boolean => Ast::Boolean,
            Type::String | Type::Timestamp => Ast::String,
            _ => Ast::Number,
        }
    }

    /// Transforms a schema at `path`, appending the declarations that it needs
    /// to `seq`, and returns the type expression that stands for it.
    pub fn transform_subschema(&self, seq: &mut Vec<Ast>, path: &Vec<String>, schema: &Schema) -> (r: Ast)
        ensures
            nodes_of(final(seq)@) == nodes_of(old(seq)@) + lowered(path@, *schema).0,
            r@ == lowered(path@, *schema).1,
        decreases schema,
    {
        let ghost s0 = seq@;
        proof {
            reveal_with_fuel(node_of, 2);
        }
        match &schema.form {
            Form::Empty => {
                assert(nodes_of(seq@) =~= nodes_of(s0) + Seq::<Node>::empty());
                Ast::Any
            },
            Form::Ref(d) => {
                assert(nodes_of(seq@) =~= nodes_of(s0) + Seq::<Node>::empty());
                Ast::Identifier(name(&single(d)))
            },
            Form::Type(t) => {
                assert(nodes_of(seq@) =~= nodes_of(s0) + Seq::<Node>::empty());
                Self::primitive(*t)
            },
            Form::Enum(vals) => {
                let mut cases: Vec<Ast> = Vec::new();
                let mut i: usize = 0;
                assert(nodes_of(cases@) =~= literals(vals@.take(0)));
                while i < vals.len()
                    invariant
                        i <= vals@.len(),
                        nodes_of(cases@) == literals(vals@.take(i as int)),
                    decreases vals@.len() - i,
                {
                    let c = Ast::Constant(vals[i].clone());
                    proof {
                        lemma_nodes_push(cases@, c);
                        assert(vals@.take(i + 1).drop_last() =~= vals@.take(i as int));
                    }
                    cases.push(c);
                    i = i + 1;
                }
                assert(vals@.take(i as int) =~= vals@);
                assert(nodes_of(seq@) =~= nodes_of(s0) + Seq::<Node>::empty());
                Ast::Union(cases)
            },
            Form::Elements(e) => {
                let a = self.transform_subschema(seq, path, e);
                Ast::Array(Box::new(a))
            },
            Form::Properties { required, optional } => {
                let mut props: Vec<(String, bool, Ast)> = Vec::new();
                self.transform_members(seq, path, required, true, &mut props);
                self.transform_members(seq, path, optional, false, &mut props);
                let id = name(path);
                proof {
                    assert(fields_of(Seq::<(String, bool, Ast)>::empty()) =~= Seq::<(Seq<char>, bool, Node)>::empty());
                    lemma_nodes_push(seq@, Ast::Interface(id, props));
                }
                seq.push(Ast::Interface(id.clone(), props));
                Ast::Identifier(id)
            },
            Form::Discriminator { tag, mapping } => {
                assert(decreases_to!(*schema => *mapping));
                let mut cases: Vec<Ast> = Vec::new();
                let mut i: usize = 0;
                assert(nodes_of(seq@) =~= nodes_of(s0) + mapping_decls(path@, *tag, mapping@.take(0)).0);
                assert(nodes_of(cases@) =~= mapping_decls(path@, *tag, mapping@.take(0)).1);
                while i < mapping.len()
                    invariant
                        i <= mapping@.len(),
                        decreases_to!(*schema => *mapping),
                        nodes_of(seq@) == nodes_of(s0) + mapping_decls(path@, *tag, mapping@.take(i as int)).0,
                        nodes_of(cases@) == mapping_decls(path@, *tag, mapping@.take(i as int)).1,
                    decreases mapping@.len() - i,
                {
                    let entry = &mapping[i];
                    let ghost prev = mapping_decls(path@, *tag, mapping@.take(i as int));
                    if let Form::Properties { required, optional } = &entry.schema.form {
                        let vpath = extend(path, &entry.name);
                        let mut props: Vec<(String, bool, Ast)> = Vec::new();
                        let t = (tag.clone(), true, Ast::Constant(entry.name.clone()));
                        proof {
                            lemma_fields_push(props@, t);
                            assert(props@.push(t) =~= seq![t]);
                            assert(fields_of(props@) =~= Seq::<(Seq<char>, bool, Node)>::empty());
                        }
                        props.push(t);
                        proof {
                            assert(decreases_to!(*mapping => mapping@));
                            assert(decreases_to!(mapping@ => mapping@[i as int]));
                            assert(decreases_to!(*entry => entry.schema));
                            assert(decreases_to!(entry.schema => entry.schema.form));
                            assert(decreases_to!(entry.schema.form => *required));
                            assert(decreases_to!(entry.schema.form => *optional));
                            assert(decreases_to!(*schema => *required));
                        }
                        let ghost seq1 = seq@;
                        self.transform_members(seq, &vpath, required, true, &mut props);
                        self.transform_members(seq, &vpath, optional, false, &mut props);
                        let id = name(&vpath);
                        let ghost fs = fields_of(props@);
                        let it = Ast::Interface(id.clone(), props);
                        proof {
                            let rq = members(vpath@, required@, true);
                            let op = members(vpath@, optional@, false);
                            assert(fs =~= seq![(tag@, true, Node::Constant(entry.name@))] + rq.1 + op.1);
                            lemma_nodes_push(seq@, it);
                            assert(nodes_of(seq@.push(it)) =~= nodes_of(s0) + (prev.0 + rq.0 + op.0 + seq![Node::Interface(id@, fs)]));
                            lemma_nodes_push(cases@, Ast::Identifier(id));
                        }
                        seq.push(it);
                        cases.push(Ast::Identifier(id));
                    }
                    i = i + 1;
                    proof {
                        assert(mapping@.take(i as int).drop_last() =~= mapping@.take(i - 1));
                        assert(mapping@.take(i as int)[i - 1] == mapping@[i - 1]);
                    }
                }
                assert(mapping@.take(i as int) =~= mapping@);
                Ast::Union(cases)
            },
            Form::Values(e) => {
                let a = self.transform_subschema(seq, path, e);
                Ast::StringMap(Box::new(a))
            },
        }
    }

    /// Transforms each of `ms` at `path` extended by its name, appending the
    /// declarations to `seq` and one field per member to `props`.
    fn transform_members(&self, seq: &mut Vec<Ast>, path: &Vec<String>, ms: &Vec<Member>, required: bool, props: &mut Vec<(String, bool, Ast)>)
        ensures
            nodes_of(final(seq)@) == nodes_of(old(seq)@) + members(path@, ms@, required).0,
            fields_of(final(props)@) == fields_of(old(props)@) + members(path@, ms@, required).1,
        decreases ms,
    {
        let ghost s0 = seq@;
        let ghost p0 = props@;
        let mut i: usize = 0;
        while i < ms.len()
            invariant
                i <= ms@.len(),
                nodes_of(seq@) == nodes_of(s0) + members(path@, ms@.take(i as int), required).0,
                fields_of(props@) == fields_of(p0) + members(path@, ms@.take(i as int), required).1,
            decreases ms@.len() - i,
        {
            assert(ms@.take(i as int + 1).drop_last() =~= ms@.take(i as int));
            let m = &ms[i];
            let a = self.transform_subschema(seq, &extend(path, &m.name), &m.schema);
            let p = (m.name.clone(), required, a);
            proof { lemma_fields_push(props@, p); }
            props.push(p);
            i = i + 1;
            proof {
                assert(nodes_of(seq@) =~= nodes_of(s0) + members(path@, ms@.take(i as int), required).0);
                assert(fields_of(props@) =~= fields_of(p0) + members(path@, ms@.take(i as int), required).1);
            }
        }
        assert(ms@.take(i as int) =~= ms@);
    }

    /// Appends an alias for `ast` unless it is a bare identifier already; the
    /// alias is named from `label`, or from the root name where it is `None`.
    pub fn ensure_has_name(&self, label: Option<&String>, seq: &mut Vec<Ast>, ast: Ast)
        ensures
            nodes_of(final(seq)@) == nodes_of(old(seq)@) + hoisted(
                pascal_of(
                    match label {
                        Some(l) => l@,
                        None => self.root_name@,
                    },
                ),
                ast@,
            ),
    {
        match ast {
            Ast::Identifier(_) => {
                assert(nodes_of(seq@) =~= nodes_of(seq@) + Seq::<Node>::empty());
            },
            _ => {
                let id = match label {
                    Some(l) => to_pascal(l.as_str()),
                    None => to_pascal(self.root_name.as_str()),
                };
                let t = Ast::Typedef(id, Box::new(ast));
                proof {
                    lemma_nodes_push(seq@, t);
                    assert(nodes_of(seq@.push(t)) =~= nodes_of(seq@) + seq![t@]);
                }
                seq.push(t);
            },
        }
    }

    /// Transforms each definition, naming it after itself, then the root,
    /// naming it after the input file.
    pub fn transform(&self, schema: &Schema) -> (r: Ast)
        ensures
            r@ == transformed(self.root_name, *schema),
    {
        let mut seq: Vec<Ast> = Vec::new();
        let defs = &schema.definitions;
        let mut i: usize = 0;
        assert(nodes_of(seq@) =~= definition_decls(defs@.take(0)));
        while i < defs.len()
            invariant
                i <= defs@.len(),
                nodes_of(seq@) == definition_decls(defs@.take(i as int)),
            decreases defs@.len() - i,
        {
            let d = &defs[i];
            let a = self.transform_subschema(&mut seq, &single(&d.name), &d.schema);
            self.ensure_has_name(Some(&d.name), &mut seq, a);
            i = i + 1;
            proof {
                assert(defs@.take(i as int).drop_last() =~= defs@.take(i - 1));
                assert(defs@.take(i as int).last() == defs@[i - 1]);
            }
        }
        assert(defs@.take(i as int) =~= defs@);
        let a = self.transform_subschema(&mut seq, &single(&self.root_name), schema);
        self.ensure_has_name(None, &mut seq, a);
        Ast::Sequence(seq)
    }
}

/// The TypeScript source text of a node. A union with no members is `never`.
pub open spec fn ts_text(n: Node) -> Seq<char>
    decreases n,
{
    match n {
        Node::Any => "any"@,
        Node::Boolean => "boolean"@,
        Node::Number => "number"@,
        Node::String => "string"@,
        Node::Constant(s) => debug_quoted(s),
        Node::Array(e) => ts_text(*e) + "[]"@,
        Node::StringMap(e) => "{ [name: string]: "@ + ts_text(*e) + "}"@,
        Node::Interface(name, fs) => "export interface "@ + name + " {\n"@ + fields_text(fs) + "}\n"@,
        Node::Union(ns) => if ns.len() == 0 { "never"@ } else { union_text(ns) },
        Node::Identifier(id) => id,
        Node::Typedef(name, v) => "export type "@ + name + " = "@ + ts_text(*v) + ";\n"@,
        Node::Sequence(ns) => lines_text(ns),
    }
}

/// The fields of an interface, one line each; optional ones marked with `?`.
pub open spec fn fields_text(fs: Seq<(Seq<char>, bool, Node)>) -> Seq<char>
    decreases fs,
{
    if fs.len() == 0 {
        Seq::empty()
    } else {
        let f = fs[fs.len() - 1];
        fields_text(fs.drop_last()) + "  "@ + f.0 + (if f.1 { ""@ } else { "?"@ }) + ": "@ + ts_text(f.2) + ";\n"@
    }
}

/// The members of a non-empty union, separated by ` | `.
pub open spec fn union_text(ns: Seq<Node>) -> Seq<char>
    decreases ns,
{
    if ns.len() <= 1 {
        if ns.len() == 1 { ts_text(ns[0]) } else { Seq::empty() }
    } else {
        union_text(ns.drop_last()) + " | "@ + ts_text(ns[ns.len() - 1])
    }
}

/// Each node followed by a blank line.
pub open spec fn lines_text(ns: Seq<Node>) -> Seq<char>
    decreases ns,
{
    if ns.len() == 0 {
        Seq::empty()
    } else {
        lines_text(ns.drop_last()) + ts_text(ns[ns.len() - 1]) + "\n"@
    }
}

proof fn lemma_nodes_step(s: Seq<Ast>, i: int)
    requires
        0 <= i < s.len(),
    ensures
        nodes_of(s.take(i + 1)) == nodes_of(s.take(i)).push(s[i]@),
        nodes_of(s.take(i + 1)).drop_last() == nodes_of(s.take(i)),
        nodes_of(s.take(i + 1)).len() == i + 1,
        nodes_of(s.take(i + 1))[i] == s[i]@,
    decreases i,
{
    assert(s.take(i).push(s[i]) =~= s.take(i + 1));
    lemma_nodes_push(s.take(i), s[i]);
    assert(nodes_of(s.take(i + 1)).drop_last() =~= nodes_of(s.take(i)));
    if i > 0 {
        lemma_nodes_step(s, i - 1);
    } else {
        assert(s.take(0) =~= Seq::<Ast>::empty());
    }
}

/// Writes the fields of an interface.
fn write_fields(out: &mut String, props: &Vec<(String, bool, Ast)>)
    ensures
        final(out)@ == old(out)@ + fields_text(fields_of(props@)),
    decreases props,
{
    let ghost start = out@;
    let mut i: usize = 0;
    assert(props@.take(0) =~= Seq::<(String, bool, Ast)>::empty());
    assert(out@ =~= start + fields_text(fields_of(props@.take(0))));
    while i < props.len()
        invariant
            i <= props@.len(),
            out@ == start + fields_text(fields_of(props@.take(i as int))),
        decreases props@.len() - i,
    {
        let p = &props[i];
        proof {
            assert(props@.take(i as int).push(props@[i as int]) =~= props@.take(i + 1));
            lemma_fields_push(props@.take(i as int), props@[i as int]);
            let f = (p.0@, p.1, p.2@);
            assert(fields_of(props@.take(i as int)).push(f).drop_last() =~= fields_of(props@.take(i as int)));
            assert(decreases_to!(*props => props@));
            assert(decreases_to!(props@ => props@[i as int]));
            assert(decreases_to!(props@[i as int] => props@[i as int].2));
        }
        out.append("  ");
        out.append(p.0.as_str());
        out.append(if p.1 { "" } else { "?" });
        out.append(": ");
        write_ast(out, &p.2);
        out.append(";\n");
        i = i + 1;
        assert(out@ =~= start + fields_text(fields_of(props@.take(i as int))));
    }
    assert(props@.take(i as int) =~= props@);
}

/// Writes each node followed by a blank line.
fn write_lines(out: &mut String, asts: &Vec<Ast>)
    ensures
        final(out)@ == old(out)@ + lines_text(nodes_of(asts@)),
    decreases asts,
{
    let ghost start = out@;
    let mut i: usize = 0;
    assert(asts@.take(0) =~= Seq::<Ast>::empty());
    assert(out@ =~= start + lines_text(nodes_of(asts@.take(0))));
    while i < asts.len()
        invariant
            i <= asts@.len(),
            out@ == start + lines_text(nodes_of(asts@.take(i as int))),
        decreases asts@.len() - i,
    {
        proof {
            lemma_nodes_step(asts@, i as int);
            assert(decreases_to!(*asts => asts@));
            assert(decreases_to!(asts@ => asts@[i as int]));
        }
        write_ast(out, &asts[i]);
        out.append("\n");
        i = i + 1;
        assert(out@ =~= start + lines_text(nodes_of(asts@.take(i as int))));
    }
    assert(asts@.take(i as int) =~= asts@);
}

/// Writes the members of a union separated by ` | `, or `never` when it has none.
fn write_union(out: &mut String, asts: &Vec<Ast>)
    ensures
        final(out)@ == old(out)@ + (if asts@.len() == 0 { "never"@ } else { union_text(nodes_of(asts@)) }),
    decreases asts,
{
    if asts.len() == 0 {
        out.append("never");
        return;
    }
    let ghost start = out@;
    proof {
        lemma_nodes_step(asts@, 0);
        assert(asts@.take(0) =~= Seq::<Ast>::empty());
        assert(decreases_to!(*asts => asts@));
        assert(decreases_to!(asts@ => asts@[0]));
    }
    write_ast(out, &asts[0]);
    let mut i: usize = 1;
    while i < asts.len()
        invariant
            1 <= i <= asts@.len(),
            out@ == start + union_text(nodes_of(asts@.take(i as int))),
        decreases asts@.len() - i,
    {
        proof {
            lemma_nodes_step(asts@, i as int);
            assert(decreases_to!(*asts => asts@));
            assert(decreases_to!(asts@ => asts@[i as int]));
        }
        out.append(" | ");
        write_ast(out, &asts[i]);
        i = i + 1;
        assert(out@ =~= start + union_text(nodes_of(asts@.take(i as int))));
    }
    assert(asts@.take(i as int) =~= asts@);
}

/// Writes the TypeScript text of a node.
fn write_ast(out: &mut String, ast: &Ast)
    ensures
        final(out)@ == old(out)@ + ts_text(ast@),
    decreases ast,
{
    let ghost start = out@;
    match ast {
        Ast::Any => out.append("any"),
        Ast::Boolean => out.append("boolean"),
        Ast::Number => out.append("number"),
        Ast::String => out.append("string"),
        Ast::Constant(s) => {
            let q = quoted(s.as_str());
            out.append(q.as_str());
        },
        Ast::Array(e) => {
            write_ast(out, &**e);
            out.append("[]");
            assert(out@ =~= start + ts_text(ast@));
        },
        Ast::StringMap(e) => {
            out.append("{ [name: string]: ");
            write_ast(out, &**e);
            out.append("}");
            assert(out@ =~= start + ts_text(ast@));
        },
        Ast::Interface(name, props) => {
            out.append("export interface ");
            out.append(name.as_str());
            out.append(" {\n");
            write_fields(out, props);
            out.append("}\n");
            assert(out@ =~= start + ts_text(ast@));
        },
        Ast::Union(asts) => {
            proof {
                if asts@.len() > 0 {
                    lemma_nodes_step(asts@, asts@.len() - 1);
                    assert(asts@.take(asts@.len() as int) =~= asts@);
                } else {
                    assert(nodes_of(asts@) =~= Seq::<Node>::empty());
                }
            }
            write_union(out, asts);
        },
        Ast::Identifier(id) => out.append(id.as_str()),
        Ast::Typedef(name, v) => {
            out.append("export type ");
            out.append(name.as_str());
            out.append(" = ");
            write_ast(out, &**v);
            out.append(";\n");
            assert(out@ =~= start + ts_text(ast@));
        },
        Ast::Sequence(asts) => write_lines(out, asts),
    }
}

impl Target {
    /// The TypeScript text of a node.
    pub fn serialize_ast(&self, out: &mut String, ast: &Ast)
        ensures
            final(out)@ == old(out)@ + ts_text(ast@),
    {
        write_ast(out, ast);
    }

    /// The whole file: the declarations, with no preamble.
    pub fn serialize(&self, ast: &Ast) -> (r: String)
        ensures
            r@ == ts_text(ast@),
    {
        let mut out = String::new();
        write_ast(&mut out, ast);
        assert(out@ =~= ts_text(ast@));
        out
    }
}

} // verus!
