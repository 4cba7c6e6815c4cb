//! Laws that the transforms obey, stated over their spec functions.

use vstd::prelude::*;
use crate::golang;
use crate::naming::{joined, name_of, pascal_of};
use crate::schema::{Form, Member, Schema};
use crate::typescript;

verus! {

proof fn lemma_go_members(path: Seq<String>, ms: Seq<Member>, required: bool)
    ensures
        golang::members(path, ms, required).1.len() == ms.len(),
        forall|i: int| 0 <= i < ms.len() ==> {
            let f = #[trigger] golang::members(path, ms, required).1[i];
            &&& f.json == ms[i].name@
            &&& f.name == pascal_of(ms[i].name@)
            &&& f.required == required
        },
    decreases ms.len(),
{
    if ms.len() > 0 {
        lemma_go_members(path, ms.drop_last(), required);
    }
}

proof fn lemma_ts_members(path: Seq<String>, ms: Seq<Member>, required: bool)
    ensures
        typescript::members(path, ms, required).1.len() == ms.len(),
        forall|i: int| 0 <= i < ms.len() ==> {
            let f = #[trigger] typescript::members(path, ms, required).1[i];
            &&& f.0 == ms[i].name@
            &&& f.1 == required
        },
    decreases ms.len(),
{
    if ms.len() > 0 {
        lemma_ts_members(path, ms.drop_last(), required);
    }
}

/// A schema of properties form becomes one struct, named from its path, whose
/// fields are the required properties in their order, then the optional ones
/// in theirs, each keyed by its JSON name and marked by its group.
pub proof fn law_go_struct_fields(path: Seq<String>, s: Schema)
    requires
        s.form is Properties,
    ensures
        ({
            let rq = s.form->required@;
            let op = s.form->optional@;
            let r = golang::lowered(path, s);
            &&& r.1 == golang::Node::Identifier(name_of(path))
            &&& r.0.last() matches golang::Node::Struct(id, fs) && id == name_of(path)
                && fs.len() == rq.len() + op.len()
                && (forall|i: int| 0 <= i < rq.len() ==> (#[trigger] fs[i]).required && fs[i].json == rq[i].name@)
                && (forall|j: int| 0 <= j < op.len() ==> !(#[trigger] fs[rq.len() + j]).required
                    && fs[rq.len() + j].json == op[j].name@)
        }),
{
    let rq = s.form->required@;
    let op = s.form->optional@;
    lemma_go_members(path, rq, true);
    lemma_go_members(path, op, false);
    let fs = golang::members(path, rq, true).1 + golang::members(path, op, false).1;
    assert forall|j: int| 0 <= j < op.len() implies !(#[trigger] fs[rq.len() + j]).required
        && fs[rq.len() + j].json == op[j].name@ by {
        assert(fs[rq.len() + j] == golang::members(path, op, false).1[j]);
    }
}

/// A schema of properties form becomes one interface, named from its path,
/// whose fields are the required properties in their order, then the
/// optional ones in theirs, each marked by its group.
pub proof fn law_ts_interface_fields(path: Seq<String>, s: Schema)
    requires
        s.form is Properties,
    ensures
        ({
            let rq = s.form->required@;
            let op = s.form->optional@;
            let r = typescript::lowered(path, s);
            &&& r.1 == typescript::Node::Identifier(name_of(path))
            &&& r.0.last() matches typescript::Node::Interface(id, fs) && id == name_of(path)
                && fs.len() == rq.len() + op.len()
                && (forall|i: int| 0 <= i < rq.len() ==> (#[trigger] fs[i]).1 && fs[i].0 == rq[i].name@)
                && (forall|j: int| 0 <= j < op.len() ==> !(#[trigger] fs[rq.len() + j]).1
                    && fs[rq.len() + j].0 == op[j].name@)
        }),
{
    let rq = s.form->required@;
    let op = s.form->optional@;
    lemma_ts_members(path, rq, true);
    lemma_ts_members(path, op, false);
    let fs = typescript::members(path, rq, true).1 + typescript::members(path, op, false).1;
    assert forall|j: int| 0 <= j < op.len() implies !(#[trigger] fs[rq.len() + j]).1
        && fs[rq.len() + j].0 == op[j].name@ by {
        assert(fs[rq.len() + j] == typescript::members(path, op, false).1[j]);
    }
}

proof fn lemma_go_enum_consts(path: Seq<String>, ty: Seq<char>, vals: Seq<String>)
    ensures
        golang::enum_consts(path, ty, vals).len() == vals.len(),
        forall|i: int| 0 <= i < vals.len() ==> #[trigger] golang::enum_consts(path, ty, vals)[i]
            == golang::Node::Const(name_of(path.push(vals[i])), ty, Box::new(golang::Node::StrConstant(vals[i]@))),
    decreases vals.len(),
{
    if vals.len() > 0 {
        lemma_go_enum_consts(path, ty, vals.drop_last());
    }
}

proof fn lemma_ts_literals(vals: Seq<String>)
    ensures
        typescript::literals(vals).len() == vals.len(),
        forall|i: int| 0 <= i < vals.len() ==> #[trigger] typescript::literals(vals)[i]
            == typescript::Node::Constant(vals[i]@),
    decreases vals.len(),
{
    if vals.len() > 0 {
        lemma_ts_literals(vals.drop_last());
    }
}

/// An enum of K values becomes, in Go, a string-backed type named from its
/// path followed by exactly K constants of that type, in the values' order,
/// each holding its value; the enum is then referred to by that type's name.
pub proof fn law_go_enum(path: Seq<String>, s: Schema)
    requires
        s.form is Enum,
    ensures
        ({
            let vals = s.form->Enum_0@;
            let id = name_of(path);
            let r = golang::lowered(path, s);
            &&& r.1 == golang::Node::Identifier(id)
            &&& r.0.len() == vals.len() + 1
            &&& r.0[0] == golang::Node::Typedef(id, Box::new(golang::Node::String))
            &&& forall|i: int| 0 <= i < vals.len() ==> #[trigger] r.0[i + 1]
                == golang::Node::Const(name_of(path.push(vals[i])), id, Box::new(golang::Node::StrConstant(vals[i]@)))
        }),
{
    let vals = s.form->Enum_0@;
    let id = name_of(path);
    lemma_go_enum_consts(path, id, vals);
    let r = golang::lowered(path, s);
    assert forall|i: int| 0 <= i < vals.len() implies #[trigger] r.0[i + 1]
        == golang::Node::Const(name_of(path.push(vals[i])), id, Box::new(golang::Node::StrConstant(vals[i]@))) by {
        assert(r.0[i + 1] == golang::enum_consts(path, id, vals)[i]);
    }
}

/// An enum of K values becomes, in TypeScript, an inline union of exactly K
/// string literal types, in the values' order, and no declaration.
pub proof fn law_ts_enum(path: Seq<String>, s: Schema)
    requires
        s.form is Enum,
    ensures
        ({
            let vals = s.form->Enum_0@;
            let r = typescript::lowered(path, s);
            &&& r.0.len() == 0
            &&& r.1 matches typescript::Node::Union(ms) && ms.len() == vals.len()
                && forall|i: int| 0 <= i < vals.len() ==> #[trigger] ms[i] == typescript::Node::Constant(vals[i]@)
        }),
{
    lemma_ts_literals(s.form->Enum_0@);
}

/// Every entry of the mapping has properties form.
pub open spec fn all_properties(ms: Seq<Member>) -> bool {
    forall|i: int| 0 <= i < ms.len() ==> (#[trigger] ms[i]).schema.form is Properties
}

proof fn lemma_go_mapping(path: Seq<String>, tag: String, tag_name: Seq<char>, ms: Seq<Member>)
    requires
        all_properties(ms),
    ensures
        golang::mapping_decls(path, tag, tag_name, ms).1.len() == ms.len(),
        forall|i: int| 0 <= i < ms.len() ==> {
            let v = #[trigger] golang::mapping_decls(path, tag, tag_name, ms).1[i];
            &&& v.name_json == ms[i].name@
            &&& v.name == name_of(path.push(ms[i].name))
        },
    decreases ms.len(),
{
    if ms.len() > 0 {
        assert(ms[ms.len() - 1].schema.form is Properties);
        lemma_go_mapping(path, tag, tag_name, ms.drop_last());
    }
}

proof fn lemma_ts_mapping(path: Seq<String>, tag: String, ms: Seq<Member>)
    requires
        all_properties(ms),
    ensures
        typescript::mapping_decls(path, tag, ms).1.len() == ms.len(),
        forall|i: int| 0 <= i < ms.len() ==> #[trigger] typescript::mapping_decls(path, tag, ms).1[i]
            == typescript::Node::Identifier(name_of(path.push(ms[i].name))),
        forall|i: int| #![trigger ms[i]] 0 <= i < ms.len() ==> exists|j: int| 0 <= j < typescript::mapping_decls(path, tag, ms).0.len()
            && #[trigger] tagged_interface(typescript::mapping_decls(path, tag, ms).0[j], name_of(path.push(ms[i].name)), tag@, ms[i].name@),
    decreases ms.len(),
{
    if ms.len() > 0 {
        let k = ms.len() - 1;
        let m = ms[k];
        assert(m.schema.form is Properties);
        let init = typescript::mapping_decls(path, tag, ms.drop_last());
        let r = typescript::mapping_decls(path, tag, ms);
        lemma_ts_mapping(path, tag, ms.drop_last());
        let vpath = path.push(m.name);
        let rq = typescript::members(vpath, m.schema.form->required@, true);
        let op = typescript::members(vpath, m.schema.form->optional@, false);
        assert(r.0 == init.0 + rq.0 + op.0 + seq![
            typescript::Node::Interface(name_of(vpath), seq![(tag@, true, typescript::Node::Constant(m.name@))] + rq.1 + op.1),
        ]);
        assert forall|i: int| #![trigger ms[i]] 0 <= i < ms.len() implies exists|j: int| 0 <= j < r.0.len()
            && #[trigger] tagged_interface(r.0[j], name_of(path.push(ms[i].name)), tag@, ms[i].name@) by {
            if i < k {
                assert(ms.drop_last()[i] == ms[i]);
                let j = choose|j: int| 0 <= j < init.0.len()
                    && #[trigger] tagged_interface(init.0[j], name_of(path.push(ms[i].name)), tag@, ms[i].name@);
                assert(r.0[j] == init.0[j]);
            } else {
                assert(tagged_interface(r.0[r.0.len() - 1], name_of(path.push(ms[i].name)), tag@, ms[i].name@));
            }
        }
    }
}

/// `n` is an interface called `id` whose first field is the required tag,
/// typed as the literal `value`.
pub open spec fn tagged_interface(n: typescript::Node, id: Seq<char>, tag: Seq<char>, value: Seq<char>) -> bool {
    n matches typescript::Node::Interface(name, fs) && name == id && fs.len() > 0
        && fs[0] == (tag, true, typescript::Node::Constant(value))
}

/// A discriminator whose K mapping entries all have properties form becomes,
/// in Go, a union declaration with exactly K variants, in the mapping's order,
/// each selected by its entry's tag value; the union's text consists of its
/// struct, a marshalling switch and an unmarshalling switch over those same
/// variants (each failing with the sentinel error otherwise), and the
/// variants' structs.
pub proof fn law_go_discriminator(path: Seq<String>, s: Schema)
    requires
        s.form is Discriminator,
        all_properties(s.form->mapping@),
    ensures
        ({
            let tag = s.form->tag;
            let ms = s.form->mapping@;
            let r = golang::lowered(path, s);
            &&& r.1 == golang::Node::Identifier(name_of(path))
            &&& r.0.last() matches golang::Node::DiscriminatorStruct { name, tag: tag_name, tag_short, tag_json, variants }
                && name == name_of(path)
                && tag_name == name_of(path.push(tag))
                && tag_json == tag@
                && variants.len() == ms.len()
                && (forall|i: int| 0 <= i < ms.len() ==> (#[trigger] variants[i]).name_json == ms[i].name@
                    && variants[i].name == name_of(path.push(ms[i].name)))
                && golang::go_text(r.0.last()) == golang::union_struct_text(name, tag_name, tag_short, tag_json, variants)
                    + golang::marshal_text(name, tag_short, tag_json, variants)
                    + golang::unmarshal_text(name, tag_short, tag_json, variants)
                    + golang::variant_structs(variants)
        }),
{
    let tag = s.form->tag;
    lemma_go_mapping(path, tag, name_of(path.push(tag)), s.form->mapping@);
}

/// A discriminator whose K mapping entries all have properties form becomes,
/// in TypeScript, an inline union of exactly K interface names, in the
/// mapping's order; each names a declared interface whose first field is the
/// tag, typed as the literal of its entry's tag value.
pub proof fn law_ts_discriminator(path: Seq<String>, s: Schema)
    requires
        s.form is Discriminator,
        all_properties(s.form->mapping@),
    ensures
        ({
            let tag = s.form->tag;
            let ms = s.form->mapping@;
            let r = typescript::lowered(path, s);
            &&& r.1 matches typescript::Node::Union(ids) && ids.len() == ms.len()
                && forall|i: int| 0 <= i < ms.len() ==> #[trigger] ids[i]
                    == typescript::Node::Identifier(name_of(path.push(ms[i].name)))
            &&& forall|i: int| #![trigger ms[i]] 0 <= i < ms.len() ==> exists|j: int| 0 <= j < r.0.len()
                && #[trigger] tagged_interface(r.0[j], name_of(path.push(ms[i].name)), tag@, ms[i].name@)
        }),
{
    let ms = s.form->mapping@;
    let tag = s.form->tag;
    lemma_ts_mapping(path, tag, ms);
    let m = typescript::mapping_decls(path, tag, ms);
    let r = typescript::lowered(path, s);
    assert(r.0 == m.0);
    assert forall|i: int| #![trigger ms[i]] 0 <= i < ms.len() implies exists|j: int| 0 <= j < r.0.len()
        && #[trigger] tagged_interface(r.0[j], name_of(path.push(ms[i].name)), tag@, ms[i].name@) by {
        let j = choose|j: int| 0 <= j < m.0.len()
            && #[trigger] tagged_interface(m.0[j], name_of(path.push(ms[i].name)), tag@, ms[i].name@);
        assert(tagged_interface(r.0[j], name_of(path.push(ms[i].name)), tag@, ms[i].name@));
    }
}

/// Two sibling properties with different names are transformed at paths whose
/// joined text differs, so they are named from different texts (casing may
/// still merge them: `pascal_of` is not injective).
pub proof fn law_sibling_paths_differ(path: Seq<String>, a: String, b: String)
    requires
        path.len() > 0,
        a@ != b@,
    ensures
        joined(path.push(a)) != joined(path.push(b)),
{
    assert(path.push(a).drop_last() =~= path);
    assert(path.push(b).drop_last() =~= path);
    let p = joined(path) + "_"@;
    assert(joined(path.push(a)) == p + a@);
    assert(joined(path.push(b)) == p + b@);
    if p + a@ == p + b@ {
        assert(a@ =~= (p + a@).subrange(p.len() as int, (p + a@).len() as int));
        assert(b@ =~= (p + b@).subrange(p.len() as int, (p + b@).len() as int));
    }
}

/// Transforming the same schema twice, with the same root name, gives the
/// same declaration sequence.
pub proof fn law_transform_idempotent(root_name: String, s: Schema, first: golang::Ast, second: golang::Ast, ts_first: typescript::Ast, ts_second: typescript::Ast)
    requires
        first@ == golang::transformed(root_name, s),
        second@ == golang::transformed(root_name, s),
        ts_first@ == typescript::transformed(root_name, s),
        ts_second@ == typescript::transformed(root_name, s),
    ensures
        first@ == second@,
        ts_first@ == ts_second@,
{
}

} // verus!
