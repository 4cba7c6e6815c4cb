use jddf_codegen::config::ConfigError;
use jddf_codegen::golang;
use jddf_codegen::naming::{file_stem, join_path, name};
use jddf_codegen::schema::{Form, Member, Schema, Type};
use jddf_codegen::typescript;

fn prim(t: Type) -> Schema {
    Schema::of_form(Form::Type(t))
}

fn member(n: &str, s: Schema) -> Member {
    Member::new(n.to_string(), s)
}

fn user_schema() -> Schema {
    Schema::of_form(Form::Properties {
        required: vec![member("name", prim(Type::String))],
        optional: vec![member("age", prim(Type::Uint8))],
    })
}

fn go_target() -> golang::Target {
    golang::Target::new(Some("out"), Some("user.jddf")).unwrap()
}

fn ts_target() -> typescript::Target {
    typescript::Target::new(Some("user.jddf")).unwrap()
}

fn go_text(t: &golang::Target, s: &Schema) -> String {
    let ast = t.transform(s);
    let mut out = String::new();
    t.serialize_ast(&mut out, &ast);
    out
}

fn ts_text(t: &typescript::Target, s: &Schema) -> String {
    t.serialize(&t.transform(s))
}

fn shape_schema() -> Schema {
    Schema::of_form(Form::Discriminator {
        tag: "kind".to_string(),
        mapping: vec![
            member(
                "circle",
                Schema::of_form(Form::Properties {
                    required: vec![member("radius", prim(Type::Float64))],
                    optional: vec![],
                }),
            ),
            member(
                "square",
                Schema::of_form(Form::Properties {
                    required: vec![member("side", prim(Type::Float64))],
                    optional: vec![member("label", prim(Type::String))],
                }),
            ),
        ],
    })
}

#[test]
fn user_struct_in_go() {
    let t = go_target();
    assert_eq!(t.root_name, "user");
    assert_eq!(t.pkg_name, "out");
    assert_eq!(t.file_name(), "user.go");
    let text = go_text(&t, &user_schema());
    assert_eq!(
        text,
        "type User struct {\n\tName string `json:\"name\"`\n\tAge *uint8 `json:\"age\"`\n}\n\n"
    );
}

#[test]
fn user_interface_in_typescript() {
    let t = ts_target();
    assert_eq!(t.root_name, "User");
    assert_eq!(t.file_name(), "index.ts");
    let text = ts_text(&t, &user_schema());
    assert_eq!(text, "export interface User {\n  name: string;\n  age?: number;\n}\n\n");
}

#[test]
fn enum_definition_in_go() {
    let t = go_target();
    let s = Schema::with_definitions(
        vec![member(
            "Status",
            Schema::of_form(Form::Enum(vec!["A".to_string(), "B".to_string()])),
        )],
        Form::Empty,
    );
    let text = go_text(&t, &s);
    assert_eq!(
        text,
        "type Status = string\n\nconst StatusA Status = \"A\"\n\nconst StatusB Status = \"B\"\n\ntype User = interface{}\n\n"
    );
}

#[test]
fn properties_keep_groups_and_order() {
    let s = Schema::of_form(Form::Properties {
        required: vec![member("b", prim(Type::Int8)), member("a", prim(Type::Int16))],
        optional: vec![member("d", prim(Type::Boolean)), member("c", prim(Type::Timestamp))],
    });
    let t = go_target();
    let mut seq = Vec::new();
    let r = t.transform_subschema(&mut seq, &vec!["thing".to_string()], &s);
    assert!(matches!(r, golang::Ast::Identifier(ref id) if id == "Thing"));
    assert_eq!(seq.len(), 1);
    match &seq[0] {
        golang::Ast::Struct(id, props) => {
            assert_eq!(id, "Thing");
            let keys: Vec<(&str, bool)> = props.iter().map(|p| (p.json.as_str(), p.required)).collect();
            assert_eq!(keys, vec![("b", true), ("a", true), ("d", false), ("c", false)]);
            assert_eq!(props[3].name, "C");
            assert!(matches!(props[3].ast, golang::Ast::Time));
        }
        other => panic!("not a struct: {:?}", other),
    }
    let ts = ts_target();
    let text = ts_text(&ts, &s);
    assert_eq!(
        text,
        "export interface User {\n  b: number;\n  a: number;\n  d?: boolean;\n  c?: string;\n}\n\n"
    );
}

#[test]
fn enum_constants_in_go_and_union_in_typescript() {
    let s = Schema::of_form(Form::Enum(vec!["x".to_string(), "y".to_string(), "z".to_string()]));
    let t = go_target();
    let mut seq = Vec::new();
    t.transform_subschema(&mut seq, &vec!["color".to_string()], &s);
    assert_eq!(seq.len(), 4);
    assert!(matches!(&seq[0], golang::Ast::Typedef(id, _) if id == "Color"));
    let consts: Vec<String> = seq[1..]
        .iter()
        .map(|a| match a {
            golang::Ast::Const(n, ty, v) => {
                assert_eq!(ty, "Color");
                match &**v {
                    golang::Ast::StrConstant(c) => format!("{}={}", n, c),
                    _ => panic!("not a string constant"),
                }
            }
            _ => panic!("not a constant"),
        })
        .collect();
    assert_eq!(consts, vec!["ColorX=x", "ColorY=y", "ColorZ=z"]);

    let ts = ts_target();
    let mut tseq = Vec::new();
    let r = ts.transform_subschema(&mut tseq, &vec!["color".to_string()], &s);
    assert!(tseq.is_empty());
    let mut out = String::new();
    ts.serialize_ast(&mut out, &r);
    assert_eq!(out, "\"x\" | \"y\" | \"z\"");
}

#[test]
fn discriminator_in_go() {
    let t = go_target();
    let text = go_text(&t, &shape_schema());
    assert!(text.starts_with("type UserKind = string\n\nconst UserKindCircle UserKind = \"circle\"\n\n"));
    assert!(text.contains("const UserKindSquare UserKind = \"square\"\n"));
    assert!(text.contains("type User struct {\n\tKind UserKind `json:\"kind\"`\n\tUserCircle\n\tUserSquare\n}\n"));
    assert_eq!(text.matches("\tcase \"circle\":\n").count(), 2);
    assert_eq!(text.matches("\tcase \"square\":\n").count(), 2);
    assert_eq!(text.matches("\tcase ").count(), 4);
    assert!(text.contains("\t\treturn json.Unmarshal(b, &v.UserSquare)\n"));
    assert!(text.contains("\treturn nil, ErrUnknownVariant\n"));
    assert!(text.contains("\treturn ErrUnknownVariant\n"));
    assert!(text.contains("type UserSquare struct {\n\tSide float64 `json:\"side\"`\n\tLabel *string `json:\"label\"`\n}\n"));
}

#[test]
fn discriminator_in_typescript() {
    let t = ts_target();
    let text = ts_text(&t, &shape_schema());
    assert_eq!(
        text,
        "export interface UserCircle {\n  kind: \"circle\";\n  radius: number;\n}\n\n\
         export interface UserSquare {\n  kind: \"square\";\n  side: number;\n  label?: string;\n}\n\n\
         export type User = UserCircle | UserSquare;\n\n"
    );
}

#[test]
fn discriminator_entry_without_properties_has_no_variant() {
    let s = Schema::of_form(Form::Discriminator {
        tag: "kind".to_string(),
        mapping: vec![member("empty", Schema::of_form(Form::Empty))],
    });
    let t = go_target();
    let mut seq = Vec::new();
    t.transform_subschema(&mut seq, &vec!["u".to_string()], &s);
    assert_eq!(seq.len(), 3);
    match &seq[2] {
        golang::Ast::DiscriminatorStruct { variants, .. } => assert!(variants.is_empty()),
        _ => panic!("not a union"),
    }
    let ts = ts_target();
    assert_eq!(ts_text(&ts, &s), "export type User = never;\n\n");
}

#[test]
fn sibling_names_differ() {
    let s = Schema::of_form(Form::Properties {
        required: vec![
            member("home", Schema::of_form(Form::Properties { required: vec![], optional: vec![] })),
            member("work", Schema::of_form(Form::Properties { required: vec![], optional: vec![] })),
        ],
        optional: vec![],
    });
    let t = go_target();
    let mut seq = Vec::new();
    t.transform_subschema(&mut seq, &vec!["person".to_string()], &s);
    let names: Vec<&str> = seq
        .iter()
        .map(|a| match a {
            golang::Ast::Struct(n, _) => n.as_str(),
            _ => panic!("not a struct"),
        })
        .collect();
    assert_eq!(names, vec!["PersonHome", "PersonWork", "Person"]);
}

#[test]
fn transform_twice_is_the_same() {
    let s = Schema::with_definitions(vec![member("shape", shape_schema())], Form::Ref("shape".to_string()));
    let t = go_target();
    assert_eq!(go_text(&t, &s), go_text(&t, &s));
    let ts = ts_target();
    assert_eq!(ts_text(&ts, &s), ts_text(&ts, &s));
}

#[test]
fn arrays_maps_and_refs() {
    let s = Schema::of_form(Form::Properties {
        required: vec![
            member("tags", Schema::of_form(Form::Elements(Box::new(prim(Type::String))))),
            member("scores", Schema::of_form(Form::Values(Box::new(prim(Type::Float32))))),
            member("owner", Schema::of_form(Form::Ref("person".to_string()))),
            member("any", Schema::of_form(Form::Empty)),
        ],
        optional: vec![],
    });
    let go = go_text(&go_target(), &s);
    assert_eq!(
        go,
        "type User struct {\n\tTags []string `json:\"tags\"`\n\tScores map[string]float32 `json:\"scores\"`\n\tOwner Person `json:\"owner\"`\n\tAny interface{} `json:\"any\"`\n}\n\n"
    );
    let ts = ts_text(&ts_target(), &s);
    assert_eq!(
        ts,
        "export interface User {\n  tags: string[];\n  scores: { [name: string]: number};\n  owner: Person;\n  any: any;\n}\n\n"
    );
}

#[test]
fn root_that_is_not_a_name_gets_an_alias() {
    let s = Schema::of_form(Form::Elements(Box::new(prim(Type::Int32))));
    assert_eq!(go_text(&go_target(), &s), "type User = []int32\n\n");
    assert_eq!(ts_text(&ts_target(), &s), "export type User = number[];\n\n");
}

#[test]
fn go_file_starts_with_preamble() {
    let t = golang::Target::new(Some("my-models"), Some("api.v1.json")).unwrap();
    assert_eq!(t.pkg_name, "my_models");
    assert_eq!(t.root_name, "api");
    let text = t.serialize(&t.transform(&Schema::of_form(Form::Type(Type::Boolean))));
    assert_eq!(
        text,
        "package my_models\nimport \"time\"\nimport \"encoding/json\"\nimport \"errors\"\n\
         var ErrUnknownVariant = errors.New(\"my_models: unknown discriminator tag value\")\n\
         type Api = bool\n\n"
    );
}

#[test]
fn config_errors() {
    assert_eq!(golang::Target::new(None, Some("a.json")).err(), Some(ConfigError::PackageName));
    assert_eq!(golang::Target::new(Some("out"), None).err(), Some(ConfigError::FileName));
    assert_eq!(typescript::Target::new(None).err(), Some(ConfigError::FileName));
}

#[test]
fn naming_helpers() {
    assert_eq!(file_stem("a.b.c"), "a");
    assert_eq!(file_stem("plain"), "plain");
    assert_eq!(file_stem(".hidden"), "");
    let p = vec!["user".to_string(), "home_address".to_string(), "zip".to_string()];
    assert_eq!(join_path(&p), "user_home_address_zip");
    assert_eq!(name(&p), "UserHomeAddressZip");
}

#[test]
fn string_constants_are_escaped() {
    let s = Schema::of_form(Form::Enum(vec!["say \"hi\"".to_string()]));
    let text = ts_text(&ts_target(), &s);
    assert_eq!(text, "export type User = \"say \\\"hi\\\"\";\n\n");
}
