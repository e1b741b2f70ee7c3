use globals_struct::collect::collect;
use globals_struct::model::CollectedImport;
use globals_struct::model::CtorStyle;
use globals_struct::model::Declaration;
use globals_struct::model::Diagnostic;
use globals_struct::model::EnvSnapshot;
use globals_struct::model::FileStore;
use globals_struct::model::SynthOutput;
use globals_struct::model::Tag;
use globals_struct::model::TagArg;
use globals_struct::model::TagKind;
use globals_struct::synth::synthesize;

fn b(s: &str) -> Vec<u8> {
    s.as_bytes().to_vec()
}

fn one_ident(kind: TagKind, name: &str) -> Tag {
    Tag { kind, args: vec![TagArg::Ident(b(name))] }
}

fn view_decl(name: &str, ctor: &str) -> Tag {
    Tag {
        kind: TagKind::ViewDecl,
        args: vec![TagArg::Ident(b(name)), TagArg::Ident(b(ctor))],
    }
}

fn field(name: &str, ty: &str, init: &str, tags: Vec<Tag>) -> Declaration {
    Declaration::Field { vis: b(""), name: b(name), ty: b(ty), init: b(init), tags }
}

fn import(tree: &str, tags: Vec<Tag>) -> Declaration {
    Declaration::Import { vis: b(""), leading: false, tree: b(tree), tags }
}

fn run(tags: Vec<Tag>, content: Vec<Declaration>) -> Result<SynthOutput, Diagnostic> {
    synthesize(
        &b("pub"),
        &b("G"),
        &tags,
        &Some(content),
        &FileStore { entries: vec![] },
        &EnvSnapshot { vars: vec![] },
    )
}

#[test]
fn two_fields_one_view_scenario() {
    // Target `G` with `a: i32 = 1` in view `V1` and `b: bool = true` in none.
    let content = vec![
        field("a", "i32", "1", vec![
            one_ident(TagKind::TargetField, "G"),
            one_ident(TagKind::FieldView, "V1"),
        ]),
        field("b", "bool", "true", vec![one_ident(TagKind::TargetField, "G")]),
    ];
    let out = run(vec![view_decl("V1", "make_v1")], content).unwrap();
    assert_eq!(out.vis, b("pub"));
    assert_eq!(out.name, b("G"));
    assert_eq!(out.fields.len(), 2);
    assert_eq!(out.fields[0].name, b("a"));
    assert_eq!(out.fields[0].ty, b("i32"));
    assert_eq!(out.fields[0].init, b("1"));
    assert_eq!(out.fields[1].name, b("b"));
    assert_eq!(out.fields[1].ty, b("bool"));
    assert_eq!(out.fields[1].init, b("true"));
    assert_eq!(out.views.len(), 1);
    let v = &out.views[0];
    assert_eq!(v.projection.name, b("V1"));
    assert_eq!(v.projection.ctor_name, b("make_v1"));
    assert_eq!(v.projection.fields.len(), 1);
    assert_eq!(v.projection.fields[0].name, b("a"));
    assert_eq!(v.projection.fields[0].ty, b("i32"));
}

#[test]
fn two_target_tags_are_a_duplicate() {
    let content = vec![field("a", "i32", "1", vec![
        one_ident(TagKind::TargetField, "G"),
        one_ident(TagKind::TargetField, "G"),
    ])];
    assert_eq!(run(vec![], content), Err(Diagnostic::DuplicateTag));
}

#[test]
fn missing_body_is_rejected() {
    let r = synthesize(
        &b("pub"),
        &b("G"),
        &vec![],
        &None,
        &FileStore { entries: vec![] },
        &EnvSnapshot { vars: vec![] },
    );
    assert_eq!(r, Err(Diagnostic::MissingContainerBody));
}

#[test]
fn field_order_follows_source_order() {
    let content = vec![
        field("x", "u8", "0", vec![one_ident(TagKind::TargetField, "G")]),
        field("skipped", "u8", "0", vec![one_ident(TagKind::TargetField, "Elsewhere")]),
        field("y", "u8", "0", vec![one_ident(TagKind::TargetField, "G")]),
        field("untagged", "u8", "0", vec![]),
        field("z", "u8", "0", vec![one_ident(TagKind::TargetField, "G")]),
    ];
    let out = run(vec![], content).unwrap();
    let names: Vec<Vec<u8>> = out.fields.iter().map(|f| f.name.clone()).collect();
    assert_eq!(names, vec![b("x"), b("y"), b("z")]);
}

#[test]
fn same_import_tree_twice_is_collected_once() {
    let content = vec![
        import("std::fmt::Debug", vec![one_ident(TagKind::UseForTarget, "G")]),
        import("std::fmt::Debug", vec![one_ident(TagKind::UseForTarget, "G")]),
    ];
    let out = run(vec![], content).unwrap();
    assert_eq!(out.imports.len(), 1);
    assert_eq!(out.imports[0].tree, b("std::fmt::Debug"));
}

#[test]
fn textually_different_trees_are_distinct() {
    let content = vec![
        import("a::B", vec![one_ident(TagKind::UseForTarget, "G")]),
        import("a :: B", vec![one_ident(TagKind::UseForTarget, "G")]),
    ];
    let out = run(vec![], content).unwrap();
    assert_eq!(out.imports.len(), 2);
}

#[test]
fn first_import_occurrence_wins() {
    let content = vec![
        import("a::A", vec![one_ident(TagKind::UseForTarget, "G")]),
        import("b::B", vec![one_ident(TagKind::UseForTarget, "G")]),
        import("a::A", vec![one_ident(TagKind::UseForTarget, "G")]),
    ];
    let out = run(vec![], content).unwrap();
    let trees: Vec<Vec<u8>> = out.imports.iter().map(|i| i.tree.clone()).collect();
    assert_eq!(trees, vec![b("a::A"), b("b::B")]);
}

#[test]
fn import_for_another_target_is_excluded() {
    let content = vec![import("a::A", vec![one_ident(TagKind::UseForTarget, "H")])];
    let out = run(vec![], content).unwrap();
    assert_eq!(out.imports, Vec::<CollectedImport>::new());
}

#[test]
fn field_in_two_views_appears_in_both() {
    let content = vec![
        field("a", "u8", "0", vec![
            one_ident(TagKind::TargetField, "G"),
            one_ident(TagKind::FieldView, "X"),
            one_ident(TagKind::FieldView, "Y"),
        ]),
        field("only_x", "u8", "0", vec![
            one_ident(TagKind::TargetField, "G"),
            one_ident(TagKind::FieldView, "X"),
        ]),
        field("c", "u8", "0", vec![
            one_ident(TagKind::TargetField, "G"),
            one_ident(TagKind::FieldView, "Y"),
            one_ident(TagKind::FieldView, "X"),
        ]),
    ];
    let out = run(vec![view_decl("X", "make_x"), view_decl("Y", "make_y")], content).unwrap();
    assert_eq!(out.views.len(), 2);
    let x = &out.views[0].projection;
    let y = &out.views[1].projection;
    let x_names: Vec<Vec<u8>> = x.fields.iter().map(|f| f.name.clone()).collect();
    let y_names: Vec<Vec<u8>> = y.fields.iter().map(|f| f.name.clone()).collect();
    assert_eq!(x_names, vec![b("a"), b("only_x"), b("c")]);
    assert_eq!(y_names, vec![b("a"), b("c")]);
}

#[test]
fn view_with_no_matching_fields_is_still_emitted() {
    let content = vec![field("a", "u8", "0", vec![one_ident(TagKind::TargetField, "G")])];
    let out = run(vec![view_decl("Lonely", "make_lonely")], content).unwrap();
    assert_eq!(out.views.len(), 1);
    assert_eq!(out.views[0].projection.name, b("Lonely"));
    assert_eq!(out.views[0].projection.ctor_name, b("make_lonely"));
    assert_eq!(out.views[0].projection.fields.len(), 0);
    assert_eq!(out.views[0].reborrow.len(), 0);
}

#[test]
fn reborrow_rebinds_the_view_fields_in_order() {
    let content = vec![
        field("a", "u8", "0", vec![
            one_ident(TagKind::TargetField, "G"),
            one_ident(TagKind::FieldView, "V"),
        ]),
        field("c", "u8", "0", vec![
            one_ident(TagKind::TargetField, "G"),
            one_ident(TagKind::FieldView, "V"),
        ]),
    ];
    let out = run(vec![view_decl("V", "make_v")], content).unwrap();
    let v = &out.views[0];
    let member_names: Vec<Vec<u8>> =
        v.projection.fields.iter().map(|f| f.name.clone()).collect();
    assert_eq!(v.reborrow, member_names);
    assert_eq!(v.reborrow, vec![b("a"), b("c")]);
}

#[test]
fn default_ctor_style_is_anonymous() {
    let out = run(vec![], vec![]).unwrap();
    assert_eq!(out.ctor_style, CtorStyle::MacroRules);
}

#[test]
fn flag_selects_named_ctor_style() {
    let out = run(vec![Tag { kind: TagKind::MacroCtorFlag, args: vec![] }], vec![]).unwrap();
    assert_eq!(out.ctor_style, CtorStyle::DeclMacro);
}

#[test]
fn duplicated_flag_is_a_duplicate() {
    let tags = vec![
        Tag { kind: TagKind::MacroCtorFlag, args: vec![] },
        Tag { kind: TagKind::MacroCtorFlag, args: vec![] },
    ];
    assert_eq!(run(tags, vec![]), Err(Diagnostic::DuplicateTag));
}

#[test]
fn target_tag_without_arguments_is_malformed() {
    let content = vec![field("a", "u8", "0", vec![Tag {
        kind: TagKind::TargetField,
        args: vec![],
    }])];
    assert_eq!(run(vec![], content), Err(Diagnostic::MalformedTagArguments));
}

#[test]
fn target_tag_with_two_idents_is_malformed() {
    let content = vec![field("a", "u8", "0", vec![Tag {
        kind: TagKind::TargetField,
        args: vec![TagArg::Ident(b("G")), TagArg::Ident(b("H"))],
    }])];
    assert_eq!(run(vec![], content), Err(Diagnostic::MalformedTagArguments));
}

#[test]
fn target_tag_with_non_ident_is_malformed() {
    let content = vec![field("a", "u8", "0", vec![Tag {
        kind: TagKind::TargetField,
        args: vec![TagArg::Opaque(b("G = 1"))],
    }])];
    assert_eq!(run(vec![], content), Err(Diagnostic::MalformedTagArguments));
}

#[test]
fn view_tag_with_two_idents_on_a_field_is_malformed() {
    let content = vec![field("a", "u8", "0", vec![
        one_ident(TagKind::TargetField, "G"),
        Tag {
            kind: TagKind::FieldView,
            args: vec![TagArg::Ident(b("V")), TagArg::Ident(b("make_v"))],
        },
    ])];
    assert_eq!(run(vec![], content), Err(Diagnostic::MalformedTagArguments));
}

#[test]
fn view_declaration_with_one_ident_is_malformed() {
    let tags = vec![Tag { kind: TagKind::ViewDecl, args: vec![TagArg::Ident(b("V"))] }];
    assert_eq!(run(tags, vec![]), Err(Diagnostic::MalformedTagArguments));
}

#[test]
fn malformed_view_tag_on_foreign_field_is_ignored() {
    // The view memberships of a field bound to another target are never
    // resolved, so their shape is not checked.
    let content = vec![field("a", "u8", "0", vec![
        one_ident(TagKind::TargetField, "Elsewhere"),
        Tag { kind: TagKind::FieldView, args: vec![] },
    ])];
    let out = run(vec![], content).unwrap();
    assert_eq!(out.fields.len(), 0);
}

fn cond_tag() -> Tag {
    Tag { kind: TagKind::Cond, args: vec![TagArg::Opaque(b("feature = \"x\""))] }
}

#[test]
fn cond_tags_are_carried_verbatim() {
    let content = vec![field("a", "u8", "0", vec![
        one_ident(TagKind::TargetField, "G"),
        cond_tag(),
    ])];
    let out = run(vec![], content).unwrap();
    assert_eq!(out.fields[0].cfg.len(), 1);
    assert_eq!(out.fields[0].cfg[0], cond_tag());
}

#[test]
fn unknown_tags_are_ignored() {
    let content = vec![field("a", "u8", "0", vec![
        Tag { kind: TagKind::Other, args: vec![TagArg::Opaque(b("whatever"))] },
        one_ident(TagKind::TargetField, "G"),
    ])];
    let out = run(vec![], content).unwrap();
    assert_eq!(out.fields.len(), 1);
    assert_eq!(out.fields[0].cfg.len(), 0);
    assert_eq!(out.fields[0].views.len(), 0);
}

#[test]
fn collect_reports_views_in_directive_order() {
    let decls = vec![field("a", "u8", "0", vec![
        one_ident(TagKind::TargetField, "G"),
        one_ident(TagKind::FieldView, "B"),
        one_ident(TagKind::FieldView, "A"),
    ])];
    let (fields, _) = collect(&b("G"), &decls).unwrap();
    assert_eq!(fields[0].views, vec![b("B"), b("A")]);
}
