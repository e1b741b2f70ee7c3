use globals_struct::model::Declaration;
use globals_struct::model::Diagnostic;
use globals_struct::model::EnvSnapshot;
use globals_struct::model::EnvVar;
use globals_struct::model::FileBody;
use globals_struct::model::FileEntry;
use globals_struct::model::FileStore;
use globals_struct::model::Tag;
use globals_struct::model::TagArg;
use globals_struct::model::TagKind;
use globals_struct::scan::scan;

fn b(s: &str) -> Vec<u8> {
    s.as_bytes().to_vec()
}

fn field_for(name: &str, target: &str) -> Declaration {
    Declaration::Field {
        vis: b("pub"),
        name: b(name),
        ty: b("i32"),
        init: b("0"),
        tags: vec![Tag { kind: TagKind::TargetField, args: vec![TagArg::Ident(b(target))] }],
    }
}

fn splice(path: &str) -> Declaration {
    Declaration::Splice { path: b(path) }
}

fn store(entries: Vec<(&str, FileBody)>) -> FileStore {
    FileStore {
        entries: entries.into_iter().map(|(p, body)| FileEntry { path: b(p), body }).collect(),
    }
}

fn no_env() -> EnvSnapshot {
    EnvSnapshot { vars: vec![] }
}

fn names_of(ds: &[Declaration]) -> Vec<Vec<u8>> {
    ds.iter()
        .filter_map(|d| match d {
            Declaration::Field { name, .. } => Some(name.clone()),
            _ => None,
        })
        .collect()
}

#[test]
fn no_splices_is_identity() {
    let ds = vec![field_for("a", "G"), Declaration::Other, field_for("c", "H")];
    let flat = scan(&ds, &store(vec![]), &no_env()).unwrap();
    assert_eq!(flat, ds);
}

#[test]
fn splice_replaces_in_place() {
    let ds = vec![field_for("a", "G"), splice("mid.decl"), field_for("z", "G")];
    let fs = store(vec![("mid.decl", FileBody::Parsed(vec![field_for("m", "G")]))]);
    let flat = scan(&ds, &fs, &no_env()).unwrap();
    assert_eq!(names_of(&flat), vec![b("a"), b("m"), b("z")]);
}

#[test]
fn nested_chain_flattens_in_order() {
    let ds = vec![field_for("a", "G"), splice("b.decl")];
    let fs = store(vec![
        ("b.decl", FileBody::Parsed(vec![field_for("b1", "G"), splice("c.decl"), field_for("b2", "G")])),
        ("c.decl", FileBody::Parsed(vec![field_for("c1", "G")])),
    ]);
    let flat = scan(&ds, &fs, &no_env()).unwrap();
    assert_eq!(names_of(&flat), vec![b("a"), b("b1"), b("c1"), b("b2")]);
}

#[test]
fn pre_flattening_by_hand_is_equivalent() {
    // Scanning `a` that splices `b`, which splices `c`, gives the same flat
    // stream as splicing a hand-flattened `b` + `c`.
    let ds = vec![field_for("a", "G"), splice("b.decl")];
    let chained = store(vec![
        ("b.decl", FileBody::Parsed(vec![field_for("b1", "G"), splice("c.decl")])),
        ("c.decl", FileBody::Parsed(vec![field_for("c1", "G")])),
    ]);
    let by_hand = store(vec![
        ("b.decl", FileBody::Parsed(vec![field_for("b1", "G"), field_for("c1", "G")])),
    ]);
    let flat_chained = scan(&ds, &chained, &no_env()).unwrap();
    let flat_by_hand = scan(&ds, &by_hand, &no_env()).unwrap();
    assert_eq!(flat_chained, flat_by_hand);
}

#[test]
fn splice_path_is_expanded_first() {
    let ds = vec![splice("${DIR}/x.decl")];
    let fs = store(vec![("/srv/x.decl", FileBody::Parsed(vec![field_for("x", "G")]))]);
    let env = EnvSnapshot { vars: vec![EnvVar { name: b("DIR"), value: b("/srv") }] };
    let flat = scan(&ds, &fs, &env).unwrap();
    assert_eq!(names_of(&flat), vec![b("x")]);
}

#[test]
fn unset_variable_in_splice_path_is_reported() {
    let ds = vec![splice("${HOME}/extra.decl")];
    let r = scan(&ds, &store(vec![]), &no_env());
    assert_eq!(r, Err(Diagnostic::UnresolvedVariable(b("HOME"))));
}

#[test]
fn absent_file_is_an_io_error() {
    let ds = vec![splice("gone.decl")];
    let r = scan(&ds, &store(vec![]), &no_env());
    assert_eq!(r, Err(Diagnostic::IoError(b("gone.decl"))));
}

#[test]
fn unparsable_file_is_a_parse_error() {
    let ds = vec![splice("bad.decl")];
    let fs = store(vec![("bad.decl", FileBody::Unparsable)]);
    let r = scan(&ds, &fs, &no_env());
    assert_eq!(r, Err(Diagnostic::ParseError(b("bad.decl"))));
}

#[test]
fn self_splicing_file_is_a_cycle() {
    let ds = vec![splice("a.decl")];
    let fs = store(vec![("a.decl", FileBody::Parsed(vec![splice("a.decl")]))]);
    let r = scan(&ds, &fs, &no_env());
    assert_eq!(r, Err(Diagnostic::SpliceCycle));
}

#[test]
fn mutually_splicing_files_are_a_cycle() {
    let ds = vec![splice("a.decl")];
    let fs = store(vec![
        ("a.decl", FileBody::Parsed(vec![splice("b.decl")])),
        ("b.decl", FileBody::Parsed(vec![splice("a.decl")])),
    ]);
    let r = scan(&ds, &fs, &no_env());
    assert_eq!(r, Err(Diagnostic::SpliceCycle));
}

#[test]
fn first_error_wins_over_later_splices() {
    let ds = vec![splice("gone.decl"), splice("bad.decl")];
    let fs = store(vec![("bad.decl", FileBody::Unparsable)]);
    let r = scan(&ds, &fs, &no_env());
    assert_eq!(r, Err(Diagnostic::IoError(b("gone.decl"))));
}
