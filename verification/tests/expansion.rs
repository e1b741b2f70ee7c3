use globals_struct::expand::expand_path;
use globals_struct::model::Diagnostic;
use globals_struct::model::EnvSnapshot;
use globals_struct::model::EnvVar;

fn b(s: &str) -> Vec<u8> {
    s.as_bytes().to_vec()
}

fn env(pairs: &[(&str, &str)]) -> EnvSnapshot {
    EnvSnapshot {
        vars: pairs.iter().map(|(n, v)| EnvVar { name: b(n), value: b(v) }).collect(),
    }
}

#[test]
fn plain_path_passes_through() {
    let r = expand_path(&b("src/extra.decl"), &env(&[]));
    assert_eq!(r, Ok(b("src/extra.decl")));
}

#[test]
fn empty_path_stays_empty() {
    let r = expand_path(&b(""), &env(&[]));
    assert_eq!(r, Ok(b("")));
}

#[test]
fn double_dollar_is_literal_dollar() {
    let r = expand_path(&b("a$$b$$"), &env(&[]));
    assert_eq!(r, Ok(b("a$b$")));
}

#[test]
fn variable_is_substituted() {
    let r = expand_path(&b("${ROOT}/extra.decl"), &env(&[("ROOT", "/srv")]));
    assert_eq!(r, Ok(b("/srv/extra.decl")));
}

#[test]
fn variable_in_the_middle() {
    let r = expand_path(&b("x${A}y"), &env(&[("A", "1")]));
    assert_eq!(r, Ok(b("x1y")));
}

#[test]
fn first_env_entry_wins() {
    let r = expand_path(&b("${A}"), &env(&[("A", "first"), ("A", "second")]));
    assert_eq!(r, Ok(b("first")));
}

#[test]
fn unset_home_is_unresolved() {
    let r = expand_path(&b("${HOME}/extra.decl"), &env(&[("PATH", "/bin")]));
    assert_eq!(r, Err(Diagnostic::UnresolvedVariable(b("HOME"))));
}

#[test]
fn bare_dollar_is_malformed() {
    let r = expand_path(&b("a$b"), &env(&[]));
    assert_eq!(r, Err(Diagnostic::MalformedEscape));
}

#[test]
fn trailing_dollar_is_malformed() {
    let r = expand_path(&b("a$"), &env(&[]));
    assert_eq!(r, Err(Diagnostic::MalformedEscape));
}

#[test]
fn unterminated_reference_is_unmatched_brace() {
    let r = expand_path(&b("${HOME"), &env(&[("HOME", "/root")]));
    assert_eq!(r, Err(Diagnostic::UnmatchedBrace));
}

#[test]
fn empty_variable_value_is_kept() {
    let r = expand_path(&b("a${E}b"), &env(&[("E", "")]));
    assert_eq!(r, Ok(b("ab")));
}

#[test]
fn two_references_expand_in_order() {
    let r = expand_path(&b("${A}:${B}"), &env(&[("A", "1"), ("B", "2")]));
    assert_eq!(r, Ok(b("1:2")));
}
