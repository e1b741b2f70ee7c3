use crate::bytes::append_bytes;
use crate::bytes::bytes_eq;
use crate::model::Diagnostic;
use crate::model::EnvSnapshot;
use crate::model::SpecDiag;
use crate::model::SpecEnvVar;
use crate::model::ok_concat;
use crate::model::res_view;
use vstd::prelude::*;

verus! {

/// First-match lookup of a variable name in the environment snapshot.
pub open spec fn env_lookup(env: Seq<SpecEnvVar>, name: Seq<u8>) -> Option<Seq<u8>>
    decreases env.len(),
{
    if env.len() == 0 {
        None
    } else if env[0].name == name {
        Some(env[0].value)
    } else {
        env_lookup(env.skip(1), name)
    }
}

/// The expander's position: scanning plain text, or inside a `${...}`
/// variable reference, carrying the name read so far.
#[verifier::ext_equal]
pub enum ExpandMode {
    Plain,
    InVar(Seq<u8>),
}

/// Expansion of `s` from position `i` onwards, one byte at a time. In plain
/// mode, `$$` yields a literal `$`, `${` opens a variable reference, any
/// other byte after `$` (or a trailing `$`) is a malformed escape, and every
/// other byte is kept. Inside a reference, bytes accumulate into the variable
/// name until `}`, whose value is then substituted; a reference still open at
/// the end of the text is an unmatched brace.
pub open spec fn expand_from(s: Seq<u8>, env: Seq<SpecEnvVar>, i: int, m: ExpandMode) -> Result<
    Seq<u8>,
    SpecDiag,
>
    decreases s.len() - i,
{
    if i < 0 || i >= s.len() {
        match m {
            ExpandMode::Plain => Ok(Seq::empty()),
            ExpandMode::InVar(name) => Err(SpecDiag::UnmatchedBrace),
        }
    } else {
        match m {
            ExpandMode::Plain => {
                if s[i] != 36 {
                    ok_concat(seq![s[i]], expand_from(s, env, i + 1, ExpandMode::Plain))
                } else if i + 1 >= s.len() {
                    Err(SpecDiag::MalformedEscape)
                } else if s[i + 1] == 36 {
                    ok_concat(seq![36u8], expand_from(s, env, i + 2, ExpandMode::Plain))
                } else if s[i + 1] == 123 {
                    expand_from(s, env, i + 2, ExpandMode::InVar(Seq::empty()))
                } else {
                    Err(SpecDiag::MalformedEscape)
                }
            },
            ExpandMode::InVar(name) => {
                if s[i] == 125 {
                    match env_lookup(env, name) {
                        None => Err(SpecDiag::UnresolvedVariable(name)),
                        Some(v) => ok_concat(v, expand_from(s, env, i + 1, ExpandMode::Plain)),
                    }
                } else {
                    expand_from(s, env, i + 1, ExpandMode::InVar(name.push(s[i])))
                }
            },
        }
    }
}

/// What expanding a whole path yields.
pub open spec fn spec_expand(s: Seq<u8>, env: Seq<SpecEnvVar>) -> Result<Seq<u8>, SpecDiag> {
    expand_from(s, env, 0, ExpandMode::Plain)
}

/// Looks a variable up in the snapshot; the first entry with that name wins.
pub fn env_get<'a>(env: &'a EnvSnapshot, name: &Vec<u8>) -> (r: Option<&'a Vec<u8>>)
    ensures
        match r {
            Some(v) => env_lookup(env@, name@) == Some(v@),
            None => env_lookup(env@, name@) is None,
        },
{
    let mut i: usize = 0;
    proof {
        assert(env@.skip(0) =~= env@);
    }
    while i < env.vars.len()
        invariant
            i <= env.vars@.len(),
            env_lookup(env@, name@) == env_lookup(env@.skip(i as int), name@),
        decreases env.vars@.len() - i,
    {
        proof {
            assert(env@.skip(i as int)[0] == env@[i as int]);
        }
        if bytes_eq(&env.vars[i].name, name) {
            return Some(&env.vars[i].value);
        }
        proof {
            assert(env@.skip(i as int).skip(1) =~= env@.skip(i as int + 1));
        }
        i += 1;
    }
    proof {
        assert(env@.skip(i as int).len() == 0);
    }
    None
}

/// Expands `$$` escapes and `${NAME}` variable references in a path.
pub fn expand_path(path: &Vec<u8>, env: &EnvSnapshot) -> (r: Result<Vec<u8>, Diagnostic>)
    ensures
        res_view(r) == spec_expand(path@, env@),
{
    let ghost s = path@;
    let mut out: Vec<u8> = Vec::new();
    let mut i: usize = 0;
    while i < path.len()
        invariant
            i <= s.len(),
            s == path@,
            spec_expand(s, env@) == ok_concat(out@, expand_from(s, env@, i as int, ExpandMode::Plain)),
        decreases s.len() - i,
    {
        let c = path[i];
        if c != 36 {
            proof {
                let rest = expand_from(s, env@, i + 1 as int, ExpandMode::Plain);
                if rest is Ok {
                    assert(out@ + (seq![c] + rest->Ok_0) =~= (out@ + seq![c]) + rest->Ok_0);
                }
                assert(out@.push(c) =~= out@ + seq![c]);
            }
            out.push(c);
            i += 1;
        } else if i + 1 >= path.len() {
            proof {
                assert(spec_expand(s, env@) == Err::<Seq<u8>, SpecDiag>(SpecDiag::MalformedEscape));
            }
            return Err(Diagnostic::MalformedEscape);
        } else if path[i + 1] == 36 {
            proof {
                let rest = expand_from(s, env@, i + 2 as int, ExpandMode::Plain);
                if rest is Ok {
                    assert(out@ + (seq![36u8] + rest->Ok_0) =~= (out@ + seq![36u8]) + rest->Ok_0);
                }
                assert(out@.push(36u8) =~= out@ + seq![36u8]);
            }
            out.push(36);
            i += 2;
        } else if path[i + 1] == 123 {
            let mut name: Vec<u8> = Vec::new();
            let mut j: usize = i + 2;
            proof {
                assert(expand_from(s, env@, i as int, ExpandMode::Plain) == expand_from(
                    s,
                    env@,
                    i + 2 as int,
                    ExpandMode::InVar(Seq::empty()),
                ));
                assert(name@ =~= Seq::<u8>::empty());
            }
            while j < path.len() && path[j] != 125
                invariant
                    i + 2 <= j <= s.len(),
                    s == path@,
                    expand_from(s, env@, i + 2 as int, ExpandMode::InVar(Seq::empty()))
                        == expand_from(s, env@, j as int, ExpandMode::InVar(name@)),
                decreases s.len() - j,
            {
                proof {
                    assert(expand_from(s, env@, j as int, ExpandMode::InVar(name@)) == expand_from(
                        s,
                        env@,
                        j + 1 as int,
                        ExpandMode::InVar(name@.push(s[j as int])),
                    ));
                }
                name.push(path[j]);
                j += 1;
            }
            if j >= path.len() {
                proof {
                    assert(expand_from(s, env@, j as int, ExpandMode::InVar(name@)) == Err::<
                        Seq<u8>,
                        SpecDiag,
                    >(SpecDiag::UnmatchedBrace));
                }
                return Err(Diagnostic::UnmatchedBrace);
            }
            match env_get(env, &name) {
                None => {
                    proof {
                        assert(expand_from(s, env@, j as int, ExpandMode::InVar(name@)) == Err::<
                            Seq<u8>,
                            SpecDiag,
                        >(SpecDiag::UnresolvedVariable(name@)));
                    }
                    return Err(Diagnostic::UnresolvedVariable(name));
                },
                Some(v) => {
                    proof {
                        let rest = expand_from(s, env@, j + 1 as int, ExpandMode::Plain);
                        assert(expand_from(s, env@, j as int, ExpandMode::InVar(name@))
                            == ok_concat(v@, rest));
                        if rest is Ok {
                            assert(out@ + (v@ + rest->Ok_0) =~= (out@ + v@) + rest->Ok_0);
                        }
                    }
                    append_bytes(&mut out, v);
                    i = j + 1;
                },
            }
        } else {
            proof {
                assert(spec_expand(s, env@) == Err::<Seq<u8>, SpecDiag>(SpecDiag::MalformedEscape));
            }
            return Err(Diagnostic::MalformedEscape);
        }
    }
    proof {
        assert(out@ + Seq::<u8>::empty() =~= out@);
    }
    Ok(out)
}

} // verus!
