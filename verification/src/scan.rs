use crate::bytes::bytes_eq;
use crate::copy::copy_decl;
use crate::expand::expand_path;
use crate::expand::spec_expand;
use crate::model::Declaration;
use crate::model::Diagnostic;
use crate::model::EnvSnapshot;
use crate::model::FileBody;
use crate::model::FileStore;
use crate::model::SpecDecl;
use crate::model::SpecDiag;
use crate::model::SpecEnvVar;
use crate::model::SpecFileBody;
use crate::model::SpecFileEntry;
use crate::model::decls_view;
use crate::model::ok_concat;
use vstd::prelude::*;

verus! {

/// First-match lookup of an expanded path in the file store.
pub open spec fn fs_lookup(fs: Seq<SpecFileEntry>, path: Seq<u8>) -> Option<SpecFileBody>
    decreases fs.len(),
{
    if fs.len() == 0 {
        None
    } else if fs[0].path == path {
        Some(fs[0].body)
    } else {
        fs_lookup(fs.skip(1), path)
    }
}

/// Flattening of a declaration list: every declaration passes through in
/// order, except that a splice directive is replaced, in place, by the
/// flattening of the referenced file's declarations. The path is expanded
/// first; a path absent from the store cannot be read, a present but
/// unparsable file is a parse failure. `fuel` bounds the nesting depth.
pub open spec fn spec_flatten(
    decls: Seq<SpecDecl>,
    fs: Seq<SpecFileEntry>,
    env: Seq<SpecEnvVar>,
    fuel: nat,
) -> Result<Seq<SpecDecl>, SpecDiag>
    decreases fuel, decls.len(),
{
    if decls.len() == 0 {
        Ok(Seq::empty())
    } else {
        let head = match decls[0] {
            SpecDecl::Splice { path } => match spec_expand(path, env) {
                Err(e) => Err(e),
                Ok(q) => match fs_lookup(fs, q) {
                    None => Err(SpecDiag::IoError(q)),
                    Some(SpecFileBody::Unparsable) => Err(SpecDiag::ParseError(q)),
                    Some(SpecFileBody::Parsed(content)) => if fuel == 0 {
                        Err(SpecDiag::SpliceCycle)
                    } else {
                        spec_flatten(content, fs, env, (fuel - 1) as nat)
                    },
                },
            },
            _ => Ok(seq![decls[0]]),
        };
        match head {
            Err(e) => Err(e),
            Ok(h) => ok_concat(h, spec_flatten(decls.skip(1), fs, env, fuel)),
        }
    }
}

/// What scanning a declaration list yields: flattening with one level of
/// nesting per file in the store. That is enough for every chain that visits
/// each file at most once, so the fuel runs out only on a chain that
/// revisits a file, which could never finish.
pub open spec fn spec_scan(
    decls: Seq<SpecDecl>,
    fs: Seq<SpecFileEntry>,
    env: Seq<SpecEnvVar>,
) -> Result<Seq<SpecDecl>, SpecDiag> {
    spec_flatten(decls, fs, env, fs.len() as nat)
}

/// Looks an expanded path up in the store; the first entry with that path
/// wins.
pub fn fs_get<'a>(fs: &'a FileStore, path: &Vec<u8>) -> (r: Option<&'a FileBody>)
    ensures
        match r {
            Some(b) => fs_lookup(fs@, path@) == Some(b@),
            None => fs_lookup(fs@, path@) is None,
        },
{
    let mut i: usize = 0;
    proof {
        assert(fs@.skip(0) =~= fs@);
    }
    while i < fs.entries.len()
        invariant
            i <= fs.entries@.len(),
            fs_lookup(fs@, path@) == fs_lookup(fs@.skip(i as int), path@),
        decreases fs.entries@.len() - i,
    {
        proof {
            assert(fs@.skip(i as int)[0] == fs@[i as int]);
        }
        if bytes_eq(&fs.entries[i].path, path) {
            return Some(&fs.entries[i].body);
        }
        proof {
            assert(fs@.skip(i as int).skip(1) =~= fs@.skip(i as int + 1));
        }
        i += 1;
    }
    proof {
        assert(fs@.skip(i as int).len() == 0);
    }
    None
}

/// Appends the flattening of `decls` to `out`, resolving splice directives
/// through the store with at most `fuel` levels of nesting.
pub fn scan_into(
    decls: &Vec<Declaration>,
    fs: &FileStore,
    env: &EnvSnapshot,
    fuel: usize,
    out: &mut Vec<Declaration>,
) -> (r: Result<(), Diagnostic>)
    ensures
        match r {
            Ok(u) => spec_flatten(decls_view(decls@), fs@, env@, fuel as nat) matches Ok(f)
                && decls_view(final(out)@) == decls_view(old(out)@) + f,
            Err(e) => spec_flatten(decls_view(decls@), fs@, env@, fuel as nat) == Err::<
                Seq<SpecDecl>,
                SpecDiag,
            >(e@),
        },
    decreases fuel, decls@.len(),
{
    let ghost ds = decls_view(decls@);
    let ghost whole = spec_flatten(ds, fs@, env@, fuel as nat);
    let mut idx: usize = 0;
    let ghost mut done: Seq<SpecDecl> = Seq::empty();
    proof {
        assert(ds.skip(0) =~= ds);
        assert(decls_view(old(out)@) + done =~= decls_view(old(out)@));
    }
    while idx < decls.len()
        invariant
            idx <= decls@.len(),
            ds == decls_view(decls@),
            whole == spec_flatten(ds, fs@, env@, fuel as nat),
            whole == ok_concat(done, spec_flatten(ds.skip(idx as int), fs@, env@, fuel as nat)),
            decls_view(out@) == decls_view(old(out)@) + done,
        decreases decls@.len() - idx,
    {
        proof {
            assert(ds.skip(idx as int)[0] == ds[idx as int]);
            assert(ds.skip(idx as int).skip(1) =~= ds.skip(idx as int + 1));
        }
        match &decls[idx] {
            Declaration::Splice { path } => {
                let q = match expand_path(path, env) {
                    Err(e) => {
                        return Err(e);
                    },
                    Ok(q) => q,
                };
                match fs_get(fs, &q) {
                    None => {
                        return Err(Diagnostic::IoError(q));
                    },
                    Some(FileBody::Unparsable) => {
                        return Err(Diagnostic::ParseError(q));
                    },
                    Some(FileBody::Parsed(content)) => {
                        if fuel == 0 {
                            return Err(Diagnostic::SpliceCycle);
                        }
                        let ghost sub = spec_flatten(
                            decls_view(content@),
                            fs@,
                            env@,
                            (fuel - 1) as nat,
                        );
                        match scan_into(content, fs, env, fuel - 1, out) {
                            Err(e) => {
                                return Err(e);
                            },
                            Ok(u) => {
                                proof {
                                    let fc = sub->Ok_0;
                                    let rest = spec_flatten(
                                        ds.skip(idx as int + 1),
                                        fs@,
                                        env@,
                                        fuel as nat,
                                    );
                                    if rest is Ok {
                                        assert(done + (fc + rest->Ok_0) =~= (done + fc)
                                            + rest->Ok_0);
                                    }
                                    assert(decls_view(old(out)@) + done + fc =~= decls_view(
                                        old(out)@,
                                    ) + (done + fc));
                                    done = done + fc;
                                }
                            },
                        }
                    },
                }
            },
            _ => {
                let d = copy_decl(&decls[idx]);
                proof {
                    let rest = spec_flatten(ds.skip(idx as int + 1), fs@, env@, fuel as nat);
                    if rest is Ok {
                        assert(done + (seq![ds[idx as int]] + rest->Ok_0) =~= done.push(
                            ds[idx as int],
                        ) + rest->Ok_0);
                    }
                }
                let ghost out0 = decls_view(out@);
                out.push(d);
                proof {
                    assert(decls_view(out@) =~= out0.push(ds[idx as int]));
                    assert(decls_view(old(out)@) + done.push(ds[idx as int]) =~= out0.push(
                        ds[idx as int],
                    ));
                    done = done.push(ds[idx as int]);
                }
            },
        }
        idx += 1;
    }
    proof {
        assert(ds.skip(idx as int).len() == 0);
        assert(done + Seq::<SpecDecl>::empty() =~= done);
    }
    Ok(())
}

/// Scans a declaration container: splice directives are replaced, in place
/// and recursively, by the declarations of the files they name. A chain of
/// splices that revisits a file can never finish; it is reported as a cycle.
pub fn scan(decls: &Vec<Declaration>, fs: &FileStore, env: &EnvSnapshot) -> (r: Result<
    Vec<Declaration>,
    Diagnostic,
>)
    ensures
        match r {
            Ok(flat) => spec_scan(decls_view(decls@), fs@, env@) == Ok::<Seq<SpecDecl>, SpecDiag>(
                decls_view(flat@),
            ),
            Err(e) => spec_scan(decls_view(decls@), fs@, env@) == Err::<Seq<SpecDecl>, SpecDiag>(
                e@,
            ),
        },
{
    let mut out: Vec<Declaration> = Vec::new();
    let fuel = fs.entries.len();
    proof {
        assert(fs@.len() == fs.entries@.len());
        assert(decls_view(out@) =~= Seq::<SpecDecl>::empty());
    }
    match scan_into(decls, fs, env, fuel, &mut out) {
        Ok(u) => {
            proof {
                let f = spec_flatten(decls_view(decls@), fs@, env@, fuel as nat)->Ok_0;
                assert(Seq::<SpecDecl>::empty() + f =~= f);
            }
            Ok(out)
        },
        Err(e) => Err(e),
    }
}

} // verus!
