use crate::collect::collect_from;
use crate::collect::has_tree;
use crate::collect::spec_collect;
use crate::emit::in_view;
use crate::emit::spec_projection;
use crate::emit::spec_view_emission;
use crate::emit::view_fields;
use crate::expand::spec_expand;
use crate::model::SpecDecl;
use crate::model::SpecDiag;
use crate::model::SpecEnvVar;
use crate::model::SpecField;
use crate::model::SpecFileBody;
use crate::model::SpecFileEntry;
use crate::model::SpecImport;
use crate::model::SpecProjection;
use crate::model::SpecTag;
use crate::model::SpecViewBinding;
use crate::model::TagKind;
use crate::model::ok_concat;
use crate::scan::fs_lookup;
use crate::scan::spec_flatten;
use crate::synth::spec_synthesize;
use crate::tags::spec_target;
use crate::tags::spec_view_decls;
use crate::tags::spec_views;
use vstd::prelude::*;

verus! {

/// A declaration list with no splice directives.
pub open spec fn splice_free(ds: Seq<SpecDecl>) -> bool {
    forall|i: int| 0 <= i < ds.len() ==> !((#[trigger] ds[i]) is Splice)
}

/// Flattening a splice-free list returns it unchanged, whatever the fuel.
pub proof fn lemma_flatten_splice_free(
    ds: Seq<SpecDecl>,
    fs: Seq<SpecFileEntry>,
    env: Seq<SpecEnvVar>,
    fuel: nat,
)
    requires
        splice_free(ds),
    ensures
        spec_flatten(ds, fs, env, fuel) == Ok::<Seq<SpecDecl>, SpecDiag>(ds),
    decreases ds.len(),
{
    if ds.len() == 0 {
        assert(ds =~= Seq::<SpecDecl>::empty());
    } else {
        assert(!(ds[0] is Splice));
        assert forall|i: int| 0 <= i < ds.skip(1).len() implies !((#[trigger] ds.skip(1)[i])
            is Splice) by {
            assert(ds.skip(1)[i] == ds[i + 1]);
        }
        lemma_flatten_splice_free(ds.skip(1), fs, env, fuel);
        assert(seq![ds[0]] + ds.skip(1) =~= ds);
    }
}

/// Flattening distributes over concatenation: the first stream's outcome
/// comes first, and its diagnostic, if any, wins.
pub proof fn lemma_flatten_append(
    a: Seq<SpecDecl>,
    b: Seq<SpecDecl>,
    fs: Seq<SpecFileEntry>,
    env: Seq<SpecEnvVar>,
    fuel: nat,
)
    ensures
        spec_flatten(a + b, fs, env, fuel) == (match spec_flatten(a, fs, env, fuel) {
            Err(e) => Err::<Seq<SpecDecl>, SpecDiag>(e),
            Ok(fa) => ok_concat(fa, spec_flatten(b, fs, env, fuel)),
        }),
    decreases a.len(),
{
    if a.len() == 0 {
        assert(a + b =~= b);
        match spec_flatten(b, fs, env, fuel) {
            Ok(t) => {
                assert(Seq::<SpecDecl>::empty() + t =~= t);
            },
            Err(e) => {},
        }
    } else {
        assert((a + b)[0] == a[0]);
        assert((a + b).skip(1) =~= a.skip(1) + b);
        lemma_flatten_append(a.skip(1), b, fs, env, fuel);
        let h: Result<Seq<SpecDecl>, SpecDiag> = match a[0] {
            SpecDecl::Splice { path } => match spec_expand(path, env) {
                Err(e) => Err(e),
                Ok(q) => match fs_lookup(fs, q) {
                    None => Err(SpecDiag::IoError(q)),
                    Some(SpecFileBody::Unparsable) => Err(SpecDiag::ParseError(q)),
                    Some(SpecFileBody::Parsed(content)) => if fuel == 0 {
                        Err(SpecDiag::SpliceCycle)
                    } else {
                        spec_flatten(content, fs, env, (fuel - 1) as nat)
                    },
                },
            },
            _ => Ok(seq![a[0]]),
        };
        assert(spec_flatten(a, fs, env, fuel) == (match h {
            Err(e) => Err::<Seq<SpecDecl>, SpecDiag>(e),
            Ok(hh) => ok_concat(hh, spec_flatten(a.skip(1), fs, env, fuel)),
        }));
        assert(spec_flatten(a + b, fs, env, fuel) == (match h {
            Err(e) => Err::<Seq<SpecDecl>, SpecDiag>(e),
            Ok(hh) => ok_concat(hh, spec_flatten(a.skip(1) + b, fs, env, fuel)),
        }));
        match h {
            Err(e) => {},
            Ok(hh) => {
                match spec_flatten(a.skip(1), fs, env, fuel) {
                    Err(e) => {},
                    Ok(fa2) => {
                        match spec_flatten(b, fs, env, fuel) {
                            Err(e) => {},
                            Ok(fb) => {
                                assert(hh + (fa2 + fb) =~= (hh + fa2) + fb);
                            },
                        }
                    },
                }
            },
        }
    }
}

/// Whatever flattening returns is itself splice-free.
pub proof fn lemma_flatten_ok_splice_free(
    ds: Seq<SpecDecl>,
    fs: Seq<SpecFileEntry>,
    env: Seq<SpecEnvVar>,
    fuel: nat,
)
    requires
        spec_flatten(ds, fs, env, fuel) is Ok,
    ensures
        splice_free(spec_flatten(ds, fs, env, fuel)->Ok_0),
    decreases fuel, ds.len(),
{
    if ds.len() == 0 {
    } else {
        let h: Result<Seq<SpecDecl>, SpecDiag> = match ds[0] {
            SpecDecl::Splice { path } => match spec_expand(path, env) {
                Err(e) => Err(e),
                Ok(q) => match fs_lookup(fs, q) {
                    None => Err(SpecDiag::IoError(q)),
                    Some(SpecFileBody::Unparsable) => Err(SpecDiag::ParseError(q)),
                    Some(SpecFileBody::Parsed(content)) => if fuel == 0 {
                        Err(SpecDiag::SpliceCycle)
                    } else {
                        spec_flatten(content, fs, env, (fuel - 1) as nat)
                    },
                },
            },
            _ => Ok(seq![ds[0]]),
        };
        assert(spec_flatten(ds, fs, env, fuel) == (match h {
            Err(e) => Err::<Seq<SpecDecl>, SpecDiag>(e),
            Ok(hh) => ok_concat(hh, spec_flatten(ds.skip(1), fs, env, fuel)),
        }));
        let hh = h->Ok_0;
        let t = spec_flatten(ds.skip(1), fs, env, fuel)->Ok_0;
        lemma_flatten_ok_splice_free(ds.skip(1), fs, env, fuel);
        match ds[0] {
            SpecDecl::Splice { path } => {
                let q = spec_expand(path, env)->Ok_0;
                let content = match fs_lookup(fs, q) {
                    Some(SpecFileBody::Parsed(content)) => content,
                    _ => Seq::empty(),
                };
                lemma_flatten_ok_splice_free(content, fs, env, (fuel - 1) as nat);
            },
            _ => {
                assert(splice_free(hh));
            },
        }
        assert forall|i: int| 0 <= i < (hh + t).len() implies !((#[trigger] (hh + t)[i])
            is Splice) by {
            if i < hh.len() {
                assert((hh + t)[i] == hh[i]);
            } else {
                assert((hh + t)[i] == t[i - hh.len()]);
            }
        }
        assert(spec_flatten(ds, fs, env, fuel)->Ok_0 == hh + t);
    }
}

/// Flattening is associative over splicing: replacing a splice directive by
/// the already-flattened declarations of the file it names leaves the
/// flattened stream unchanged. Pre-flattening a nested file by hand and
/// splicing its flat content in place is therefore indistinguishable from
/// letting the scanner resolve the whole chain.
pub proof fn lemma_splice_inline(
    xs: Seq<SpecDecl>,
    ys: Seq<SpecDecl>,
    p: Seq<u8>,
    q: Seq<u8>,
    content: Seq<SpecDecl>,
    flat: Seq<SpecDecl>,
    fs: Seq<SpecFileEntry>,
    env: Seq<SpecEnvVar>,
    fuel: nat,
)
    requires
        spec_expand(p, env) == Ok::<Seq<u8>, SpecDiag>(q),
        fs_lookup(fs, q) == Some(SpecFileBody::Parsed(content)),
        fuel >= 1,
        spec_flatten(content, fs, env, (fuel - 1) as nat) == Ok::<Seq<SpecDecl>, SpecDiag>(flat),
    ensures
        spec_flatten(xs + seq![SpecDecl::Splice { path: p }] + ys, fs, env, fuel) == spec_flatten(
            xs + flat + ys,
            fs,
            env,
            fuel,
        ),
{
    let mid = seq![SpecDecl::Splice { path: p }];
    lemma_flatten_ok_splice_free(content, fs, env, (fuel - 1) as nat);
    lemma_flatten_splice_free(flat, fs, env, fuel);
    assert(xs + mid + ys =~= xs + (mid + ys));
    assert(xs + flat + ys =~= xs + (flat + ys));
    lemma_flatten_append(xs, mid + ys, fs, env, fuel);
    lemma_flatten_append(xs, flat + ys, fs, env, fuel);
    lemma_flatten_append(flat, ys, fs, env, fuel);
    assert((mid + ys)[0] == SpecDecl::Splice { path: p });
    assert((mid + ys).skip(1) =~= ys);
    assert(spec_flatten(mid + ys, fs, env, fuel) == ok_concat(
        flat,
        spec_flatten(ys, fs, env, fuel),
    ));
    assert(spec_flatten(flat + ys, fs, env, fuel) == ok_concat(
        flat,
        spec_flatten(ys, fs, env, fuel),
    ));
}

/// The names of the field declarations bound to the target, in source order.
pub open spec fn tagged_field_names(target: Seq<u8>, ds: Seq<SpecDecl>) -> Seq<Seq<u8>>
    decreases ds.len(),
{
    if ds.len() == 0 {
        Seq::empty()
    } else {
        let rest = tagged_field_names(target, ds.skip(1));
        match ds[0] {
            SpecDecl::Field { vis, name, ty, init, tags } => {
                if spec_target(tags, TagKind::TargetField) == Ok::<Option<Seq<u8>>, SpecDiag>(
                    Some(target),
                ) {
                    seq![name] + rest
                } else {
                    rest
                }
            },
            _ => rest,
        }
    }
}

/// Successful collection appends, to the fields already accumulated, exactly
/// the fields bound to the target, in declaration order.
pub proof fn lemma_collect_field_names(
    target: Seq<u8>,
    ds: Seq<SpecDecl>,
    f0: Seq<SpecField>,
    i0: Seq<SpecImport>,
)
    requires
        collect_from(target, ds, f0, i0) is Ok,
    ensures
        (collect_from(target, ds, f0, i0)->Ok_0).0.map_values(|f: SpecField| f.name)
            == f0.map_values(|f: SpecField| f.name) + tagged_field_names(target, ds),
    decreases ds.len(),
{
    let fname = |f: SpecField| f.name;
    if ds.len() == 0 {
        assert(f0.map_values(fname) + Seq::<Seq<u8>>::empty() =~= f0.map_values(fname));
    } else {
        let rest = tagged_field_names(target, ds.skip(1));
        match ds[0] {
            SpecDecl::Field { vis, name, ty, init, tags } => {
                match spec_target(tags, TagKind::TargetField) {
                    Err(e) => {},
                    Ok(None) => {
                        lemma_collect_field_names(target, ds.skip(1), f0, i0);
                    },
                    Ok(Some(t)) => {
                        if t != target {
                            lemma_collect_field_names(target, ds.skip(1), f0, i0);
                        } else {
                            match spec_views(tags) {
                                Err(e) => {},
                                Ok(vs) => {
                                    let nf = SpecField {
                                        vis,
                                        name,
                                        ty,
                                        init,
                                        views: vs,
                                        cfg: crate::tags::spec_cond_tags(tags),
                                    };
                                    lemma_collect_field_names(target, ds.skip(1), f0.push(nf), i0);
                                    assert(f0.push(nf).map_values(fname) =~= f0.map_values(
                                        fname,
                                    ).push(name));
                                    assert(f0.map_values(fname).push(name) + rest =~= f0.map_values(
                                        fname,
                                    ) + (seq![name] + rest));
                                },
                            }
                        }
                    },
                }
            },
            SpecDecl::Import { vis, leading, tree, tags } => {
                match spec_target(tags, TagKind::UseForTarget) {
                    Err(e) => {},
                    Ok(None) => {
                        lemma_collect_field_names(target, ds.skip(1), f0, i0);
                    },
                    Ok(Some(t)) => {
                        if t != target || has_tree(i0, tree) {
                            lemma_collect_field_names(target, ds.skip(1), f0, i0);
                        } else {
                            lemma_collect_field_names(
                                target,
                                ds.skip(1),
                                f0,
                                i0.push(SpecImport { vis, leading, tree }),
                            );
                        }
                    },
                }
            },
            _ => {
                lemma_collect_field_names(target, ds.skip(1), f0, i0);
            },
        }
    }
}

/// When a container has no splice directives and synthesis succeeds, the
/// aggregate's members stand in exactly the source order of the field
/// declarations bound to the target.
pub proof fn law_field_order(
    vis: Seq<u8>,
    name: Seq<u8>,
    tags: Seq<SpecTag>,
    ds: Seq<SpecDecl>,
    fs: Seq<SpecFileEntry>,
    env: Seq<SpecEnvVar>,
)
    requires
        splice_free(ds),
        spec_synthesize(vis, name, tags, Some(ds), fs, env) is Ok,
    ensures
        (spec_synthesize(vis, name, tags, Some(ds), fs, env)->Ok_0).fields.map_values(
            |f: SpecField| f.name,
        ) == tagged_field_names(name, ds),
{
    let fname = |f: SpecField| f.name;
    lemma_flatten_splice_free(ds, fs, env, fs.len() as nat);
    lemma_collect_field_names(name, ds, Seq::empty(), Seq::empty());
    assert(Seq::<SpecField>::empty().map_values(fname) =~= Seq::<Seq<u8>>::empty());
    assert(Seq::<Seq<u8>>::empty() + tagged_field_names(name, ds) =~= tagged_field_names(name, ds));
}

/// A sequence of collected imports with pairwise distinct trees.
pub open spec fn unique_trees(im: Seq<SpecImport>) -> bool {
    forall|i: int, j: int| 0 <= i < j < im.len() ==> im[i].tree != im[j].tree
}

/// Whether a declaration is an import bound to this target carrying this
/// tree.
pub open spec fn is_target_import(d: SpecDecl, target: Seq<u8>, tree: Seq<u8>) -> bool {
    match d {
        SpecDecl::Import { vis, leading, tree: tr, tags } => spec_target(
            tags,
            TagKind::UseForTarget,
        ) == Ok::<Option<Seq<u8>>, SpecDiag>(Some(target)) && tr == tree,
        _ => false,
    }
}

/// Whether some declaration in the list is an import bound to this target
/// carrying this tree.
pub open spec fn decl_has_import(target: Seq<u8>, ds: Seq<SpecDecl>, tree: Seq<u8>) -> bool {
    exists|i: int| 0 <= i < ds.len() && is_target_import(#[trigger] ds[i], target, tree)
}

/// Peeling the first declaration off an import-presence query.
proof fn lemma_decl_has_import_step(target: Seq<u8>, ds: Seq<SpecDecl>, tree: Seq<u8>)
    requires
        ds.len() > 0,
    ensures
        decl_has_import(target, ds, tree) <==> (is_target_import(ds[0], target, tree)
            || decl_has_import(target, ds.skip(1), tree)),
{
    if decl_has_import(target, ds, tree) {
        let i = choose|i: int| 0 <= i < ds.len() && is_target_import(#[trigger] ds[i], target, tree);
        if i > 0 {
            assert(ds.skip(1)[i - 1] == ds[i]);
        }
    }
    if is_target_import(ds[0], target, tree) {
        assert(0 <= 0 < ds.len() && is_target_import(ds[0], target, tree));
    }
    if decl_has_import(target, ds.skip(1), tree) {
        let i = choose|i: int|
            0 <= i < ds.skip(1).len() && is_target_import(#[trigger] ds.skip(1)[i], target, tree);
        assert(ds[i + 1] == ds.skip(1)[i]);
    }
}

/// Successful collection keeps import trees pairwise distinct, and an import
/// tree is collected exactly when it was already accumulated or some import
/// declaration bound to the target carries it.
pub proof fn lemma_collect_import_dedup(
    target: Seq<u8>,
    ds: Seq<SpecDecl>,
    f0: Seq<SpecField>,
    i0: Seq<SpecImport>,
)
    requires
        collect_from(target, ds, f0, i0) is Ok,
        unique_trees(i0),
    ensures
        unique_trees((collect_from(target, ds, f0, i0)->Ok_0).1),
        forall|tree: Seq<u8>|
            #![auto]
            has_tree((collect_from(target, ds, f0, i0)->Ok_0).1, tree) <==> (has_tree(i0, tree)
                || decl_has_import(target, ds, tree)),
    decreases ds.len(),
{
    if ds.len() == 0 {
        assert forall|tree: Seq<u8>| #![auto] !decl_has_import(target, ds, tree) by {}
    } else {
        assert forall|tree: Seq<u8>|
            #![auto]
            decl_has_import(target, ds, tree) <==> (is_target_import(ds[0], target, tree)
                || decl_has_import(target, ds.skip(1), tree)) by {
            lemma_decl_has_import_step(target, ds, tree);
        }
        match ds[0] {
            SpecDecl::Field { vis, name, ty, init, tags } => {
                match spec_target(tags, TagKind::TargetField) {
                    Err(e) => {},
                    Ok(None) => {
                        lemma_collect_import_dedup(target, ds.skip(1), f0, i0);
                    },
                    Ok(Some(t)) => {
                        if t != target {
                            lemma_collect_import_dedup(target, ds.skip(1), f0, i0);
                        } else {
                            match spec_views(tags) {
                                Err(e) => {},
                                Ok(vs) => {
                                    let nf = SpecField {
                                        vis,
                                        name,
                                        ty,
                                        init,
                                        views: vs,
                                        cfg: crate::tags::spec_cond_tags(tags),
                                    };
                                    lemma_collect_import_dedup(target, ds.skip(1), f0.push(nf), i0);
                                },
                            }
                        }
                    },
                }
            },
            SpecDecl::Import { vis, leading, tree: tr, tags } => {
                match spec_target(tags, TagKind::UseForTarget) {
                    Err(e) => {},
                    Ok(None) => {
                        lemma_collect_import_dedup(target, ds.skip(1), f0, i0);
                    },
                    Ok(Some(t)) => {
                        if t != target {
                            lemma_collect_import_dedup(target, ds.skip(1), f0, i0);
                        } else if has_tree(i0, tr) {
                            lemma_collect_import_dedup(target, ds.skip(1), f0, i0);
                        } else {
                            let ni = SpecImport { vis, leading, tree: tr };
                            assert(unique_trees(i0.push(ni))) by {
                                assert forall|i: int, j: int|
                                    0 <= i < j < i0.push(ni).len() implies i0.push(ni)[i].tree
                                    != i0.push(ni)[j].tree by {
                                    if j < i0.len() {
                                    } else {
                                        assert(i0.push(ni)[i] == i0[i]);
                                        assert(!has_tree(i0, tr));
                                        assert(i0[i].tree != tr);
                                    }
                                }
                            }
                            lemma_collect_import_dedup(target, ds.skip(1), f0, i0.push(ni));
                            assert forall|tree: Seq<u8>|
                                #![auto]
                                has_tree(i0.push(ni), tree) <==> (has_tree(i0, tree) || tree
                                    == tr) by {
                                if has_tree(i0.push(ni), tree) {
                                    let k = choose|k: int|
                                        0 <= k < i0.push(ni).len() && i0.push(ni)[k].tree == tree;
                                    if k < i0.len() {
                                        assert(i0[k].tree == tree);
                                    }
                                }
                                if has_tree(i0, tree) {
                                    let k = choose|k: int|
                                        0 <= k < i0.len() && i0[k].tree == tree;
                                    assert(i0.push(ni)[k].tree == tree);
                                }
                                if tree == tr {
                                    assert(i0.push(ni)[i0.len() as int].tree == tree);
                                }
                            }
                        }
                    },
                }
            },
            _ => {
                lemma_collect_import_dedup(target, ds.skip(1), f0, i0);
            },
        }
    }
}

/// Import deduplication: collecting from a stream that carries the same
/// import tree any number of times yields it exactly once. The collected
/// trees are pairwise distinct, and a tree is collected exactly when some
/// import declaration bound to the target carries it.
pub proof fn law_import_dedup(target: Seq<u8>, ds: Seq<SpecDecl>)
    requires
        spec_collect(target, ds) is Ok,
    ensures
        unique_trees((spec_collect(target, ds)->Ok_0).1),
        forall|tree: Seq<u8>|
            #![auto]
            has_tree((spec_collect(target, ds)->Ok_0).1, tree) <==> decl_has_import(
                target,
                ds,
                tree,
            ),
{
    lemma_collect_import_dedup(target, ds, Seq::empty(), Seq::empty());
    assert forall|tree: Seq<u8>|
        #![auto]
        has_tree((spec_collect(target, ds)->Ok_0).1, tree) <==> decl_has_import(
            target,
            ds,
            tree,
        ) by {
        assert(!has_tree(Seq::<SpecImport>::empty(), tree));
        assert(has_tree((collect_from(target, ds, Seq::empty(), Seq::empty())->Ok_0).1, tree) <==> (
        has_tree(Seq::<SpecImport>::empty(), tree) || decl_has_import(target, ds, tree)));
    }
}

/// A field that belongs to a view stands in that view's field list.
pub proof fn lemma_view_fields_contains(fields: Seq<SpecField>, v: Seq<u8>, i: int)
    requires
        0 <= i < fields.len(),
        in_view(fields[i], v),
    ensures
        view_fields(fields, v).contains(fields[i]),
    decreases fields.len(),
{
    if i == fields.len() - 1 {
        let sel = view_fields(fields, v);
        assert(sel[sel.len() - 1] == fields[i]);
    } else {
        assert(fields.drop_last()[i] == fields[i]);
        lemma_view_fields_contains(fields.drop_last(), v, i);
        let rest = view_fields(fields.drop_last(), v);
        let k = choose|k: int| 0 <= k < rest.len() && rest[k] == fields[i];
        assert(view_fields(fields, v)[k] == fields[i]);
    }
}

/// A field tagged for two views appears in both views' field lists. With
/// `lemma_view_fields_order` this says each appearance keeps its collected
/// position relative to the view's other fields.
pub proof fn law_field_in_both_views(fields: Seq<SpecField>, x: Seq<u8>, y: Seq<u8>, i: int)
    requires
        0 <= i < fields.len(),
        fields[i].views.contains(x),
        fields[i].views.contains(y),
    ensures
        view_fields(fields, x).contains(fields[i]),
        view_fields(fields, y).contains(fields[i]),
{
    lemma_view_fields_contains(fields, x, i);
    lemma_view_fields_contains(fields, y, i);
}

/// A view's field list preserves the relative order of the collected fields:
/// two fields that both belong to the view appear in it in their collected
/// order.
pub proof fn lemma_view_fields_order(fields: Seq<SpecField>, v: Seq<u8>, i: int, j: int)
    requires
        0 <= i < j < fields.len(),
        in_view(fields[i], v),
        in_view(fields[j], v),
    ensures
        exists|k: int, l: int|
            0 <= k < l < view_fields(fields, v).len() && #[trigger] view_fields(fields, v)[k]
                == fields[i] && #[trigger] view_fields(fields, v)[l] == fields[j],
    decreases fields.len(),
{
    let sel = view_fields(fields, v);
    if j == fields.len() - 1 {
        let rest = view_fields(fields.drop_last(), v);
        assert(fields.drop_last()[i] == fields[i]);
        lemma_view_fields_contains(fields.drop_last(), v, i);
        let k = choose|k: int| 0 <= k < rest.len() && rest[k] == fields[i];
        let l = rest.len() as int;
        assert(sel == rest.push(fields[j]));
        assert(sel[k] == fields[i]);
        assert(sel[l] == fields[j]);
    } else {
        assert(fields.drop_last()[i] == fields[i]);
        assert(fields.drop_last()[j] == fields[j]);
        lemma_view_fields_order(fields.drop_last(), v, i, j);
        let rest = view_fields(fields.drop_last(), v);
        let (k, l) = choose|k: int, l: int|
            0 <= k < l < rest.len() && #[trigger] rest[k] == fields.drop_last()[i]
                && #[trigger] rest[l] == fields.drop_last()[j];
        assert(sel[k] == fields[i]);
        assert(sel[l] == fields[j]);
    }
}

/// A view that no collected field belongs to yields an empty projection, its
/// name and constructor name intact.
pub proof fn law_empty_view(fields: Seq<SpecField>, b: SpecViewBinding)
    requires
        forall|i: int| 0 <= i < fields.len() ==> !in_view(#[trigger] fields[i], b.name),
    ensures
        spec_projection(fields, b) == (SpecProjection {
            name: b.name,
            ctor_name: b.ctor_name,
            fields: Seq::empty(),
        }),
    decreases fields.len(),
{
    if fields.len() == 0 {
    } else {
        assert forall|i: int| 0 <= i < fields.drop_last().len() implies !in_view(
            #[trigger] fields.drop_last()[i],
            b.name,
        ) by {
            assert(fields.drop_last()[i] == fields[i]);
        }
        law_empty_view(fields.drop_last(), b);
        assert(!in_view(fields[fields.len() - 1], b.name));
    }
}

/// Every view the container declares is emitted, in declaration order, as
/// the projection of the collected fields that belong to it.
pub proof fn law_every_view_emitted(
    vis: Seq<u8>,
    name: Seq<u8>,
    tags: Seq<SpecTag>,
    ds: Seq<SpecDecl>,
    fs: Seq<SpecFileEntry>,
    env: Seq<SpecEnvVar>,
)
    requires
        spec_synthesize(vis, name, tags, Some(ds), fs, env) is Ok,
    ensures
        ({
            let out = spec_synthesize(vis, name, tags, Some(ds), fs, env)->Ok_0;
            let bindings = spec_view_decls(tags)->Ok_0;
            &&& spec_view_decls(tags) is Ok
            &&& out.views.len() == bindings.len()
            &&& forall|k: int|
                0 <= k < bindings.len() ==> #[trigger] out.views[k] == spec_view_emission(
                    out.fields,
                    bindings[k],
                )
        }),
{
}

/// Reborrowing rebinds exactly the view's fields, each to itself and in
/// member order: a read through the reborrowed handle reaches the same field
/// the original view selected.
pub proof fn law_reborrow_same_fields(fields: Seq<SpecField>, b: SpecViewBinding)
    ensures
        ({
            let em = spec_view_emission(fields, b);
            &&& em.reborrow.len() == em.projection.fields.len()
            &&& forall|k: int|
                0 <= k < em.reborrow.len() ==> #[trigger] em.reborrow[k]
                    == em.projection.fields[k].name
        }),
{
}

} // verus!
