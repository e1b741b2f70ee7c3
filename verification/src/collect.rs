use crate::bytes::bytes_eq;
use crate::bytes::copy_bytes;
use crate::model::CollectedField;
use crate::model::CollectedImport;
use crate::model::Declaration;
use crate::model::Diagnostic;
use crate::model::SpecDecl;
use crate::model::SpecDiag;
use crate::model::SpecField;
use crate::model::SpecImport;
use crate::model::TagKind;
use crate::model::decls_view;
use crate::model::fields_view;
use crate::model::imports_view;
use crate::model::names_view;
use crate::model::tags_view;
use crate::tags::spec_cond_tags;
use crate::tags::spec_target;
use crate::tags::spec_views;
use crate::tags::tag_cond_list;
use crate::tags::tag_target;
use crate::tags::tag_view_names;
use vstd::prelude::*;

verus! {

/// Whether an import with this tree is already collected.
pub open spec fn has_tree(imports: Seq<SpecImport>, tree: Seq<u8>) -> bool {
    exists|i: int| 0 <= i < imports.len() && imports[i].tree == tree
}

/// Collection over the remaining declarations, with the fields and imports
/// collected so far. A field declaration joins the aggregate exactly when its
/// target binding names the requested target; a matching field's view
/// memberships and conditional-compilation directives are resolved at that
/// point. An import joins exactly when its target binding names the target
/// and no import with a byte-equal tree is already collected: the first
/// occurrence wins and later duplicates are dropped silently.
pub open spec fn collect_from(
    target: Seq<u8>,
    decls: Seq<SpecDecl>,
    fields: Seq<SpecField>,
    imports: Seq<SpecImport>,
) -> Result<(Seq<SpecField>, Seq<SpecImport>), SpecDiag>
    decreases decls.len(),
{
    if decls.len() == 0 {
        Ok((fields, imports))
    } else {
        match decls[0] {
            SpecDecl::Field { vis, name, ty, init, tags } => match spec_target(
                tags,
                TagKind::TargetField,
            ) {
                Err(e) => Err(e),
                Ok(None) => collect_from(target, decls.skip(1), fields, imports),
                Ok(Some(t)) => if t != target {
                    collect_from(target, decls.skip(1), fields, imports)
                } else {
                    match spec_views(tags) {
                        Err(e) => Err(e),
                        Ok(vs) => collect_from(
                            target,
                            decls.skip(1),
                            fields.push(
                                SpecField {
                                    vis,
                                    name,
                                    ty,
                                    init,
                                    views: vs,
                                    cfg: spec_cond_tags(tags),
                                },
                            ),
                            imports,
                        ),
                    }
                },
            },
            SpecDecl::Import { vis, leading, tree, tags } => match spec_target(
                tags,
                TagKind::UseForTarget,
            ) {
                Err(e) => Err(e),
                Ok(None) => collect_from(target, decls.skip(1), fields, imports),
                Ok(Some(t)) => if t != target || has_tree(imports, tree) {
                    collect_from(target, decls.skip(1), fields, imports)
                } else {
                    collect_from(
                        target,
                        decls.skip(1),
                        fields,
                        imports.push(SpecImport { vis, leading, tree }),
                    )
                },
            },
            _ => collect_from(target, decls.skip(1), fields, imports),
        }
    }
}

/// What collecting from a flattened declaration list yields for a target.
pub open spec fn spec_collect(target: Seq<u8>, decls: Seq<SpecDecl>) -> Result<
    (Seq<SpecField>, Seq<SpecImport>),
    SpecDiag,
> {
    collect_from(target, decls, Seq::empty(), Seq::empty())
}

/// Tests whether an import tree byte-equal to `tree` is already collected.
pub fn import_seen(imports: &Vec<CollectedImport>, tree: &Vec<u8>) -> (r: bool)
    ensures
        r == has_tree(imports_view(imports@), tree@),
{
    let mut j: usize = 0;
    while j < imports.len()
        invariant
            j <= imports@.len(),
            forall|k: int| 0 <= k < j ==> imports_view(imports@)[k].tree != tree@,
        decreases imports@.len() - j,
    {
        if bytes_eq(&imports[j].tree, tree) {
            proof {
                assert(imports_view(imports@)[j as int].tree == tree@);
            }
            return true;
        }
        j += 1;
    }
    false
}

/// Filters a flattened declaration stream down to the fields and imports
/// bound to the requested target, in first-seen order, deduplicating imports
/// by the byte equality of their trees.
pub fn collect(target: &Vec<u8>, decls: &Vec<Declaration>) -> (r: Result<
    (Vec<CollectedField>, Vec<CollectedImport>),
    Diagnostic,
>)
    ensures
        match r {
            Ok(p) => spec_collect(target@, decls_view(decls@)) == Ok::<
                (Seq<SpecField>, Seq<SpecImport>),
                SpecDiag,
            >((fields_view(p.0@), imports_view(p.1@))),
            Err(e) => spec_collect(target@, decls_view(decls@)) == Err::<
                (Seq<SpecField>, Seq<SpecImport>),
                SpecDiag,
            >(e@),
        },
{
    let ghost ds = decls_view(decls@);
    let mut fields: Vec<CollectedField> = Vec::new();
    let mut imports: Vec<CollectedImport> = Vec::new();
    let mut idx: usize = 0;
    proof {
        assert(ds.skip(0) =~= ds);
        assert(fields_view(fields@) =~= Seq::<SpecField>::empty());
        assert(imports_view(imports@) =~= Seq::<SpecImport>::empty());
    }
    while idx < decls.len()
        invariant
            idx <= decls@.len(),
            ds == decls_view(decls@),
            spec_collect(target@, ds) == collect_from(
                target@,
                ds.skip(idx as int),
                fields_view(fields@),
                imports_view(imports@),
            ),
        decreases decls@.len() - idx,
    {
        proof {
            assert(ds.skip(idx as int)[0] == ds[idx as int]);
            assert(ds.skip(idx as int).skip(1) =~= ds.skip(idx as int + 1));
        }
        match &decls[idx] {
            Declaration::Field { vis, name, ty, init, tags } => {
                match tag_target(tags, TagKind::TargetField) {
                    Err(e) => {
                        return Err(e);
                    },
                    Ok(None) => {},
                    Ok(Some(t)) => {
                        if bytes_eq(&t, target) {
                            match tag_view_names(tags) {
                                Err(e) => {
                                    return Err(e);
                                },
                                Ok(vs) => {
                                    let cfg = tag_cond_list(tags);
                                    let cf = CollectedField {
                                        vis: copy_bytes(vis),
                                        name: copy_bytes(name),
                                        ty: copy_bytes(ty),
                                        init: copy_bytes(init),
                                        views: vs,
                                        cfg,
                                    };
                                    let ghost f0 = fields_view(fields@);
                                    let ghost cfv = cf@;
                                    fields.push(cf);
                                    proof {
                                        assert(fields_view(fields@) =~= f0.push(cfv));
                                        assert(cfv =~= SpecField {
                                            vis: vis@,
                                            name: name@,
                                            ty: ty@,
                                            init: init@,
                                            views: names_view(vs@),
                                            cfg: spec_cond_tags(tags_view(tags@)),
                                        });
                                    }
                                },
                            }
                        }
                    },
                }
            },
            Declaration::Import { vis, leading, tree, tags } => {
                match tag_target(tags, TagKind::UseForTarget) {
                    Err(e) => {
                        return Err(e);
                    },
                    Ok(None) => {},
                    Ok(Some(t)) => {
                        if bytes_eq(&t, target) && !import_seen(&imports, tree) {
                            let ci = CollectedImport {
                                vis: copy_bytes(vis),
                                leading: *leading,
                                tree: copy_bytes(tree),
                            };
                            let ghost i0 = imports_view(imports@);
                            let ghost civ = ci@;
                            imports.push(ci);
                            proof {
                                assert(imports_view(imports@) =~= i0.push(civ));
                                assert(civ =~= SpecImport {
                                    vis: vis@,
                                    leading: *leading,
                                    tree: tree@,
                                });
                            }
                        }
                    },
                }
            },
            _ => {},
        }
        idx += 1;
    }
    proof {
        assert(ds.skip(idx as int).len() == 0);
    }
    Ok((fields, imports))
}

} // verus!
