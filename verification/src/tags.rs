use crate::bytes::copy_bytes;
use crate::copy::copy_tag;
use crate::model::Diagnostic;
use crate::model::SpecDiag;
use crate::model::SpecTag;
use crate::model::SpecViewBinding;
use crate::model::Tag;
use crate::model::TagArg;
use crate::model::TagKind;
use crate::model::ViewBinding;
use crate::model::bindings_view;
use crate::model::names_view;
use crate::model::tags_view;
use vstd::prelude::*;

verus! {

/// Resolution of an at-most-once directive of kind `k` carrying one bare
/// identifier: walks the remaining directives with the occurrence already
/// found, if any. A second occurrence is a duplicate; any argument list other
/// than a single bare identifier is malformed.
pub open spec fn target_from(tags: Seq<SpecTag>, k: TagKind, found: Option<SpecTag>) -> Result<
    Option<Seq<u8>>,
    SpecDiag,
>
    decreases tags.len(),
{
    if tags.len() == 0 {
        match found {
            None => Ok(None),
            Some(t) => {
                if t.args.len() == 1 && (t.args[0] is Ident) {
                    Ok(Some(t.args[0]->Ident_0))
                } else {
                    Err(SpecDiag::MalformedTagArguments)
                }
            },
        }
    } else if tags[0].kind == k {
        if found is Some {
            Err(SpecDiag::DuplicateTag)
        } else {
            target_from(tags.skip(1), k, Some(tags[0]))
        }
    } else {
        target_from(tags.skip(1), k, found)
    }
}

/// The target binding a directive list resolves to: `None` when no directive
/// of kind `k` is attached.
pub open spec fn spec_target(tags: Seq<SpecTag>, k: TagKind) -> Result<Option<Seq<u8>>, SpecDiag> {
    target_from(tags, k, None)
}

/// Resolution of the at-most-once named-constructor emission flag; its
/// presence alone decides, its arguments are not inspected.
pub open spec fn flag_from(tags: Seq<SpecTag>, found: bool) -> Result<bool, SpecDiag>
    decreases tags.len(),
{
    if tags.len() == 0 {
        Ok(found)
    } else if tags[0].kind == TagKind::MacroCtorFlag {
        if found {
            Err(SpecDiag::DuplicateTag)
        } else {
            flag_from(tags.skip(1), true)
        }
    } else {
        flag_from(tags.skip(1), found)
    }
}

/// Whether the named-constructor emission flag is attached to the container.
pub open spec fn spec_flag(tags: Seq<SpecTag>) -> Result<bool, SpecDiag> {
    flag_from(tags, false)
}

/// Resolution of the view memberships of a field: each directive of the
/// view-membership kind carries exactly one bare identifier, the view name;
/// names accumulate in directive order.
pub open spec fn views_from(tags: Seq<SpecTag>, acc: Seq<Seq<u8>>) -> Result<
    Seq<Seq<u8>>,
    SpecDiag,
>
    decreases tags.len(),
{
    if tags.len() == 0 {
        Ok(acc)
    } else if tags[0].kind == TagKind::FieldView {
        if tags[0].args.len() == 1 && (tags[0].args[0] is Ident) {
            views_from(tags.skip(1), acc.push(tags[0].args[0]->Ident_0))
        } else {
            Err(SpecDiag::MalformedTagArguments)
        }
    } else {
        views_from(tags.skip(1), acc)
    }
}

/// The view names a field's directive list binds it to, in directive order.
pub open spec fn spec_views(tags: Seq<SpecTag>) -> Result<Seq<Seq<u8>>, SpecDiag> {
    views_from(tags, Seq::empty())
}

/// Resolution of container-level view declarations: each directive of the
/// view-declaration kind carries exactly two bare identifiers, the view name
/// and its constructor name; declarations accumulate in directive order.
pub open spec fn view_decls_from(tags: Seq<SpecTag>, acc: Seq<SpecViewBinding>) -> Result<
    Seq<SpecViewBinding>,
    SpecDiag,
>
    decreases tags.len(),
{
    if tags.len() == 0 {
        Ok(acc)
    } else if tags[0].kind == TagKind::ViewDecl {
        if tags[0].args.len() == 2 && (tags[0].args[0] is Ident) && (tags[0].args[1] is Ident) {
            view_decls_from(
                tags.skip(1),
                acc.push(
                    SpecViewBinding {
                        name: tags[0].args[0]->Ident_0,
                        ctor_name: tags[0].args[1]->Ident_0,
                    },
                ),
            )
        } else {
            Err(SpecDiag::MalformedTagArguments)
        }
    } else {
        view_decls_from(tags.skip(1), acc)
    }
}

/// The views a container's directive list declares, in directive order.
pub open spec fn spec_view_decls(tags: Seq<SpecTag>) -> Result<Seq<SpecViewBinding>, SpecDiag> {
    view_decls_from(tags, Seq::empty())
}

/// The conditional-compilation directives of a list, verbatim and in order.
pub open spec fn spec_cond_tags(tags: Seq<SpecTag>) -> Seq<SpecTag>
    decreases tags.len(),
{
    if tags.len() == 0 {
        Seq::empty()
    } else {
        let rest = spec_cond_tags(tags.drop_last());
        if tags.last().kind == TagKind::Cond {
            rest.push(tags.last())
        } else {
            rest
        }
    }
}

/// Extracts the at-most-once target binding of kind `k` from a declaration's
/// directives.
pub fn tag_target(tags: &Vec<Tag>, k: TagKind) -> (r: Result<Option<Vec<u8>>, Diagnostic>)
    ensures
        match r {
            Ok(Some(v)) => spec_target(tags_view(tags@), k) == Ok::<Option<Seq<u8>>, SpecDiag>(Some(v@)),
            Ok(None) => spec_target(tags_view(tags@), k) == Ok::<Option<Seq<u8>>, SpecDiag>(None),
            Err(e) => spec_target(tags_view(tags@), k) == Err::<Option<Seq<u8>>, SpecDiag>(e@),
        },
{
    let ghost ts = tags_view(tags@);
    let mut found: Option<usize> = None;
    let mut i: usize = 0;
    proof {
        assert(ts.skip(0) =~= ts);
    }
    while i < tags.len()
        invariant
            i <= tags@.len(),
            ts == tags_view(tags@),
            match found {
                Some(fi) => fi < i && spec_target(ts, k) == target_from(
                    ts.skip(i as int),
                    k,
                    Some(ts[fi as int]),
                ),
                None => spec_target(ts, k) == target_from(ts.skip(i as int), k, None),
            },
        decreases tags@.len() - i,
    {
        proof {
            assert(ts.skip(i as int)[0] == ts[i as int]);
            assert(ts.skip(i as int).skip(1) =~= ts.skip(i as int + 1));
        }
        if tags[i].kind == k {
            if found.is_some() {
                return Err(Diagnostic::DuplicateTag);
            }
            found = Some(i);
        }
        i += 1;
    }
    proof {
        assert(ts.skip(i as int).len() == 0);
    }
    match found {
        None => Ok(None),
        Some(fi) => {
            let t = &tags[fi];
            proof {
                assert(ts[fi as int] == tags@[fi as int]@);
            }
            if t.args.len() == 1 {
                match &t.args[0] {
                    TagArg::Ident(x) => {
                        proof {
                            assert(ts[fi as int].args[0] == t.args@[0]@);
                        }
                        Ok(Some(copy_bytes(x)))
                    },
                    TagArg::Opaque(_) => {
                        proof {
                            assert(ts[fi as int].args[0] == t.args@[0]@);
                        }
                        Err(Diagnostic::MalformedTagArguments)
                    },
                }
            } else {
                Err(Diagnostic::MalformedTagArguments)
            }
        },
    }
}

/// Tests for the at-most-once named-constructor emission flag on the
/// container's directives.
pub fn tag_flag(tags: &Vec<Tag>) -> (r: Result<bool, Diagnostic>)
    ensures
        match r {
            Ok(b) => spec_flag(tags_view(tags@)) == Ok::<bool, SpecDiag>(b),
            Err(e) => spec_flag(tags_view(tags@)) == Err::<bool, SpecDiag>(e@),
        },
{
    let ghost ts = tags_view(tags@);
    let mut found: bool = false;
    let mut i: usize = 0;
    proof {
        assert(ts.skip(0) =~= ts);
    }
    while i < tags.len()
        invariant
            i <= tags@.len(),
            ts == tags_view(tags@),
            spec_flag(ts) == flag_from(ts.skip(i as int), found),
        decreases tags@.len() - i,
    {
        proof {
            assert(ts.skip(i as int)[0] == ts[i as int]);
            assert(ts.skip(i as int).skip(1) =~= ts.skip(i as int + 1));
        }
        if tags[i].kind == TagKind::MacroCtorFlag {
            if found {
                return Err(Diagnostic::DuplicateTag);
            }
            found = true;
        }
        i += 1;
    }
    proof {
        assert(ts.skip(i as int).len() == 0);
    }
    Ok(found)
}

/// Extracts the view names a field's directives bind it to.
pub fn tag_view_names(tags: &Vec<Tag>) -> (r: Result<Vec<Vec<u8>>, Diagnostic>)
    ensures
        match r {
            Ok(v) => spec_views(tags_view(tags@)) == Ok::<Seq<Seq<u8>>, SpecDiag>(names_view(v@)),
            Err(e) => spec_views(tags_view(tags@)) == Err::<Seq<Seq<u8>>, SpecDiag>(e@),
        },
{
    let ghost ts = tags_view(tags@);
    let mut acc: Vec<Vec<u8>> = Vec::new();
    let mut i: usize = 0;
    proof {
        assert(ts.skip(0) =~= ts);
        assert(names_view(acc@) =~= Seq::<Seq<u8>>::empty());
    }
    while i < tags.len()
        invariant
            i <= tags@.len(),
            ts == tags_view(tags@),
            spec_views(ts) == views_from(ts.skip(i as int), names_view(acc@)),
        decreases tags@.len() - i,
    {
        proof {
            assert(ts.skip(i as int)[0] == ts[i as int]);
            assert(ts.skip(i as int).skip(1) =~= ts.skip(i as int + 1));
        }
        let t = &tags[i];
        if t.kind == TagKind::FieldView {
            if t.args.len() != 1 {
                return Err(Diagnostic::MalformedTagArguments);
            }
            match &t.args[0] {
                TagArg::Ident(x) => {
                    proof {
                        assert(ts[i as int].args[0] == t.args@[0]@);
                    }
                    let ghost acc0 = names_view(acc@);
                    acc.push(copy_bytes(x));
                    proof {
                        assert(names_view(acc@) =~= acc0.push(x@));
                    }
                },
                TagArg::Opaque(_) => {
                    proof {
                        assert(ts[i as int].args[0] == t.args@[0]@);
                    }
                    return Err(Diagnostic::MalformedTagArguments);
                },
            }
        }
        i += 1;
    }
    proof {
        assert(ts.skip(i as int).len() == 0);
    }
    Ok(acc)
}

/// Extracts the container-level view declarations, in directive order.
pub fn tag_view_decls(tags: &Vec<Tag>) -> (r: Result<Vec<ViewBinding>, Diagnostic>)
    ensures
        match r {
            Ok(v) => spec_view_decls(tags_view(tags@)) == Ok::<Seq<SpecViewBinding>, SpecDiag>(
                bindings_view(v@),
            ),
            Err(e) => spec_view_decls(tags_view(tags@)) == Err::<Seq<SpecViewBinding>, SpecDiag>(
                e@,
            ),
        },
{
    let ghost ts = tags_view(tags@);
    let mut acc: Vec<ViewBinding> = Vec::new();
    let mut i: usize = 0;
    proof {
        assert(ts.skip(0) =~= ts);
        assert(bindings_view(acc@) =~= Seq::<SpecViewBinding>::empty());
    }
    while i < tags.len()
        invariant
            i <= tags@.len(),
            ts == tags_view(tags@),
            spec_view_decls(ts) == view_decls_from(ts.skip(i as int), bindings_view(acc@)),
        decreases tags@.len() - i,
    {
        proof {
            assert(ts.skip(i as int)[0] == ts[i as int]);
            assert(ts.skip(i as int).skip(1) =~= ts.skip(i as int + 1));
        }
        let t = &tags[i];
        if t.kind == TagKind::ViewDecl {
            if t.args.len() != 2 {
                return Err(Diagnostic::MalformedTagArguments);
            }
            proof {
                assert(ts[i as int].args[0] == t.args@[0]@);
                assert(ts[i as int].args[1] == t.args@[1]@);
            }
            let name = match &t.args[0] {
                TagArg::Ident(x) => copy_bytes(x),
                TagArg::Opaque(_) => {
                    return Err(Diagnostic::MalformedTagArguments);
                },
            };
            let ctor_name = match &t.args[1] {
                TagArg::Ident(x) => copy_bytes(x),
                TagArg::Opaque(_) => {
                    return Err(Diagnostic::MalformedTagArguments);
                },
            };
            let ghost acc0 = bindings_view(acc@);
            let ghost pushed = SpecViewBinding {
                name: name@,
                ctor_name: ctor_name@,
            };
            acc.push(ViewBinding { name, ctor_name });
            proof {
                assert(bindings_view(acc@) =~= acc0.push(pushed));
            }
        }
        i += 1;
    }
    proof {
        assert(ts.skip(i as int).len() == 0);
    }
    Ok(acc)
}

/// Collects a declaration's conditional-compilation directives, verbatim.
pub fn tag_cond_list(tags: &Vec<Tag>) -> (r: Vec<Tag>)
    ensures
        tags_view(r@) == spec_cond_tags(tags_view(tags@)),
{
    let ghost ts = tags_view(tags@);
    let mut acc: Vec<Tag> = Vec::new();
    let mut i: usize = 0;
    proof {
        assert(ts.take(0) =~= Seq::<SpecTag>::empty());
        assert(tags_view(acc@) =~= Seq::<SpecTag>::empty());
    }
    while i < tags.len()
        invariant
            i <= tags@.len(),
            ts == tags_view(tags@),
            tags_view(acc@) == spec_cond_tags(ts.take(i as int)),
        decreases tags@.len() - i,
    {
        proof {
            assert(ts.take(i + 1 as int).drop_last() =~= ts.take(i as int));
            assert(ts.take(i + 1 as int).last() == ts[i as int]);
        }
        if tags[i].kind == TagKind::Cond {
            let ghost acc0 = tags_view(acc@);
            acc.push(copy_tag(&tags[i]));
            proof {
                assert(tags_view(acc@) =~= acc0.push(ts[i as int]));
            }
        }
        i += 1;
    }
    proof {
        assert(ts.take(tags@.len() as int) =~= ts);
    }
    acc
}

} // verus!
