use crate::bytes::copy_bytes;
use crate::model::CollectedField;
use crate::model::Declaration;
use crate::model::Tag;
use crate::model::TagArg;
use crate::model::names_view;
use crate::model::tags_view;
use vstd::prelude::*;

verus! {

/// Returns a copy of a directive argument.
pub fn copy_arg(a: &TagArg) -> (r: TagArg)
    ensures
        r@ == a@,
{
    match a {
        TagArg::Ident(x) => TagArg::Ident(copy_bytes(x)),
        TagArg::Opaque(x) => TagArg::Opaque(copy_bytes(x)),
    }
}

/// Returns a copy of a directive.
pub fn copy_tag(t: &Tag) -> (r: Tag)
    ensures
        r@ == t@,
{
    let mut args: Vec<TagArg> = Vec::new();
    let mut k: usize = 0;
    while k < t.args.len()
        invariant
            k <= t.args@.len(),
            args@.len() == k,
            forall|j: int| 0 <= j < k ==> args@[j]@ == t.args@[j]@,
        decreases t.args@.len() - k,
    {
        args.push(copy_arg(&t.args[k]));
        k += 1;
    }
    let out = Tag { kind: t.kind, args };
    proof {
        assert(out@.args =~= t@.args);
        assert(out@ =~= t@);
    }
    out
}

/// Returns a copy of a directive list.
pub fn copy_tags(ts: &Vec<Tag>) -> (r: Vec<Tag>)
    ensures
        tags_view(r@) == tags_view(ts@),
{
    let mut out: Vec<Tag> = Vec::new();
    let mut k: usize = 0;
    while k < ts.len()
        invariant
            k <= ts@.len(),
            out@.len() == k,
            forall|j: int| 0 <= j < k ==> out@[j]@ == ts@[j]@,
        decreases ts@.len() - k,
    {
        out.push(copy_tag(&ts[k]));
        k += 1;
    }
    proof {
        assert(tags_view(out@) =~= tags_view(ts@));
    }
    out
}

/// Returns a copy of a list of byte strings.
pub fn copy_names(ns: &Vec<Vec<u8>>) -> (r: Vec<Vec<u8>>)
    ensures
        names_view(r@) == names_view(ns@),
{
    let mut out: Vec<Vec<u8>> = Vec::new();
    let mut k: usize = 0;
    while k < ns.len()
        invariant
            k <= ns@.len(),
            out@.len() == k,
            forall|j: int| 0 <= j < k ==> out@[j]@ == ns@[j]@,
        decreases ns@.len() - k,
    {
        out.push(copy_bytes(&ns[k]));
        k += 1;
    }
    proof {
        assert(names_view(out@) =~= names_view(ns@));
    }
    out
}

/// Returns a copy of a declaration.
pub fn copy_decl(d: &Declaration) -> (r: Declaration)
    ensures
        r@ == d@,
{
    match d {
        Declaration::Field { vis, name, ty, init, tags } => {
            let out = Declaration::Field {
                vis: copy_bytes(vis),
                name: copy_bytes(name),
                ty: copy_bytes(ty),
                init: copy_bytes(init),
                tags: copy_tags(tags),
            };
            proof {
                assert(out@ =~= d@);
            }
            out
        },
        Declaration::Import { vis, leading, tree, tags } => {
            let out = Declaration::Import {
                vis: copy_bytes(vis),
                leading: *leading,
                tree: copy_bytes(tree),
                tags: copy_tags(tags),
            };
            proof {
                assert(out@ =~= d@);
            }
            out
        },
        Declaration::Splice { path } => Declaration::Splice { path: copy_bytes(path) },
        Declaration::Other => Declaration::Other,
    }
}

/// Returns a copy of a collected field.
pub fn copy_field(f: &CollectedField) -> (r: CollectedField)
    ensures
        r@ == f@,
{
    let out = CollectedField {
        vis: copy_bytes(&f.vis),
        name: copy_bytes(&f.name),
        ty: copy_bytes(&f.ty),
        init: copy_bytes(&f.init),
        views: copy_names(&f.views),
        cfg: copy_tags(&f.cfg),
    };
    proof {
        assert(out@ =~= f@);
    }
    out
}

} // verus!
