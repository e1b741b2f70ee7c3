use crate::bytes::bytes_eq;
use crate::bytes::copy_bytes;
use crate::copy::copy_field;
use crate::model::CollectedField;
use crate::model::CollectedImport;
use crate::model::CtorStyle;
use crate::model::SpecField;
use crate::model::SpecImport;
use crate::model::SpecOutput;
use crate::model::SpecProjection;
use crate::model::SpecViewBinding;
use crate::model::SpecViewEmission;
use crate::model::SynthOutput;
use crate::model::ViewBinding;
use crate::model::ViewEmission;
use crate::model::ViewProjection;
use crate::model::bindings_view;
use crate::model::fields_view;
use crate::model::imports_view;
use crate::model::names_view;
use vstd::prelude::*;

verus! {

/// Whether a collected field belongs to the view of this name.
pub open spec fn in_view(f: SpecField, v: Seq<u8>) -> bool {
    f.views.contains(v)
}

/// The subsequence of collected fields that belong to the view of this name,
/// in collected order.
pub open spec fn view_fields(fields: Seq<SpecField>, v: Seq<u8>) -> Seq<SpecField>
    decreases fields.len(),
{
    if fields.len() == 0 {
        Seq::empty()
    } else {
        let rest = view_fields(fields.drop_last(), v);
        if in_view(fields.last(), v) {
            rest.push(fields.last())
        } else {
            rest
        }
    }
}

/// The projection a declared view yields from the collected fields.
pub open spec fn spec_projection(fields: Seq<SpecField>, b: SpecViewBinding) -> SpecProjection {
    SpecProjection { name: b.name, ctor_name: b.ctor_name, fields: view_fields(fields, b.name) }
}

/// Everything emitted for one declared view: its projection, and a reborrow
/// operation that rebinds exactly the projection's fields, in order.
pub open spec fn spec_view_emission(fields: Seq<SpecField>, b: SpecViewBinding) -> SpecViewEmission {
    SpecViewEmission {
        projection: spec_projection(fields, b),
        reborrow: view_fields(fields, b.name).map_values(|f: SpecField| f.name),
    }
}

/// The full structured output assembled from the pipeline's pieces.
pub open spec fn spec_emit(
    vis: Seq<u8>,
    name: Seq<u8>,
    fields: Seq<SpecField>,
    imports: Seq<SpecImport>,
    style: CtorStyle,
    bindings: Seq<SpecViewBinding>,
) -> SpecOutput {
    SpecOutput {
        vis,
        name,
        fields,
        imports,
        ctor_style: style,
        views: bindings.map_values(|b: SpecViewBinding| spec_view_emission(fields, b)),
    }
}

/// Tests whether a field's view memberships name this view.
pub fn field_in_view(f: &CollectedField, v: &Vec<u8>) -> (r: bool)
    ensures
        r == in_view(f@, v@),
{
    let mut j: usize = 0;
    while j < f.views.len()
        invariant
            j <= f.views@.len(),
            forall|k: int| 0 <= k < j ==> f@.views[k] != v@,
        decreases f.views@.len() - j,
    {
        if bytes_eq(&f.views[j], v) {
            proof {
                assert(f@.views[j as int] == v@);
            }
            return true;
        }
        j += 1;
    }
    proof {
        assert(!f@.views.contains(v@));
    }
    false
}

/// Computes one declared view's projection: the collected fields that belong
/// to it, in collected order.
pub fn project(fields: &Vec<CollectedField>, b: &ViewBinding) -> (r: ViewProjection)
    ensures
        r@ == spec_projection(fields_view(fields@), b@),
{
    let ghost fv = fields_view(fields@);
    let mut sel: Vec<CollectedField> = Vec::new();
    let mut i: usize = 0;
    proof {
        assert(fv.take(0) =~= Seq::<SpecField>::empty());
        assert(fields_view(sel@) =~= Seq::<SpecField>::empty());
    }
    while i < fields.len()
        invariant
            i <= fields@.len(),
            fv == fields_view(fields@),
            fields_view(sel@) == view_fields(fv.take(i as int), b@.name),
        decreases fields@.len() - i,
    {
        proof {
            assert(fv.take(i + 1 as int).drop_last() =~= fv.take(i as int));
            assert(fv.take(i + 1 as int).last() == fv[i as int]);
        }
        if field_in_view(&fields[i], &b.name) {
            let ghost s0 = fields_view(sel@);
            sel.push(copy_field(&fields[i]));
            proof {
                assert(fields_view(sel@) =~= s0.push(fv[i as int]));
            }
        }
        i += 1;
    }
    proof {
        assert(fv.take(fields@.len() as int) =~= fv);
    }
    let out = ViewProjection {
        name: copy_bytes(&b.name),
        ctor_name: copy_bytes(&b.ctor_name),
        fields: sel,
    };
    proof {
        assert(out@ =~= spec_projection(fv, b@));
    }
    out
}

/// Lists the field names a projection's reborrow operation rebinds: exactly
/// the projection's fields, in member order.
pub fn reborrow_names(p: &ViewProjection) -> (r: Vec<Vec<u8>>)
    ensures
        names_view(r@) == p@.fields.map_values(|f: SpecField| f.name),
{
    let mut out: Vec<Vec<u8>> = Vec::new();
    let mut i: usize = 0;
    while i < p.fields.len()
        invariant
            i <= p.fields@.len(),
            out@.len() == i,
            forall|k: int| 0 <= k < i ==> out@[k]@ == p@.fields[k].name,
        decreases p.fields@.len() - i,
    {
        out.push(copy_bytes(&p.fields[i].name));
        i += 1;
    }
    proof {
        assert(names_view(out@) =~= p@.fields.map_values(|f: SpecField| f.name));
    }
    out
}

/// Assembles the structured output: the aggregate's members and imports as
/// collected, the constructor emission style, and one emission per declared
/// view, in declaration order.
pub fn emit(
    vis: &Vec<u8>,
    name: &Vec<u8>,
    fields: Vec<CollectedField>,
    imports: Vec<CollectedImport>,
    style: CtorStyle,
    bindings: &Vec<ViewBinding>,
) -> (r: SynthOutput)
    ensures
        r@ == spec_emit(
            vis@,
            name@,
            fields_view(fields@),
            imports_view(imports@),
            style,
            bindings_view(bindings@),
        ),
{
    let ghost fv = fields_view(fields@);
    let mut views: Vec<ViewEmission> = Vec::new();
    let mut k: usize = 0;
    while k < bindings.len()
        invariant
            k <= bindings@.len(),
            fv == fields_view(fields@),
            views@.len() == k,
            forall|j: int| 0 <= j < k ==> views@[j]@ == spec_view_emission(
                fv,
                bindings_view(bindings@)[j],
            ),
        decreases bindings@.len() - k,
    {
        let proj = project(&fields, &bindings[k]);
        let reb = reborrow_names(&proj);
        views.push(ViewEmission { projection: proj, reborrow: reb });
        k += 1;
    }
    let out = SynthOutput {
        vis: copy_bytes(vis),
        name: copy_bytes(name),
        fields,
        imports,
        ctor_style: style,
        views,
    };
    proof {
        assert(out@.views =~= bindings_view(bindings@).map_values(
            |b: SpecViewBinding| spec_view_emission(fv, b),
        ));
        assert(out@ =~= spec_emit(
            vis@,
            name@,
            fv,
            imports_view(imports@),
            style,
            bindings_view(bindings@),
        ));
    }
    out
}

} // verus!
