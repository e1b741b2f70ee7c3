use crate::collect::collect;
use crate::collect::spec_collect;
use crate::emit::emit;
use crate::emit::spec_emit;
use crate::model::CtorStyle;
use crate::model::Declaration;
use crate::model::Diagnostic;
use crate::model::EnvSnapshot;
use crate::model::FileStore;
use crate::model::SpecDecl;
use crate::model::SpecDiag;
use crate::model::SpecEnvVar;
use crate::model::SpecFileEntry;
use crate::model::SpecOutput;
use crate::model::SpecTag;
use crate::model::SynthOutput;
use crate::model::Tag;
use crate::model::decls_view;
use crate::model::tags_view;
use crate::scan::scan;
use crate::scan::spec_scan;
use crate::tags::spec_flag;
use crate::tags::spec_view_decls;
use crate::tags::tag_flag;
use crate::tags::tag_view_decls;
use vstd::prelude::*;

verus! {

/// The constructor emission style the container-level flag selects.
pub open spec fn spec_style(flag: bool) -> CtorStyle {
    if flag {
        CtorStyle::DeclMacro
    } else {
        CtorStyle::MacroRules
    }
}

/// The mathematical model of an optional container body.
pub open spec fn content_view(c: Option<Vec<Declaration>>) -> Option<Seq<SpecDecl>> {
    match c {
        Some(ds) => Some(decls_view(ds@)),
        None => None,
    }
}

/// One whole synthesis pass: a container without a body is rejected, then the
/// container's directives settle the emission style and the declared views,
/// the scanner flattens the body, the collector selects the target's fields
/// and imports, and the emitter assembles the structured output. The first
/// diagnostic any stage raises is the result; no partial output exists.
pub open spec fn spec_synthesize(
    vis: Seq<u8>,
    name: Seq<u8>,
    tags: Seq<SpecTag>,
    content: Option<Seq<SpecDecl>>,
    fs: Seq<SpecFileEntry>,
    env: Seq<SpecEnvVar>,
) -> Result<SpecOutput, SpecDiag> {
    match content {
        None => Err(SpecDiag::MissingContainerBody),
        Some(ds) => match spec_flag(tags) {
            Err(e) => Err(e),
            Ok(flag) => match spec_view_decls(tags) {
                Err(e) => Err(e),
                Ok(bindings) => match spec_scan(ds, fs, env) {
                    Err(e) => Err(e),
                    Ok(flat) => match spec_collect(name, flat) {
                        Err(e) => Err(e),
                        Ok(fi) => Ok(spec_emit(vis, name, fi.0, fi.1, spec_style(flag), bindings)),
                    },
                },
            },
        },
    }
}

/// Runs one synthesis pass over a container: its visibility, its name (the
/// target), its container-level directives, its body, and the injected file
/// and environment capabilities.
pub fn synthesize(
    vis: &Vec<u8>,
    name: &Vec<u8>,
    tags: &Vec<Tag>,
    content: &Option<Vec<Declaration>>,
    fs: &FileStore,
    env: &EnvSnapshot,
) -> (r: Result<SynthOutput, Diagnostic>)
    ensures
        match r {
            Ok(out) => spec_synthesize(
                vis@,
                name@,
                tags_view(tags@),
                match content { Some(ds) => Some(decls_view(ds@)), None => None },
                fs@,
                env@,
            ) == Ok::<SpecOutput, SpecDiag>(out@),
            Err(e) => spec_synthesize(
                vis@,
                name@,
                tags_view(tags@),
                match content { Some(ds) => Some(decls_view(ds@)), None => None },
                fs@,
                env@,
            ) == Err::<SpecOutput, SpecDiag>(e@),
        },
{
    let ds = match content {
        None => {
            return Err(Diagnostic::MissingContainerBody);
        },
        Some(ds) => ds,
    };
    let flag = match tag_flag(tags) {
        Err(e) => {
            return Err(e);
        },
        Ok(f) => f,
    };
    let bindings = match tag_view_decls(tags) {
        Err(e) => {
            return Err(e);
        },
        Ok(b) => b,
    };
    let flat = match scan(ds, fs, env) {
        Err(e) => {
            return Err(e);
        },
        Ok(f) => f,
    };
    let collected = match collect(name, &flat) {
        Err(e) => {
            return Err(e);
        },
        Ok(p) => p,
    };
    let (fields, imports) = collected;
    let style = if flag {
        CtorStyle::DeclMacro
    } else {
        CtorStyle::MacroRules
    };
    Ok(emit(vis, name, fields, imports, style, &bindings))
}

} // verus!
