use vstd::prelude::*;

verus! {

/// The kind of a synthesis directive attached to a declaration or to the
/// container itself.
#[derive(Clone, Copy, PartialEq, Eq, Structural, Debug)]
pub enum TagKind {
    /// Marks a field declaration as a member of a named target aggregate.
    TargetField,
    /// Marks a field declaration as a member of a named view.
    FieldView,
    /// Marks an import declaration as re-exported by a named target aggregate.
    UseForTarget,
    /// Declares, at container level, a view together with its constructor name.
    ViewDecl,
    /// Selects, at container level, the named-constructor emission mode.
    MacroCtorFlag,
    /// A conditional-compilation predicate, carried through verbatim.
    Cond,
    /// Any other directive; ignored by the pipeline.
    Other,
}

/// One argument of a synthesis directive: either a bare identifier or an
/// opaque token blob that is not a bare identifier.
#[derive(Debug, PartialEq, Eq)]
pub enum TagArg {
    Ident(Vec<u8>),
    Opaque(Vec<u8>),
}

/// Mathematical model of a directive argument.
#[verifier::ext_equal]
pub enum SpecArg {
    Ident(Seq<u8>),
    Opaque(Seq<u8>),
}

impl View for TagArg {
    type V = SpecArg;

    open spec fn view(&self) -> SpecArg {
        match self {
            TagArg::Ident(s) => SpecArg::Ident(s@),
            TagArg::Opaque(s) => SpecArg::Opaque(s@),
        }
    }
}

/// A synthesis directive: its kind and its argument list.
#[derive(Debug, PartialEq, Eq)]
pub struct Tag {
    pub kind: TagKind,
    pub args: Vec<TagArg>,
}

/// Mathematical model of a directive.
#[verifier::ext_equal]
pub struct SpecTag {
    pub kind: TagKind,
    pub args: Seq<SpecArg>,
}

impl View for Tag {
    type V = SpecTag;

    open spec fn view(&self) -> SpecTag {
        SpecTag { kind: self.kind, args: self.args@.map_values(|a: TagArg| a@) }
    }
}

/// One syntactic unit of a declaration container. Identifiers, types,
/// expressions and import trees are carried as their token text, so that
/// structural equality is byte equality.
#[derive(Debug, PartialEq, Eq)]
pub enum Declaration {
    /// A field candidate: visibility, name, declared type, default-value
    /// expression, and its attached directives.
    Field { vis: Vec<u8>, name: Vec<u8>, ty: Vec<u8>, init: Vec<u8>, tags: Vec<Tag> },
    /// An import candidate: visibility, leading-qualifier flag, import-tree
    /// token text, and its attached directives.
    Import { vis: Vec<u8>, leading: bool, tree: Vec<u8>, tags: Vec<Tag> },
    /// A directive to splice another file's declarations in place; the path
    /// may carry `${NAME}` variable references and `$$` escapes.
    Splice { path: Vec<u8> },
    /// Anything else; passes through the scanner and is otherwise ignored.
    Other,
}

/// Mathematical model of a declaration.
#[verifier::ext_equal]
pub enum SpecDecl {
    Field { vis: Seq<u8>, name: Seq<u8>, ty: Seq<u8>, init: Seq<u8>, tags: Seq<SpecTag> },
    Import { vis: Seq<u8>, leading: bool, tree: Seq<u8>, tags: Seq<SpecTag> },
    Splice { path: Seq<u8> },
    Other,
}

impl View for Declaration {
    type V = SpecDecl;

    open spec fn view(&self) -> SpecDecl {
        match self {
            Declaration::Field { vis, name, ty, init, tags } => SpecDecl::Field {
                vis: vis@,
                name: name@,
                ty: ty@,
                init: init@,
                tags: tags@.map_values(|t: Tag| t@),
            },
            Declaration::Import { vis, leading, tree, tags } => SpecDecl::Import {
                vis: vis@,
                leading: *leading,
                tree: tree@,
                tags: tags@.map_values(|t: Tag| t@),
            },
            Declaration::Splice { path } => SpecDecl::Splice { path: path@ },
            Declaration::Other => SpecDecl::Other,
        }
    }
}

/// A fail-fast diagnostic; the pipeline stops at the first one raised.
#[derive(Debug, PartialEq, Eq)]
pub enum Diagnostic {
    /// The container was declared without a body to scan.
    MissingContainerBody,
    /// A directive that may appear at most once appears more than once on one
    /// declaration.
    DuplicateTag,
    /// A directive's argument list does not match its required shape.
    MalformedTagArguments,
    /// The named file could not be read.
    IoError(Vec<u8>),
    /// The named file's content is not a valid declaration list.
    ParseError(Vec<u8>),
    /// A `${NAME}` reference named a variable that is absent.
    UnresolvedVariable(Vec<u8>),
    /// A bare `$` was followed by neither `$` nor `{`.
    MalformedEscape,
    /// A `${` reference was not closed by `}`.
    UnmatchedBrace,
    /// A splice chain reached a file that is already being spliced.
    SpliceCycle,
}

/// Mathematical model of a diagnostic.
#[verifier::ext_equal]
pub enum SpecDiag {
    MissingContainerBody,
    DuplicateTag,
    MalformedTagArguments,
    IoError(Seq<u8>),
    ParseError(Seq<u8>),
    UnresolvedVariable(Seq<u8>),
    MalformedEscape,
    UnmatchedBrace,
    SpliceCycle,
}

impl View for Diagnostic {
    type V = SpecDiag;

    open spec fn view(&self) -> SpecDiag {
        match self {
            Diagnostic::MissingContainerBody => SpecDiag::MissingContainerBody,
            Diagnostic::DuplicateTag => SpecDiag::DuplicateTag,
            Diagnostic::MalformedTagArguments => SpecDiag::MalformedTagArguments,
            Diagnostic::IoError(p) => SpecDiag::IoError(p@),
            Diagnostic::ParseError(p) => SpecDiag::ParseError(p@),
            Diagnostic::UnresolvedVariable(n) => SpecDiag::UnresolvedVariable(n@),
            Diagnostic::MalformedEscape => SpecDiag::MalformedEscape,
            Diagnostic::UnmatchedBrace => SpecDiag::UnmatchedBrace,
            Diagnostic::SpliceCycle => SpecDiag::SpliceCycle,
        }
    }
}

/// One environment variable in the injected environment snapshot.
#[derive(Debug, PartialEq, Eq)]
pub struct EnvVar {
    pub name: Vec<u8>,
    pub value: Vec<u8>,
}

/// Mathematical model of an environment variable.
#[verifier::ext_equal]
pub struct SpecEnvVar {
    pub name: Seq<u8>,
    pub value: Seq<u8>,
}

impl View for EnvVar {
    type V = SpecEnvVar;

    open spec fn view(&self) -> SpecEnvVar {
        SpecEnvVar { name: self.name@, value: self.value@ }
    }
}

/// The environment snapshot the path expander consults; lookup returns the
/// first entry whose name matches.
#[derive(Debug, PartialEq, Eq)]
pub struct EnvSnapshot {
    pub vars: Vec<EnvVar>,
}

impl View for EnvSnapshot {
    type V = Seq<SpecEnvVar>;

    open spec fn view(&self) -> Seq<SpecEnvVar> {
        self.vars@.map_values(|v: EnvVar| v@)
    }
}

/// What the read-and-parse capability yields for one file.
#[derive(Debug, PartialEq, Eq)]
pub enum FileBody {
    /// The file was read and parsed into a declaration list.
    Parsed(Vec<Declaration>),
    /// The file was read but its content is not a valid declaration list.
    Unparsable,
}

/// Mathematical model of a file body.
#[verifier::ext_equal]
pub enum SpecFileBody {
    Parsed(Seq<SpecDecl>),
    Unparsable,
}

impl View for FileBody {
    type V = SpecFileBody;

    open spec fn view(&self) -> SpecFileBody {
        match self {
            FileBody::Parsed(ds) => SpecFileBody::Parsed(ds@.map_values(|d: Declaration| d@)),
            FileBody::Unparsable => SpecFileBody::Unparsable,
        }
    }
}

/// One file known to the read-and-parse capability, keyed by its expanded
/// path.
#[derive(Debug, PartialEq, Eq)]
pub struct FileEntry {
    pub path: Vec<u8>,
    pub body: FileBody,
}

/// Mathematical model of a file entry.
#[verifier::ext_equal]
pub struct SpecFileEntry {
    pub path: Seq<u8>,
    pub body: SpecFileBody,
}

impl View for FileEntry {
    type V = SpecFileEntry;

    open spec fn view(&self) -> SpecFileEntry {
        SpecFileEntry { path: self.path@, body: self.body@ }
    }
}

/// The injected read-and-parse capability: every file the scanner may splice,
/// already read and parsed. A path that is absent here could not be read.
#[derive(Debug, PartialEq, Eq)]
pub struct FileStore {
    pub entries: Vec<FileEntry>,
}

impl View for FileStore {
    type V = Seq<SpecFileEntry>;

    open spec fn view(&self) -> Seq<SpecFileEntry> {
        self.entries@.map_values(|e: FileEntry| e@)
    }
}

/// A view declared at container level: its name and the name of its
/// constructor.
#[derive(Debug, PartialEq, Eq)]
pub struct ViewBinding {
    pub name: Vec<u8>,
    pub ctor_name: Vec<u8>,
}

/// Mathematical model of a declared view.
#[verifier::ext_equal]
pub struct SpecViewBinding {
    pub name: Seq<u8>,
    pub ctor_name: Seq<u8>,
}

impl View for ViewBinding {
    type V = SpecViewBinding;

    open spec fn view(&self) -> SpecViewBinding {
        SpecViewBinding { name: self.name@, ctor_name: self.ctor_name@ }
    }
}

/// A field selected for the target aggregate: visibility, name, type,
/// default-value expression, the names of the views it belongs to (in
/// directive order), and its conditional-compilation directives, verbatim.
#[derive(Debug, PartialEq, Eq)]
pub struct CollectedField {
    pub vis: Vec<u8>,
    pub name: Vec<u8>,
    pub ty: Vec<u8>,
    pub init: Vec<u8>,
    pub views: Vec<Vec<u8>>,
    pub cfg: Vec<Tag>,
}

/// Mathematical model of a collected field.
#[verifier::ext_equal]
pub struct SpecField {
    pub vis: Seq<u8>,
    pub name: Seq<u8>,
    pub ty: Seq<u8>,
    pub init: Seq<u8>,
    pub views: Seq<Seq<u8>>,
    pub cfg: Seq<SpecTag>,
}

impl View for CollectedField {
    type V = SpecField;

    open spec fn view(&self) -> SpecField {
        SpecField {
            vis: self.vis@,
            name: self.name@,
            ty: self.ty@,
            init: self.init@,
            views: self.views@.map_values(|v: Vec<u8>| v@),
            cfg: self.cfg@.map_values(|t: Tag| t@),
        }
    }
}

/// An import selected for the target aggregate, deduplicated by the byte
/// equality of its import-tree token text.
#[derive(Debug, PartialEq, Eq)]
pub struct CollectedImport {
    pub vis: Vec<u8>,
    pub leading: bool,
    pub tree: Vec<u8>,
}

/// Mathematical model of a collected import.
#[verifier::ext_equal]
pub struct SpecImport {
    pub vis: Seq<u8>,
    pub leading: bool,
    pub tree: Seq<u8>,
}

impl View for CollectedImport {
    type V = SpecImport;

    open spec fn view(&self) -> SpecImport {
        SpecImport { vis: self.vis@, leading: self.leading, tree: self.tree@ }
    }
}

/// A named projection of the aggregate: the view name, its constructor name,
/// and the ordered fields that belong to it.
#[derive(Debug, PartialEq, Eq)]
pub struct ViewProjection {
    pub name: Vec<u8>,
    pub ctor_name: Vec<u8>,
    pub fields: Vec<CollectedField>,
}

/// Mathematical model of a view projection.
#[verifier::ext_equal]
pub struct SpecProjection {
    pub name: Seq<u8>,
    pub ctor_name: Seq<u8>,
    pub fields: Seq<SpecField>,
}

impl View for ViewProjection {
    type V = SpecProjection;

    open spec fn view(&self) -> SpecProjection {
        SpecProjection {
            name: self.name@,
            ctor_name: self.ctor_name@,
            fields: self.fields@.map_values(|f: CollectedField| f@),
        }
    }
}

/// How each view's constructor is emitted.
#[derive(Clone, Copy, PartialEq, Eq, Structural, Debug)]
pub enum CtorStyle {
    /// An anonymous, file-local constructor.
    MacroRules,
    /// A named constructor declared at the aggregate's scope.
    DeclMacro,
}

/// Everything emitted for one view: its projection type and the field names
/// its reborrow operation rebinds, in member order.
#[derive(Debug, PartialEq, Eq)]
pub struct ViewEmission {
    pub projection: ViewProjection,
    pub reborrow: Vec<Vec<u8>>,
}

/// Mathematical model of a view emission.
#[verifier::ext_equal]
pub struct SpecViewEmission {
    pub projection: SpecProjection,
    pub reborrow: Seq<Seq<u8>>,
}

impl View for ViewEmission {
    type V = SpecViewEmission;

    open spec fn view(&self) -> SpecViewEmission {
        SpecViewEmission {
            projection: self.projection@,
            reborrow: self.reborrow@.map_values(|n: Vec<u8>| n@),
        }
    }
}

/// The structured output of one synthesis pass: the aggregate's visibility
/// and name, its members in first-seen order (each member also carries the
/// default-construction expression evaluated in this same order), the
/// re-exported imports in collected order, the constructor emission style,
/// and one emission per declared view, in declaration order.
#[derive(Debug, PartialEq, Eq)]
pub struct SynthOutput {
    pub vis: Vec<u8>,
    pub name: Vec<u8>,
    pub fields: Vec<CollectedField>,
    pub imports: Vec<CollectedImport>,
    pub ctor_style: CtorStyle,
    pub views: Vec<ViewEmission>,
}

/// Mathematical model of the synthesis output.
#[verifier::ext_equal]
pub struct SpecOutput {
    pub vis: Seq<u8>,
    pub name: Seq<u8>,
    pub fields: Seq<SpecField>,
    pub imports: Seq<SpecImport>,
    pub ctor_style: CtorStyle,
    pub views: Seq<SpecViewEmission>,
}

impl View for SynthOutput {
    type V = SpecOutput;

    open spec fn view(&self) -> SpecOutput {
        SpecOutput {
            vis: self.vis@,
            name: self.name@,
            fields: self.fields@.map_values(|f: CollectedField| f@),
            imports: self.imports@.map_values(|i: CollectedImport| i@),
            ctor_style: self.ctor_style,
            views: self.views@.map_values(|v: ViewEmission| v@),
        }
    }
}

/// The views of a sequence of directives.
pub open spec fn tags_view(ts: Seq<Tag>) -> Seq<SpecTag> {
    ts.map_values(|t: Tag| t@)
}

/// The views of a sequence of declarations.
pub open spec fn decls_view(ds: Seq<Declaration>) -> Seq<SpecDecl> {
    ds.map_values(|d: Declaration| d@)
}

/// The views of a sequence of byte strings.
pub open spec fn names_view(ns: Seq<Vec<u8>>) -> Seq<Seq<u8>> {
    ns.map_values(|n: Vec<u8>| n@)
}

/// The views of a sequence of collected fields.
pub open spec fn fields_view(fs: Seq<CollectedField>) -> Seq<SpecField> {
    fs.map_values(|f: CollectedField| f@)
}

/// The views of a sequence of collected imports.
pub open spec fn imports_view(is: Seq<CollectedImport>) -> Seq<SpecImport> {
    is.map_values(|i: CollectedImport| i@)
}

/// The views of a sequence of declared views.
pub open spec fn bindings_view(bs: Seq<ViewBinding>) -> Seq<SpecViewBinding> {
    bs.map_values(|b: ViewBinding| b@)
}

/// Prepends an already-computed piece to the outcome of the rest of a
/// fail-fast computation over sequences.
pub open spec fn ok_concat<A, E>(p: Seq<A>, r: Result<Seq<A>, E>) -> Result<Seq<A>, E> {
    match r {
        Ok(t) => Ok(p + t),
        Err(e) => Err(e),
    }
}

/// The mathematical model of an executable `Result`: the view of whichever
/// side it holds.
pub open spec fn res_view<T: View, E: View>(r: Result<T, E>) -> Result<T::V, E::V> {
    match r {
        Ok(t) => Ok(t@),
        Err(e) => Err(e@),
    }
}

} // verus!
