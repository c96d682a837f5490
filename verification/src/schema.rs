//! The data model a compiler front-end emits for one compiled unit: crate
//! metadata, imports, declarations, references, macro invocation sites and
//! type/trait relations. All entities are plain value records; every
//! cross-entity relationship is an identifier value, never a pointer.

use vstd::prelude::*;

verus! {

/// The wire encoding a document is written in.
#[derive(Clone, Copy, Debug, PartialEq, Eq)]
pub enum Format {
    Csv,
    Json,
    JsonApi,
}

impl DeepView for Format {
    type V = Format;

    open spec fn deep_view(&self) -> Format {
        *self
    }
}

impl Format {
    /// The file extension for documents in this encoding: `.csv` for the
    /// comma-separated form, `.json` for both JSON-shaped forms.
    pub fn extension(&self) -> (r: &'static str)
        ensures
            *self is Csv ==> r@ == ".csv"@,
            !(*self is Csv) ==> r@ == ".json"@,
    {
        match *self {
            Format::Csv => ".csv",
            Format::Json | Format::JsonApi => ".json",
        }
    }
}

/// Identifies one declaration across the whole compiled program: a compiled
/// unit's slot plus an index local to that unit. Two identifiers are equal
/// exactly when both fields match; whether an identifier resolves to a
/// declaration is a per-document question (see [`Analysis::lookup_def`]).
#[derive(Clone, Copy, Debug, PartialEq, Eq)]
pub struct Id {
    pub krate: u32,
    pub index: u32,
}

impl DeepView for Id {
    type V = Id;

    open spec fn deep_view(&self) -> Id {
        *self
    }
}

/// Mathematical model of a [`SpanData`].
#[verifier::ext_equal]
pub struct SpanDataV {
    pub file_name: Seq<char>,
    pub byte_start: u32,
    pub byte_end: u32,
    pub line_start: u32,
    pub line_end: u32,
    pub column_start: u32,
    pub column_end: u32,
}

/// A source location: byte offsets plus one-based line and column
/// coordinates. The end never lies before the start; zero-length spans are
/// permitted (synthetic code).
#[derive(Clone, Debug, PartialEq, Eq)]
pub struct SpanData {
    pub file_name: String,
    pub byte_start: u32,
    pub byte_end: u32,
    pub line_start: u32,
    pub line_end: u32,
    pub column_start: u32,
    pub column_end: u32,
}

impl DeepView for SpanData {
    type V = SpanDataV;

    open spec fn deep_view(&self) -> SpanDataV {
        SpanDataV {
            file_name: self.file_name@,
            byte_start: self.byte_start,
            byte_end: self.byte_end,
            line_start: self.line_start,
            line_end: self.line_end,
            column_start: self.column_start,
            column_end: self.column_end,
        }
    }
}

impl SpanData {
    /// The end of a span does not lie before its start.
    pub open spec fn wf(&self) -> bool {
        self.byte_start <= self.byte_end
    }
}

/// Mathematical model of an [`ExternalCrateData`].
#[verifier::ext_equal]
pub struct ExternalCrateDataV {
    pub name: Seq<char>,
    pub num: u32,
    pub file_name: Seq<char>,
}

/// One external crate in a unit's prelude: its name, the numeric crate slot
/// use-sites refer to, and its root file.
#[derive(Clone, Debug, PartialEq, Eq)]
pub struct ExternalCrateData {
    pub name: String,
    pub num: u32,
    pub file_name: String,
}

impl DeepView for ExternalCrateData {
    type V = ExternalCrateDataV;

    open spec fn deep_view(&self) -> ExternalCrateDataV {
        ExternalCrateDataV { name: self.name@, num: self.num, file_name: self.file_name@ }
    }
}

/// Mathematical model of a [`CratePreludeData`].
#[verifier::ext_equal]
pub struct CratePreludeDataV {
    pub crate_name: Seq<char>,
    pub crate_root: Seq<char>,
    pub external_crates: Seq<ExternalCrateDataV>,
    pub span: SpanDataV,
}

/// Per-unit metadata: the unit's own name and root, and the table of the
/// external crates it depends on. One per document.
#[derive(Clone, Debug, PartialEq, Eq)]
pub struct CratePreludeData {
    pub crate_name: String,
    pub crate_root: String,
    pub external_crates: Vec<ExternalCrateData>,
    pub span: SpanData,
}

impl DeepView for CratePreludeData {
    type V = CratePreludeDataV;

    open spec fn deep_view(&self) -> CratePreludeDataV {
        CratePreludeDataV {
            crate_name: self.crate_name@,
            crate_root: self.crate_root@,
            external_crates: self.external_crates.deep_view(),
            span: self.span.deep_view(),
        }
    }
}

/// How an import was written.
#[derive(Clone, Copy, Debug, PartialEq, Eq)]
pub enum ImportKind {
    ExternCrate,
    Use,
    GlobUse,
}

impl DeepView for ImportKind {
    type V = ImportKind;

    open spec fn deep_view(&self) -> ImportKind {
        *self
    }
}

/// Mathematical model of an [`Import`].
#[verifier::ext_equal]
pub struct ImportV {
    pub kind: ImportKind,
    pub ref_id: Option<Id>,
    pub span: SpanDataV,
    pub name: Seq<char>,
    pub value: Seq<char>,
}

/// A use or extern-crate record. `ref_id` names the imported declaration and
/// is absent when the import is unresolved.
#[derive(Clone, Debug, PartialEq, Eq)]
pub struct Import {
    pub kind: ImportKind,
    pub ref_id: Option<Id>,
    pub span: SpanData,
    pub name: String,
    pub value: String,
}

impl DeepView for Import {
    type V = ImportV;

    open spec fn deep_view(&self) -> ImportV {
        ImportV {
            kind: self.kind,
            ref_id: self.ref_id,
            span: self.span.deep_view(),
            name: self.name@,
            value: self.value@,
        }
    }
}

/// What a declaration is; decides how its `value` field reads.
#[derive(Clone, Copy, Debug, PartialEq, Eq)]
pub enum DefKind {
    // value = variant names
    Enum,
    // value = enum name + variant name + types
    Tuple,
    // value = [enum name +] name + fields
    Struct,
    Union,
    // value = signature
    Trait,
    // value = type + generics
    Function,
    // value = type + generics
    Method,
    // No id, no value.
    Macro,
    // value = file_name
    Mod,
    // value = aliased type
    Type,
    // value = type and init expression (for all variable kinds).
    Local,
    Static,
    Const,
    Field,
}

impl DeepView for DefKind {
    type V = DefKind;

    open spec fn deep_view(&self) -> DefKind {
        *self
    }
}

/// Mathematical model of an [`Attribute`].
#[verifier::ext_equal]
pub struct AttributeV {
    pub value: Seq<char>,
    pub span: SpanDataV,
}

/// One attribute on a declaration: its rendered text and where it stands.
#[derive(Clone, Debug, PartialEq, Eq)]
pub struct Attribute {
    pub value: String,
    pub span: SpanData,
}

impl DeepView for Attribute {
    type V = AttributeV;

    open spec fn deep_view(&self) -> AttributeV {
        AttributeV { value: self.value@, span: self.span.deep_view() }
    }
}

/// An element of a rendered signature: a declaration or reference covering
/// `text[start..end]` of the owning [`Signature`].
#[derive(Clone, Copy, Debug, PartialEq, Eq)]
pub struct SigElement {
    pub id: Id,
    pub start: usize,
    pub end: usize,
}

impl DeepView for SigElement {
    type V = SigElement;

    open spec fn deep_view(&self) -> SigElement {
        *self
    }
}

/// Mathematical model of a [`Signature`].
#[verifier::ext_equal]
pub struct SignatureV {
    pub span: SpanDataV,
    pub text: Seq<char>,
    pub ident_start: usize,
    pub ident_end: usize,
    pub defs: Seq<SigElement>,
    pub refs: Seq<SigElement>,
}

/// A declaration's rendered header, with byte offsets locating the declared
/// name and the names declared or referenced within it.
#[derive(Clone, Debug, PartialEq, Eq)]
pub struct Signature {
    pub span: SpanData,
    pub text: String,
    pub ident_start: usize,
    pub ident_end: usize,
    pub defs: Vec<SigElement>,
    pub refs: Vec<SigElement>,
}

impl DeepView for Signature {
    type V = SignatureV;

    open spec fn deep_view(&self) -> SignatureV {
        SignatureV {
            span: self.span.deep_view(),
            text: self.text@,
            ident_start: self.ident_start,
            ident_end: self.ident_end,
            defs: self.defs.deep_view(),
            refs: self.refs.deep_view(),
        }
    }
}

/// Mathematical model of a [`Def`].
#[verifier::ext_equal]
pub struct DefV {
    pub kind: DefKind,
    pub id: Id,
    pub span: SpanDataV,
    pub name: Seq<char>,
    pub qualname: Seq<char>,
    pub value: Seq<char>,
    pub parent: Option<Id>,
    pub children: Seq<Id>,
    pub decl_id: Option<Id>,
    pub docs: Seq<char>,
    pub sig: Option<SignatureV>,
    pub attributes: Seq<AttributeV>,
}

/// One declaration. `parent` and `children` express containment both ways
/// (a producer obligation, see [`parent_child_consistent`]); `decl_id` links
/// a forward declaration, such as a trait method, to its implementation.
#[derive(Clone, Debug, PartialEq, Eq)]
pub struct Def {
    pub kind: DefKind,
    pub id: Id,
    pub span: SpanData,
    pub name: String,
    pub qualname: String,
    pub value: String,
    pub parent: Option<Id>,
    pub children: Vec<Id>,
    pub decl_id: Option<Id>,
    pub docs: String,
    pub sig: Option<Signature>,
    pub attributes: Vec<Attribute>,
}

impl DeepView for Def {
    type V = DefV;

    open spec fn deep_view(&self) -> DefV {
        DefV {
            kind: self.kind,
            id: self.id,
            span: self.span.deep_view(),
            name: self.name@,
            qualname: self.qualname@,
            value: self.value@,
            parent: self.parent,
            children: self.children.deep_view(),
            decl_id: self.decl_id,
            docs: self.docs@,
            sig: self.sig.deep_view(),
            attributes: self.attributes.deep_view(),
        }
    }
}

/// What a use-site refers to.
#[derive(Clone, Copy, Debug, PartialEq, Eq)]
pub enum RefKind {
    Function,
    Mod,
    Type,
    Variable,
}

impl DeepView for RefKind {
    type V = RefKind;

    open spec fn deep_view(&self) -> RefKind {
        *self
    }
}

/// Mathematical model of a [`Ref`].
#[verifier::ext_equal]
pub struct RefV {
    pub kind: RefKind,
    pub span: SpanDataV,
    pub ref_id: Id,
}

/// A use-site: where an identifier is used and which declaration it names.
/// The named declaration may live in another unit's document.
#[derive(Clone, Debug, PartialEq, Eq)]
pub struct Ref {
    pub kind: RefKind,
    pub span: SpanData,
    pub ref_id: Id,
}

impl DeepView for Ref {
    type V = RefV;

    open spec fn deep_view(&self) -> RefV {
        RefV { kind: self.kind, span: self.span.deep_view(), ref_id: self.ref_id }
    }
}

/// Mathematical model of a [`MacroRef`].
#[verifier::ext_equal]
pub struct MacroRefV {
    pub span: SpanDataV,
    pub qualname: Seq<char>,
    pub callee_span: SpanDataV,
}

/// A macro invocation site, with the definition site of the invoked macro.
#[derive(Clone, Debug, PartialEq, Eq)]
pub struct MacroRef {
    pub span: SpanData,
    pub qualname: String,
    pub callee_span: SpanData,
}

impl DeepView for MacroRef {
    type V = MacroRefV;

    open spec fn deep_view(&self) -> MacroRefV {
        MacroRefV {
            span: self.span.deep_view(),
            qualname: self.qualname@,
            callee_span: self.callee_span.deep_view(),
        }
    }
}

/// The kind of a directed edge between two declarations.
#[derive(Clone, Copy, Debug, PartialEq, Eq)]
pub enum RelationKind {
    Impl,
    SuperTrait,
}

impl DeepView for RelationKind {
    type V = RelationKind;

    open spec fn deep_view(&self) -> RelationKind {
        *self
    }
}

/// Mathematical model of a [`Relation`].
#[verifier::ext_equal]
pub struct RelationV {
    pub span: SpanDataV,
    pub kind: RelationKind,
    pub from: Id,
    pub to: Id,
}

/// A directed structural edge between two declarations: a type implementing
/// a trait, or a trait extending another.
#[derive(Clone, Debug, PartialEq, Eq)]
pub struct Relation {
    pub span: SpanData,
    pub kind: RelationKind,
    pub from: Id,
    pub to: Id,
}

impl DeepView for Relation {
    type V = RelationV;

    open spec fn deep_view(&self) -> RelationV {
        RelationV { span: self.span.deep_view(), kind: self.kind, from: self.from, to: self.to }
    }
}

/// Mathematical model of an [`Analysis`].
#[verifier::ext_equal]
pub struct AnalysisV {
    pub kind: Format,
    pub prelude: Option<CratePreludeDataV>,
    pub imports: Seq<ImportV>,
    pub defs: Seq<DefV>,
    pub refs: Seq<RefV>,
    pub macro_refs: Seq<MacroRefV>,
    pub relations: Seq<RelationV>,
}

/// The aggregate root: everything recorded for one compiled unit, plus the
/// wire-encoding discriminator. Constructed empty, populated by a producer,
/// then serialized once; insertion order of the sequences is preserved.
#[derive(Clone, Debug, PartialEq, Eq)]
pub struct Analysis {
    pub kind: Format,
    pub prelude: Option<CratePreludeData>,
    pub imports: Vec<Import>,
    pub defs: Vec<Def>,
    pub refs: Vec<Ref>,
    pub macro_refs: Vec<MacroRef>,
    pub relations: Vec<Relation>,
}

impl DeepView for Analysis {
    type V = AnalysisV;

    open spec fn deep_view(&self) -> AnalysisV {
        AnalysisV {
            kind: self.kind,
            prelude: self.prelude.deep_view(),
            imports: self.imports.deep_view(),
            defs: self.defs.deep_view(),
            refs: self.refs.deep_view(),
            macro_refs: self.macro_refs.deep_view(),
            relations: self.relations.deep_view(),
        }
    }
}

/// Containment is recorded in both directions: a declaration that names a
/// parent appears among that parent's children, and each recorded child
/// names its parent back. A producer must uphold this; a consumer treats a
/// violation as an unresolved link, never as a decode failure.
pub open spec fn parent_child_consistent(a: AnalysisV) -> bool {
    &&& forall|c: int|
        0 <= c < a.defs.len() && a.defs[c].parent is Some ==> exists|p: int|
            0 <= p < a.defs.len() && a.defs[p].id == a.defs[c].parent->0
                && #[trigger] a.defs[p].children.contains(a.defs[c].id)
    &&& forall|p: int, k: int|
        0 <= p < a.defs.len() && 0 <= k < a.defs[p].children.len() ==> exists|c: int|
            0 <= c < a.defs.len() && a.defs[c].id == #[trigger] a.defs[p].children[k]
                && a.defs[c].parent == Some(a.defs[p].id)
}

impl Analysis {
    /// A fresh, empty document: JSON encoding, no prelude, no records.
    pub fn new() -> (a: Analysis)
        ensures
            a.kind == Format::Json,
            a.prelude is None,
            a.imports@.len() == 0,
            a.defs@.len() == 0,
            a.refs@.len() == 0,
            a.macro_refs@.len() == 0,
            a.relations@.len() == 0,
    {
        Analysis {
            kind: Format::Json,
            prelude: None,
            imports: Vec::new(),
            defs: Vec::new(),
            refs: Vec::new(),
            macro_refs: Vec::new(),
            relations: Vec::new(),
        }
    }

    /// Finds the first declaration in this document that an identifier
    /// resolves to, or nothing: an identifier may legitimately point into
    /// another unit's document, and a dangling one is not an error.
    pub fn lookup_def(&self, id: Id) -> (r: Option<&Def>)
        ensures
            match r {
                Some(d) => exists|k: int|
                    0 <= k < self.defs@.len() && #[trigger] self.defs@[k].id == id && *d
                        == self.defs@[k],
                None => forall|k: int| 0 <= k < self.defs@.len() ==> self.defs@[k].id != id,
            },
    {
        let mut k: usize = 0;
        while k < self.defs.len()
            invariant
                0 <= k <= self.defs@.len(),
                forall|m: int| 0 <= m < k ==> self.defs@[m].id != id,
            decreases self.defs@.len() - k,
        {
            let d = &self.defs[k];
            if d.id.krate == id.krate && d.id.index == id.index {
                return Some(d);
            }
            k = k + 1;
        }
        None
    }
}

} // verus!

