//! The document's JSON shape: how each schema entity maps onto a document
//! tree, how a tree is read back, and the proof that reading inverts
//! writing. Struct fields become object members keyed by field name, in
//! declaration order; enumerations become their variant's name; an absent
//! optional field is an explicit `null`, never an omitted key.

use crate::json::{print_json, JsonV};
use crate::parse::parse_document;
use crate::schema::{
    AnalysisV, AttributeV, CratePreludeDataV, DefKind, DefV, ExternalCrateDataV, Format, Id,
    ImportKind, ImportV, MacroRefV, RefKind, RefV, RelationKind, RelationV, SigElement, SignatureV,
    SpanDataV,
};
use vstd::prelude::*;

verus! {

// ---------------------------------------------------------------------
// schema value -> document tree
// ---------------------------------------------------------------------
pub open spec fn format_jv(x: Format) -> JsonV {
    match x {
        Format::Csv => JsonV::Str("Csv"@),
        Format::Json => JsonV::Str("Json"@),
        Format::JsonApi => JsonV::Str("JsonApi"@),
    }
}

pub open spec fn import_kind_jv(x: ImportKind) -> JsonV {
    match x {
        ImportKind::ExternCrate => JsonV::Str("ExternCrate"@),
        ImportKind::Use => JsonV::Str("Use"@),
        ImportKind::GlobUse => JsonV::Str("GlobUse"@),
    }
}

pub open spec fn def_kind_jv(x: DefKind) -> JsonV {
    match x {
        DefKind::Enum => JsonV::Str("Enum"@),
        DefKind::Tuple => JsonV::Str("Tuple"@),
        DefKind::Struct => JsonV::Str("Struct"@),
        DefKind::Union => JsonV::Str("Union"@),
        DefKind::Trait => JsonV::Str("Trait"@),
        DefKind::Function => JsonV::Str("Function"@),
        DefKind::Method => JsonV::Str("Method"@),
        DefKind::Macro => JsonV::Str("Macro"@),
        DefKind::Mod => JsonV::Str("Mod"@),
        DefKind::Type => JsonV::Str("Type"@),
        DefKind::Local => JsonV::Str("Local"@),
        DefKind::Static => JsonV::Str("Static"@),
        DefKind::Const => JsonV::Str("Const"@),
        DefKind::Field => JsonV::Str("Field"@),
    }
}

pub open spec fn ref_kind_jv(x: RefKind) -> JsonV {
    match x {
        RefKind::Function => JsonV::Str("Function"@),
        RefKind::Mod => JsonV::Str("Mod"@),
        RefKind::Type => JsonV::Str("Type"@),
        RefKind::Variable => JsonV::Str("Variable"@),
    }
}

pub open spec fn relation_kind_jv(x: RelationKind) -> JsonV {
    match x {
        RelationKind::Impl => JsonV::Str("Impl"@),
        RelationKind::SuperTrait => JsonV::Str("SuperTrait"@),
    }
}

pub open spec fn id_jv(x: Id) -> JsonV {
    JsonV::Obj(
        seq![
            ("krate"@, JsonV::Num(x.krate as u64)),
            ("index"@, JsonV::Num(x.index as u64)),
        ],
    )
}

pub open spec fn opt_id_jv(x: Option<Id>) -> JsonV {
    match x {
        Some(i) => id_jv(i),
        None => JsonV::Null,
    }
}

pub open spec fn span_jv(x: SpanDataV) -> JsonV {
    JsonV::Obj(
        seq![
            ("file_name"@, JsonV::Str(x.file_name)),
            ("byte_start"@, JsonV::Num(x.byte_start as u64)),
            ("byte_end"@, JsonV::Num(x.byte_end as u64)),
            ("line_start"@, JsonV::Num(x.line_start as u64)),
            ("line_end"@, JsonV::Num(x.line_end as u64)),
            ("column_start"@, JsonV::Num(x.column_start as u64)),
            ("column_end"@, JsonV::Num(x.column_end as u64)),
        ],
    )
}

pub open spec fn external_crate_jv(x: ExternalCrateDataV) -> JsonV {
    JsonV::Obj(
        seq![
            ("name"@, JsonV::Str(x.name)),
            ("num"@, JsonV::Num(x.num as u64)),
            ("file_name"@, JsonV::Str(x.file_name)),
        ],
    )
}

pub open spec fn prelude_jv(x: CratePreludeDataV) -> JsonV {
    JsonV::Obj(
        seq![
            ("crate_name"@, JsonV::Str(x.crate_name)),
            ("crate_root"@, JsonV::Str(x.crate_root)),
            (
                "external_crates"@,
                JsonV::Arr(x.external_crates.map_values(|e: ExternalCrateDataV| external_crate_jv(e))),
            ),
            ("span"@, span_jv(x.span)),
        ],
    )
}

pub open spec fn opt_prelude_jv(x: Option<CratePreludeDataV>) -> JsonV {
    match x {
        Some(p) => prelude_jv(p),
        None => JsonV::Null,
    }
}

pub open spec fn import_jv(x: ImportV) -> JsonV {
    JsonV::Obj(
        seq![
            ("kind"@, import_kind_jv(x.kind)),
            ("ref_id"@, opt_id_jv(x.ref_id)),
            ("span"@, span_jv(x.span)),
            ("name"@, JsonV::Str(x.name)),
            ("value"@, JsonV::Str(x.value)),
        ],
    )
}

pub open spec fn attribute_jv(x: AttributeV) -> JsonV {
    JsonV::Obj(seq![("value"@, JsonV::Str(x.value)), ("span"@, span_jv(x.span))])
}

pub open spec fn sig_element_jv(x: SigElement) -> JsonV {
    JsonV::Obj(
        seq![
            ("id"@, id_jv(x.id)),
            ("start"@, JsonV::Num(x.start as u64)),
            ("end"@, JsonV::Num(x.end as u64)),
        ],
    )
}

pub open spec fn signature_jv(x: SignatureV) -> JsonV {
    JsonV::Obj(
        seq![
            ("span"@, span_jv(x.span)),
            ("text"@, JsonV::Str(x.text)),
            ("ident_start"@, JsonV::Num(x.ident_start as u64)),
            ("ident_end"@, JsonV::Num(x.ident_end as u64)),
            ("defs"@, JsonV::Arr(x.defs.map_values(|e: SigElement| sig_element_jv(e)))),
            ("refs"@, JsonV::Arr(x.refs.map_values(|e: SigElement| sig_element_jv(e)))),
        ],
    )
}

pub open spec fn opt_signature_jv(x: Option<SignatureV>) -> JsonV {
    match x {
        Some(g) => signature_jv(g),
        None => JsonV::Null,
    }
}

pub open spec fn def_jv(x: DefV) -> JsonV {
    JsonV::Obj(
        seq![
            ("kind"@, def_kind_jv(x.kind)),
            ("id"@, id_jv(x.id)),
            ("span"@, span_jv(x.span)),
            ("name"@, JsonV::Str(x.name)),
            ("qualname"@, JsonV::Str(x.qualname)),
            ("value"@, JsonV::Str(x.value)),
            ("parent"@, opt_id_jv(x.parent)),
            ("children"@, JsonV::Arr(x.children.map_values(|e: Id| id_jv(e)))),
            ("decl_id"@, opt_id_jv(x.decl_id)),
            ("docs"@, JsonV::Str(x.docs)),
            ("sig"@, opt_signature_jv(x.sig)),
            ("attributes"@, JsonV::Arr(x.attributes.map_values(|e: AttributeV| attribute_jv(e)))),
        ],
    )
}

pub open spec fn ref_jv(x: RefV) -> JsonV {
    JsonV::Obj(
        seq![
            ("kind"@, ref_kind_jv(x.kind)),
            ("span"@, span_jv(x.span)),
            ("ref_id"@, id_jv(x.ref_id)),
        ],
    )
}

pub open spec fn macro_ref_jv(x: MacroRefV) -> JsonV {
    JsonV::Obj(
        seq![
            ("span"@, span_jv(x.span)),
            ("qualname"@, JsonV::Str(x.qualname)),
            ("callee_span"@, span_jv(x.callee_span)),
        ],
    )
}

pub open spec fn relation_jv(x: RelationV) -> JsonV {
    JsonV::Obj(
        seq![
            ("span"@, span_jv(x.span)),
            ("kind"@, relation_kind_jv(x.kind)),
            ("from"@, id_jv(x.from)),
            ("to"@, id_jv(x.to)),
        ],
    )
}

pub open spec fn analysis_jv(x: AnalysisV) -> JsonV {
    JsonV::Obj(
        seq![
            ("kind"@, format_jv(x.kind)),
            ("prelude"@, opt_prelude_jv(x.prelude)),
            ("imports"@, JsonV::Arr(x.imports.map_values(|e: ImportV| import_jv(e)))),
            ("defs"@, JsonV::Arr(x.defs.map_values(|e: DefV| def_jv(e)))),
            ("refs"@, JsonV::Arr(x.refs.map_values(|e: RefV| ref_jv(e)))),
            ("macro_refs"@, JsonV::Arr(x.macro_refs.map_values(|e: MacroRefV| macro_ref_jv(e)))),
            ("relations"@, JsonV::Arr(x.relations.map_values(|e: RelationV| relation_jv(e)))),
        ],
    )
}

// ---------------------------------------------------------------------
// document tree -> schema value
// ---------------------------------------------------------------------
pub open spec fn jv_str(j: JsonV) -> Option<Seq<char>> {
    match j {
        JsonV::Str(t) => Some(t),
        _ => None,
    }
}

pub open spec fn jv_u32(j: JsonV) -> Option<u32> {
    match j {
        JsonV::Num(n) => if n <= u32::MAX {
            Some(n as u32)
        } else {
            None
        },
        _ => None,
    }
}

pub open spec fn jv_usize(j: JsonV) -> Option<usize> {
    match j {
        JsonV::Num(n) => if n <= usize::MAX {
            Some(n as usize)
        } else {
            None
        },
        _ => None,
    }
}

pub open spec fn jv_format(j: JsonV) -> Option<Format> {
    if j == JsonV::Str("Csv"@) {
        Some(Format::Csv)
    } else if j == JsonV::Str("Json"@) {
        Some(Format::Json)
    } else if j == JsonV::Str("JsonApi"@) {
        Some(Format::JsonApi)
    } else {
        None
    }
}

pub open spec fn jv_import_kind(j: JsonV) -> Option<ImportKind> {
    if j == JsonV::Str("ExternCrate"@) {
        Some(ImportKind::ExternCrate)
    } else if j == JsonV::Str("Use"@) {
        Some(ImportKind::Use)
    } else if j == JsonV::Str("GlobUse"@) {
        Some(ImportKind::GlobUse)
    } else {
        None
    }
}

pub open spec fn jv_def_kind(j: JsonV) -> Option<DefKind> {
    if j == JsonV::Str("Enum"@) {
        Some(DefKind::Enum)
    } else if j == JsonV::Str("Tuple"@) {
        Some(DefKind::Tuple)
    } else if j == JsonV::Str("Struct"@) {
        Some(DefKind::Struct)
    } else if j == JsonV::Str("Union"@) {
        Some(DefKind::Union)
    } else if j == JsonV::Str("Trait"@) {
        Some(DefKind::Trait)
    } else if j == JsonV::Str("Function"@) {
        Some(DefKind::Function)
    } else if j == JsonV::Str("Method"@) {
        Some(DefKind::Method)
    } else if j == JsonV::Str("Macro"@) {
        Some(DefKind::Macro)
    } else if j == JsonV::Str("Mod"@) {
        Some(DefKind::Mod)
    } else if j == JsonV::Str("Type"@) {
        Some(DefKind::Type)
    } else if j == JsonV::Str("Local"@) {
        Some(DefKind::Local)
    } else if j == JsonV::Str("Static"@) {
        Some(DefKind::Static)
    } else if j == JsonV::Str("Const"@) {
        Some(DefKind::Const)
    } else if j == JsonV::Str("Field"@) {
        Some(DefKind::Field)
    } else {
        None
    }
}

pub open spec fn jv_ref_kind(j: JsonV) -> Option<RefKind> {
    if j == JsonV::Str("Function"@) {
        Some(RefKind::Function)
    } else if j == JsonV::Str("Mod"@) {
        Some(RefKind::Mod)
    } else if j == JsonV::Str("Type"@) {
        Some(RefKind::Type)
    } else if j == JsonV::Str("Variable"@) {
        Some(RefKind::Variable)
    } else {
        None
    }
}

pub open spec fn jv_relation_kind(j: JsonV) -> Option<RelationKind> {
    if j == JsonV::Str("Impl"@) {
        Some(RelationKind::Impl)
    } else if j == JsonV::Str("SuperTrait"@) {
        Some(RelationKind::SuperTrait)
    } else {
        None
    }
}

pub open spec fn jv_id(j: JsonV) -> Option<Id> {
    match j {
        JsonV::Obj(ms) => if ms.len() == 2 && ms[0].0 == "krate"@ && jv_u32(ms[0].1) is Some
            && ms[1].0 == "index"@ && jv_u32(ms[1].1) is Some {
            Some(Id { krate: jv_u32(ms[0].1)->0, index: jv_u32(ms[1].1)->0 })
        } else {
            None
        },
        _ => None,
    }
}

pub open spec fn jv_opt_id(j: JsonV) -> Option<Option<Id>> {
    if j == JsonV::Null {
        Some(None)
    } else {
        match jv_id(j) {
            Some(i) => Some(Some(i)),
            None => None,
        }
    }
}

pub open spec fn jv_span(j: JsonV) -> Option<SpanDataV> {
    match j {
        JsonV::Obj(ms) => if ms.len() == 7 && ms[0].0 == "file_name"@ && jv_str(ms[0].1) is Some
            && ms[1].0 == "byte_start"@ && jv_u32(ms[1].1) is Some && ms[2].0 == "byte_end"@
            && jv_u32(ms[2].1) is Some && ms[3].0 == "line_start"@ && jv_u32(ms[3].1) is Some
            && ms[4].0 == "line_end"@ && jv_u32(ms[4].1) is Some && ms[5].0 == "column_start"@
            && jv_u32(ms[5].1) is Some && ms[6].0 == "column_end"@ && jv_u32(ms[6].1) is Some {
            Some(
                SpanDataV {
                    file_name: jv_str(ms[0].1)->0,
                    byte_start: jv_u32(ms[1].1)->0,
                    byte_end: jv_u32(ms[2].1)->0,
                    line_start: jv_u32(ms[3].1)->0,
                    line_end: jv_u32(ms[4].1)->0,
                    column_start: jv_u32(ms[5].1)->0,
                    column_end: jv_u32(ms[6].1)->0,
                },
            )
        } else {
            None
        },
        _ => None,
    }
}

/// Reads a whole element list through one element reader; fails if any
/// element fails.
pub open spec fn jv_list<T>(elems: Seq<JsonV>, f: spec_fn(JsonV) -> Option<T>) -> Option<Seq<T>> {
    if forall|k: int| 0 <= k < elems.len() ==> (#[trigger] f(elems[k])) is Some {
        Some(
            Seq::new(
                elems.len(),
                |k: int|
                    if 0 <= k < elems.len() {
                        f(elems[k])->0
                    } else {
                        arbitrary()
                    },
            ),
        )
    } else {
        None
    }
}

pub open spec fn jv_external_crate(j: JsonV) -> Option<ExternalCrateDataV> {
    match j {
        JsonV::Obj(ms) => if ms.len() == 3 && ms[0].0 == "name"@ && jv_str(ms[0].1) is Some
            && ms[1].0 == "num"@ && jv_u32(ms[1].1) is Some && ms[2].0 == "file_name"@ && jv_str(
            ms[2].1,
        ) is Some {
            Some(
                ExternalCrateDataV {
                    name: jv_str(ms[0].1)->0,
                    num: jv_u32(ms[1].1)->0,
                    file_name: jv_str(ms[2].1)->0,
                },
            )
        } else {
            None
        },
        _ => None,
    }
}

pub open spec fn jv_prelude(j: JsonV) -> Option<CratePreludeDataV> {
    match j {
        JsonV::Obj(ms) => if ms.len() == 4 && ms[0].0 == "crate_name"@ && jv_str(ms[0].1) is Some
            && ms[1].0 == "crate_root"@ && jv_str(ms[1].1) is Some && ms[2].0 == "external_crates"@
            && ms[2].1 is Arr && jv_list(ms[2].1->Arr_0, |e: JsonV| jv_external_crate(e)) is Some
            && ms[3].0 == "span"@ && jv_span(ms[3].1) is Some {
            Some(
                CratePreludeDataV {
                    crate_name: jv_str(ms[0].1)->0,
                    crate_root: jv_str(ms[1].1)->0,
                    external_crates: jv_list(ms[2].1->Arr_0, |e: JsonV| jv_external_crate(e))->0,
                    span: jv_span(ms[3].1)->0,
                },
            )
        } else {
            None
        },
        _ => None,
    }
}

pub open spec fn jv_opt_prelude(j: JsonV) -> Option<Option<CratePreludeDataV>> {
    if j == JsonV::Null {
        Some(None)
    } else {
        match jv_prelude(j) {
            Some(p) => Some(Some(p)),
            None => None,
        }
    }
}

pub open spec fn jv_import(j: JsonV) -> Option<ImportV> {
    match j {
        JsonV::Obj(ms) => if ms.len() == 5 && ms[0].0 == "kind"@ && jv_import_kind(ms[0].1) is Some
            && ms[1].0 == "ref_id"@ && jv_opt_id(ms[1].1) is Some && ms[2].0 == "span"@ && jv_span(
            ms[2].1,
        ) is Some && ms[3].0 == "name"@ && jv_str(ms[3].1) is Some && ms[4].0 == "value"@ && jv_str(
            ms[4].1,
        ) is Some {
            Some(
                ImportV {
                    kind: jv_import_kind(ms[0].1)->0,
                    ref_id: jv_opt_id(ms[1].1)->0,
                    span: jv_span(ms[2].1)->0,
                    name: jv_str(ms[3].1)->0,
                    value: jv_str(ms[4].1)->0,
                },
            )
        } else {
            None
        },
        _ => None,
    }
}

pub open spec fn jv_attribute(j: JsonV) -> Option<AttributeV> {
    match j {
        JsonV::Obj(ms) => if ms.len() == 2 && ms[0].0 == "value"@ && jv_str(ms[0].1) is Some
            && ms[1].0 == "span"@ && jv_span(ms[1].1) is Some {
            Some(AttributeV { value: jv_str(ms[0].1)->0, span: jv_span(ms[1].1)->0 })
        } else {
            None
        },
        _ => None,
    }
}

pub open spec fn jv_sig_element(j: JsonV) -> Option<SigElement> {
    match j {
        JsonV::Obj(ms) => if ms.len() == 3 && ms[0].0 == "id"@ && jv_id(ms[0].1) is Some && ms[1].0
            == "start"@ && jv_usize(ms[1].1) is Some && ms[2].0 == "end"@ && jv_usize(
            ms[2].1,
        ) is Some {
            Some(
                SigElement {
                    id: jv_id(ms[0].1)->0,
                    start: jv_usize(ms[1].1)->0,
                    end: jv_usize(ms[2].1)->0,
                },
            )
        } else {
            None
        },
        _ => None,
    }
}

pub open spec fn jv_signature(j: JsonV) -> Option<SignatureV> {
    match j {
        JsonV::Obj(ms) => if ms.len() == 6 && ms[0].0 == "span"@ && jv_span(ms[0].1) is Some
            && ms[1].0 == "text"@ && jv_str(ms[1].1) is Some && ms[2].0 == "ident_start"@
            && jv_usize(ms[2].1) is Some && ms[3].0 == "ident_end"@ && jv_usize(ms[3].1) is Some
            && ms[4].0 == "defs"@ && ms[4].1 is Arr && jv_list(
            ms[4].1->Arr_0,
            |e: JsonV| jv_sig_element(e),
        ) is Some && ms[5].0 == "refs"@ && ms[5].1 is Arr && jv_list(
            ms[5].1->Arr_0,
            |e: JsonV| jv_sig_element(e),
        ) is Some {
            Some(
                SignatureV {
                    span: jv_span(ms[0].1)->0,
                    text: jv_str(ms[1].1)->0,
                    ident_start: jv_usize(ms[2].1)->0,
                    ident_end: jv_usize(ms[3].1)->0,
                    defs: jv_list(ms[4].1->Arr_0, |e: JsonV| jv_sig_element(e))->0,
                    refs: jv_list(ms[5].1->Arr_0, |e: JsonV| jv_sig_element(e))->0,
                },
            )
        } else {
            None
        },
        _ => None,
    }
}

pub open spec fn jv_opt_signature(j: JsonV) -> Option<Option<SignatureV>> {
    if j == JsonV::Null {
        Some(None)
    } else {
        match jv_signature(j) {
            Some(g) => Some(Some(g)),
            None => None,
        }
    }
}

pub open spec fn jv_def(j: JsonV) -> Option<DefV> {
    match j {
        JsonV::Obj(ms) => if ms.len() == 12 && ms[0].0 == "kind"@ && jv_def_kind(ms[0].1) is Some
            && ms[1].0 == "id"@ && jv_id(ms[1].1) is Some && ms[2].0 == "span"@ && jv_span(
            ms[2].1,
        ) is Some && ms[3].0 == "name"@ && jv_str(ms[3].1) is Some && ms[4].0 == "qualname"@
            && jv_str(ms[4].1) is Some && ms[5].0 == "value"@ && jv_str(ms[5].1) is Some && ms[6].0
            == "parent"@ && jv_opt_id(ms[6].1) is Some && ms[7].0 == "children"@ && ms[7].1 is Arr
            && jv_list(ms[7].1->Arr_0, |e: JsonV| jv_id(e)) is Some && ms[8].0 == "decl_id"@
            && jv_opt_id(ms[8].1) is Some && ms[9].0 == "docs"@ && jv_str(ms[9].1) is Some
            && ms[10].0 == "sig"@ && jv_opt_signature(ms[10].1) is Some && ms[11].0 == "attributes"@
            && ms[11].1 is Arr && jv_list(ms[11].1->Arr_0, |e: JsonV| jv_attribute(e)) is Some {
            Some(
                DefV {
                    kind: jv_def_kind(ms[0].1)->0,
                    id: jv_id(ms[1].1)->0,
                    span: jv_span(ms[2].1)->0,
                    name: jv_str(ms[3].1)->0,
                    qualname: jv_str(ms[4].1)->0,
                    value: jv_str(ms[5].1)->0,
                    parent: jv_opt_id(ms[6].1)->0,
                    children: jv_list(ms[7].1->Arr_0, |e: JsonV| jv_id(e))->0,
                    decl_id: jv_opt_id(ms[8].1)->0,
                    docs: jv_str(ms[9].1)->0,
                    sig: jv_opt_signature(ms[10].1)->0,
                    attributes: jv_list(ms[11].1->Arr_0, |e: JsonV| jv_attribute(e))->0,
                },
            )
        } else {
            None
        },
        _ => None,
    }
}

pub open spec fn jv_ref(j: JsonV) -> Option<RefV> {
    match j {
        JsonV::Obj(ms) => if ms.len() == 3 && ms[0].0 == "kind"@ && jv_ref_kind(ms[0].1) is Some
            && ms[1].0 == "span"@ && jv_span(ms[1].1) is Some && ms[2].0 == "ref_id"@ && jv_id(
            ms[2].1,
        ) is Some {
            Some(
                RefV {
                    kind: jv_ref_kind(ms[0].1)->0,
                    span: jv_span(ms[1].1)->0,
                    ref_id: jv_id(ms[2].1)->0,
                },
            )
        } else {
            None
        },
        _ => None,
    }
}

pub open spec fn jv_macro_ref(j: JsonV) -> Option<MacroRefV> {
    match j {
        JsonV::Obj(ms) => if ms.len() == 3 && ms[0].0 == "span"@ && jv_span(ms[0].1) is Some
            && ms[1].0 == "qualname"@ && jv_str(ms[1].1) is Some && ms[2].0 == "callee_span"@
            && jv_span(ms[2].1) is Some {
            Some(
                MacroRefV {
                    span: jv_span(ms[0].1)->0,
                    qualname: jv_str(ms[1].1)->0,
                    callee_span: jv_span(ms[2].1)->0,
                },
            )
        } else {
            None
        },
        _ => None,
    }
}

pub open spec fn jv_relation(j: JsonV) -> Option<RelationV> {
    match j {
        JsonV::Obj(ms) => if ms.len() == 4 && ms[0].0 == "span"@ && jv_span(ms[0].1) is Some
            && ms[1].0 == "kind"@ && jv_relation_kind(ms[1].1) is Some && ms[2].0 == "from"@
            && jv_id(ms[2].1) is Some && ms[3].0 == "to"@ && jv_id(ms[3].1) is Some {
            Some(
                RelationV {
                    span: jv_span(ms[0].1)->0,
                    kind: jv_relation_kind(ms[1].1)->0,
                    from: jv_id(ms[2].1)->0,
                    to: jv_id(ms[3].1)->0,
                },
            )
        } else {
            None
        },
        _ => None,
    }
}

pub open spec fn jv_analysis(j: JsonV) -> Option<AnalysisV> {
    match j {
        JsonV::Obj(ms) => if ms.len() == 7 && ms[0].0 == "kind"@ && jv_format(ms[0].1) is Some
            && ms[1].0 == "prelude"@ && jv_opt_prelude(ms[1].1) is Some && ms[2].0 == "imports"@
            && ms[2].1 is Arr && jv_list(ms[2].1->Arr_0, |e: JsonV| jv_import(e)) is Some && ms[3].0
            == "defs"@ && ms[3].1 is Arr && jv_list(ms[3].1->Arr_0, |e: JsonV| jv_def(e)) is Some
            && ms[4].0 == "refs"@ && ms[4].1 is Arr && jv_list(
            ms[4].1->Arr_0,
            |e: JsonV| jv_ref(e),
        ) is Some && ms[5].0 == "macro_refs"@ && ms[5].1 is Arr && jv_list(
            ms[5].1->Arr_0,
            |e: JsonV| jv_macro_ref(e),
        ) is Some && ms[6].0 == "relations"@ && ms[6].1 is Arr && jv_list(
            ms[6].1->Arr_0,
            |e: JsonV| jv_relation(e),
        ) is Some {
            Some(
                AnalysisV {
                    kind: jv_format(ms[0].1)->0,
                    prelude: jv_opt_prelude(ms[1].1)->0,
                    imports: jv_list(ms[2].1->Arr_0, |e: JsonV| jv_import(e))->0,
                    defs: jv_list(ms[3].1->Arr_0, |e: JsonV| jv_def(e))->0,
                    refs: jv_list(ms[4].1->Arr_0, |e: JsonV| jv_ref(e))->0,
                    macro_refs: jv_list(ms[5].1->Arr_0, |e: JsonV| jv_macro_ref(e))->0,
                    relations: jv_list(ms[6].1->Arr_0, |e: JsonV| jv_relation(e))->0,
                },
            )
        } else {
            None
        },
        _ => None,
    }
}

// ---------------------------------------------------------------------
// the whole textual codec, and the round-trip law
// ---------------------------------------------------------------------
/// The canonical textual form of a document.
pub open spec fn spec_encode(a: AnalysisV) -> Seq<char> {
    print_json(analysis_jv(a))
}

/// What decoding a text must yield: the parsed document, read back as an
/// [`AnalysisV`], provided the whole input parses, has the document shape,
/// and carries the expected format discriminator.
pub open spec fn spec_decode(s: Seq<char>, expected: Format) -> Option<AnalysisV> {
    match parse_document(s) {
        Some(j) => match jv_analysis(j) {
            Some(a) => if a.kind == expected {
                Some(a)
            } else {
                None
            },
            None => None,
        },
        None => None,
    }
}

// ---------------------------------------------------------------------
// reading back what was written
// ---------------------------------------------------------------------
/// Reading a written element list gives back the original elements, when
/// reading inverts writing element by element.
proof fn lemma_jv_list_rt<T>(xs: Seq<T>, to: spec_fn(T) -> JsonV, from: spec_fn(JsonV) -> Option<T>)
    requires
        forall|k: int| 0 <= k < xs.len() ==> from(to(#[trigger] xs[k])) == Some(xs[k]),
    ensures
        jv_list(xs.map_values(to), from) == Some(xs),
{
    let es = xs.map_values(to);
    assert forall|k: int| 0 <= k < es.len() implies (#[trigger] from(es[k])) is Some by {
        assert(es[k] == to(xs[k]));
    }
    let got = jv_list(es, from)->0;
    assert forall|k: int| 0 <= k < xs.len() implies got[k] == xs[k] by {
        assert(es[k] == to(xs[k]));
    }
    assert(got =~= xs);
}

proof fn lemma_format_rt(x: Format)
    ensures
        jv_format(format_jv(x)) == Some(x),
{
    reveal_strlit("Csv");
    reveal_strlit("Json");
    reveal_strlit("JsonApi");
    assert("Csv"@.len() == 3 && "Json"@.len() == 4 && "JsonApi"@.len() == 7);
    match x {
        Format::Csv => {
            assert(jv_format(format_jv(x)) == Some(x));
        },
        Format::Json => {
            assert("Json"@ != "Csv"@);
            assert(jv_format(format_jv(x)) == Some(x));
        },
        Format::JsonApi => {
            assert("JsonApi"@ != "Csv"@ && "JsonApi"@ != "Json"@);
            assert(jv_format(format_jv(x)) == Some(x));
        },
    }
}

proof fn lemma_import_kind_rt(x: ImportKind)
    ensures
        jv_import_kind(import_kind_jv(x)) == Some(x),
{
    reveal_strlit("ExternCrate");
    reveal_strlit("Use");
    reveal_strlit("GlobUse");
    assert("ExternCrate"@.len() == 11 && "Use"@.len() == 3 && "GlobUse"@.len() == 7);
    match x {
        ImportKind::ExternCrate => {
            assert(jv_import_kind(import_kind_jv(x)) == Some(x));
        },
        ImportKind::Use => {
            assert(jv_import_kind(import_kind_jv(x)) == Some(x));
        },
        ImportKind::GlobUse => {
            assert(jv_import_kind(import_kind_jv(x)) == Some(x));
        },
    }
}

proof fn lemma_def_kind_rt(x: DefKind)
    ensures
        jv_def_kind(def_kind_jv(x)) == Some(x),
{
    reveal_strlit("Enum");
    reveal_strlit("Tuple");
    reveal_strlit("Struct");
    reveal_strlit("Union");
    reveal_strlit("Trait");
    reveal_strlit("Function");
    reveal_strlit("Method");
    reveal_strlit("Macro");
    reveal_strlit("Mod");
    reveal_strlit("Type");
    reveal_strlit("Local");
    reveal_strlit("Static");
    reveal_strlit("Const");
    reveal_strlit("Field");
    assert("Enum"@.len() == 4 && "Tuple"@.len() == 5 && "Struct"@.len() == 6 && "Union"@.len() == 5 && "Trait"@.len() == 5 && "Function"@.len() == 8 && "Method"@.len() == 6 && "Macro"@.len() == 5 && "Mod"@.len() == 3 && "Type"@.len() == 4 && "Local"@.len() == 5 && "Static"@.len() == 6 && "Const"@.len() == 5 && "Field"@.len() == 5);
    assert("Enum"@[0] == 'E' && "Tuple"@[0] == 'T' && "Struct"@[0] == 'S' && "Union"@[0] == 'U'
        && "Trait"@[0] == 'T' && "Method"@[0] == 'M' && "Macro"@[0] == 'M' && "Type"@[0] == 'T'
        && "Local"@[0] == 'L' && "Static"@[0] == 'S' && "Const"@[0] == 'C' && "Field"@[0] == 'F');
    assert("Tuple"@[1] == 'u' && "Trait"@[1] == 'r');
    assert("Struct"@[2] == 'r' && "Static"@[2] == 'a');
    match x {
        DefKind::Enum => {
            assert(jv_def_kind(def_kind_jv(x)) == Some(x));
        },
        DefKind::Tuple => {
            assert(jv_def_kind(def_kind_jv(x)) == Some(x));
        },
        DefKind::Struct => {
            assert(jv_def_kind(def_kind_jv(x)) == Some(x));
        },
        DefKind::Union => {
            assert(jv_def_kind(def_kind_jv(x)) == Some(x));
        },
        DefKind::Trait => {
            assert(jv_def_kind(def_kind_jv(x)) == Some(x));
        },
        DefKind::Function => {
            assert(jv_def_kind(def_kind_jv(x)) == Some(x));
        },
        DefKind::Method => {
            assert(jv_def_kind(def_kind_jv(x)) == Some(x));
        },
        DefKind::Macro => {
            assert(jv_def_kind(def_kind_jv(x)) == Some(x));
        },
        DefKind::Mod => {
            assert(jv_def_kind(def_kind_jv(x)) == Some(x));
        },
        DefKind::Type => {
            assert(jv_def_kind(def_kind_jv(x)) == Some(x));
        },
        DefKind::Local => {
            assert(jv_def_kind(def_kind_jv(x)) == Some(x));
        },
        DefKind::Static => {
            assert(jv_def_kind(def_kind_jv(x)) == Some(x));
        },
        DefKind::Const => {
            assert(jv_def_kind(def_kind_jv(x)) == Some(x));
        },
        DefKind::Field => {
            assert(jv_def_kind(def_kind_jv(x)) == Some(x));
        },
    }
}

proof fn lemma_ref_kind_rt(x: RefKind)
    ensures
        jv_ref_kind(ref_kind_jv(x)) == Some(x),
{
    reveal_strlit("Function");
    reveal_strlit("Mod");
    reveal_strlit("Type");
    reveal_strlit("Variable");
    assert("Function"@.len() == 8 && "Mod"@.len() == 3 && "Type"@.len() == 4 && "Variable"@.len() == 8);
    assert("Function"@[0] == 'F' && "Variable"@[0] == 'V');
    match x {
        RefKind::Function => {
            assert(jv_ref_kind(ref_kind_jv(x)) == Some(x));
        },
        RefKind::Mod => {
            assert(jv_ref_kind(ref_kind_jv(x)) == Some(x));
        },
        RefKind::Type => {
            assert(jv_ref_kind(ref_kind_jv(x)) == Some(x));
        },
        RefKind::Variable => {
            assert(jv_ref_kind(ref_kind_jv(x)) == Some(x));
        },
    }
}

proof fn lemma_relation_kind_rt(x: RelationKind)
    ensures
        jv_relation_kind(relation_kind_jv(x)) == Some(x),
{
    reveal_strlit("Impl");
    reveal_strlit("SuperTrait");
    assert("Impl"@.len() == 4 && "SuperTrait"@.len() == 10);
    match x {
        RelationKind::Impl => {
            assert(jv_relation_kind(relation_kind_jv(x)) == Some(x));
        },
        RelationKind::SuperTrait => {
            assert(jv_relation_kind(relation_kind_jv(x)) == Some(x));
        },
    }
}

proof fn lemma_id_rt(x: Id)
    ensures
        jv_id(id_jv(x)) == Some(x),
{
}

proof fn lemma_opt_id_rt(x: Option<Id>)
    ensures
        jv_opt_id(opt_id_jv(x)) == Some(x),
{
    match x {
        Some(i) => {
            lemma_id_rt(i);
        },
        None => {},
    }
}

proof fn lemma_span_rt(x: SpanDataV)
    ensures
        jv_span(span_jv(x)) == Some(x),
{
    assert(jv_span(span_jv(x))->0 =~= x);
}

proof fn lemma_external_crate_rt(x: ExternalCrateDataV)
    ensures
        jv_external_crate(external_crate_jv(x)) == Some(x),
{
    assert(jv_external_crate(external_crate_jv(x))->0 =~= x);
}

proof fn lemma_prelude_rt(x: CratePreludeDataV)
    ensures
        jv_prelude(prelude_jv(x)) == Some(x),
{
    assert forall|k: int| 0 <= k < x.external_crates.len() implies (
    |e: JsonV| jv_external_crate(e))(
        (|e: ExternalCrateDataV| external_crate_jv(e))(#[trigger] x.external_crates[k]),
    ) == Some(x.external_crates[k]) by {
        lemma_external_crate_rt(x.external_crates[k]);
    }
    lemma_jv_list_rt(
        x.external_crates,
        |e: ExternalCrateDataV| external_crate_jv(e),
        |e: JsonV| jv_external_crate(e),
    );
    lemma_span_rt(x.span);
    assert(jv_prelude(prelude_jv(x))->0 =~= x);
}

proof fn lemma_opt_prelude_rt(x: Option<CratePreludeDataV>)
    ensures
        jv_opt_prelude(opt_prelude_jv(x)) == Some(x),
{
    match x {
        Some(p) => {
            lemma_prelude_rt(p);
        },
        None => {},
    }
}

proof fn lemma_import_rt(x: ImportV)
    ensures
        jv_import(import_jv(x)) == Some(x),
{
    lemma_import_kind_rt(x.kind);
    lemma_opt_id_rt(x.ref_id);
    lemma_span_rt(x.span);
    assert(jv_import(import_jv(x))->0 =~= x);
}

proof fn lemma_attribute_rt(x: AttributeV)
    ensures
        jv_attribute(attribute_jv(x)) == Some(x),
{
    lemma_span_rt(x.span);
    assert(jv_attribute(attribute_jv(x))->0 =~= x);
}

proof fn lemma_sig_element_rt(x: SigElement)
    ensures
        jv_sig_element(sig_element_jv(x)) == Some(x),
{
    lemma_id_rt(x.id);
}

proof fn lemma_signature_rt(x: SignatureV)
    ensures
        jv_signature(signature_jv(x)) == Some(x),
{
    lemma_span_rt(x.span);
    assert forall|k: int| 0 <= k < x.defs.len() implies (|e: JsonV| jv_sig_element(e))(
        (|e: SigElement| sig_element_jv(e))(#[trigger] x.defs[k]),
    ) == Some(x.defs[k]) by {
        lemma_sig_element_rt(x.defs[k]);
    }
    lemma_jv_list_rt(x.defs, |e: SigElement| sig_element_jv(e), |e: JsonV| jv_sig_element(e));
    assert forall|k: int| 0 <= k < x.refs.len() implies (|e: JsonV| jv_sig_element(e))(
        (|e: SigElement| sig_element_jv(e))(#[trigger] x.refs[k]),
    ) == Some(x.refs[k]) by {
        lemma_sig_element_rt(x.refs[k]);
    }
    lemma_jv_list_rt(x.refs, |e: SigElement| sig_element_jv(e), |e: JsonV| jv_sig_element(e));
    assert(jv_signature(signature_jv(x))->0 =~= x);
}

proof fn lemma_opt_signature_rt(x: Option<SignatureV>)
    ensures
        jv_opt_signature(opt_signature_jv(x)) == Some(x),
{
    match x {
        Some(g) => {
            lemma_signature_rt(g);
        },
        None => {},
    }
}

#[verifier::rlimit(100)]
#[verifier::spinoff_prover]
proof fn lemma_def_rt(x: DefV)
    ensures
        jv_def(def_jv(x)) == Some(x),
{
    lemma_def_kind_rt(x.kind);
    lemma_id_rt(x.id);
    lemma_span_rt(x.span);
    lemma_opt_id_rt(x.parent);
    lemma_opt_id_rt(x.decl_id);
    lemma_opt_signature_rt(x.sig);
    assert forall|k: int| 0 <= k < x.children.len() implies (|e: JsonV| jv_id(e))(
        (|e: Id| id_jv(e))(#[trigger] x.children[k]),
    ) == Some(x.children[k]) by {
        lemma_id_rt(x.children[k]);
    }
    lemma_jv_list_rt(x.children, |e: Id| id_jv(e), |e: JsonV| jv_id(e));
    assert forall|k: int| 0 <= k < x.attributes.len() implies (|e: JsonV| jv_attribute(e))(
        (|e: AttributeV| attribute_jv(e))(#[trigger] x.attributes[k]),
    ) == Some(x.attributes[k]) by {
        lemma_attribute_rt(x.attributes[k]);
    }
    lemma_jv_list_rt(x.attributes, |e: AttributeV| attribute_jv(e), |e: JsonV| jv_attribute(e));
    assert(jv_def(def_jv(x))->0 =~= x);
}

proof fn lemma_ref_rt(x: RefV)
    ensures
        jv_ref(ref_jv(x)) == Some(x),
{
    lemma_ref_kind_rt(x.kind);
    lemma_span_rt(x.span);
    lemma_id_rt(x.ref_id);
    assert(jv_ref(ref_jv(x))->0 =~= x);
}

proof fn lemma_macro_ref_rt(x: MacroRefV)
    ensures
        jv_macro_ref(macro_ref_jv(x)) == Some(x),
{
    lemma_span_rt(x.span);
    lemma_span_rt(x.callee_span);
    assert(jv_macro_ref(macro_ref_jv(x))->0 =~= x);
}

proof fn lemma_relation_rt(x: RelationV)
    ensures
        jv_relation(relation_jv(x)) == Some(x),
{
    lemma_span_rt(x.span);
    lemma_relation_kind_rt(x.kind);
    lemma_id_rt(x.from);
    lemma_id_rt(x.to);
    assert(jv_relation(relation_jv(x))->0 =~= x);
}

/// Reading back a written document tree yields the original document.
#[verifier::rlimit(100)]
#[verifier::spinoff_prover]
proof fn lemma_analysis_rt(x: AnalysisV)
    ensures
        jv_analysis(analysis_jv(x)) == Some(x),
{
    lemma_format_rt(x.kind);
    lemma_opt_prelude_rt(x.prelude);
    assert forall|k: int| 0 <= k < x.imports.len() implies (|e: JsonV| jv_import(e))(
        (|e: ImportV| import_jv(e))(#[trigger] x.imports[k]),
    ) == Some(x.imports[k]) by {
        lemma_import_rt(x.imports[k]);
    }
    lemma_jv_list_rt(x.imports, |e: ImportV| import_jv(e), |e: JsonV| jv_import(e));
    assert forall|k: int| 0 <= k < x.defs.len() implies (|e: JsonV| jv_def(e))(
        (|e: DefV| def_jv(e))(#[trigger] x.defs[k]),
    ) == Some(x.defs[k]) by {
        lemma_def_rt(x.defs[k]);
    }
    lemma_jv_list_rt(x.defs, |e: DefV| def_jv(e), |e: JsonV| jv_def(e));
    assert forall|k: int| 0 <= k < x.refs.len() implies (|e: JsonV| jv_ref(e))(
        (|e: RefV| ref_jv(e))(#[trigger] x.refs[k]),
    ) == Some(x.refs[k]) by {
        lemma_ref_rt(x.refs[k]);
    }
    lemma_jv_list_rt(x.refs, |e: RefV| ref_jv(e), |e: JsonV| jv_ref(e));
    assert forall|k: int| 0 <= k < x.macro_refs.len() implies (|e: JsonV| jv_macro_ref(e))(
        (|e: MacroRefV| macro_ref_jv(e))(#[trigger] x.macro_refs[k]),
    ) == Some(x.macro_refs[k]) by {
        lemma_macro_ref_rt(x.macro_refs[k]);
    }
    lemma_jv_list_rt(x.macro_refs, |e: MacroRefV| macro_ref_jv(e), |e: JsonV| jv_macro_ref(e));
    assert forall|k: int| 0 <= k < x.relations.len() implies (|e: JsonV| jv_relation(e))(
        (|e: RelationV| relation_jv(e))(#[trigger] x.relations[k]),
    ) == Some(x.relations[k]) by {
        lemma_relation_rt(x.relations[k]);
    }
    lemma_jv_list_rt(x.relations, |e: RelationV| relation_jv(e), |e: JsonV| jv_relation(e));
    assert(jv_analysis(analysis_jv(x))->0 =~= x);
}

/// The round-trip law: decoding what was encoded, with the document's own
/// format discriminator expected, gives back exactly the original value,
/// field by field.
pub proof fn lemma_round_trip(a: AnalysisV)
    ensures
        spec_decode(spec_encode(a), a.kind) == Some(a),
{
    crate::invert::lemma_document_round_trip(analysis_jv(a));
    lemma_analysis_rt(a);
}

/// A document whose `kind` member holds an unrecognized discriminator fails
/// to decode: enumerations decode only their declared variants, with no
/// silent default.
pub proof fn lemma_unknown_kind_rejected(
    s: Seq<char>,
    expected: Format,
    ms: Seq<(Seq<char>, JsonV)>,
    t: Seq<char>,
)
    requires
        parse_document(s) == Some(JsonV::Obj(ms)),
        ms.len() > 0,
        ms[0] == ("kind"@, JsonV::Str(t)),
        t != "Csv"@,
        t != "Json"@,
        t != "JsonApi"@,
    ensures
        spec_decode(s, expected) is None,
{
    assert(jv_format(ms[0].1) is None);
}

/// An absent prelude survives the round trip as absent: it is never decoded
/// into a default prelude value.
pub proof fn lemma_absent_prelude_stays_absent(a: AnalysisV)
    requires
        a.prelude is None,
    ensures
        spec_decode(spec_encode(a), a.kind) matches Some(b) && b.prelude is None,
{
    lemma_round_trip(a);
}

} // verus!
