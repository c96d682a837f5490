//! The executable codec: turning schema values into document trees and
//! back, and the whole-document `encode` / `decode` pair. Every function is
//! proved against the tree mappings in [`crate::codec`].

use crate::codec::{
    analysis_jv, attribute_jv, def_jv, def_kind_jv, external_crate_jv, format_jv, id_jv,
    import_jv, import_kind_jv, jv_analysis, jv_attribute, jv_def, jv_def_kind, jv_external_crate,
    jv_format, jv_id, jv_import, jv_import_kind, jv_list, jv_macro_ref, jv_opt_id, jv_opt_prelude,
    jv_opt_signature, jv_prelude, jv_ref, jv_ref_kind, jv_relation, jv_relation_kind,
    jv_sig_element, jv_signature, jv_span, jv_str, jv_u32, jv_usize, macro_ref_jv, opt_id_jv,
    opt_prelude_jv, opt_signature_jv, prelude_jv, ref_jv, ref_kind_jv, relation_jv,
    relation_kind_jv, sig_element_jv, signature_jv, span_jv, spec_decode, spec_encode,
};
use crate::json::{chars_to_string, json_view, write_json, Json, JsonV};
use crate::parse::parse_document_at;
use crate::schema::{
    Analysis, Attribute, CratePreludeData, Def, DefKind, ExternalCrateData, Format, Id, Import,
    ImportKind, MacroRef, Ref, RefKind, Relation, RelationKind, SigElement, Signature, SpanData,
};
use vstd::prelude::*;
use vstd::string::StringExecFns;

verus! {

/// Character-by-character string comparison, so that verified code can
/// test equality of string contents.
pub fn str_eq(a: &str, b: &str) -> (r: bool)
    ensures
        r == (a@ == b@),
{
    let la = a.unicode_len();
    let lb = b.unicode_len();
    if la != lb {
        return false;
    }
    let mut k: usize = 0;
    while k < la
        invariant
            la == a@.len(),
            lb == b@.len(),
            la == lb,
            0 <= k <= la,
            forall|m: int| 0 <= m < k ==> a@[m] == b@[m],
        decreases la - k,
    {
        let ca = a.get_char(k);
        let cb = b.get_char(k);
        if ca != cb {
            return false;
        }
        k = k + 1;
    }
    proof {
        assert(a@ =~= b@);
    }
    true
}

// ---------------------------------------------------------------------
// schema value -> document tree
// ---------------------------------------------------------------------
fn format_to_json(x: &Format) -> (j: Json)
    ensures
        json_view(j) == format_jv(*x),
{
    match x {
        Format::Csv => Json::Str(String::from_str("Csv")),
        Format::Json => Json::Str(String::from_str("Json")),
        Format::JsonApi => Json::Str(String::from_str("JsonApi")),
    }
}

fn import_kind_to_json(x: &ImportKind) -> (j: Json)
    ensures
        json_view(j) == import_kind_jv(*x),
{
    match x {
        ImportKind::ExternCrate => Json::Str(String::from_str("ExternCrate")),
        ImportKind::Use => Json::Str(String::from_str("Use")),
        ImportKind::GlobUse => Json::Str(String::from_str("GlobUse")),
    }
}

fn def_kind_to_json(x: &DefKind) -> (j: Json)
    ensures
        json_view(j) == def_kind_jv(*x),
{
    match x {
        DefKind::Enum => Json::Str(String::from_str("Enum")),
        DefKind::Tuple => Json::Str(String::from_str("Tuple")),
        DefKind::Struct => Json::Str(String::from_str("Struct")),
        DefKind::Union => Json::Str(String::from_str("Union")),
        DefKind::Trait => Json::Str(String::from_str("Trait")),
        DefKind::Function => Json::Str(String::from_str("Function")),
        DefKind::Method => Json::Str(String::from_str("Method")),
        DefKind::Macro => Json::Str(String::from_str("Macro")),
        DefKind::Mod => Json::Str(String::from_str("Mod")),
        DefKind::Type => Json::Str(String::from_str("Type")),
        DefKind::Local => Json::Str(String::from_str("Local")),
        DefKind::Static => Json::Str(String::from_str("Static")),
        DefKind::Const => Json::Str(String::from_str("Const")),
        DefKind::Field => Json::Str(String::from_str("Field")),
    }
}

fn ref_kind_to_json(x: &RefKind) -> (j: Json)
    ensures
        json_view(j) == ref_kind_jv(*x),
{
    match x {
        RefKind::Function => Json::Str(String::from_str("Function")),
        RefKind::Mod => Json::Str(String::from_str("Mod")),
        RefKind::Type => Json::Str(String::from_str("Type")),
        RefKind::Variable => Json::Str(String::from_str("Variable")),
    }
}

fn relation_kind_to_json(x: &RelationKind) -> (j: Json)
    ensures
        json_view(j) == relation_kind_jv(*x),
{
    match x {
        RelationKind::Impl => Json::Str(String::from_str("Impl")),
        RelationKind::SuperTrait => Json::Str(String::from_str("SuperTrait")),
    }
}

fn id_to_json(x: &Id) -> (j: Json)
    ensures
        json_view(j) == id_jv(*x),
{
    let ms: Vec<(String, Json)> = vec![
        (String::from_str("krate"), Json::Num(x.krate as u64)),
        (String::from_str("index"), Json::Num(x.index as u64)),
    ];
    let j = Json::Obj(ms);
    proof {
        assert(ms@[0].0@ == "krate"@);
        assert(ms@[0].1 == Json::Num(x.krate as u64));
        assert(json_view(ms@[0].1) == JsonV::Num(x.krate as u64));
        assert(json_view(j)->Obj_0[0] == (ms@[0].0@, json_view(ms@[0].1)));
        assert(ms@[1].0@ == "index"@);
        assert(ms@[1].1 == Json::Num(x.index as u64));
        assert(json_view(ms@[1].1) == JsonV::Num(x.index as u64));
        assert(json_view(j)->Obj_0[1] == (ms@[1].0@, json_view(ms@[1].1)));
        assert(json_view(j)->Obj_0 =~= id_jv(*x)->Obj_0);
    }
    j
}

fn opt_id_to_json(x: &Option<Id>) -> (j: Json)
    ensures
        json_view(j) == opt_id_jv(*x),
{
    match x {
        Some(i) => id_to_json(i),
        None => Json::Null,
    }
}

fn span_to_json(x: &SpanData) -> (j: Json)
    ensures
        json_view(j) == span_jv(x.deep_view()),
{
    let mut ms: Vec<(String, Json)> = Vec::new();
    ms.push((String::from_str("file_name"), Json::Str(x.file_name.clone())));
    ms.push((String::from_str("byte_start"), Json::Num(x.byte_start as u64)));
    ms.push((String::from_str("byte_end"), Json::Num(x.byte_end as u64)));
    ms.push((String::from_str("line_start"), Json::Num(x.line_start as u64)));
    ms.push((String::from_str("line_end"), Json::Num(x.line_end as u64)));
    ms.push((String::from_str("column_start"), Json::Num(x.column_start as u64)));
    ms.push((String::from_str("column_end"), Json::Num(x.column_end as u64)));
    let j = Json::Obj(ms);
    proof {
        assert(ms@[0].0@ == "file_name"@);
        assert(ms@[0].1 == Json::Str(x.file_name));
        assert(json_view(ms@[0].1) == JsonV::Str(x.file_name@));
        assert(json_view(j)->Obj_0[0] == (ms@[0].0@, json_view(ms@[0].1)));
        assert(ms@[1].0@ == "byte_start"@);
        assert(ms@[1].1 == Json::Num(x.byte_start as u64));
        assert(json_view(ms@[1].1) == JsonV::Num(x.byte_start as u64));
        assert(json_view(j)->Obj_0[1] == (ms@[1].0@, json_view(ms@[1].1)));
        assert(ms@[2].0@ == "byte_end"@);
        assert(ms@[2].1 == Json::Num(x.byte_end as u64));
        assert(json_view(ms@[2].1) == JsonV::Num(x.byte_end as u64));
        assert(json_view(j)->Obj_0[2] == (ms@[2].0@, json_view(ms@[2].1)));
        assert(ms@[3].0@ == "line_start"@);
        assert(ms@[3].1 == Json::Num(x.line_start as u64));
        assert(json_view(ms@[3].1) == JsonV::Num(x.line_start as u64));
        assert(json_view(j)->Obj_0[3] == (ms@[3].0@, json_view(ms@[3].1)));
        assert(ms@[4].0@ == "line_end"@);
        assert(ms@[4].1 == Json::Num(x.line_end as u64));
        assert(json_view(ms@[4].1) == JsonV::Num(x.line_end as u64));
        assert(json_view(j)->Obj_0[4] == (ms@[4].0@, json_view(ms@[4].1)));
        assert(ms@[5].0@ == "column_start"@);
        assert(ms@[5].1 == Json::Num(x.column_start as u64));
        assert(json_view(ms@[5].1) == JsonV::Num(x.column_start as u64));
        assert(json_view(j)->Obj_0[5] == (ms@[5].0@, json_view(ms@[5].1)));
        assert(ms@[6].0@ == "column_end"@);
        assert(ms@[6].1 == Json::Num(x.column_end as u64));
        assert(json_view(ms@[6].1) == JsonV::Num(x.column_end as u64));
        assert(json_view(j)->Obj_0[6] == (ms@[6].0@, json_view(ms@[6].1)));
        assert(json_view(j)->Obj_0 =~= span_jv(x.deep_view())->Obj_0);
    }
    j
}

fn external_crate_to_json(x: &ExternalCrateData) -> (j: Json)
    ensures
        json_view(j) == external_crate_jv(x.deep_view()),
{
    let mut ms: Vec<(String, Json)> = Vec::new();
    ms.push((String::from_str("name"), Json::Str(x.name.clone())));
    ms.push((String::from_str("num"), Json::Num(x.num as u64)));
    ms.push((String::from_str("file_name"), Json::Str(x.file_name.clone())));
    let j = Json::Obj(ms);
    proof {
        assert(ms@[0].0@ == "name"@);
        assert(ms@[0].1 == Json::Str(x.name));
        assert(json_view(ms@[0].1) == JsonV::Str(x.name@));
        assert(json_view(j)->Obj_0[0] == (ms@[0].0@, json_view(ms@[0].1)));
        assert(ms@[1].0@ == "num"@);
        assert(ms@[1].1 == Json::Num(x.num as u64));
        assert(json_view(ms@[1].1) == JsonV::Num(x.num as u64));
        assert(json_view(j)->Obj_0[1] == (ms@[1].0@, json_view(ms@[1].1)));
        assert(ms@[2].0@ == "file_name"@);
        assert(ms@[2].1 == Json::Str(x.file_name));
        assert(json_view(ms@[2].1) == JsonV::Str(x.file_name@));
        assert(json_view(j)->Obj_0[2] == (ms@[2].0@, json_view(ms@[2].1)));
        assert(json_view(j)->Obj_0 =~= external_crate_jv(x.deep_view())->Obj_0);
    }
    j
}

fn prelude_to_json(x: &CratePreludeData) -> (j: Json)
    ensures
        json_view(j) == prelude_jv(x.deep_view()),
{
    let mut arr: Vec<Json> = Vec::new();
    let mut k: usize = 0;
    while k < x.external_crates.len()
        invariant
            0 <= k <= x.external_crates@.len(),
            arr@.len() == k,
            forall|m: int|
                0 <= m < k ==> json_view(#[trigger] arr@[m]) == external_crate_jv(
                    x.external_crates@[m].deep_view(),
                ),
        decreases x.external_crates@.len() - k,
    {
        arr.push(external_crate_to_json(&x.external_crates[k]));
        k = k + 1;
    }
    let jarr = Json::Arr(arr);
    proof {
        assert forall|m: int| 0 <= m < json_view(jarr)->Arr_0.len() implies json_view(
            jarr,
        )->Arr_0[m] == x.deep_view().external_crates.map_values(|e: crate::schema::ExternalCrateDataV| external_crate_jv(e))[m] by {
            assert(json_view(jarr)->Arr_0[m] == json_view(arr@[m]));
        }
        assert(json_view(jarr)->Arr_0 =~= x.deep_view().external_crates.map_values(|e: crate::schema::ExternalCrateDataV| external_crate_jv(e)));
        assert(json_view(jarr) == JsonV::Arr(x.deep_view().external_crates.map_values(|e: crate::schema::ExternalCrateDataV| external_crate_jv(e))));
    }
    let mut ms: Vec<(String, Json)> = Vec::new();
    ms.push((String::from_str("crate_name"), Json::Str(x.crate_name.clone())));
    ms.push((String::from_str("crate_root"), Json::Str(x.crate_root.clone())));
    ms.push((String::from_str("external_crates"), jarr));
    ms.push((String::from_str("span"), span_to_json(&x.span)));
    let j = Json::Obj(ms);
    proof {
        assert(ms@[0].0@ == "crate_name"@);
        assert(ms@[0].1 == Json::Str(x.crate_name));
        assert(json_view(ms@[0].1) == JsonV::Str(x.crate_name@));
        assert(json_view(j)->Obj_0[0] == (ms@[0].0@, json_view(ms@[0].1)));
        assert(ms@[1].0@ == "crate_root"@);
        assert(ms@[1].1 == Json::Str(x.crate_root));
        assert(json_view(ms@[1].1) == JsonV::Str(x.crate_root@));
        assert(json_view(j)->Obj_0[1] == (ms@[1].0@, json_view(ms@[1].1)));
        assert(ms@[2].0@ == "external_crates"@);
        assert(json_view(ms@[2].1) == JsonV::Arr(x.deep_view().external_crates.map_values(|e: crate::schema::ExternalCrateDataV| external_crate_jv(e))));
        assert(json_view(j)->Obj_0[2] == (ms@[2].0@, json_view(ms@[2].1)));
        assert(ms@[3].0@ == "span"@);
        assert(json_view(ms@[3].1) == span_jv(x.span.deep_view()));
        assert(json_view(j)->Obj_0[3] == (ms@[3].0@, json_view(ms@[3].1)));
        assert(json_view(j)->Obj_0 =~= prelude_jv(x.deep_view())->Obj_0);
    }
    j
}

fn opt_prelude_to_json(x: &Option<CratePreludeData>) -> (j: Json)
    ensures
        json_view(j) == opt_prelude_jv(x.deep_view()),
{
    match x {
        Some(p) => prelude_to_json(p),
        None => Json::Null,
    }
}

fn import_to_json(x: &Import) -> (j: Json)
    ensures
        json_view(j) == import_jv(x.deep_view()),
{
    let mut ms: Vec<(String, Json)> = Vec::new();
    ms.push((String::from_str("kind"), import_kind_to_json(&x.kind)));
    ms.push((String::from_str("ref_id"), opt_id_to_json(&x.ref_id)));
    ms.push((String::from_str("span"), span_to_json(&x.span)));
    ms.push((String::from_str("name"), Json::Str(x.name.clone())));
    ms.push((String::from_str("value"), Json::Str(x.value.clone())));
    let j = Json::Obj(ms);
    proof {
        assert(ms@[0].0@ == "kind"@);
        assert(json_view(ms@[0].1) == import_kind_jv(x.kind));
        assert(json_view(j)->Obj_0[0] == (ms@[0].0@, json_view(ms@[0].1)));
        assert(ms@[1].0@ == "ref_id"@);
        assert(json_view(ms@[1].1) == opt_id_jv(x.ref_id));
        assert(json_view(j)->Obj_0[1] == (ms@[1].0@, json_view(ms@[1].1)));
        assert(ms@[2].0@ == "span"@);
        assert(json_view(ms@[2].1) == span_jv(x.span.deep_view()));
        assert(json_view(j)->Obj_0[2] == (ms@[2].0@, json_view(ms@[2].1)));
        assert(ms@[3].0@ == "name"@);
        assert(ms@[3].1 == Json::Str(x.name));
        assert(json_view(ms@[3].1) == JsonV::Str(x.name@));
        assert(json_view(j)->Obj_0[3] == (ms@[3].0@, json_view(ms@[3].1)));
        assert(ms@[4].0@ == "value"@);
        assert(ms@[4].1 == Json::Str(x.value));
        assert(json_view(ms@[4].1) == JsonV::Str(x.value@));
        assert(json_view(j)->Obj_0[4] == (ms@[4].0@, json_view(ms@[4].1)));
        assert(json_view(j)->Obj_0 =~= import_jv(x.deep_view())->Obj_0);
    }
    j
}

fn attribute_to_json(x: &Attribute) -> (j: Json)
    ensures
        json_view(j) == attribute_jv(x.deep_view()),
{
    let mut ms: Vec<(String, Json)> = Vec::new();
    ms.push((String::from_str("value"), Json::Str(x.value.clone())));
    ms.push((String::from_str("span"), span_to_json(&x.span)));
    let j = Json::Obj(ms);
    proof {
        assert(ms@[0].0@ == "value"@);
        assert(ms@[0].1 == Json::Str(x.value));
        assert(json_view(ms@[0].1) == JsonV::Str(x.value@));
        assert(json_view(j)->Obj_0[0] == (ms@[0].0@, json_view(ms@[0].1)));
        assert(ms@[1].0@ == "span"@);
        assert(json_view(ms@[1].1) == span_jv(x.span.deep_view()));
        assert(json_view(j)->Obj_0[1] == (ms@[1].0@, json_view(ms@[1].1)));
        assert(json_view(j)->Obj_0 =~= attribute_jv(x.deep_view())->Obj_0);
    }
    j
}

fn sig_element_to_json(x: &SigElement) -> (j: Json)
    ensures
        json_view(j) == sig_element_jv(*x),
{
    let mut ms: Vec<(String, Json)> = Vec::new();
    ms.push((String::from_str("id"), id_to_json(&x.id)));
    ms.push((String::from_str("start"), Json::Num(x.start as u64)));
    ms.push((String::from_str("end"), Json::Num(x.end as u64)));
    let j = Json::Obj(ms);
    proof {
        assert(ms@[0].0@ == "id"@);
        assert(json_view(ms@[0].1) == id_jv(x.id));
        assert(json_view(j)->Obj_0[0] == (ms@[0].0@, json_view(ms@[0].1)));
        assert(ms@[1].0@ == "start"@);
        assert(ms@[1].1 == Json::Num(x.start as u64));
        assert(json_view(ms@[1].1) == JsonV::Num(x.start as u64));
        assert(json_view(j)->Obj_0[1] == (ms@[1].0@, json_view(ms@[1].1)));
        assert(ms@[2].0@ == "end"@);
        assert(ms@[2].1 == Json::Num(x.end as u64));
        assert(json_view(ms@[2].1) == JsonV::Num(x.end as u64));
        assert(json_view(j)->Obj_0[2] == (ms@[2].0@, json_view(ms@[2].1)));
        assert(json_view(j)->Obj_0 =~= sig_element_jv(*x)->Obj_0);
    }
    j
}

fn sig_elements_to_json(xs: &Vec<SigElement>) -> (j: Json)
    ensures
        json_view(j) == JsonV::Arr(xs.deep_view().map_values(|e: SigElement| sig_element_jv(e))),
{
    let mut arr: Vec<Json> = Vec::new();
    let mut k: usize = 0;
    while k < xs.len()
        invariant
            0 <= k <= xs@.len(),
            arr@.len() == k,
            forall|m: int|
                0 <= m < k ==> json_view(#[trigger] arr@[m]) == sig_element_jv(xs@[m]),
        decreases xs@.len() - k,
    {
        arr.push(sig_element_to_json(&xs[k]));
        k = k + 1;
    }
    let j = Json::Arr(arr);
    proof {
        assert forall|m: int| 0 <= m < json_view(j)->Arr_0.len() implies json_view(
            j,
        )->Arr_0[m] == xs.deep_view().map_values(|e: SigElement| sig_element_jv(e))[m] by {
            assert(json_view(j)->Arr_0[m] == json_view(arr@[m]));
        }
        assert(json_view(j)->Arr_0 =~= xs.deep_view().map_values(|e: SigElement| sig_element_jv(e)));
        assert(json_view(j) == JsonV::Arr(xs.deep_view().map_values(|e: SigElement| sig_element_jv(e))));
    }
    j
}

fn signature_to_json(x: &Signature) -> (j: Json)
    ensures
        json_view(j) == signature_jv(x.deep_view()),
{
    let mut ms: Vec<(String, Json)> = Vec::new();
    ms.push((String::from_str("span"), span_to_json(&x.span)));
    ms.push((String::from_str("text"), Json::Str(x.text.clone())));
    ms.push((String::from_str("ident_start"), Json::Num(x.ident_start as u64)));
    ms.push((String::from_str("ident_end"), Json::Num(x.ident_end as u64)));
    ms.push((String::from_str("defs"), sig_elements_to_json(&x.defs)));
    ms.push((String::from_str("refs"), sig_elements_to_json(&x.refs)));
    let j = Json::Obj(ms);
    proof {
        assert(ms@[0].0@ == "span"@);
        assert(json_view(ms@[0].1) == span_jv(x.span.deep_view()));
        assert(json_view(j)->Obj_0[0] == (ms@[0].0@, json_view(ms@[0].1)));
        assert(ms@[1].0@ == "text"@);
        assert(ms@[1].1 == Json::Str(x.text));
        assert(json_view(ms@[1].1) == JsonV::Str(x.text@));
        assert(json_view(j)->Obj_0[1] == (ms@[1].0@, json_view(ms@[1].1)));
        assert(ms@[2].0@ == "ident_start"@);
        assert(ms@[2].1 == Json::Num(x.ident_start as u64));
        assert(json_view(ms@[2].1) == JsonV::Num(x.ident_start as u64));
        assert(json_view(j)->Obj_0[2] == (ms@[2].0@, json_view(ms@[2].1)));
        assert(ms@[3].0@ == "ident_end"@);
        assert(ms@[3].1 == Json::Num(x.ident_end as u64));
        assert(json_view(ms@[3].1) == JsonV::Num(x.ident_end as u64));
        assert(json_view(j)->Obj_0[3] == (ms@[3].0@, json_view(ms@[3].1)));
        assert(ms@[4].0@ == "defs"@);
        assert(json_view(ms@[4].1) == JsonV::Arr(x.defs.deep_view().map_values(|e: SigElement| sig_element_jv(e))));
        assert(json_view(j)->Obj_0[4] == (ms@[4].0@, json_view(ms@[4].1)));
        assert(ms@[5].0@ == "refs"@);
        assert(json_view(ms@[5].1) == JsonV::Arr(x.refs.deep_view().map_values(|e: SigElement| sig_element_jv(e))));
        assert(json_view(j)->Obj_0[5] == (ms@[5].0@, json_view(ms@[5].1)));
        assert(json_view(j)->Obj_0 =~= signature_jv(x.deep_view())->Obj_0);
    }
    j
}

fn opt_signature_to_json(x: &Option<Signature>) -> (j: Json)
    ensures
        json_view(j) == opt_signature_jv(x.deep_view()),
{
    match x {
        Some(g) => signature_to_json(g),
        None => Json::Null,
    }
}

fn def_to_json(x: &Def) -> (j: Json)
    ensures
        json_view(j) == def_jv(x.deep_view()),
{
    let mut children: Vec<Json> = Vec::new();
    let mut k: usize = 0;
    while k < x.children.len()
        invariant
            0 <= k <= x.children@.len(),
            children@.len() == k,
            forall|m: int|
                0 <= m < k ==> json_view(#[trigger] children@[m]) == id_jv(x.children@[m]),
        decreases x.children@.len() - k,
    {
        children.push(id_to_json(&x.children[k]));
        k = k + 1;
    }
    let jchildren = Json::Arr(children);
    proof {
        assert forall|m: int| 0 <= m < json_view(jchildren)->Arr_0.len() implies json_view(
            jchildren,
        )->Arr_0[m] == x.deep_view().children.map_values(|e: Id| id_jv(e))[m] by {
            assert(json_view(jchildren)->Arr_0[m] == json_view(children@[m]));
        }
        assert(json_view(jchildren)->Arr_0 =~= x.deep_view().children.map_values(|e: Id| id_jv(e)));
        assert(json_view(jchildren) == JsonV::Arr(x.deep_view().children.map_values(|e: Id| id_jv(e))));
    }
    let mut attrs: Vec<Json> = Vec::new();
    let mut k2: usize = 0;
    while k2 < x.attributes.len()
        invariant
            0 <= k2 <= x.attributes@.len(),
            attrs@.len() == k2,
            forall|m: int|
                0 <= m < k2 ==> json_view(#[trigger] attrs@[m]) == attribute_jv(
                    x.attributes@[m].deep_view(),
                ),
        decreases x.attributes@.len() - k2,
    {
        attrs.push(attribute_to_json(&x.attributes[k2]));
        k2 = k2 + 1;
    }
    let jattrs = Json::Arr(attrs);
    proof {
        assert forall|m: int| 0 <= m < json_view(jattrs)->Arr_0.len() implies json_view(
            jattrs,
        )->Arr_0[m] == x.deep_view().attributes.map_values(|e: crate::schema::AttributeV| attribute_jv(e))[m] by {
            assert(json_view(jattrs)->Arr_0[m] == json_view(attrs@[m]));
        }
        assert(json_view(jattrs)->Arr_0 =~= x.deep_view().attributes.map_values(|e: crate::schema::AttributeV| attribute_jv(e)));
        assert(json_view(jattrs) == JsonV::Arr(x.deep_view().attributes.map_values(|e: crate::schema::AttributeV| attribute_jv(e))));
    }
    let mut ms: Vec<(String, Json)> = Vec::new();
    ms.push((String::from_str("kind"), def_kind_to_json(&x.kind)));
    ms.push((String::from_str("id"), id_to_json(&x.id)));
    ms.push((String::from_str("span"), span_to_json(&x.span)));
    ms.push((String::from_str("name"), Json::Str(x.name.clone())));
    ms.push((String::from_str("qualname"), Json::Str(x.qualname.clone())));
    ms.push((String::from_str("value"), Json::Str(x.value.clone())));
    ms.push((String::from_str("parent"), opt_id_to_json(&x.parent)));
    ms.push((String::from_str("children"), jchildren));
    ms.push((String::from_str("decl_id"), opt_id_to_json(&x.decl_id)));
    ms.push((String::from_str("docs"), Json::Str(x.docs.clone())));
    ms.push((String::from_str("sig"), opt_signature_to_json(&x.sig)));
    ms.push((String::from_str("attributes"), jattrs));
    let j = Json::Obj(ms);
    proof {
        assert(ms@[0].0@ == "kind"@);
        assert(json_view(ms@[0].1) == def_kind_jv(x.kind));
        assert(json_view(j)->Obj_0[0] == (ms@[0].0@, json_view(ms@[0].1)));
        assert(ms@[1].0@ == "id"@);
        assert(json_view(ms@[1].1) == id_jv(x.id));
        assert(json_view(j)->Obj_0[1] == (ms@[1].0@, json_view(ms@[1].1)));
        assert(ms@[2].0@ == "span"@);
        assert(json_view(ms@[2].1) == span_jv(x.span.deep_view()));
        assert(json_view(j)->Obj_0[2] == (ms@[2].0@, json_view(ms@[2].1)));
        assert(ms@[3].0@ == "name"@);
        assert(ms@[3].1 == Json::Str(x.name));
        assert(json_view(ms@[3].1) == JsonV::Str(x.name@));
        assert(json_view(j)->Obj_0[3] == (ms@[3].0@, json_view(ms@[3].1)));
        assert(ms@[4].0@ == "qualname"@);
        assert(ms@[4].1 == Json::Str(x.qualname));
        assert(json_view(ms@[4].1) == JsonV::Str(x.qualname@));
        assert(json_view(j)->Obj_0[4] == (ms@[4].0@, json_view(ms@[4].1)));
        assert(ms@[5].0@ == "value"@);
        assert(ms@[5].1 == Json::Str(x.value));
        assert(json_view(ms@[5].1) == JsonV::Str(x.value@));
        assert(json_view(j)->Obj_0[5] == (ms@[5].0@, json_view(ms@[5].1)));
        assert(ms@[6].0@ == "parent"@);
        assert(json_view(ms@[6].1) == opt_id_jv(x.parent));
        assert(json_view(j)->Obj_0[6] == (ms@[6].0@, json_view(ms@[6].1)));
        assert(ms@[7].0@ == "children"@);
        assert(json_view(ms@[7].1) == JsonV::Arr(x.deep_view().children.map_values(|e: Id| id_jv(e))));
        assert(json_view(j)->Obj_0[7] == (ms@[7].0@, json_view(ms@[7].1)));
        assert(ms@[8].0@ == "decl_id"@);
        assert(json_view(ms@[8].1) == opt_id_jv(x.decl_id));
        assert(json_view(j)->Obj_0[8] == (ms@[8].0@, json_view(ms@[8].1)));
        assert(ms@[9].0@ == "docs"@);
        assert(ms@[9].1 == Json::Str(x.docs));
        assert(json_view(ms@[9].1) == JsonV::Str(x.docs@));
        assert(json_view(j)->Obj_0[9] == (ms@[9].0@, json_view(ms@[9].1)));
        assert(ms@[10].0@ == "sig"@);
        assert(json_view(ms@[10].1) == opt_signature_jv(x.sig.deep_view()));
        assert(json_view(j)->Obj_0[10] == (ms@[10].0@, json_view(ms@[10].1)));
        assert(ms@[11].0@ == "attributes"@);
        assert(json_view(ms@[11].1) == JsonV::Arr(x.deep_view().attributes.map_values(|e: crate::schema::AttributeV| attribute_jv(e))));
        assert(json_view(j)->Obj_0[11] == (ms@[11].0@, json_view(ms@[11].1)));
        assert(json_view(j)->Obj_0 =~= def_jv(x.deep_view())->Obj_0);
    }
    j
}

fn ref_to_json(x: &Ref) -> (j: Json)
    ensures
        json_view(j) == ref_jv(x.deep_view()),
{
    let mut ms: Vec<(String, Json)> = Vec::new();
    ms.push((String::from_str("kind"), ref_kind_to_json(&x.kind)));
    ms.push((String::from_str("span"), span_to_json(&x.span)));
    ms.push((String::from_str("ref_id"), id_to_json(&x.ref_id)));
    let j = Json::Obj(ms);
    proof {
        assert(ms@[0].0@ == "kind"@);
        assert(json_view(ms@[0].1) == ref_kind_jv(x.kind));
        assert(json_view(j)->Obj_0[0] == (ms@[0].0@, json_view(ms@[0].1)));
        assert(ms@[1].0@ == "span"@);
        assert(json_view(ms@[1].1) == span_jv(x.span.deep_view()));
        assert(json_view(j)->Obj_0[1] == (ms@[1].0@, json_view(ms@[1].1)));
        assert(ms@[2].0@ == "ref_id"@);
        assert(json_view(ms@[2].1) == id_jv(x.ref_id));
        assert(json_view(j)->Obj_0[2] == (ms@[2].0@, json_view(ms@[2].1)));
        assert(json_view(j)->Obj_0 =~= ref_jv(x.deep_view())->Obj_0);
    }
    j
}

fn macro_ref_to_json(x: &MacroRef) -> (j: Json)
    ensures
        json_view(j) == macro_ref_jv(x.deep_view()),
{
    let mut ms: Vec<(String, Json)> = Vec::new();
    ms.push((String::from_str("span"), span_to_json(&x.span)));
    ms.push((String::from_str("qualname"), Json::Str(x.qualname.clone())));
    ms.push((String::from_str("callee_span"), span_to_json(&x.callee_span)));
    let j = Json::Obj(ms);
    proof {
        assert(ms@[0].0@ == "span"@);
        assert(json_view(ms@[0].1) == span_jv(x.span.deep_view()));
        assert(json_view(j)->Obj_0[0] == (ms@[0].0@, json_view(ms@[0].1)));
        assert(ms@[1].0@ == "qualname"@);
        assert(ms@[1].1 == Json::Str(x.qualname));
        assert(json_view(ms@[1].1) == JsonV::Str(x.qualname@));
        assert(json_view(j)->Obj_0[1] == (ms@[1].0@, json_view(ms@[1].1)));
        assert(ms@[2].0@ == "callee_span"@);
        assert(json_view(ms@[2].1) == span_jv(x.callee_span.deep_view()));
        assert(json_view(j)->Obj_0[2] == (ms@[2].0@, json_view(ms@[2].1)));
        assert(json_view(j)->Obj_0 =~= macro_ref_jv(x.deep_view())->Obj_0);
    }
    j
}

fn relation_to_json(x: &Relation) -> (j: Json)
    ensures
        json_view(j) == relation_jv(x.deep_view()),
{
    let mut ms: Vec<(String, Json)> = Vec::new();
    ms.push((String::from_str("span"), span_to_json(&x.span)));
    ms.push((String::from_str("kind"), relation_kind_to_json(&x.kind)));
    ms.push((String::from_str("from"), id_to_json(&x.from)));
    ms.push((String::from_str("to"), id_to_json(&x.to)));
    let j = Json::Obj(ms);
    proof {
        assert(ms@[0].0@ == "span"@);
        assert(json_view(ms@[0].1) == span_jv(x.span.deep_view()));
        assert(json_view(j)->Obj_0[0] == (ms@[0].0@, json_view(ms@[0].1)));
        assert(ms@[1].0@ == "kind"@);
        assert(json_view(ms@[1].1) == relation_kind_jv(x.kind));
        assert(json_view(j)->Obj_0[1] == (ms@[1].0@, json_view(ms@[1].1)));
        assert(ms@[2].0@ == "from"@);
        assert(json_view(ms@[2].1) == id_jv(x.from));
        assert(json_view(j)->Obj_0[2] == (ms@[2].0@, json_view(ms@[2].1)));
        assert(ms@[3].0@ == "to"@);
        assert(json_view(ms@[3].1) == id_jv(x.to));
        assert(json_view(j)->Obj_0[3] == (ms@[3].0@, json_view(ms@[3].1)));
        assert(json_view(j)->Obj_0 =~= relation_jv(x.deep_view())->Obj_0);
    }
    j
}

fn analysis_to_json(x: &Analysis) -> (j: Json)
    ensures
        json_view(j) == analysis_jv(x.deep_view()),
{
    let mut imports: Vec<Json> = Vec::new();
    let mut k: usize = 0;
    while k < x.imports.len()
        invariant
            0 <= k <= x.imports@.len(),
            imports@.len() == k,
            forall|m: int|
                0 <= m < k ==> json_view(#[trigger] imports@[m]) == import_jv(
                    x.imports@[m].deep_view(),
                ),
        decreases x.imports@.len() - k,
    {
        imports.push(import_to_json(&x.imports[k]));
        k = k + 1;
    }
    let jimports = Json::Arr(imports);
    proof {
        assert forall|m: int| 0 <= m < json_view(jimports)->Arr_0.len() implies json_view(
            jimports,
        )->Arr_0[m] == x.deep_view().imports.map_values(|e: crate::schema::ImportV| import_jv(e))[m] by {
            assert(json_view(jimports)->Arr_0[m] == json_view(imports@[m]));
        }
        assert(json_view(jimports)->Arr_0 =~= x.deep_view().imports.map_values(|e: crate::schema::ImportV| import_jv(e)));
        assert(json_view(jimports) == JsonV::Arr(x.deep_view().imports.map_values(|e: crate::schema::ImportV| import_jv(e))));
    }
    let mut defs: Vec<Json> = Vec::new();
    let mut k2: usize = 0;
    while k2 < x.defs.len()
        invariant
            0 <= k2 <= x.defs@.len(),
            defs@.len() == k2,
            forall|m: int|
                0 <= m < k2 ==> json_view(#[trigger] defs@[m]) == def_jv(
                    x.defs@[m].deep_view(),
                ),
        decreases x.defs@.len() - k2,
    {
        defs.push(def_to_json(&x.defs[k2]));
        k2 = k2 + 1;
    }
    let jdefs = Json::Arr(defs);
    proof {
        assert forall|m: int| 0 <= m < json_view(jdefs)->Arr_0.len() implies json_view(
            jdefs,
        )->Arr_0[m] == x.deep_view().defs.map_values(|e: crate::schema::DefV| def_jv(e))[m] by {
            assert(json_view(jdefs)->Arr_0[m] == json_view(defs@[m]));
        }
        assert(json_view(jdefs)->Arr_0 =~= x.deep_view().defs.map_values(|e: crate::schema::DefV| def_jv(e)));
        assert(json_view(jdefs) == JsonV::Arr(x.deep_view().defs.map_values(|e: crate::schema::DefV| def_jv(e))));
    }
    let mut refs: Vec<Json> = Vec::new();
    let mut k3: usize = 0;
    while k3 < x.refs.len()
        invariant
            0 <= k3 <= x.refs@.len(),
            refs@.len() == k3,
            forall|m: int|
                0 <= m < k3 ==> json_view(#[trigger] refs@[m]) == ref_jv(
                    x.refs@[m].deep_view(),
                ),
        decreases x.refs@.len() - k3,
    {
        refs.push(ref_to_json(&x.refs[k3]));
        k3 = k3 + 1;
    }
    let jrefs = Json::Arr(refs);
    proof {
        assert forall|m: int| 0 <= m < json_view(jrefs)->Arr_0.len() implies json_view(
            jrefs,
        )->Arr_0[m] == x.deep_view().refs.map_values(|e: crate::schema::RefV| ref_jv(e))[m] by {
            assert(json_view(jrefs)->Arr_0[m] == json_view(refs@[m]));
        }
        assert(json_view(jrefs)->Arr_0 =~= x.deep_view().refs.map_values(|e: crate::schema::RefV| ref_jv(e)));
        assert(json_view(jrefs) == JsonV::Arr(x.deep_view().refs.map_values(|e: crate::schema::RefV| ref_jv(e))));
    }
    let mut macro_refs: Vec<Json> = Vec::new();
    let mut k4: usize = 0;
    while k4 < x.macro_refs.len()
        invariant
            0 <= k4 <= x.macro_refs@.len(),
            macro_refs@.len() == k4,
            forall|m: int|
                0 <= m < k4 ==> json_view(#[trigger] macro_refs@[m]) == macro_ref_jv(
                    x.macro_refs@[m].deep_view(),
                ),
        decreases x.macro_refs@.len() - k4,
    {
        macro_refs.push(macro_ref_to_json(&x.macro_refs[k4]));
        k4 = k4 + 1;
    }
    let jmacro_refs = Json::Arr(macro_refs);
    proof {
        assert forall|m: int| 0 <= m < json_view(jmacro_refs)->Arr_0.len() implies json_view(
            jmacro_refs,
        )->Arr_0[m] == x.deep_view().macro_refs.map_values(|e: crate::schema::MacroRefV| macro_ref_jv(e))[m] by {
            assert(json_view(jmacro_refs)->Arr_0[m] == json_view(macro_refs@[m]));
        }
        assert(json_view(jmacro_refs)->Arr_0 =~= x.deep_view().macro_refs.map_values(|e: crate::schema::MacroRefV| macro_ref_jv(e)));
        assert(json_view(jmacro_refs) == JsonV::Arr(x.deep_view().macro_refs.map_values(|e: crate::schema::MacroRefV| macro_ref_jv(e))));
    }
    let mut relations: Vec<Json> = Vec::new();
    let mut k5: usize = 0;
    while k5 < x.relations.len()
        invariant
            0 <= k5 <= x.relations@.len(),
            relations@.len() == k5,
            forall|m: int|
                0 <= m < k5 ==> json_view(#[trigger] relations@[m]) == relation_jv(
                    x.relations@[m].deep_view(),
                ),
        decreases x.relations@.len() - k5,
    {
        relations.push(relation_to_json(&x.relations[k5]));
        k5 = k5 + 1;
    }
    let jrelations = Json::Arr(relations);
    proof {
        assert forall|m: int| 0 <= m < json_view(jrelations)->Arr_0.len() implies json_view(
            jrelations,
        )->Arr_0[m] == x.deep_view().relations.map_values(|e: crate::schema::RelationV| relation_jv(e))[m] by {
            assert(json_view(jrelations)->Arr_0[m] == json_view(relations@[m]));
        }
        assert(json_view(jrelations)->Arr_0 =~= x.deep_view().relations.map_values(|e: crate::schema::RelationV| relation_jv(e)));
        assert(json_view(jrelations) == JsonV::Arr(x.deep_view().relations.map_values(|e: crate::schema::RelationV| relation_jv(e))));
    }
    let mut ms: Vec<(String, Json)> = Vec::new();
    ms.push((String::from_str("kind"), format_to_json(&x.kind)));
    ms.push((String::from_str("prelude"), opt_prelude_to_json(&x.prelude)));
    ms.push((String::from_str("imports"), jimports));
    ms.push((String::from_str("defs"), jdefs));
    ms.push((String::from_str("refs"), jrefs));
    ms.push((String::from_str("macro_refs"), jmacro_refs));
    ms.push((String::from_str("relations"), jrelations));
    let j = Json::Obj(ms);
    proof {
        assert(ms@[0].0@ == "kind"@);
        assert(json_view(ms@[0].1) == format_jv(x.kind));
        assert(json_view(j)->Obj_0[0] == (ms@[0].0@, json_view(ms@[0].1)));
        assert(ms@[1].0@ == "prelude"@);
        assert(json_view(ms@[1].1) == opt_prelude_jv(x.prelude.deep_view()));
        assert(json_view(j)->Obj_0[1] == (ms@[1].0@, json_view(ms@[1].1)));
        assert(ms@[2].0@ == "imports"@);
        assert(json_view(ms@[2].1) == JsonV::Arr(x.deep_view().imports.map_values(|e: crate::schema::ImportV| import_jv(e))));
        assert(json_view(j)->Obj_0[2] == (ms@[2].0@, json_view(ms@[2].1)));
        assert(ms@[3].0@ == "defs"@);
        assert(json_view(ms@[3].1) == JsonV::Arr(x.deep_view().defs.map_values(|e: crate::schema::DefV| def_jv(e))));
        assert(json_view(j)->Obj_0[3] == (ms@[3].0@, json_view(ms@[3].1)));
        assert(ms@[4].0@ == "refs"@);
        assert(json_view(ms@[4].1) == JsonV::Arr(x.deep_view().refs.map_values(|e: crate::schema::RefV| ref_jv(e))));
        assert(json_view(j)->Obj_0[4] == (ms@[4].0@, json_view(ms@[4].1)));
        assert(ms@[5].0@ == "macro_refs"@);
        assert(json_view(ms@[5].1) == JsonV::Arr(x.deep_view().macro_refs.map_values(|e: crate::schema::MacroRefV| macro_ref_jv(e))));
        assert(json_view(j)->Obj_0[5] == (ms@[5].0@, json_view(ms@[5].1)));
        assert(ms@[6].0@ == "relations"@);
        assert(json_view(ms@[6].1) == JsonV::Arr(x.deep_view().relations.map_values(|e: crate::schema::RelationV| relation_jv(e))));
        assert(json_view(j)->Obj_0[6] == (ms@[6].0@, json_view(ms@[6].1)));
        assert(json_view(j)->Obj_0 =~= analysis_jv(x.deep_view())->Obj_0);
    }
    j
}

// ---------------------------------------------------------------------
// document tree -> schema value
// ---------------------------------------------------------------------
/// Why a document failed to decode: the path of the field at which the
/// first structural violation was found.
#[derive(Debug, Clone, PartialEq, Eq)]
pub struct DecodeError {
    pub path: String,
}

fn err_at(field: &str) -> (e: DecodeError) {
    DecodeError { path: String::from_str(field) }
}

fn err_in(field: &str, e: DecodeError) -> (r: DecodeError) {
    let mut p = String::from_str(field);
    p.append(".");
    p.append(e.path.as_str());
    DecodeError { path: p }
}

fn err_idx(field: &str, k: usize, e: DecodeError) -> (r: DecodeError) {
    let mut buf: Vec<char> = Vec::new();
    crate::json::write_num(k as u64, &mut buf);
    let ks = chars_to_string(buf);
    let mut p = String::from_str(field);
    p.append("[");
    p.append(ks.as_str());
    p.append("].");
    p.append(e.path.as_str());
    DecodeError { path: p }
}

/// A document value is `null` exactly when the tree value is.
proof fn lemma_view_null(j: Json)
    ensures
        (json_view(j) is Null) == (j is Null),
{
    match j {
        Json::Null => {},
        Json::Num(..) => {},
        Json::Str(..) => {},
        Json::Arr(..) => {},
        Json::Obj(..) => {},
    }
}

fn get_str(j: &Json) -> (r: Option<String>)
    ensures
        match r {
            Some(s) => jv_str(json_view(*j)) == Some(s@),
            None => jv_str(json_view(*j)) is None,
        },
{
    match j {
        Json::Str(s) => Some(s.clone()),
        _ => None,
    }
}

fn get_u32(j: &Json) -> (r: Option<u32>)
    ensures
        match r {
            Some(n) => jv_u32(json_view(*j)) == Some(n),
            None => jv_u32(json_view(*j)) is None,
        },
{
    match j {
        Json::Num(n) => if *n <= u32::MAX as u64 {
            Some(*n as u32)
        } else {
            None
        },
        _ => None,
    }
}

fn get_usize(j: &Json) -> (r: Option<usize>)
    ensures
        match r {
            Some(n) => jv_usize(json_view(*j)) == Some(n),
            None => jv_usize(json_view(*j)) is None,
        },
{
    match j {
        Json::Num(n) => if *n <= usize::MAX as u64 {
            Some(*n as usize)
        } else {
            None
        },
        _ => None,
    }
}

fn format_from_json(j: &Json) -> (r: Result<Format, DecodeError>)
    ensures
        match r {
            Ok(x) => jv_format(json_view(*j)) == Some(x),
            Err(e) => jv_format(json_view(*j)) is None,
        },
{
    match j {
        Json::Str(s) => {
            if str_eq(s.as_str(), "Csv") {
                Ok(Format::Csv)
            } else if str_eq(s.as_str(), "Json") {
                Ok(Format::Json)
            } else if str_eq(s.as_str(), "JsonApi") {
                Ok(Format::JsonApi)
            } else {
                Err(err_at("format"))
            }
        },
        _ => Err(err_at("format")),
    }
}

fn import_kind_from_json(j: &Json) -> (r: Result<ImportKind, DecodeError>)
    ensures
        match r {
            Ok(x) => jv_import_kind(json_view(*j)) == Some(x),
            Err(e) => jv_import_kind(json_view(*j)) is None,
        },
{
    match j {
        Json::Str(s) => {
            if str_eq(s.as_str(), "ExternCrate") {
                Ok(ImportKind::ExternCrate)
            } else if str_eq(s.as_str(), "Use") {
                Ok(ImportKind::Use)
            } else if str_eq(s.as_str(), "GlobUse") {
                Ok(ImportKind::GlobUse)
            } else {
                Err(err_at("import_kind"))
            }
        },
        _ => Err(err_at("import_kind")),
    }
}

fn def_kind_from_json(j: &Json) -> (r: Result<DefKind, DecodeError>)
    ensures
        match r {
            Ok(x) => jv_def_kind(json_view(*j)) == Some(x),
            Err(e) => jv_def_kind(json_view(*j)) is None,
        },
{
    match j {
        Json::Str(s) => {
            if str_eq(s.as_str(), "Enum") {
                Ok(DefKind::Enum)
            } else if str_eq(s.as_str(), "Tuple") {
                Ok(DefKind::Tuple)
            } else if str_eq(s.as_str(), "Struct") {
                Ok(DefKind::Struct)
            } else if str_eq(s.as_str(), "Union") {
                Ok(DefKind::Union)
            } else if str_eq(s.as_str(), "Trait") {
                Ok(DefKind::Trait)
            } else if str_eq(s.as_str(), "Function") {
                Ok(DefKind::Function)
            } else if str_eq(s.as_str(), "Method") {
                Ok(DefKind::Method)
            } else if str_eq(s.as_str(), "Macro") {
                Ok(DefKind::Macro)
            } else if str_eq(s.as_str(), "Mod") {
                Ok(DefKind::Mod)
            } else if str_eq(s.as_str(), "Type") {
                Ok(DefKind::Type)
            } else if str_eq(s.as_str(), "Local") {
                Ok(DefKind::Local)
            } else if str_eq(s.as_str(), "Static") {
                Ok(DefKind::Static)
            } else if str_eq(s.as_str(), "Const") {
                Ok(DefKind::Const)
            } else if str_eq(s.as_str(), "Field") {
                Ok(DefKind::Field)
            } else {
                Err(err_at("def_kind"))
            }
        },
        _ => Err(err_at("def_kind")),
    }
}

fn ref_kind_from_json(j: &Json) -> (r: Result<RefKind, DecodeError>)
    ensures
        match r {
            Ok(x) => jv_ref_kind(json_view(*j)) == Some(x),
            Err(e) => jv_ref_kind(json_view(*j)) is None,
        },
{
    match j {
        Json::Str(s) => {
            if str_eq(s.as_str(), "Function") {
                Ok(RefKind::Function)
            } else if str_eq(s.as_str(), "Mod") {
                Ok(RefKind::Mod)
            } else if str_eq(s.as_str(), "Type") {
                Ok(RefKind::Type)
            } else if str_eq(s.as_str(), "Variable") {
                Ok(RefKind::Variable)
            } else {
                Err(err_at("ref_kind"))
            }
        },
        _ => Err(err_at("ref_kind")),
    }
}

fn relation_kind_from_json(j: &Json) -> (r: Result<RelationKind, DecodeError>)
    ensures
        match r {
            Ok(x) => jv_relation_kind(json_view(*j)) == Some(x),
            Err(e) => jv_relation_kind(json_view(*j)) is None,
        },
{
    match j {
        Json::Str(s) => {
            if str_eq(s.as_str(), "Impl") {
                Ok(RelationKind::Impl)
            } else if str_eq(s.as_str(), "SuperTrait") {
                Ok(RelationKind::SuperTrait)
            } else {
                Err(err_at("relation_kind"))
            }
        },
        _ => Err(err_at("relation_kind")),
    }
}

fn id_from_json(j: &Json) -> (r: Result<Id, DecodeError>)
    ensures
        match r {
            Ok(x) => jv_id(json_view(*j)) == Some(x.deep_view()),
            Err(e) => jv_id(json_view(*j)) is None,
        },
{
    let ms = match j {
        Json::Obj(v) => v,
        _ => {
            return Err(err_at("id"));
        },
    };
    proof {
        assert(json_view(*j)->Obj_0.len() == ms@.len());
        assert forall|m: int| 0 <= m < ms@.len() implies json_view(*j)->Obj_0[m] == (
            ms@[m].0@,
            json_view(ms@[m].1),
        ) by {
            assert(json_view(*j)->Obj_0[m] == (ms@[m].0@, json_view(ms@[m].1)));
        }
    }
    if ms.len() != 2 {
        return Err(err_at("id"));
    }
    if !str_eq(ms[0].0.as_str(), "krate") {
        return Err(err_at("krate"));
    }
    let f_krate = match get_u32(&ms[0].1) {
        Some(v) => v,
        None => {
            return Err(err_at("krate"));
        },
    };
    if !str_eq(ms[1].0.as_str(), "index") {
        return Err(err_at("index"));
    }
    let f_index = match get_u32(&ms[1].1) {
        Some(v) => v,
        None => {
            return Err(err_at("index"));
        },
    };
    let x = Id { krate: f_krate, index: f_index };
    proof {
        assert(json_view(*j)->Obj_0.len() == ms@.len());
        assert forall|m: int| 0 <= m < ms@.len() implies json_view(*j)->Obj_0[m] == (
            ms@[m].0@,
            json_view(ms@[m].1),
        ) by {
            assert(json_view(*j)->Obj_0[m] == (ms@[m].0@, json_view(ms@[m].1)));
        }
        assert(jv_id(json_view(*j)) is Some);
        assert(jv_id(json_view(*j))->Some_0 =~= x.deep_view());
    }
    Ok(x)
}

fn opt_id_from_json(j: &Json) -> (r: Result<Option<Id>, DecodeError>)
    ensures
        match r {
            Ok(x) => jv_opt_id(json_view(*j)) == Some(x),
            Err(e) => jv_opt_id(json_view(*j)) is None,
        },
{
    match j {
        Json::Null => Ok(None),
        _ => {
            proof {
                lemma_view_null(*j);
            }
            match id_from_json(j) {
                Ok(i) => Ok(Some(i)),
                Err(e) => Err(e),
            }
        },
    }
}

fn span_from_json(j: &Json) -> (r: Result<SpanData, DecodeError>)
    ensures
        match r {
            Ok(x) => jv_span(json_view(*j)) == Some(x.deep_view()),
            Err(e) => jv_span(json_view(*j)) is None,
        },
{
    let ms = match j {
        Json::Obj(v) => v,
        _ => {
            return Err(err_at("span"));
        },
    };
    proof {
        assert(json_view(*j)->Obj_0.len() == ms@.len());
        assert forall|m: int| 0 <= m < ms@.len() implies json_view(*j)->Obj_0[m] == (
            ms@[m].0@,
            json_view(ms@[m].1),
        ) by {
            assert(json_view(*j)->Obj_0[m] == (ms@[m].0@, json_view(ms@[m].1)));
        }
    }
    if ms.len() != 7 {
        return Err(err_at("span"));
    }
    if !str_eq(ms[0].0.as_str(), "file_name") {
        return Err(err_at("file_name"));
    }
    let f_file_name = match get_str(&ms[0].1) {
        Some(v) => v,
        None => {
            return Err(err_at("file_name"));
        },
    };
    if !str_eq(ms[1].0.as_str(), "byte_start") {
        return Err(err_at("byte_start"));
    }
    let f_byte_start = match get_u32(&ms[1].1) {
        Some(v) => v,
        None => {
            return Err(err_at("byte_start"));
        },
    };
    if !str_eq(ms[2].0.as_str(), "byte_end") {
        return Err(err_at("byte_end"));
    }
    let f_byte_end = match get_u32(&ms[2].1) {
        Some(v) => v,
        None => {
            return Err(err_at("byte_end"));
        },
    };
    if !str_eq(ms[3].0.as_str(), "line_start") {
        return Err(err_at("line_start"));
    }
    let f_line_start = match get_u32(&ms[3].1) {
        Some(v) => v,
        None => {
            return Err(err_at("line_start"));
        },
    };
    if !str_eq(ms[4].0.as_str(), "line_end") {
        return Err(err_at("line_end"));
    }
    let f_line_end = match get_u32(&ms[4].1) {
        Some(v) => v,
        None => {
            return Err(err_at("line_end"));
        },
    };
    if !str_eq(ms[5].0.as_str(), "column_start") {
        return Err(err_at("column_start"));
    }
    let f_column_start = match get_u32(&ms[5].1) {
        Some(v) => v,
        None => {
            return Err(err_at("column_start"));
        },
    };
    if !str_eq(ms[6].0.as_str(), "column_end") {
        return Err(err_at("column_end"));
    }
    let f_column_end = match get_u32(&ms[6].1) {
        Some(v) => v,
        None => {
            return Err(err_at("column_end"));
        },
    };
    let x = SpanData { file_name: f_file_name, byte_start: f_byte_start, byte_end: f_byte_end, line_start: f_line_start, line_end: f_line_end, column_start: f_column_start, column_end: f_column_end };
    proof {
        assert(json_view(*j)->Obj_0.len() == ms@.len());
        assert forall|m: int| 0 <= m < ms@.len() implies json_view(*j)->Obj_0[m] == (
            ms@[m].0@,
            json_view(ms@[m].1),
        ) by {
            assert(json_view(*j)->Obj_0[m] == (ms@[m].0@, json_view(ms@[m].1)));
        }
        assert(jv_span(json_view(*j)) is Some);
        assert(jv_span(json_view(*j))->Some_0 =~= x.deep_view());
    }
    Ok(x)
}

fn external_crate_from_json(j: &Json) -> (r: Result<ExternalCrateData, DecodeError>)
    ensures
        match r {
            Ok(x) => jv_external_crate(json_view(*j)) == Some(x.deep_view()),
            Err(e) => jv_external_crate(json_view(*j)) is None,
        },
{
    let ms = match j {
        Json::Obj(v) => v,
        _ => {
            return Err(err_at("external_crate"));
        },
    };
    proof {
        assert(json_view(*j)->Obj_0.len() == ms@.len());
        assert forall|m: int| 0 <= m < ms@.len() implies json_view(*j)->Obj_0[m] == (
            ms@[m].0@,
            json_view(ms@[m].1),
        ) by {
            assert(json_view(*j)->Obj_0[m] == (ms@[m].0@, json_view(ms@[m].1)));
        }
    }
    if ms.len() != 3 {
        return Err(err_at("external_crate"));
    }
    if !str_eq(ms[0].0.as_str(), "name") {
        return Err(err_at("name"));
    }
    let f_name = match get_str(&ms[0].1) {
        Some(v) => v,
        None => {
            return Err(err_at("name"));
        },
    };
    if !str_eq(ms[1].0.as_str(), "num") {
        return Err(err_at("num"));
    }
    let f_num = match get_u32(&ms[1].1) {
        Some(v) => v,
        None => {
            return Err(err_at("num"));
        },
    };
    if !str_eq(ms[2].0.as_str(), "file_name") {
        return Err(err_at("file_name"));
    }
    let f_file_name = match get_str(&ms[2].1) {
        Some(v) => v,
        None => {
            return Err(err_at("file_name"));
        },
    };
    let x = ExternalCrateData { name: f_name, num: f_num, file_name: f_file_name };
    proof {
        assert(json_view(*j)->Obj_0.len() == ms@.len());
        assert forall|m: int| 0 <= m < ms@.len() implies json_view(*j)->Obj_0[m] == (
            ms@[m].0@,
            json_view(ms@[m].1),
        ) by {
            assert(json_view(*j)->Obj_0[m] == (ms@[m].0@, json_view(ms@[m].1)));
        }
        assert(jv_external_crate(json_view(*j)) is Some);
        assert(jv_external_crate(json_view(*j))->Some_0 =~= x.deep_view());
    }
    Ok(x)
}

fn prelude_from_json(j: &Json) -> (r: Result<CratePreludeData, DecodeError>)
    ensures
        match r {
            Ok(x) => jv_prelude(json_view(*j)) == Some(x.deep_view()),
            Err(e) => jv_prelude(json_view(*j)) is None,
        },
{
    let ms = match j {
        Json::Obj(v) => v,
        _ => {
            return Err(err_at("prelude"));
        },
    };
    proof {
        assert(json_view(*j)->Obj_0.len() == ms@.len());
        assert forall|m: int| 0 <= m < ms@.len() implies json_view(*j)->Obj_0[m] == (
            ms@[m].0@,
            json_view(ms@[m].1),
        ) by {
            assert(json_view(*j)->Obj_0[m] == (ms@[m].0@, json_view(ms@[m].1)));
        }
    }
    if ms.len() != 4 {
        return Err(err_at("prelude"));
    }
    if !str_eq(ms[0].0.as_str(), "crate_name") {
        return Err(err_at("crate_name"));
    }
    let f_crate_name = match get_str(&ms[0].1) {
        Some(v) => v,
        None => {
            return Err(err_at("crate_name"));
        },
    };
    if !str_eq(ms[1].0.as_str(), "crate_root") {
        return Err(err_at("crate_root"));
    }
    let f_crate_root = match get_str(&ms[1].1) {
        Some(v) => v,
        None => {
            return Err(err_at("crate_root"));
        },
    };
    if !str_eq(ms[2].0.as_str(), "external_crates") {
        return Err(err_at("external_crates"));
    }
    let arr_external_crates = match &ms[2].1 {
        Json::Arr(v) => v,
        _ => {
            return Err(err_at("external_crates"));
        },
    };
    let mut f_external_crates: Vec<ExternalCrateData> = Vec::new();
    let mut kk_external_crates: usize = 0;
    while kk_external_crates < arr_external_crates.len()
        invariant
            0 <= kk_external_crates <= arr_external_crates@.len(),
            f_external_crates@.len() == kk_external_crates,
            *j is Obj,
            (*j)->Obj_0@ == ms@,
            ms@[2].1 is Arr,
            ms@[2].1->Arr_0@ == arr_external_crates@,
            json_view(ms@[2].1)->Arr_0.len() == arr_external_crates@.len(),
            forall|m: int|
                0 <= m < arr_external_crates@.len() ==> json_view(ms@[2].1)->Arr_0[m] == json_view(
                    #[trigger] arr_external_crates@[m],
                ),
            forall|m: int|
                0 <= m < kk_external_crates ==> jv_external_crate(json_view(#[trigger] arr_external_crates@[m])) == Some(
                    f_external_crates@[m].deep_view(),
                ),
        decreases arr_external_crates@.len() - kk_external_crates,
    {
        match external_crate_from_json(&arr_external_crates[kk_external_crates]) {
            Ok(v) => {
                f_external_crates.push(v);
            },
            Err(e) => {
                proof {
                    assert(jv_external_crate(json_view(arr_external_crates@[kk_external_crates as int])) is None);
                    assert((|e2: JsonV| jv_external_crate(e2))(
                        json_view(ms@[2].1)->Arr_0[kk_external_crates as int],
                    ) is None);
                    assert(jv_list(json_view(ms@[2].1)->Arr_0, |e2: JsonV| jv_external_crate(e2))
                        is None);
        assert(json_view(*j)->Obj_0.len() == ms@.len());
        assert forall|m: int| 0 <= m < ms@.len() implies json_view(*j)->Obj_0[m] == (
            ms@[m].0@,
            json_view(ms@[m].1),
        ) by {
            assert(json_view(*j)->Obj_0[m] == (ms@[m].0@, json_view(ms@[m].1)));
        }
                }
                return Err(err_idx("external_crates", kk_external_crates, e));
            },
        }
        kk_external_crates = kk_external_crates + 1;
    }
    proof {
        assert forall|m: int| 0 <= m < json_view(ms@[2].1)->Arr_0.len() implies ((
        |e2: JsonV| jv_external_crate(e2))(json_view(ms@[2].1)->Arr_0[m])) is Some by {
            assert(json_view(ms@[2].1)->Arr_0[m] == json_view(arr_external_crates@[m]));
        }
        assert(jv_list(json_view(ms@[2].1)->Arr_0, |e2: JsonV| jv_external_crate(e2)) is Some);
        assert forall|m: int| 0 <= m < arr_external_crates@.len() implies jv_list(
            json_view(ms@[2].1)->Arr_0,
            |e2: JsonV| jv_external_crate(e2),
        )->Some_0[m] == f_external_crates.deep_view()[m] by {
            assert(json_view(ms@[2].1)->Arr_0[m] == json_view(arr_external_crates@[m]));
        }
        assert(jv_list(json_view(ms@[2].1)->Arr_0, |e2: JsonV| jv_external_crate(e2))->Some_0
            =~= f_external_crates.deep_view());
    }
    if !str_eq(ms[3].0.as_str(), "span") {
        return Err(err_at("span"));
    }
    let f_span = match span_from_json(&ms[3].1) {
        Ok(v) => v,
        Err(e) => {
            return Err(err_in("span", e));
        },
    };
    let x = CratePreludeData { crate_name: f_crate_name, crate_root: f_crate_root, external_crates: f_external_crates, span: f_span };
    proof {
        assert(json_view(*j)->Obj_0.len() == ms@.len());
        assert forall|m: int| 0 <= m < ms@.len() implies json_view(*j)->Obj_0[m] == (
            ms@[m].0@,
            json_view(ms@[m].1),
        ) by {
            assert(json_view(*j)->Obj_0[m] == (ms@[m].0@, json_view(ms@[m].1)));
        }
        assert(jv_prelude(json_view(*j)) is Some);
        assert(jv_prelude(json_view(*j))->Some_0 =~= x.deep_view());
    }
    Ok(x)
}

fn opt_prelude_from_json(j: &Json) -> (r: Result<Option<CratePreludeData>, DecodeError>)
    ensures
        match r {
            Ok(x) => jv_opt_prelude(json_view(*j)) == Some(x.deep_view()),
            Err(e) => jv_opt_prelude(json_view(*j)) is None,
        },
{
    match j {
        Json::Null => Ok(None),
        _ => {
            proof {
                lemma_view_null(*j);
            }
            match prelude_from_json(j) {
                Ok(p) => Ok(Some(p)),
                Err(e) => Err(e),
            }
        },
    }
}

fn import_from_json(j: &Json) -> (r: Result<Import, DecodeError>)
    ensures
        match r {
            Ok(x) => jv_import(json_view(*j)) == Some(x.deep_view()),
            Err(e) => jv_import(json_view(*j)) is None,
        },
{
    let ms = match j {
        Json::Obj(v) => v,
        _ => {
            return Err(err_at("import"));
        },
    };
    proof {
        assert(json_view(*j)->Obj_0.len() == ms@.len());
        assert forall|m: int| 0 <= m < ms@.len() implies json_view(*j)->Obj_0[m] == (
            ms@[m].0@,
            json_view(ms@[m].1),
        ) by {
            assert(json_view(*j)->Obj_0[m] == (ms@[m].0@, json_view(ms@[m].1)));
        }
    }
    if ms.len() != 5 {
        return Err(err_at("import"));
    }
    if !str_eq(ms[0].0.as_str(), "kind") {
        return Err(err_at("kind"));
    }
    let f_kind = match import_kind_from_json(&ms[0].1) {
        Ok(v) => v,
        Err(e) => {
            return Err(err_in("kind", e));
        },
    };
    if !str_eq(ms[1].0.as_str(), "ref_id") {
        return Err(err_at("ref_id"));
    }
    let f_ref_id = match opt_id_from_json(&ms[1].1) {
        Ok(v) => v,
        Err(e) => {
            return Err(err_in("ref_id", e));
        },
    };
    if !str_eq(ms[2].0.as_str(), "span") {
        return Err(err_at("span"));
    }
    let f_span = match span_from_json(&ms[2].1) {
        Ok(v) => v,
        Err(e) => {
            return Err(err_in("span", e));
        },
    };
    if !str_eq(ms[3].0.as_str(), "name") {
        return Err(err_at("name"));
    }
    let f_name = match get_str(&ms[3].1) {
        Some(v) => v,
        None => {
            return Err(err_at("name"));
        },
    };
    if !str_eq(ms[4].0.as_str(), "value") {
        return Err(err_at("value"));
    }
    let f_value = match get_str(&ms[4].1) {
        Some(v) => v,
        None => {
            return Err(err_at("value"));
        },
    };
    let x = Import { kind: f_kind, ref_id: f_ref_id, span: f_span, name: f_name, value: f_value };
    proof {
        assert(json_view(*j)->Obj_0.len() == ms@.len());
        assert forall|m: int| 0 <= m < ms@.len() implies json_view(*j)->Obj_0[m] == (
            ms@[m].0@,
            json_view(ms@[m].1),
        ) by {
            assert(json_view(*j)->Obj_0[m] == (ms@[m].0@, json_view(ms@[m].1)));
        }
        assert(jv_import(json_view(*j)) is Some);
        assert(jv_import(json_view(*j))->Some_0 =~= x.deep_view());
    }
    Ok(x)
}

fn attribute_from_json(j: &Json) -> (r: Result<Attribute, DecodeError>)
    ensures
        match r {
            Ok(x) => jv_attribute(json_view(*j)) == Some(x.deep_view()),
            Err(e) => jv_attribute(json_view(*j)) is None,
        },
{
    let ms = match j {
        Json::Obj(v) => v,
        _ => {
            return Err(err_at("attribute"));
        },
    };
    proof {
        assert(json_view(*j)->Obj_0.len() == ms@.len());
        assert forall|m: int| 0 <= m < ms@.len() implies json_view(*j)->Obj_0[m] == (
            ms@[m].0@,
            json_view(ms@[m].1),
        ) by {
            assert(json_view(*j)->Obj_0[m] == (ms@[m].0@, json_view(ms@[m].1)));
        }
    }
    if ms.len() != 2 {
        return Err(err_at("attribute"));
    }
    if !str_eq(ms[0].0.as_str(), "value") {
        return Err(err_at("value"));
    }
    let f_value = match get_str(&ms[0].1) {
        Some(v) => v,
        None => {
            return Err(err_at("value"));
        },
    };
    if !str_eq(ms[1].0.as_str(), "span") {
        return Err(err_at("span"));
    }
    let f_span = match span_from_json(&ms[1].1) {
        Ok(v) => v,
        Err(e) => {
            return Err(err_in("span", e));
        },
    };
    let x = Attribute { value: f_value, span: f_span };
    proof {
        assert(json_view(*j)->Obj_0.len() == ms@.len());
        assert forall|m: int| 0 <= m < ms@.len() implies json_view(*j)->Obj_0[m] == (
            ms@[m].0@,
            json_view(ms@[m].1),
        ) by {
            assert(json_view(*j)->Obj_0[m] == (ms@[m].0@, json_view(ms@[m].1)));
        }
        assert(jv_attribute(json_view(*j)) is Some);
        assert(jv_attribute(json_view(*j))->Some_0 =~= x.deep_view());
    }
    Ok(x)
}

fn sig_element_from_json(j: &Json) -> (r: Result<SigElement, DecodeError>)
    ensures
        match r {
            Ok(x) => jv_sig_element(json_view(*j)) == Some(x.deep_view()),
            Err(e) => jv_sig_element(json_view(*j)) is None,
        },
{
    let ms = match j {
        Json::Obj(v) => v,
        _ => {
            return Err(err_at("sig_element"));
        },
    };
    proof {
        assert(json_view(*j)->Obj_0.len() == ms@.len());
        assert forall|m: int| 0 <= m < ms@.len() implies json_view(*j)->Obj_0[m] == (
            ms@[m].0@,
            json_view(ms@[m].1),
        ) by {
            assert(json_view(*j)->Obj_0[m] == (ms@[m].0@, json_view(ms@[m].1)));
        }
    }
    if ms.len() != 3 {
        return Err(err_at("sig_element"));
    }
    if !str_eq(ms[0].0.as_str(), "id") {
        return Err(err_at("id"));
    }
    let f_id = match id_from_json(&ms[0].1) {
        Ok(v) => v,
        Err(e) => {
            return Err(err_in("id", e));
        },
    };
    if !str_eq(ms[1].0.as_str(), "start") {
        return Err(err_at("start"));
    }
    let f_start = match get_usize(&ms[1].1) {
        Some(v) => v,
        None => {
            return Err(err_at("start"));
        },
    };
    if !str_eq(ms[2].0.as_str(), "end") {
        return Err(err_at("end"));
    }
    let f_end = match get_usize(&ms[2].1) {
        Some(v) => v,
        None => {
            return Err(err_at("end"));
        },
    };
    let x = SigElement { id: f_id, start: f_start, end: f_end };
    proof {
        assert(json_view(*j)->Obj_0.len() == ms@.len());
        assert forall|m: int| 0 <= m < ms@.len() implies json_view(*j)->Obj_0[m] == (
            ms@[m].0@,
            json_view(ms@[m].1),
        ) by {
            assert(json_view(*j)->Obj_0[m] == (ms@[m].0@, json_view(ms@[m].1)));
        }
        assert(jv_sig_element(json_view(*j)) is Some);
        assert(jv_sig_element(json_view(*j))->Some_0 =~= x.deep_view());
    }
    Ok(x)
}

fn signature_from_json(j: &Json) -> (r: Result<Signature, DecodeError>)
    ensures
        match r {
            Ok(x) => jv_signature(json_view(*j)) == Some(x.deep_view()),
            Err(e) => jv_signature(json_view(*j)) is None,
        },
{
    let ms = match j {
        Json::Obj(v) => v,
        _ => {
            return Err(err_at("signature"));
        },
    };
    proof {
        assert(json_view(*j)->Obj_0.len() == ms@.len());
        assert forall|m: int| 0 <= m < ms@.len() implies json_view(*j)->Obj_0[m] == (
            ms@[m].0@,
            json_view(ms@[m].1),
        ) by {
            assert(json_view(*j)->Obj_0[m] == (ms@[m].0@, json_view(ms@[m].1)));
        }
    }
    if ms.len() != 6 {
        return Err(err_at("signature"));
    }
    if !str_eq(ms[0].0.as_str(), "span") {
        return Err(err_at("span"));
    }
    let f_span = match span_from_json(&ms[0].1) {
        Ok(v) => v,
        Err(e) => {
            return Err(err_in("span", e));
        },
    };
    if !str_eq(ms[1].0.as_str(), "text") {
        return Err(err_at("text"));
    }
    let f_text = match get_str(&ms[1].1) {
        Some(v) => v,
        None => {
            return Err(err_at("text"));
        },
    };
    if !str_eq(ms[2].0.as_str(), "ident_start") {
        return Err(err_at("ident_start"));
    }
    let f_ident_start = match get_usize(&ms[2].1) {
        Some(v) => v,
        None => {
            return Err(err_at("ident_start"));
        },
    };
    if !str_eq(ms[3].0.as_str(), "ident_end") {
        return Err(err_at("ident_end"));
    }
    let f_ident_end = match get_usize(&ms[3].1) {
        Some(v) => v,
        None => {
            return Err(err_at("ident_end"));
        },
    };
    if !str_eq(ms[4].0.as_str(), "defs") {
        return Err(err_at("defs"));
    }
    let arr_defs = match &ms[4].1 {
        Json::Arr(v) => v,
        _ => {
            return Err(err_at("defs"));
        },
    };
    let mut f_defs: Vec<SigElement> = Vec::new();
    let mut kk_defs: usize = 0;
    while kk_defs < arr_defs.len()
        invariant
            0 <= kk_defs <= arr_defs@.len(),
            f_defs@.len() == kk_defs,
            *j is Obj,
            (*j)->Obj_0@ == ms@,
            ms@[4].1 is Arr,
            ms@[4].1->Arr_0@ == arr_defs@,
            json_view(ms@[4].1)->Arr_0.len() == arr_defs@.len(),
            forall|m: int|
                0 <= m < arr_defs@.len() ==> json_view(ms@[4].1)->Arr_0[m] == json_view(
                    #[trigger] arr_defs@[m],
                ),
            forall|m: int|
                0 <= m < kk_defs ==> jv_sig_element(json_view(#[trigger] arr_defs@[m])) == Some(
                    f_defs@[m].deep_view(),
                ),
        decreases arr_defs@.len() - kk_defs,
    {
        match sig_element_from_json(&arr_defs[kk_defs]) {
            Ok(v) => {
                f_defs.push(v);
            },
            Err(e) => {
                proof {
                    assert(jv_sig_element(json_view(arr_defs@[kk_defs as int])) is None);
                    assert((|e2: JsonV| jv_sig_element(e2))(
                        json_view(ms@[4].1)->Arr_0[kk_defs as int],
                    ) is None);
                    assert(jv_list(json_view(ms@[4].1)->Arr_0, |e2: JsonV| jv_sig_element(e2))
                        is None);
        assert(json_view(*j)->Obj_0.len() == ms@.len());
        assert forall|m: int| 0 <= m < ms@.len() implies json_view(*j)->Obj_0[m] == (
            ms@[m].0@,
            json_view(ms@[m].1),
        ) by {
            assert(json_view(*j)->Obj_0[m] == (ms@[m].0@, json_view(ms@[m].1)));
        }
                }
                return Err(err_idx("defs", kk_defs, e));
            },
        }
        kk_defs = kk_defs + 1;
    }
    proof {
        assert forall|m: int| 0 <= m < json_view(ms@[4].1)->Arr_0.len() implies ((
        |e2: JsonV| jv_sig_element(e2))(json_view(ms@[4].1)->Arr_0[m])) is Some by {
            assert(json_view(ms@[4].1)->Arr_0[m] == json_view(arr_defs@[m]));
        }
        assert(jv_list(json_view(ms@[4].1)->Arr_0, |e2: JsonV| jv_sig_element(e2)) is Some);
        assert forall|m: int| 0 <= m < arr_defs@.len() implies jv_list(
            json_view(ms@[4].1)->Arr_0,
            |e2: JsonV| jv_sig_element(e2),
        )->Some_0[m] == f_defs.deep_view()[m] by {
            assert(json_view(ms@[4].1)->Arr_0[m] == json_view(arr_defs@[m]));
        }
        assert(jv_list(json_view(ms@[4].1)->Arr_0, |e2: JsonV| jv_sig_element(e2))->Some_0
            =~= f_defs.deep_view());
    }
    if !str_eq(ms[5].0.as_str(), "refs") {
        return Err(err_at("refs"));
    }
    let arr_refs = match &ms[5].1 {
        Json::Arr(v) => v,
        _ => {
            return Err(err_at("refs"));
        },
    };
    let mut f_refs: Vec<SigElement> = Vec::new();
    let mut kk_refs: usize = 0;
    while kk_refs < arr_refs.len()
        invariant
            0 <= kk_refs <= arr_refs@.len(),
            f_refs@.len() == kk_refs,
            *j is Obj,
            (*j)->Obj_0@ == ms@,
            ms@[5].1 is Arr,
            ms@[5].1->Arr_0@ == arr_refs@,
            json_view(ms@[5].1)->Arr_0.len() == arr_refs@.len(),
            forall|m: int|
                0 <= m < arr_refs@.len() ==> json_view(ms@[5].1)->Arr_0[m] == json_view(
                    #[trigger] arr_refs@[m],
                ),
            forall|m: int|
                0 <= m < kk_refs ==> jv_sig_element(json_view(#[trigger] arr_refs@[m])) == Some(
                    f_refs@[m].deep_view(),
                ),
        decreases arr_refs@.len() - kk_refs,
    {
        match sig_element_from_json(&arr_refs[kk_refs]) {
            Ok(v) => {
                f_refs.push(v);
            },
            Err(e) => {
                proof {
                    assert(jv_sig_element(json_view(arr_refs@[kk_refs as int])) is None);
                    assert((|e2: JsonV| jv_sig_element(e2))(
                        json_view(ms@[5].1)->Arr_0[kk_refs as int],
                    ) is None);
                    assert(jv_list(json_view(ms@[5].1)->Arr_0, |e2: JsonV| jv_sig_element(e2))
                        is None);
        assert(json_view(*j)->Obj_0.len() == ms@.len());
        assert forall|m: int| 0 <= m < ms@.len() implies json_view(*j)->Obj_0[m] == (
            ms@[m].0@,
            json_view(ms@[m].1),
        ) by {
            assert(json_view(*j)->Obj_0[m] == (ms@[m].0@, json_view(ms@[m].1)));
        }
                }
                return Err(err_idx("refs", kk_refs, e));
            },
        }
        kk_refs = kk_refs + 1;
    }
    proof {
        assert forall|m: int| 0 <= m < json_view(ms@[5].1)->Arr_0.len() implies ((
        |e2: JsonV| jv_sig_element(e2))(json_view(ms@[5].1)->Arr_0[m])) is Some by {
            assert(json_view(ms@[5].1)->Arr_0[m] == json_view(arr_refs@[m]));
        }
        assert(jv_list(json_view(ms@[5].1)->Arr_0, |e2: JsonV| jv_sig_element(e2)) is Some);
        assert forall|m: int| 0 <= m < arr_refs@.len() implies jv_list(
            json_view(ms@[5].1)->Arr_0,
            |e2: JsonV| jv_sig_element(e2),
        )->Some_0[m] == f_refs.deep_view()[m] by {
            assert(json_view(ms@[5].1)->Arr_0[m] == json_view(arr_refs@[m]));
        }
        assert(jv_list(json_view(ms@[5].1)->Arr_0, |e2: JsonV| jv_sig_element(e2))->Some_0
            =~= f_refs.deep_view());
    }
    let x = Signature { span: f_span, text: f_text, ident_start: f_ident_start, ident_end: f_ident_end, defs: f_defs, refs: f_refs };
    proof {
        assert(json_view(*j)->Obj_0.len() == ms@.len());
        assert forall|m: int| 0 <= m < ms@.len() implies json_view(*j)->Obj_0[m] == (
            ms@[m].0@,
            json_view(ms@[m].1),
        ) by {
            assert(json_view(*j)->Obj_0[m] == (ms@[m].0@, json_view(ms@[m].1)));
        }
        assert(jv_signature(json_view(*j)) is Some);
        assert(jv_signature(json_view(*j))->Some_0 =~= x.deep_view());
    }
    Ok(x)
}

fn opt_signature_from_json(j: &Json) -> (r: Result<Option<Signature>, DecodeError>)
    ensures
        match r {
            Ok(x) => jv_opt_signature(json_view(*j)) == Some(x.deep_view()),
            Err(e) => jv_opt_signature(json_view(*j)) is None,
        },
{
    match j {
        Json::Null => Ok(None),
        _ => {
            proof {
                lemma_view_null(*j);
            }
            match signature_from_json(j) {
                Ok(g) => Ok(Some(g)),
                Err(e) => Err(e),
            }
        },
    }
}

fn def_from_json(j: &Json) -> (r: Result<Def, DecodeError>)
    ensures
        match r {
            Ok(x) => jv_def(json_view(*j)) == Some(x.deep_view()),
            Err(e) => jv_def(json_view(*j)) is None,
        },
{
    let ms = match j {
        Json::Obj(v) => v,
        _ => {
            return Err(err_at("def"));
        },
    };
    proof {
        assert(json_view(*j)->Obj_0.len() == ms@.len());
        assert forall|m: int| 0 <= m < ms@.len() implies json_view(*j)->Obj_0[m] == (
            ms@[m].0@,
            json_view(ms@[m].1),
        ) by {
            assert(json_view(*j)->Obj_0[m] == (ms@[m].0@, json_view(ms@[m].1)));
        }
    }
    if ms.len() != 12 {
        return Err(err_at("def"));
    }
    if !str_eq(ms[0].0.as_str(), "kind") {
        return Err(err_at("kind"));
    }
    let f_kind = match def_kind_from_json(&ms[0].1) {
        Ok(v) => v,
        Err(e) => {
            return Err(err_in("kind", e));
        },
    };
    if !str_eq(ms[1].0.as_str(), "id") {
        return Err(err_at("id"));
    }
    let f_id = match id_from_json(&ms[1].1) {
        Ok(v) => v,
        Err(e) => {
            return Err(err_in("id", e));
        },
    };
    if !str_eq(ms[2].0.as_str(), "span") {
        return Err(err_at("span"));
    }
    let f_span = match span_from_json(&ms[2].1) {
        Ok(v) => v,
        Err(e) => {
            return Err(err_in("span", e));
        },
    };
    if !str_eq(ms[3].0.as_str(), "name") {
        return Err(err_at("name"));
    }
    let f_name = match get_str(&ms[3].1) {
        Some(v) => v,
        None => {
            return Err(err_at("name"));
        },
    };
    if !str_eq(ms[4].0.as_str(), "qualname") {
        return Err(err_at("qualname"));
    }
    let f_qualname = match get_str(&ms[4].1) {
        Some(v) => v,
        None => {
            return Err(err_at("qualname"));
        },
    };
    if !str_eq(ms[5].0.as_str(), "value") {
        return Err(err_at("value"));
    }
    let f_value = match get_str(&ms[5].1) {
        Some(v) => v,
        None => {
            return Err(err_at("value"));
        },
    };
    if !str_eq(ms[6].0.as_str(), "parent") {
        return Err(err_at("parent"));
    }
    let f_parent = match opt_id_from_json(&ms[6].1) {
        Ok(v) => v,
        Err(e) => {
            return Err(err_in("parent", e));
        },
    };
    if !str_eq(ms[7].0.as_str(), "children") {
        return Err(err_at("children"));
    }
    let arr_children = match &ms[7].1 {
        Json::Arr(v) => v,
        _ => {
            return Err(err_at("children"));
        },
    };
    let mut f_children: Vec<Id> = Vec::new();
    let mut kk_children: usize = 0;
    while kk_children < arr_children.len()
        invariant
            0 <= kk_children <= arr_children@.len(),
            f_children@.len() == kk_children,
            *j is Obj,
            (*j)->Obj_0@ == ms@,
            ms@[7].1 is Arr,
            ms@[7].1->Arr_0@ == arr_children@,
            json_view(ms@[7].1)->Arr_0.len() == arr_children@.len(),
            forall|m: int|
                0 <= m < arr_children@.len() ==> json_view(ms@[7].1)->Arr_0[m] == json_view(
                    #[trigger] arr_children@[m],
                ),
            forall|m: int|
                0 <= m < kk_children ==> jv_id(json_view(#[trigger] arr_children@[m])) == Some(
                    f_children@[m].deep_view(),
                ),
        decreases arr_children@.len() - kk_children,
    {
        match id_from_json(&arr_children[kk_children]) {
            Ok(v) => {
                f_children.push(v);
            },
            Err(e) => {
                proof {
                    assert(jv_id(json_view(arr_children@[kk_children as int])) is None);
                    assert((|e2: JsonV| jv_id(e2))(
                        json_view(ms@[7].1)->Arr_0[kk_children as int],
                    ) is None);
                    assert(jv_list(json_view(ms@[7].1)->Arr_0, |e2: JsonV| jv_id(e2))
                        is None);
        assert(json_view(*j)->Obj_0.len() == ms@.len());
        assert forall|m: int| 0 <= m < ms@.len() implies json_view(*j)->Obj_0[m] == (
            ms@[m].0@,
            json_view(ms@[m].1),
        ) by {
            assert(json_view(*j)->Obj_0[m] == (ms@[m].0@, json_view(ms@[m].1)));
        }
                }
                return Err(err_idx("children", kk_children, e));
            },
        }
        kk_children = kk_children + 1;
    }
    proof {
        assert forall|m: int| 0 <= m < json_view(ms@[7].1)->Arr_0.len() implies ((
        |e2: JsonV| jv_id(e2))(json_view(ms@[7].1)->Arr_0[m])) is Some by {
            assert(json_view(ms@[7].1)->Arr_0[m] == json_view(arr_children@[m]));
        }
        assert(jv_list(json_view(ms@[7].1)->Arr_0, |e2: JsonV| jv_id(e2)) is Some);
        assert forall|m: int| 0 <= m < arr_children@.len() implies jv_list(
            json_view(ms@[7].1)->Arr_0,
            |e2: JsonV| jv_id(e2),
        )->Some_0[m] == f_children.deep_view()[m] by {
            assert(json_view(ms@[7].1)->Arr_0[m] == json_view(arr_children@[m]));
        }
        assert(jv_list(json_view(ms@[7].1)->Arr_0, |e2: JsonV| jv_id(e2))->Some_0
            =~= f_children.deep_view());
    }
    if !str_eq(ms[8].0.as_str(), "decl_id") {
        return Err(err_at("decl_id"));
    }
    let f_decl_id = match opt_id_from_json(&ms[8].1) {
        Ok(v) => v,
        Err(e) => {
            return Err(err_in("decl_id", e));
        },
    };
    if !str_eq(ms[9].0.as_str(), "docs") {
        return Err(err_at("docs"));
    }
    let f_docs = match get_str(&ms[9].1) {
        Some(v) => v,
        None => {
            return Err(err_at("docs"));
        },
    };
    if !str_eq(ms[10].0.as_str(), "sig") {
        return Err(err_at("sig"));
    }
    let f_sig = match opt_signature_from_json(&ms[10].1) {
        Ok(v) => v,
        Err(e) => {
            return Err(err_in("sig", e));
        },
    };
    if !str_eq(ms[11].0.as_str(), "attributes") {
        return Err(err_at("attributes"));
    }
    let arr_attributes = match &ms[11].1 {
        Json::Arr(v) => v,
        _ => {
            return Err(err_at("attributes"));
        },
    };
    let mut f_attributes: Vec<Attribute> = Vec::new();
    let mut kk_attributes: usize = 0;
    while kk_attributes < arr_attributes.len()
        invariant
            0 <= kk_attributes <= arr_attributes@.len(),
            f_attributes@.len() == kk_attributes,
            *j is Obj,
            (*j)->Obj_0@ == ms@,
            ms@[11].1 is Arr,
            ms@[11].1->Arr_0@ == arr_attributes@,
            json_view(ms@[11].1)->Arr_0.len() == arr_attributes@.len(),
            forall|m: int|
                0 <= m < arr_attributes@.len() ==> json_view(ms@[11].1)->Arr_0[m] == json_view(
                    #[trigger] arr_attributes@[m],
                ),
            forall|m: int|
                0 <= m < kk_attributes ==> jv_attribute(json_view(#[trigger] arr_attributes@[m])) == Some(
                    f_attributes@[m].deep_view(),
                ),
        decreases arr_attributes@.len() - kk_attributes,
    {
        match attribute_from_json(&arr_attributes[kk_attributes]) {
            Ok(v) => {
                f_attributes.push(v);
            },
            Err(e) => {
                proof {
                    assert(jv_attribute(json_view(arr_attributes@[kk_attributes as int])) is None);
                    assert((|e2: JsonV| jv_attribute(e2))(
                        json_view(ms@[11].1)->Arr_0[kk_attributes as int],
                    ) is None);
                    assert(jv_list(json_view(ms@[11].1)->Arr_0, |e2: JsonV| jv_attribute(e2))
                        is None);
        assert(json_view(*j)->Obj_0.len() == ms@.len());
        assert forall|m: int| 0 <= m < ms@.len() implies json_view(*j)->Obj_0[m] == (
            ms@[m].0@,
            json_view(ms@[m].1),
        ) by {
            assert(json_view(*j)->Obj_0[m] == (ms@[m].0@, json_view(ms@[m].1)));
        }
                }
                return Err(err_idx("attributes", kk_attributes, e));
            },
        }
        kk_attributes = kk_attributes + 1;
    }
    proof {
        assert forall|m: int| 0 <= m < json_view(ms@[11].1)->Arr_0.len() implies ((
        |e2: JsonV| jv_attribute(e2))(json_view(ms@[11].1)->Arr_0[m])) is Some by {
            assert(json_view(ms@[11].1)->Arr_0[m] == json_view(arr_attributes@[m]));
        }
        assert(jv_list(json_view(ms@[11].1)->Arr_0, |e2: JsonV| jv_attribute(e2)) is Some);
        assert forall|m: int| 0 <= m < arr_attributes@.len() implies jv_list(
            json_view(ms@[11].1)->Arr_0,
            |e2: JsonV| jv_attribute(e2),
        )->Some_0[m] == f_attributes.deep_view()[m] by {
            assert(json_view(ms@[11].1)->Arr_0[m] == json_view(arr_attributes@[m]));
        }
        assert(jv_list(json_view(ms@[11].1)->Arr_0, |e2: JsonV| jv_attribute(e2))->Some_0
            =~= f_attributes.deep_view());
    }
    let x = Def { kind: f_kind, id: f_id, span: f_span, name: f_name, qualname: f_qualname, value: f_value, parent: f_parent, children: f_children, decl_id: f_decl_id, docs: f_docs, sig: f_sig, attributes: f_attributes };
    proof {
        assert(json_view(*j)->Obj_0.len() == ms@.len());
        assert forall|m: int| 0 <= m < ms@.len() implies json_view(*j)->Obj_0[m] == (
            ms@[m].0@,
            json_view(ms@[m].1),
        ) by {
            assert(json_view(*j)->Obj_0[m] == (ms@[m].0@, json_view(ms@[m].1)));
        }
        assert(jv_def(json_view(*j)) is Some);
        assert(jv_def(json_view(*j))->Some_0 =~= x.deep_view());
    }
    Ok(x)
}

fn ref_from_json(j: &Json) -> (r: Result<Ref, DecodeError>)
    ensures
        match r {
            Ok(x) => jv_ref(json_view(*j)) == Some(x.deep_view()),
            Err(e) => jv_ref(json_view(*j)) is None,
        },
{
    let ms = match j {
        Json::Obj(v) => v,
        _ => {
            return Err(err_at("reference"));
        },
    };
    proof {
        assert(json_view(*j)->Obj_0.len() == ms@.len());
        assert forall|m: int| 0 <= m < ms@.len() implies json_view(*j)->Obj_0[m] == (
            ms@[m].0@,
            json_view(ms@[m].1),
        ) by {
            assert(json_view(*j)->Obj_0[m] == (ms@[m].0@, json_view(ms@[m].1)));
        }
    }
    if ms.len() != 3 {
        return Err(err_at("reference"));
    }
    if !str_eq(ms[0].0.as_str(), "kind") {
        return Err(err_at("kind"));
    }
    let f_kind = match ref_kind_from_json(&ms[0].1) {
        Ok(v) => v,
        Err(e) => {
            return Err(err_in("kind", e));
        },
    };
    if !str_eq(ms[1].0.as_str(), "span") {
        return Err(err_at("span"));
    }
    let f_span = match span_from_json(&ms[1].1) {
        Ok(v) => v,
        Err(e) => {
            return Err(err_in("span", e));
        },
    };
    if !str_eq(ms[2].0.as_str(), "ref_id") {
        return Err(err_at("ref_id"));
    }
    let f_ref_id = match id_from_json(&ms[2].1) {
        Ok(v) => v,
        Err(e) => {
            return Err(err_in("ref_id", e));
        },
    };
    let x = Ref { kind: f_kind, span: f_span, ref_id: f_ref_id };
    proof {
        assert(json_view(*j)->Obj_0.len() == ms@.len());
        assert forall|m: int| 0 <= m < ms@.len() implies json_view(*j)->Obj_0[m] == (
            ms@[m].0@,
            json_view(ms@[m].1),
        ) by {
            assert(json_view(*j)->Obj_0[m] == (ms@[m].0@, json_view(ms@[m].1)));
        }
        assert(jv_ref(json_view(*j)) is Some);
        assert(jv_ref(json_view(*j))->Some_0 =~= x.deep_view());
    }
    Ok(x)
}

fn macro_ref_from_json(j: &Json) -> (r: Result<MacroRef, DecodeError>)
    ensures
        match r {
            Ok(x) => jv_macro_ref(json_view(*j)) == Some(x.deep_view()),
            Err(e) => jv_macro_ref(json_view(*j)) is None,
        },
{
    let ms = match j {
        Json::Obj(v) => v,
        _ => {
            return Err(err_at("macro_ref"));
        },
    };
    proof {
        assert(json_view(*j)->Obj_0.len() == ms@.len());
        assert forall|m: int| 0 <= m < ms@.len() implies json_view(*j)->Obj_0[m] == (
            ms@[m].0@,
            json_view(ms@[m].1),
        ) by {
            assert(json_view(*j)->Obj_0[m] == (ms@[m].0@, json_view(ms@[m].1)));
        }
    }
    if ms.len() != 3 {
        return Err(err_at("macro_ref"));
    }
    if !str_eq(ms[0].0.as_str(), "span") {
        return Err(err_at("span"));
    }
    let f_span = match span_from_json(&ms[0].1) {
        Ok(v) => v,
        Err(e) => {
            return Err(err_in("span", e));
        },
    };
    if !str_eq(ms[1].0.as_str(), "qualname") {
        return Err(err_at("qualname"));
    }
    let f_qualname = match get_str(&ms[1].1) {
        Some(v) => v,
        None => {
            return Err(err_at("qualname"));
        },
    };
    if !str_eq(ms[2].0.as_str(), "callee_span") {
        return Err(err_at("callee_span"));
    }
    let f_callee_span = match span_from_json(&ms[2].1) {
        Ok(v) => v,
        Err(e) => {
            return Err(err_in("callee_span", e));
        },
    };
    let x = MacroRef { span: f_span, qualname: f_qualname, callee_span: f_callee_span };
    proof {
        assert(json_view(*j)->Obj_0.len() == ms@.len());
        assert forall|m: int| 0 <= m < ms@.len() implies json_view(*j)->Obj_0[m] == (
            ms@[m].0@,
            json_view(ms@[m].1),
        ) by {
            assert(json_view(*j)->Obj_0[m] == (ms@[m].0@, json_view(ms@[m].1)));
        }
        assert(jv_macro_ref(json_view(*j)) is Some);
        assert(jv_macro_ref(json_view(*j))->Some_0 =~= x.deep_view());
    }
    Ok(x)
}

fn relation_from_json(j: &Json) -> (r: Result<Relation, DecodeError>)
    ensures
        match r {
            Ok(x) => jv_relation(json_view(*j)) == Some(x.deep_view()),
            Err(e) => jv_relation(json_view(*j)) is None,
        },
{
    let ms = match j {
        Json::Obj(v) => v,
        _ => {
            return Err(err_at("relation"));
        },
    };
    proof {
        assert(json_view(*j)->Obj_0.len() == ms@.len());
        assert forall|m: int| 0 <= m < ms@.len() implies json_view(*j)->Obj_0[m] == (
            ms@[m].0@,
            json_view(ms@[m].1),
        ) by {
            assert(json_view(*j)->Obj_0[m] == (ms@[m].0@, json_view(ms@[m].1)));
        }
    }
    if ms.len() != 4 {
        return Err(err_at("relation"));
    }
    if !str_eq(ms[0].0.as_str(), "span") {
        return Err(err_at("span"));
    }
    let f_span = match span_from_json(&ms[0].1) {
        Ok(v) => v,
        Err(e) => {
            return Err(err_in("span", e));
        },
    };
    if !str_eq(ms[1].0.as_str(), "kind") {
        return Err(err_at("kind"));
    }
    let f_kind = match relation_kind_from_json(&ms[1].1) {
        Ok(v) => v,
        Err(e) => {
            return Err(err_in("kind", e));
        },
    };
    if !str_eq(ms[2].0.as_str(), "from") {
        return Err(err_at("from"));
    }
    let f_from = match id_from_json(&ms[2].1) {
        Ok(v) => v,
        Err(e) => {
            return Err(err_in("from", e));
        },
    };
    if !str_eq(ms[3].0.as_str(), "to") {
        return Err(err_at("to"));
    }
    let f_to = match id_from_json(&ms[3].1) {
        Ok(v) => v,
        Err(e) => {
            return Err(err_in("to", e));
        },
    };
    let x = Relation { span: f_span, kind: f_kind, from: f_from, to: f_to };
    proof {
        assert(json_view(*j)->Obj_0.len() == ms@.len());
        assert forall|m: int| 0 <= m < ms@.len() implies json_view(*j)->Obj_0[m] == (
            ms@[m].0@,
            json_view(ms@[m].1),
        ) by {
            assert(json_view(*j)->Obj_0[m] == (ms@[m].0@, json_view(ms@[m].1)));
        }
        assert(jv_relation(json_view(*j)) is Some);
        assert(jv_relation(json_view(*j))->Some_0 =~= x.deep_view());
    }
    Ok(x)
}

fn analysis_from_json(j: &Json) -> (r: Result<Analysis, DecodeError>)
    ensures
        match r {
            Ok(x) => jv_analysis(json_view(*j)) == Some(x.deep_view()),
            Err(e) => jv_analysis(json_view(*j)) is None,
        },
{
    let ms = match j {
        Json::Obj(v) => v,
        _ => {
            return Err(err_at("analysis"));
        },
    };
    proof {
        assert(json_view(*j)->Obj_0.len() == ms@.len());
        assert forall|m: int| 0 <= m < ms@.len() implies json_view(*j)->Obj_0[m] == (
            ms@[m].0@,
            json_view(ms@[m].1),
        ) by {
            assert(json_view(*j)->Obj_0[m] == (ms@[m].0@, json_view(ms@[m].1)));
        }
    }
    if ms.len() != 7 {
        return Err(err_at("analysis"));
    }
    if !str_eq(ms[0].0.as_str(), "kind") {
        return Err(err_at("kind"));
    }
    let f_kind = match format_from_json(&ms[0].1) {
        Ok(v) => v,
        Err(e) => {
            return Err(err_in("kind", e));
        },
    };
    if !str_eq(ms[1].0.as_str(), "prelude") {
        return Err(err_at("prelude"));
    }
    let f_prelude = match opt_prelude_from_json(&ms[1].1) {
        Ok(v) => v,
        Err(e) => {
            return Err(err_in("prelude", e));
        },
    };
    if !str_eq(ms[2].0.as_str(), "imports") {
        return Err(err_at("imports"));
    }
    let arr_imports = match &ms[2].1 {
        Json::Arr(v) => v,
        _ => {
            return Err(err_at("imports"));
        },
    };
    let mut f_imports: Vec<Import> = Vec::new();
    let mut kk_imports: usize = 0;
    while kk_imports < arr_imports.len()
        invariant
            0 <= kk_imports <= arr_imports@.len(),
            f_imports@.len() == kk_imports,
            *j is Obj,
            (*j)->Obj_0@ == ms@,
            ms@[2].1 is Arr,
            ms@[2].1->Arr_0@ == arr_imports@,
            json_view(ms@[2].1)->Arr_0.len() == arr_imports@.len(),
            forall|m: int|
                0 <= m < arr_imports@.len() ==> json_view(ms@[2].1)->Arr_0[m] == json_view(
                    #[trigger] arr_imports@[m],
                ),
            forall|m: int|
                0 <= m < kk_imports ==> jv_import(json_view(#[trigger] arr_imports@[m])) == Some(
                    f_imports@[m].deep_view(),
                ),
        decreases arr_imports@.len() - kk_imports,
    {
        match import_from_json(&arr_imports[kk_imports]) {
            Ok(v) => {
                f_imports.push(v);
            },
            Err(e) => {
                proof {
                    assert(jv_import(json_view(arr_imports@[kk_imports as int])) is None);
                    assert((|e2: JsonV| jv_import(e2))(
                        json_view(ms@[2].1)->Arr_0[kk_imports as int],
                    ) is None);
                    assert(jv_list(json_view(ms@[2].1)->Arr_0, |e2: JsonV| jv_import(e2))
                        is None);
        assert(json_view(*j)->Obj_0.len() == ms@.len());
        assert forall|m: int| 0 <= m < ms@.len() implies json_view(*j)->Obj_0[m] == (
            ms@[m].0@,
            json_view(ms@[m].1),
        ) by {
            assert(json_view(*j)->Obj_0[m] == (ms@[m].0@, json_view(ms@[m].1)));
        }
                }
                return Err(err_idx("imports", kk_imports, e));
            },
        }
        kk_imports = kk_imports + 1;
    }
    proof {
        assert forall|m: int| 0 <= m < json_view(ms@[2].1)->Arr_0.len() implies ((
        |e2: JsonV| jv_import(e2))(json_view(ms@[2].1)->Arr_0[m])) is Some by {
            assert(json_view(ms@[2].1)->Arr_0[m] == json_view(arr_imports@[m]));
        }
        assert(jv_list(json_view(ms@[2].1)->Arr_0, |e2: JsonV| jv_import(e2)) is Some);
        assert forall|m: int| 0 <= m < arr_imports@.len() implies jv_list(
            json_view(ms@[2].1)->Arr_0,
            |e2: JsonV| jv_import(e2),
        )->Some_0[m] == f_imports.deep_view()[m] by {
            assert(json_view(ms@[2].1)->Arr_0[m] == json_view(arr_imports@[m]));
        }
        assert(jv_list(json_view(ms@[2].1)->Arr_0, |e2: JsonV| jv_import(e2))->Some_0
            =~= f_imports.deep_view());
    }
    if !str_eq(ms[3].0.as_str(), "defs") {
        return Err(err_at("defs"));
    }
    let arr_defs = match &ms[3].1 {
        Json::Arr(v) => v,
        _ => {
            return Err(err_at("defs"));
        },
    };
    let mut f_defs: Vec<Def> = Vec::new();
    let mut kk_defs: usize = 0;
    while kk_defs < arr_defs.len()
        invariant
            0 <= kk_defs <= arr_defs@.len(),
            f_defs@.len() == kk_defs,
            *j is Obj,
            (*j)->Obj_0@ == ms@,
            ms@[3].1 is Arr,
            ms@[3].1->Arr_0@ == arr_defs@,
            json_view(ms@[3].1)->Arr_0.len() == arr_defs@.len(),
            forall|m: int|
                0 <= m < arr_defs@.len() ==> json_view(ms@[3].1)->Arr_0[m] == json_view(
                    #[trigger] arr_defs@[m],
                ),
            forall|m: int|
                0 <= m < kk_defs ==> jv_def(json_view(#[trigger] arr_defs@[m])) == Some(
                    f_defs@[m].deep_view(),
                ),
        decreases arr_defs@.len() - kk_defs,
    {
        match def_from_json(&arr_defs[kk_defs]) {
            Ok(v) => {
                f_defs.push(v);
            },
            Err(e) => {
                proof {
                    assert(jv_def(json_view(arr_defs@[kk_defs as int])) is None);
                    assert((|e2: JsonV| jv_def(e2))(
                        json_view(ms@[3].1)->Arr_0[kk_defs as int],
                    ) is None);
                    assert(jv_list(json_view(ms@[3].1)->Arr_0, |e2: JsonV| jv_def(e2))
                        is None);
        assert(json_view(*j)->Obj_0.len() == ms@.len());
        assert forall|m: int| 0 <= m < ms@.len() implies json_view(*j)->Obj_0[m] == (
            ms@[m].0@,
            json_view(ms@[m].1),
        ) by {
            assert(json_view(*j)->Obj_0[m] == (ms@[m].0@, json_view(ms@[m].1)));
        }
                }
                return Err(err_idx("defs", kk_defs, e));
            },
        }
        kk_defs = kk_defs + 1;
    }
    proof {
        assert forall|m: int| 0 <= m < json_view(ms@[3].1)->Arr_0.len() implies ((
        |e2: JsonV| jv_def(e2))(json_view(ms@[3].1)->Arr_0[m])) is Some by {
            assert(json_view(ms@[3].1)->Arr_0[m] == json_view(arr_defs@[m]));
        }
        assert(jv_list(json_view(ms@[3].1)->Arr_0, |e2: JsonV| jv_def(e2)) is Some);
        assert forall|m: int| 0 <= m < arr_defs@.len() implies jv_list(
            json_view(ms@[3].1)->Arr_0,
            |e2: JsonV| jv_def(e2),
        )->Some_0[m] == f_defs.deep_view()[m] by {
            assert(json_view(ms@[3].1)->Arr_0[m] == json_view(arr_defs@[m]));
        }
        assert(jv_list(json_view(ms@[3].1)->Arr_0, |e2: JsonV| jv_def(e2))->Some_0
            =~= f_defs.deep_view());
    }
    if !str_eq(ms[4].0.as_str(), "refs") {
        return Err(err_at("refs"));
    }
    let arr_refs = match &ms[4].1 {
        Json::Arr(v) => v,
        _ => {
            return Err(err_at("refs"));
        },
    };
    let mut f_refs: Vec<Ref> = Vec::new();
    let mut kk_refs: usize = 0;
    while kk_refs < arr_refs.len()
        invariant
            0 <= kk_refs <= arr_refs@.len(),
            f_refs@.len() == kk_refs,
            *j is Obj,
            (*j)->Obj_0@ == ms@,
            ms@[4].1 is Arr,
            ms@[4].1->Arr_0@ == arr_refs@,
            json_view(ms@[4].1)->Arr_0.len() == arr_refs@.len(),
            forall|m: int|
                0 <= m < arr_refs@.len() ==> json_view(ms@[4].1)->Arr_0[m] == json_view(
                    #[trigger] arr_refs@[m],
                ),
            forall|m: int|
                0 <= m < kk_refs ==> jv_ref(json_view(#[trigger] arr_refs@[m])) == Some(
                    f_refs@[m].deep_view(),
                ),
        decreases arr_refs@.len() - kk_refs,
    {
        match ref_from_json(&arr_refs[kk_refs]) {
            Ok(v) => {
                f_refs.push(v);
            },
            Err(e) => {
                proof {
                    assert(jv_ref(json_view(arr_refs@[kk_refs as int])) is None);
                    assert((|e2: JsonV| jv_ref(e2))(
                        json_view(ms@[4].1)->Arr_0[kk_refs as int],
                    ) is None);
                    assert(jv_list(json_view(ms@[4].1)->Arr_0, |e2: JsonV| jv_ref(e2))
                        is None);
        assert(json_view(*j)->Obj_0.len() == ms@.len());
        assert forall|m: int| 0 <= m < ms@.len() implies json_view(*j)->Obj_0[m] == (
            ms@[m].0@,
            json_view(ms@[m].1),
        ) by {
            assert(json_view(*j)->Obj_0[m] == (ms@[m].0@, json_view(ms@[m].1)));
        }
                }
                return Err(err_idx("refs", kk_refs, e));
            },
        }
        kk_refs = kk_refs + 1;
    }
    proof {
        assert forall|m: int| 0 <= m < json_view(ms@[4].1)->Arr_0.len() implies ((
        |e2: JsonV| jv_ref(e2))(json_view(ms@[4].1)->Arr_0[m])) is Some by {
            assert(json_view(ms@[4].1)->Arr_0[m] == json_view(arr_refs@[m]));
        }
        assert(jv_list(json_view(ms@[4].1)->Arr_0, |e2: JsonV| jv_ref(e2)) is Some);
        assert forall|m: int| 0 <= m < arr_refs@.len() implies jv_list(
            json_view(ms@[4].1)->Arr_0,
            |e2: JsonV| jv_ref(e2),
        )->Some_0[m] == f_refs.deep_view()[m] by {
            assert(json_view(ms@[4].1)->Arr_0[m] == json_view(arr_refs@[m]));
        }
        assert(jv_list(json_view(ms@[4].1)->Arr_0, |e2: JsonV| jv_ref(e2))->Some_0
            =~= f_refs.deep_view());
    }
    if !str_eq(ms[5].0.as_str(), "macro_refs") {
        return Err(err_at("macro_refs"));
    }
    let arr_macro_refs = match &ms[5].1 {
        Json::Arr(v) => v,
        _ => {
            return Err(err_at("macro_refs"));
        },
    };
    let mut f_macro_refs: Vec<MacroRef> = Vec::new();
    let mut kk_macro_refs: usize = 0;
    while kk_macro_refs < arr_macro_refs.len()
        invariant
            0 <= kk_macro_refs <= arr_macro_refs@.len(),
            f_macro_refs@.len() == kk_macro_refs,
            *j is Obj,
            (*j)->Obj_0@ == ms@,
            ms@[5].1 is Arr,
            ms@[5].1->Arr_0@ == arr_macro_refs@,
            json_view(ms@[5].1)->Arr_0.len() == arr_macro_refs@.len(),
            forall|m: int|
                0 <= m < arr_macro_refs@.len() ==> json_view(ms@[5].1)->Arr_0[m] == json_view(
                    #[trigger] arr_macro_refs@[m],
                ),
            forall|m: int|
                0 <= m < kk_macro_refs ==> jv_macro_ref(json_view(#[trigger] arr_macro_refs@[m])) == Some(
                    f_macro_refs@[m].deep_view(),
                ),
        decreases arr_macro_refs@.len() - kk_macro_refs,
    {
        match macro_ref_from_json(&arr_macro_refs[kk_macro_refs]) {
            Ok(v) => {
                f_macro_refs.push(v);
            },
            Err(e) => {
                proof {
                    assert(jv_macro_ref(json_view(arr_macro_refs@[kk_macro_refs as int])) is None);
                    assert((|e2: JsonV| jv_macro_ref(e2))(
                        json_view(ms@[5].1)->Arr_0[kk_macro_refs as int],
                    ) is None);
                    assert(jv_list(json_view(ms@[5].1)->Arr_0, |e2: JsonV| jv_macro_ref(e2))
                        is None);
        assert(json_view(*j)->Obj_0.len() == ms@.len());
        assert forall|m: int| 0 <= m < ms@.len() implies json_view(*j)->Obj_0[m] == (
            ms@[m].0@,
            json_view(ms@[m].1),
        ) by {
            assert(json_view(*j)->Obj_0[m] == (ms@[m].0@, json_view(ms@[m].1)));
        }
                }
                return Err(err_idx("macro_refs", kk_macro_refs, e));
            },
        }
        kk_macro_refs = kk_macro_refs + 1;
    }
    proof {
        assert forall|m: int| 0 <= m < json_view(ms@[5].1)->Arr_0.len() implies ((
        |e2: JsonV| jv_macro_ref(e2))(json_view(ms@[5].1)->Arr_0[m])) is Some by {
            assert(json_view(ms@[5].1)->Arr_0[m] == json_view(arr_macro_refs@[m]));
        }
        assert(jv_list(json_view(ms@[5].1)->Arr_0, |e2: JsonV| jv_macro_ref(e2)) is Some);
        assert forall|m: int| 0 <= m < arr_macro_refs@.len() implies jv_list(
            json_view(ms@[5].1)->Arr_0,
            |e2: JsonV| jv_macro_ref(e2),
        )->Some_0[m] == f_macro_refs.deep_view()[m] by {
            assert(json_view(ms@[5].1)->Arr_0[m] == json_view(arr_macro_refs@[m]));
        }
        assert(jv_list(json_view(ms@[5].1)->Arr_0, |e2: JsonV| jv_macro_ref(e2))->Some_0
            =~= f_macro_refs.deep_view());
    }
    if !str_eq(ms[6].0.as_str(), "relations") {
        return Err(err_at("relations"));
    }
    let arr_relations = match &ms[6].1 {
        Json::Arr(v) => v,
        _ => {
            return Err(err_at("relations"));
        },
    };
    let mut f_relations: Vec<Relation> = Vec::new();
    let mut kk_relations: usize = 0;
    while kk_relations < arr_relations.len()
        invariant
            0 <= kk_relations <= arr_relations@.len(),
            f_relations@.len() == kk_relations,
            *j is Obj,
            (*j)->Obj_0@ == ms@,
            ms@[6].1 is Arr,
            ms@[6].1->Arr_0@ == arr_relations@,
            json_view(ms@[6].1)->Arr_0.len() == arr_relations@.len(),
            forall|m: int|
                0 <= m < arr_relations@.len() ==> json_view(ms@[6].1)->Arr_0[m] == json_view(
                    #[trigger] arr_relations@[m],
                ),
            forall|m: int|
                0 <= m < kk_relations ==> jv_relation(json_view(#[trigger] arr_relations@[m])) == Some(
                    f_relations@[m].deep_view(),
                ),
        decreases arr_relations@.len() - kk_relations,
    {
        match relation_from_json(&arr_relations[kk_relations]) {
            Ok(v) => {
                f_relations.push(v);
            },
            Err(e) => {
                proof {
                    assert(jv_relation(json_view(arr_relations@[kk_relations as int])) is None);
                    assert((|e2: JsonV| jv_relation(e2))(
                        json_view(ms@[6].1)->Arr_0[kk_relations as int],
                    ) is None);
                    assert(jv_list(json_view(ms@[6].1)->Arr_0, |e2: JsonV| jv_relation(e2))
                        is None);
        assert(json_view(*j)->Obj_0.len() == ms@.len());
        assert forall|m: int| 0 <= m < ms@.len() implies json_view(*j)->Obj_0[m] == (
            ms@[m].0@,
            json_view(ms@[m].1),
        ) by {
            assert(json_view(*j)->Obj_0[m] == (ms@[m].0@, json_view(ms@[m].1)));
        }
                }
                return Err(err_idx("relations", kk_relations, e));
            },
        }
        kk_relations = kk_relations + 1;
    }
    proof {
        assert forall|m: int| 0 <= m < json_view(ms@[6].1)->Arr_0.len() implies ((
        |e2: JsonV| jv_relation(e2))(json_view(ms@[6].1)->Arr_0[m])) is Some by {
            assert(json_view(ms@[6].1)->Arr_0[m] == json_view(arr_relations@[m]));
        }
        assert(jv_list(json_view(ms@[6].1)->Arr_0, |e2: JsonV| jv_relation(e2)) is Some);
        assert forall|m: int| 0 <= m < arr_relations@.len() implies jv_list(
            json_view(ms@[6].1)->Arr_0,
            |e2: JsonV| jv_relation(e2),
        )->Some_0[m] == f_relations.deep_view()[m] by {
            assert(json_view(ms@[6].1)->Arr_0[m] == json_view(arr_relations@[m]));
        }
        assert(jv_list(json_view(ms@[6].1)->Arr_0, |e2: JsonV| jv_relation(e2))->Some_0
            =~= f_relations.deep_view());
    }
    let x = Analysis { kind: f_kind, prelude: f_prelude, imports: f_imports, defs: f_defs, refs: f_refs, macro_refs: f_macro_refs, relations: f_relations };
    proof {
        assert(json_view(*j)->Obj_0.len() == ms@.len());
        assert forall|m: int| 0 <= m < ms@.len() implies json_view(*j)->Obj_0[m] == (
            ms@[m].0@,
            json_view(ms@[m].1),
        ) by {
            assert(json_view(*j)->Obj_0[m] == (ms@[m].0@, json_view(ms@[m].1)));
        }
        assert(jv_analysis(json_view(*j)) is Some);
        assert(jv_analysis(json_view(*j))->Some_0 =~= x.deep_view());
    }
    Ok(x)
}

/// Tests two format discriminators for equality.
pub fn format_eq(a: Format, b: Format) -> (r: bool)
    ensures
        r == (a == b),
{
    match a {
        Format::Csv => matches!(b, Format::Csv),
        Format::Json => matches!(b, Format::Json),
        Format::JsonApi => matches!(b, Format::JsonApi),
    }
}

impl Analysis {
    /// Writes this document in its canonical textual form. Encoding never
    /// fails; the output file's extension is [`Format::extension`]'s
    /// business, not this function's.
    pub fn encode(&self) -> (r: String)
        ensures
            r@ == spec_encode(self.deep_view()),
    {
        let j = analysis_to_json(self);
        let mut out: Vec<char> = Vec::new();
        write_json(&j, &mut out);
        chars_to_string(out)
    }

    /// Reads a document back from its textual form. Succeeds exactly on the
    /// texts [`Analysis::encode`] produces for a document whose discriminator
    /// is `expected`; structurally malformed input is rejected with the
    /// offending field's path, as is a well-formed document whose `kind`
    /// differs from `expected`. An identifier that resolves to no
    /// declaration is not a decode error: it may point into another unit.
    pub fn decode(s: &str, expected: Format) -> (r: Result<Analysis, DecodeError>)
        ensures
            match r {
                Ok(x) => spec_decode(s@, expected) == Some(x.deep_view()),
                Err(e) => spec_decode(s@, expected) is None,
            },
    {
        let n = s.unicode_len();
        let mut buf: Vec<char> = Vec::new();
        let mut k: usize = 0;
        while k < n
            invariant
                n == s@.len(),
                0 <= k <= n,
                buf@ == s@.subrange(0, k as int),
            decreases n - k,
        {
            let c = s.get_char(k);
            buf.push(c);
            proof {
                assert(s@.subrange(0, k + 1 as int) =~= s@.subrange(0, k as int).push(
                    s@[k as int],
                ));
            }
            k = k + 1;
        }
        proof {
            assert(s@.subrange(0, n as int) =~= s@);
        }
        let tree = match parse_document_at(&buf) {
            Some(t) => t,
            None => {
                return Err(err_at("document"));
            },
        };
        let a = match analysis_from_json(&tree) {
            Ok(a) => a,
            Err(e) => {
                return Err(e);
            },
        };
        if format_eq(a.kind, expected) {
            Ok(a)
        } else {
            Err(err_at("kind"))
        }
    }
}

} // verus!
