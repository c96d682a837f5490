use rls_data::{
    Analysis, Attribute, CratePreludeData, Def, DefKind, ExternalCrateData, Format, Id, Import,
    ImportKind, MacroRef, Ref, RefKind, Relation, RelationKind, SigElement, Signature, SpanData,
};

fn span(file: &str, a: u32, b: u32) -> SpanData {
    SpanData {
        file_name: file.to_string(),
        byte_start: a,
        byte_end: b,
        line_start: 1,
        line_end: 2,
        column_start: 1,
        column_end: 9,
    }
}

fn full_analysis() -> Analysis {
    let mut a = Analysis::new();
    a.prelude = Some(CratePreludeData {
        crate_name: "demo".to_string(),
        crate_root: "src/lib.rs".to_string(),
        external_crates: vec![
            ExternalCrateData {
                name: "alpha".to_string(),
                num: 1,
                file_name: "alpha/lib.rs".to_string(),
            },
            ExternalCrateData {
                name: "beta".to_string(),
                num: u32::MAX,
                file_name: "beta/lib.rs".to_string(),
            },
        ],
        span: span("src/lib.rs", 0, 0),
    });
    a.imports = vec![
        Import {
            kind: ImportKind::Use,
            ref_id: Some(Id { krate: 1, index: 9 }),
            span: span("src/lib.rs", 10, 30),
            name: "alpha::thing".to_string(),
            value: "use alpha::thing;".to_string(),
        },
        Import {
            kind: ImportKind::GlobUse,
            ref_id: None,
            span: span("src/lib.rs", 31, 50),
            name: "beta::*".to_string(),
            value: "use beta::*;".to_string(),
        },
    ];
    a.defs = vec![
        Def {
            kind: DefKind::Mod,
            id: Id { krate: 0, index: 1 },
            span: span("src/lib.rs", 0, 100),
            name: "demo".to_string(),
            qualname: "demo".to_string(),
            value: "src/lib.rs".to_string(),
            parent: None,
            children: vec![Id { krate: 0, index: 2 }],
            decl_id: None,
            docs: "the crate root".to_string(),
            sig: None,
            attributes: vec![],
        },
        Def {
            kind: DefKind::Function,
            id: Id { krate: 0, index: 2 },
            span: span("src/lib.rs", 60, 90),
            name: "run".to_string(),
            qualname: "demo::run".to_string(),
            value: "-> u32".to_string(),
            parent: Some(Id { krate: 0, index: 1 }),
            children: vec![],
            decl_id: Some(Id { krate: 1, index: 4 }),
            docs: String::new(),
            sig: Some(Signature {
                span: span("src/lib.rs", 60, 75),
                text: "fn run<T>(x: T) -> u32".to_string(),
                ident_start: 3,
                ident_end: 6,
                defs: vec![SigElement { id: Id { krate: 0, index: 7 }, start: 7, end: 8 }],
                refs: vec![SigElement { id: Id { krate: 0, index: 8 }, start: 13, end: 14 }],
            }),
            attributes: vec![Attribute {
                value: "#[inline]".to_string(),
                span: span("src/lib.rs", 55, 59),
            }],
        },
    ];
    a.refs = vec![Ref {
        kind: RefKind::Function,
        span: span("src/lib.rs", 95, 98),
        ref_id: Id { krate: 0, index: 2 },
    }];
    a.macro_refs = vec![MacroRef {
        span: span("src/lib.rs", 40, 45),
        qualname: "beta::shout".to_string(),
        callee_span: span("beta/lib.rs", 5, 25),
    }];
    a.relations = vec![Relation {
        span: span("src/lib.rs", 70, 80),
        kind: RelationKind::Impl,
        from: Id { krate: 0, index: 2 },
        to: Id { krate: 1, index: 3 },
    }];
    a
}

const EMPTY_TEXT: &str = "{\"kind\":\"Json\",\"prelude\":null,\"imports\":[],\"defs\":[],\"refs\":[],\"macro_refs\":[],\"relations\":[]}";

#[test]
fn extension_of_each_format() {
    assert_eq!(Format::Csv.extension(), ".csv");
    assert_eq!(Format::Json.extension(), ".json");
    assert_eq!(Format::JsonApi.extension(), ".json");
    assert_eq!(Format::Json.extension(), Format::JsonApi.extension());
}

#[test]
fn new_analysis_is_empty_json_document() {
    let a = Analysis::new();
    assert_eq!(a.kind, Format::Json);
    assert!(a.prelude.is_none());
    assert!(a.imports.is_empty());
    assert!(a.defs.is_empty());
    assert!(a.refs.is_empty());
    assert!(a.macro_refs.is_empty());
    assert!(a.relations.is_empty());
}

#[test]
fn encode_of_empty_document_is_canonical() {
    assert_eq!(Analysis::new().encode(), EMPTY_TEXT);
}

#[test]
fn round_trip_empty_document_keeps_absent_prelude() {
    let a = Analysis::new();
    let text = a.encode();
    let b = Analysis::decode(&text, Format::Json).expect("decode");
    assert!(b.prelude.is_none());
    assert_eq!(a, b);
}

#[test]
fn round_trip_fully_populated_document() {
    let a = full_analysis();
    let text = a.encode();
    let b = Analysis::decode(&text, Format::Json).expect("decode");
    assert_eq!(a, b);
}

#[test]
fn round_trip_present_prelude_stays_present() {
    let a = full_analysis();
    let b = Analysis::decode(&a.encode(), Format::Json).expect("decode");
    assert_eq!(b.prelude, a.prelude);
    assert_eq!(b.prelude.as_ref().unwrap().external_crates.len(), 2);
}

#[test]
fn round_trip_strings_with_quotes_and_backslashes() {
    let mut a = Analysis::new();
    a.defs = vec![Def {
        kind: DefKind::Const,
        id: Id { krate: 0, index: 3 },
        span: span("dir\\file \"x\".rs", 1, 2),
        name: "N\"\\".to_string(),
        qualname: "q\u{e9}\u{4e16}\n\t".to_string(),
        value: "\"\\\"\\\\\"".to_string(),
        parent: None,
        children: vec![],
        decl_id: None,
        docs: "say \\\" twice".to_string(),
        sig: None,
        attributes: vec![],
    }];
    let b = Analysis::decode(&a.encode(), Format::Json).expect("decode");
    assert_eq!(a, b);
}

#[test]
fn round_trip_csv_kind_document() {
    let mut a = Analysis::new();
    a.kind = Format::Csv;
    let b = Analysis::decode(&a.encode(), Format::Csv).expect("decode");
    assert_eq!(a, b);
}

#[test]
fn round_trip_json_api_kind_document() {
    let mut a = Analysis::new();
    a.kind = Format::JsonApi;
    let b = Analysis::decode(&a.encode(), Format::JsonApi).expect("decode");
    assert_eq!(a, b);
}

#[test]
fn decode_rejects_unknown_format_discriminator() {
    let text = EMPTY_TEXT.replace("\"Json\"", "\"Pickle\"");
    let e = Analysis::decode(&text, Format::Json);
    assert!(e.is_err());
    assert!(!e.unwrap_err().path.is_empty());
}

#[test]
fn decode_rejects_missing_required_field() {
    assert!(Analysis::decode("{\"kind\":\"Json\"}", Format::Json).is_err());
}

#[test]
fn decode_rejects_wrong_field_type() {
    let text = EMPTY_TEXT.replace("\"imports\":[]", "\"imports\":7");
    assert!(Analysis::decode(&text, Format::Json).is_err());
}

#[test]
fn decode_rejects_out_of_range_number() {
    let a = full_analysis();
    let text = a.encode().replace("\"byte_start\":95", "\"byte_start\":4294967296");
    assert!(Analysis::decode(&text, Format::Json).is_err());
}

#[test]
fn decode_rejects_trailing_garbage() {
    let mut text = Analysis::new().encode();
    text.push('x');
    assert!(Analysis::decode(&text, Format::Json).is_err());
}

#[test]
fn decode_rejects_empty_input() {
    assert!(Analysis::decode("", Format::Json).is_err());
}

#[test]
fn decode_rejects_mismatched_expected_kind() {
    let text = Analysis::new().encode();
    assert!(Analysis::decode(&text, Format::Csv).is_err());
    assert!(Analysis::decode(&text, Format::Json).is_ok());
}

#[test]
fn parent_and_children_recorded_both_ways() {
    let a = full_analysis();
    let parent = &a.defs[0];
    let child = &a.defs[1];
    assert_eq!(child.parent, Some(parent.id));
    assert!(parent.children.contains(&child.id));
    let b = Analysis::decode(&a.encode(), Format::Json).expect("decode");
    assert_eq!(b.defs[1].parent, Some(b.defs[0].id));
    assert!(b.defs[0].children.contains(&b.defs[1].id));
}

#[test]
fn one_sided_parent_link_still_decodes() {
    // a producer bug, not a decode failure: the consumer sees an
    // unresolved link
    let mut a = Analysis::new();
    a.defs = vec![Def {
        kind: DefKind::Field,
        id: Id { krate: 0, index: 5 },
        span: span("f.rs", 0, 1),
        name: "x".to_string(),
        qualname: "s::x".to_string(),
        value: "u8".to_string(),
        parent: Some(Id { krate: 0, index: 99 }),
        children: vec![],
        decl_id: None,
        docs: String::new(),
        sig: None,
        attributes: vec![],
    }];
    let b = Analysis::decode(&a.encode(), Format::Json).expect("decode");
    assert_eq!(a, b);
    assert!(b.lookup_def(Id { krate: 0, index: 99 }).is_none());
}

#[test]
fn one_function_crate_scenario() {
    let mut a = Analysis::new();
    let main_id = Id { krate: 0, index: 1 };
    a.defs = vec![Def {
        kind: DefKind::Function,
        id: main_id,
        span: span("src/main.rs", 0, 40),
        name: "main".to_string(),
        qualname: "crate_name::main".to_string(),
        value: String::new(),
        parent: None,
        children: vec![],
        decl_id: None,
        docs: String::new(),
        sig: None,
        attributes: vec![],
    }];
    a.refs = vec![Ref {
        kind: RefKind::Function,
        span: span("src/main.rs", 50, 54),
        ref_id: main_id,
    }];
    let b = Analysis::decode(&a.encode(), Format::Json).expect("decode");
    assert_eq!(a, b);
    assert_eq!(b.defs.len(), 1);
    assert_eq!(b.defs[0].kind, DefKind::Function);
    assert_eq!(b.defs[0].name, "main");
    assert_eq!(b.defs[0].qualname, "crate_name::main");
    assert_eq!(b.defs[0].parent, None);
    assert_eq!(b.refs.len(), 1);
    assert_eq!(b.refs[0].ref_id, b.defs[0].id);
}

#[test]
fn lookup_def_finds_first_match_and_ignores_dangling() {
    let a = full_analysis();
    let d = a.lookup_def(Id { krate: 0, index: 2 }).expect("present");
    assert_eq!(d.name, "run");
    assert!(a.lookup_def(Id { krate: 9, index: 9 }).is_none());
}

#[test]
fn round_trip_extreme_numbers() {
    let mut a = Analysis::new();
    a.defs = vec![Def {
        kind: DefKind::Static,
        id: Id { krate: u32::MAX, index: 0 },
        span: span("m.rs", u32::MAX, u32::MAX),
        name: "S".to_string(),
        qualname: "m::S".to_string(),
        value: "u64 = 0".to_string(),
        parent: None,
        children: vec![],
        decl_id: None,
        docs: String::new(),
        sig: Some(Signature {
            span: span("m.rs", 0, 0),
            text: "static S: u64".to_string(),
            ident_start: usize::MAX,
            ident_end: usize::MAX,
            defs: vec![],
            refs: vec![],
        }),
        attributes: vec![],
    }];
    let b = Analysis::decode(&a.encode(), Format::Json).expect("decode");
    assert_eq!(a, b);
}

#[test]
fn every_def_kind_round_trips() {
    let kinds = [
        DefKind::Enum,
        DefKind::Tuple,
        DefKind::Struct,
        DefKind::Union,
        DefKind::Trait,
        DefKind::Function,
        DefKind::Method,
        DefKind::Macro,
        DefKind::Mod,
        DefKind::Type,
        DefKind::Local,
        DefKind::Static,
        DefKind::Const,
        DefKind::Field,
    ];
    let mut a = Analysis::new();
    a.defs = kinds
        .iter()
        .enumerate()
        .map(|(i, k)| Def {
            kind: *k,
            id: Id { krate: 0, index: i as u32 },
            span: span("k.rs", i as u32, i as u32 + 1),
            name: format!("d{i}"),
            qualname: format!("k::d{i}"),
            value: String::new(),
            parent: None,
            children: vec![],
            decl_id: None,
            docs: String::new(),
            sig: None,
            attributes: vec![],
        })
        .collect();
    let b = Analysis::decode(&a.encode(), Format::Json).expect("decode");
    assert_eq!(a, b);
}

#[test]
fn every_import_ref_and_relation_kind_round_trips() {
    let mut a = Analysis::new();
    a.imports = [ImportKind::ExternCrate, ImportKind::Use, ImportKind::GlobUse]
        .iter()
        .map(|k| Import {
            kind: *k,
            ref_id: None,
            span: span("i.rs", 0, 1),
            name: "n".to_string(),
            value: "v".to_string(),
        })
        .collect();
    a.refs = [RefKind::Function, RefKind::Mod, RefKind::Type, RefKind::Variable]
        .iter()
        .map(|k| Ref { kind: *k, span: span("i.rs", 2, 3), ref_id: Id { krate: 1, index: 1 } })
        .collect();
    a.relations = [RelationKind::Impl, RelationKind::SuperTrait]
        .iter()
        .map(|k| Relation {
            span: span("i.rs", 4, 5),
            kind: *k,
            from: Id { krate: 0, index: 1 },
            to: Id { krate: 0, index: 2 },
        })
        .collect();
    let b = Analysis::decode(&a.encode(), Format::Json).expect("decode");
    assert_eq!(a, b);
}

#[test]
fn decode_rejects_whitespace_variant() {
    let text = EMPTY_TEXT.replace("\"kind\":", "\"kind\": ");
    assert!(Analysis::decode(&text, Format::Json).is_err());
}

#[test]
fn decode_rejects_reordered_fields() {
    let mut a = Analysis::new();
    a.kind = Format::Csv;
    let text = a.encode().replace(
        "{\"kind\":\"Csv\",\"prelude\":null",
        "{\"prelude\":null,\"kind\":\"Csv\"",
    );
    assert!(Analysis::decode(&text, Format::Csv).is_err());
}
