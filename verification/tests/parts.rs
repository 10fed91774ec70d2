//! The parts of a workbook that need no engine.

use formualizer_workbook::address::RangeAddress;
use formualizer_workbook::config::{
    EvalConfig, FormulaParsePolicy, FormulaPlaneMode, WorkbookConfig, WorkbookMode,
};
use formualizer_workbook::engine::{to_zero_based, CalcSettings, CellRef, NamedDefinition};
use formualizer_workbook::error::{EditorError, ExcelError, ExcelErrorKind, IoError};
use formualizer_workbook::export::merge_settings;
use formualizer_workbook::formula::{accept_parse, parse_formula, sign_formula};
use formualizer_workbook::function::{
    finish_call, function_caps, materialize_arg, normalize_custom_fn_name, stable_fn_salt,
    validate_call_arity, validate_custom_arity, CallOutcome, CustomFnOptions, EvaluatedArg,
};
use formualizer_workbook::grid::{list_cells, width};
use formualizer_workbook::manifest::{
    normalize_wasm_module_id, validate_wasm_manifest, WasmManifestFunction, WasmManifestModule,
    WasmModuleManifest, WASM_MANIFEST_SCHEMA_V1, WASM_MANIFEST_SECTION_V1,
};
use formualizer_workbook::names::{address_between, define_address, definition_corners};
use formualizer_workbook::text::{order_of, push_decimal, same_text, TextOrder};
use formualizer_workbook::text_map::TextMap;
use formualizer_workbook::value::{
    overlay_value, unwrap_scalar_array, DateSystem, DateTimeValue, DateValue, DurationValue,
    LiteralValue, OverlayValue, SerialSource, TimeValue,
};
use formualizer_workbook::wasm::{
    extract_wasm_manifest_json_from_module, manifest_section_of, ModuleItem, PendingWasmRuntime,
    WasmUdfRuntime,
};

fn named(kind: ExcelErrorKind, message: &str) -> ExcelError {
    ExcelError::new(kind).with_message(message.to_string())
}

fn value_error(message: &str) -> ExcelError {
    named(ExcelErrorKind::Value, message)
}

#[test]
fn names_are_trimmed_and_upper_cased() {
    assert_eq!(normalize_custom_fn_name(" \t my_fn\n"), Ok("MY_FN".to_string()));
    assert_eq!(normalize_custom_fn_name("\u{2003}straße"), Ok("STRAßE".to_string()));
    let once = normalize_custom_fn_name(" aB ").unwrap();
    assert_eq!(normalize_custom_fn_name(&once), Ok(once.clone()));
    assert_eq!(
        normalize_custom_fn_name(" \u{00a0} "),
        Err(named(ExcelErrorKind::Name, "Function name cannot be empty"))
    );
    assert_eq!(normalize_wasm_module_id(" plugin://Mixed "), Ok("plugin://Mixed".to_string()));
    assert_eq!(
        normalize_wasm_module_id(""),
        Err(value_error("WASM module_id cannot be empty"))
    );
}

#[test]
fn salts_are_those_of_the_name_bytes() {
    assert_eq!(stable_fn_salt(""), 0xcbf29ce484222325);
    assert_eq!(stable_fn_salt("ABC"), 0xfa2fe219a07442eb);
    assert_eq!(stable_fn_salt("ÄB"), 0x5f6da31c1d909020);
}

#[test]
fn arities_are_checked() {
    let mut o = CustomFnOptions::default();
    assert!(o.deterministic);
    assert!(!o.volatile && !o.thread_safe && !o.allow_override_builtin);
    assert_eq!((o.min_args, o.max_args), (0, None));
    o.min_args = 2;
    o.max_args = Some(2);
    assert_eq!(validate_custom_arity("F", &o), Ok(()));
    assert_eq!(validate_call_arity("F", &o, 2), Ok(()));
    assert_eq!(
        validate_call_arity("F", &o, 1),
        Err(value_error("F expects at least 2 argument(s), got 1"))
    );
    assert_eq!(
        validate_call_arity("F", &o, 12),
        Err(value_error("F expects at most 2 argument(s), got 12"))
    );
    o.max_args = Some(1);
    assert_eq!(
        validate_custom_arity("F", &o),
        Err(value_error("Invalid arity for F: max_args (1) < min_args (2)"))
    );
}

#[test]
fn caps_follow_the_options() {
    let mut o = CustomFnOptions::default();
    assert!(function_caps(&o).pure && !function_caps(&o).volatile);
    o.volatile = true;
    assert!(!function_caps(&o).pure && function_caps(&o).volatile);
    o.volatile = false;
    o.deterministic = false;
    assert!(!function_caps(&o).pure && !function_caps(&o).volatile);
}

#[test]
fn single_cell_arrays_count_as_scalars() {
    let one = LiteralValue::Array(vec![vec![LiteralValue::Int(3)]]);
    assert_eq!(unwrap_scalar_array(one), LiteralValue::Int(3));
    let nested = LiteralValue::Array(vec![vec![LiteralValue::Array(vec![])]]);
    assert_eq!(unwrap_scalar_array(nested), LiteralValue::Array(vec![]));
    let row = LiteralValue::Array(vec![vec![LiteralValue::Int(1), LiteralValue::Int(2)]]);
    assert!(matches!(unwrap_scalar_array(row), LiteralValue::Array(rows) if rows[0].len() == 2));
    assert_eq!(
        materialize_arg(EvaluatedArg::Range(vec![vec![LiteralValue::Boolean(true)]])),
        LiteralValue::Boolean(true)
    );
    assert_eq!(
        materialize_arg(EvaluatedArg::Range(vec![])),
        LiteralValue::Array(vec![])
    );
    assert_eq!(
        finish_call(CallOutcome::Panicked, "boom"),
        Err(value_error("boom"))
    );
    assert_eq!(
        finish_call(CallOutcome::Returned(Ok(LiteralValue::Pending)), "boom"),
        Ok(LiteralValue::Pending)
    );
}

#[test]
fn overlay_holds_one_value_of_each_kind() {
    let s = DateSystem::Excel1904;
    let date = DateValue { days_from_ce: 738000 };
    let time = TimeValue { seconds_from_midnight: 3600, nanosecond: 5 };
    let lay = |v: LiteralValue| overlay_value(&v, s);
    assert_eq!(lay(LiteralValue::Empty), OverlayValue::Empty);
    assert_eq!(lay(LiteralValue::Int(-4)), OverlayValue::Integer(-4));
    let bits = 2.5f64.to_bits();
    assert_eq!(lay(LiteralValue::Number(bits)), OverlayValue::Number(bits));
    assert_eq!(lay(LiteralValue::Boolean(true)), OverlayValue::Boolean(true));
    assert_eq!(
        lay(LiteralValue::Text("t".to_string())),
        OverlayValue::Text("t".to_string())
    );
    assert_eq!(
        lay(LiteralValue::Error(ExcelError::new(ExcelErrorKind::Div))),
        OverlayValue::Error(ExcelErrorKind::Div)
    );
    let midnight = DateTimeValue {
        date,
        time: TimeValue { seconds_from_midnight: 0, nanosecond: 0 },
    };
    assert_eq!(
        lay(LiteralValue::Date(date)),
        OverlayValue::DateTime(SerialSource::Moment { system: s, moment: midnight })
    );
    let moment = DateTimeValue { date, time };
    assert_eq!(
        lay(LiteralValue::DateTime(moment)),
        OverlayValue::DateTime(SerialSource::Moment { system: s, moment })
    );
    assert_eq!(
        lay(LiteralValue::Time(time)),
        OverlayValue::DateTime(SerialSource::DayFraction { seconds: 3600 })
    );
    assert_eq!(
        lay(LiteralValue::Duration(DurationValue { seconds: -7, subsec_nanos: -1 })),
        OverlayValue::Duration { seconds: -7 }
    );
    assert_eq!(lay(LiteralValue::Pending), OverlayValue::Pending);
    assert_eq!(
        lay(LiteralValue::Array(vec![])),
        OverlayValue::Error(ExcelErrorKind::Value)
    );
}

#[test]
fn formulas_get_their_sign() {
    assert_eq!(sign_formula("A1+1"), "=A1+1");
    assert_eq!(sign_formula("=A1+1"), "=A1+1");
    assert_eq!(sign_formula(""), "=");
    assert_eq!(
        parse_formula("A1+1").unwrap().to_string(),
        parse_formula("=A1+1").unwrap().to_string()
    );
    assert_eq!(
        parse_formula("=SUM(A1:A3)*2").unwrap().to_string(),
        formualizer_parse::parse("=SUM(A1:A3)*2").unwrap().to_string()
    );
    let text = formualizer_parse::parse("=((").map_err(|e| e.to_string()).unwrap_err();
    let refused = IoError::Backend { backend: "parser".to_string(), message: text };
    assert_eq!(parse_formula("((").map(|_| ()), Err(refused));
    assert_eq!(
        accept_parse(Err("why".to_string())).map(|_| ()),
        Err(IoError::Backend { backend: "parser".to_string(), message: "why".to_string() })
    );
}

#[test]
fn modes_have_their_settings() {
    let fast: WorkbookConfig<u8, u8> = WorkbookConfig::for_mode(WorkbookMode::Ephemeral);
    assert!(!fast.enable_changelog);
    assert!(!fast.eval.defer_graph_building);
    assert_eq!(fast.eval.formula_parse_policy, FormulaParsePolicy::Strict);
    let full: WorkbookConfig<u8, u8> = WorkbookConfig::for_mode(WorkbookMode::Interactive);
    assert!(full.enable_changelog);
    assert!(full.eval.defer_graph_building);
    assert_eq!(full.eval.formula_parse_policy, FormulaParsePolicy::CoerceToError);
    assert!(!full.span_evaluation_enabled());
    let spans = full.with_span_evaluation(true);
    assert!(spans.span_evaluation_enabled());
    assert_eq!(spans.eval.formula_plane_mode, FormulaPlaneMode::AuthoritativeExperimental);
    let off = spans.with_span_evaluation(false).with_ingest_limits(9);
    assert_eq!(off.ingest_limits, 9);
    assert!(!off.span_evaluation_enabled());
    assert!(off
        .with_formula_plane_mode(FormulaPlaneMode::AuthoritativeExperimental)
        .span_evaluation_enabled());
    let eval: EvalConfig<u8> = EvalConfig::default();
    assert!(eval.arrow_storage_enabled && eval.delta_overlay_enabled);
    assert_eq!(eval.date_system, DateSystem::Excel1900);
}

#[test]
fn addresses_are_ordered_and_start_at_one() {
    let a = RangeAddress::new("S", 2, 3, 4, 3).unwrap();
    assert_eq!((a.height(), a.width()), (3, 1));
    assert_eq!(
        RangeAddress::new("S", 0, 1, 1, 1),
        Err("Row and column indices must be 1-based")
    );
    assert_eq!(
        RangeAddress::new("S", 2, 1, 1, 1),
        Err("Range must be ordered: start <= end")
    );
}

#[test]
fn definitions_and_addresses_mean_each_other() {
    let a = RangeAddress::new("S", 2, 3, 4, 5).unwrap();
    let d = define_address(7, &a);
    let (start, end) = definition_corners(&d).unwrap();
    assert_eq!(start, CellRef { sheet_id: 7, row: 1, col: 2 });
    assert_eq!(end, CellRef { sheet_id: 7, row: 3, col: 4 });
    assert_eq!(address_between("S", start, end), Some(a));
    let one = RangeAddress::new("S", 9, 9, 9, 9).unwrap();
    assert!(matches!(define_address(7, &one), NamedDefinition::Cell(c) if c.row == 8));
    assert!(definition_corners(&NamedDefinition::Literal).is_none());
    let other = CellRef { sheet_id: 8, row: 3, col: 4 };
    assert!(definition_corners(&NamedDefinition::Range { start, end: other }).is_none());
    assert_eq!(address_between("S", end, start), None);
    assert_eq!(CellRef::from_excel(1, 0, 1), CellRef { sheet_id: 1, row: 0, col: 0 });
    assert_eq!(to_zero_based(5), 4);
}

#[test]
fn rectangles_are_listed_by_rows() {
    let rows = vec![vec!['a', 'b'], vec![], vec!['c']];
    let listed: Vec<(u32, u32, char)> =
        list_cells(4, 7, &rows).into_iter().map(|(r, c, v)| (r, c, *v)).collect();
    assert_eq!(listed, vec![(4, 7, 'a'), (4, 8, 'b'), (6, 7, 'c')]);
    assert_eq!(width(&rows), 2);
}

#[test]
fn texts_are_compared_by_bytes() {
    assert!(same_text("äb", "äb"));
    assert!(!same_text("a", "A"));
    assert!(matches!(order_of("a", "b"), TextOrder::Before));
    assert!(matches!(order_of("Z", "a"), TextOrder::Before));
    assert!(matches!(order_of("ab", "a"), TextOrder::After));
    assert!(matches!(order_of("x", "x"), TextOrder::Same));
    let mut out = String::from("n=");
    push_decimal(&mut out, 18446744073709551615);
    assert_eq!(out, "n=18446744073709551615");
}

#[test]
fn text_maps_keep_their_order() {
    let mut m: TextMap<u8> = TextMap::new();
    m.insert("b".to_string(), 2);
    m.insert("a".to_string(), 1);
    m.insert("c".to_string(), 3);
    m.insert("b".to_string(), 9);
    assert_eq!(m.len(), 3);
    assert_eq!((*m.value(0), *m.value(1), *m.value(2)), (1, 9, 3));
    assert_eq!(m.get("b"), Some(&9));
    assert_eq!(m.remove("a"), Some(1));
    assert_eq!(m.remove("a"), None);
    assert!(!m.contains_key("a"));
}

fn function(id: u32, name: &str, export: &str) -> WasmManifestFunction {
    WasmManifestFunction {
        id,
        name: name.to_string(),
        aliases: Vec::new(),
        export_name: export.to_string(),
        min_args: 0,
        max_args: None,
        volatile: false,
        deterministic: true,
        thread_safe: false,
        params: Vec::new(),
        returns: None,
    }
}

fn manifest(functions: Vec<WasmManifestFunction>) -> WasmModuleManifest {
    WasmModuleManifest {
        schema: WASM_MANIFEST_SCHEMA_V1.to_string(),
        module: WasmManifestModule {
            id: "plugin://m".to_string(),
            version: "1".to_string(),
            abi: 1,
            codec: 1,
        },
        functions,
    }
}

fn refusal(change: fn(&mut WasmModuleManifest)) -> ExcelError {
    let mut m = manifest(vec![function(1, "add", "f1"), function(2, "sub", "f2")]);
    assert_eq!(validate_wasm_manifest(&m), Ok(()));
    change(&mut m);
    validate_wasm_manifest(&m).unwrap_err()
}

#[test]
fn manifests_are_refused_for_their_first_fault() {
    assert_eq!(
        refusal(|m| m.schema = "v2".to_string()),
        value_error("Unsupported WASM manifest schema: v2")
    );
    assert_eq!(
        refusal(|m| m.module.id = " ".to_string()),
        value_error("WASM module_id cannot be empty")
    );
    assert_eq!(
        refusal(|m| m.module.id = "m ".to_string()),
        value_error("WASM manifest module.id must not have leading/trailing whitespace")
    );
    assert_eq!(
        refusal(|m| m.module.version = "\t".to_string()),
        value_error("WASM manifest module.version cannot be empty")
    );
    assert_eq!(
        refusal(|m| m.module.abi = 2),
        named(ExcelErrorKind::NImpl, "Unsupported WASM ABI version 2 (expected 1)")
    );
    assert_eq!(
        refusal(|m| m.module.codec = 30),
        named(ExcelErrorKind::NImpl, "Unsupported WASM codec version 30 (expected 1)")
    );
    assert_eq!(
        refusal(|m| m.functions.clear()),
        value_error("WASM manifest must define at least one function")
    );
    assert_eq!(
        refusal(|m| m.functions[1].id = 1),
        value_error("Duplicate WASM manifest function id 1")
    );
    assert_eq!(
        refusal(|m| m.functions[1].export_name = " ".to_string()),
        value_error("WASM function 2 has empty export name")
    );
    assert_eq!(
        refusal(|m| m.functions[1].export_name = "f1".to_string()),
        value_error("Duplicate WASM export name: f1")
    );
    assert_eq!(
        refusal(|m| m.functions[0].name = "".to_string()),
        named(ExcelErrorKind::Name, "Function name cannot be empty")
    );
    assert_eq!(
        refusal(|m| m.functions[1].name = " ADD".to_string()),
        value_error("Duplicate WASM function name or alias:  ADD")
    );
    assert_eq!(
        refusal(|m| {
            m.functions[0].min_args = 4;
            m.functions[0].max_args = Some(3);
        }),
        value_error("Invalid WASM function arity for add: max_args (3) < min_args (4)")
    );
    assert_eq!(
        refusal(|m| m.functions[1].aliases.push("Add".to_string())),
        value_error("Duplicate WASM function alias: Add")
    );
}

#[test]
fn manifest_sections_must_be_single() {
    let section = |name: &str, data: &[u8]| ModuleItem::Custom {
        name: name.to_string(),
        data: data.to_vec(),
    };
    assert_eq!(
        manifest_section_of(vec![
            ModuleItem::Other,
            section("x", b"no"),
            section(WASM_MANIFEST_SECTION_V1, b"yes"),
        ]),
        Ok(b"yes".to_vec())
    );
    assert_eq!(
        manifest_section_of(vec![ModuleItem::Invalid("bad".to_string())]),
        Err(value_error("Invalid WASM module bytes: bad"))
    );
    assert_eq!(
        manifest_section_of(vec![
            section(WASM_MANIFEST_SECTION_V1, b"a"),
            section(WASM_MANIFEST_SECTION_V1, b"b"),
        ]),
        Err(value_error("WASM module has multiple formualizer manifest custom sections"))
    );
    assert!(extract_wasm_manifest_json_from_module(b"").is_err());
}

#[test]
fn pending_runtimes_bind_and_run_nothing() {
    let runtime = PendingWasmRuntime;
    assert!(!runtime.can_bind_functions());
    assert_eq!(
        runtime.invoke("m", "e", "F", 1, &[], None),
        Err(named(
            ExcelErrorKind::NImpl,
            "WASM plugin runtime integration is pending for F (module_id=m, export_name=e, \
             codec_version=1)"
        ))
    );
    assert_eq!(runtime.unregister_module("m"), Ok(()));
}

#[test]
fn errors_are_told_by_their_origin() {
    let plain = EditorError { text: "no".to_string(), excel: None };
    assert_eq!(
        IoError::from_editor(plain),
        IoError::Backend { backend: "editor".to_string(), message: "no".to_string() }
    );
    let cell = ExcelError::new(ExcelErrorKind::Circ);
    let deep = EditorError { text: "no".to_string(), excel: Some(cell.clone()) };
    assert_eq!(IoError::from_editor(deep), IoError::Engine(cell));
}

#[test]
fn loaded_settings_are_written_back() {
    let loaded = CalcSettings {
        iteration: 1,
        calc_mode: Some("manual".to_string()),
        full_calc_on_load: Some(false),
    };
    let cycle = CalcSettings { iteration: 2, calc_mode: None, full_calc_on_load: Some(true) };
    let merged = merge_settings(cycle, &Some(loaded));
    assert_eq!(merged.iteration, 2);
    assert_eq!(merged.calc_mode.as_deref(), Some("manual"));
    assert_eq!(merged.full_calc_on_load, Some(false));
    let alone = CalcSettings { iteration: 3, calc_mode: None, full_calc_on_load: None };
    assert_eq!(merge_settings(alone, &None).iteration, 3);
}
