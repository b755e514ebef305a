use qshare::csv::{load_csv, parse_csv_text, write_csv};
use qshare::mapping::{apply_field_mapping, MappingError};
use qshare::parse::{json_body_to_table, ParseError};
use qshare::pipeline::{fetch_from_cache, fetch_on_miss, fetch_plan, DataResultFormat, FetchError, HttpSource};
use qshare::sina::stock::eastmoney::EastmoneySpotEmDataSource;
use qshare::sina::stock::sina::SinaIndexSpotDataSource;
use qshare::sina::stock::SinaSpotEmDataSource;
use qshare::table::{ColType, Column, Table};
use qshare::update_local_temp_data::{has_row_dated, header_position, row_to_csv};
use qshare::DataResult;

const SINA_BODY: &str = "[{\"symbol\":\"sh000001\",\"name\":\"\\u4e0a\\u8bc1\\u6307\\u6570\",\"trade\":\"2978.7147\",\"pricechange\":\"-26.679\",\"changepercent\":\"-0.888\",\"buy\":\"0\",\"sell\":\"0\",\"settlement\":\"3005.3934\",\"open\":\"2995.3575\",\"high\":\"3006.2746\",\"low\":\"2977.1731\",\"volume\":251241582,\"amount\":290107550274,\"code\":\"000001\",\"ticktime\":\"14:49:47\"}]";

fn two_col_table() -> Table {
    Table {
        cols: vec![
            Column {
                name: "代码".to_string(),
                ty: ColType::Text,
                cells: vec!["000001".to_string(), "000002".to_string()],
            },
            Column {
                name: "最新价".to_string(),
                ty: ColType::Float64,
                cells: vec!["10.5".to_string(), "-1".to_string()],
            },
        ],
    }
}

#[test]
fn fingerprint_is_deterministic() {
    let source = SinaSpotEmDataSource {};
    assert_eq!(source.id(), source.id());
    let index = SinaIndexSpotDataSource {};
    assert_eq!(index.id(), index.id());
}

#[test]
fn fingerprints_differ_between_configurations() {
    let a = SinaSpotEmDataSource {}.id();
    let b = EastmoneySpotEmDataSource {}.id();
    let c = SinaIndexSpotDataSource {}.id();
    assert_ne!(a, b);
    assert_ne!(a, c);
    assert_ne!(b, c);
}

#[test]
fn fingerprint_has_hex_shape() {
    let id = SinaSpotEmDataSource {}.id();
    assert_eq!(id.len(), 32);
}

#[test]
fn cache_round_trip_reproduces_table() {
    let t = two_col_table();
    let text = write_csv(&t);
    assert_eq!(text, "代码,最新价\n000001,10.5\n000002,-1\n");
    let schema = vec![("代码".to_string(), ColType::Text), ("最新价".to_string(), ColType::Float64)];
    let back = load_csv(&text, &schema).unwrap();
    assert_eq!(back.n_cols(), 2);
    assert_eq!(back.n_rows(), 2);
    assert_eq!(back.col_name(0), "代码");
    assert_eq!(back.col_name(1), "最新价");
    assert!(back.col_ty(1) == ColType::Float64);
    assert_eq!(back.cell(0, 0), "000001");
    assert_eq!(back.cell(0, 1), "000002");
    assert_eq!(back.cell(1, 0), "10.5");
    assert_eq!(back.cell(1, 1), "-1");
}

#[test]
fn cache_round_trip_with_quoted_cells() {
    let t = Table {
        cols: vec![
            Column {
                name: "名称".to_string(),
                ty: ColType::Text,
                cells: vec!["a,b".to_string(), "he said \"hi\"".to_string(), "line\nbreak".to_string()],
            },
        ],
    };
    let text = write_csv(&t);
    assert_eq!(text, "名称\n\"a,b\"\n\"he said \"\"hi\"\"\"\n\"line\nbreak\"\n");
    let schema: Vec<(String, ColType)> = Vec::new();
    let back = load_csv(&text, &schema).unwrap();
    assert_eq!(back.n_rows(), 3);
    assert_eq!(back.cell(0, 0), "a,b");
    assert_eq!(back.cell(0, 1), "he said \"hi\"");
    assert_eq!(back.cell(0, 2), "line\nbreak");
}

#[test]
fn load_without_schema_defaults_to_text() {
    let t = two_col_table();
    let text = write_csv(&t);
    let schema: Vec<(String, ColType)> = Vec::new();
    let back = load_csv(&text, &schema).unwrap();
    assert!(back.col_ty(0) == ColType::Text);
    assert!(back.col_ty(1) == ColType::Text);
    assert_eq!(back.cell(1, 0), "10.5");
}

#[test]
fn sentinel_becomes_placeholder() {
    let source = SinaSpotEmDataSource {};
    let body = "({\"diff\":[{\"f12\":\"000001\",\"f2\":\"-\"}]})".to_string();
    let dr = source.to_dataframe(Some(body)).unwrap();
    let t = dr.data.unwrap();
    let f2 = t.col_index("f2").unwrap();
    assert!(t.col_ty(f2) == ColType::Float64);
    assert_eq!(t.cell(f2, 0), "-1");
    let f12 = t.col_index("f12").unwrap();
    assert!(t.col_ty(f12) == ColType::Text);
    assert_eq!(t.cell(f12, 0), "000001");
}

#[test]
fn mapping_yields_exactly_the_target_columns() {
    let t = Table {
        cols: vec![
            Column {
                name: "f12".to_string(),
                ty: ColType::Text,
                cells: vec!["000001".to_string()],
            },
            Column {
                name: "f14".to_string(),
                ty: ColType::Text,
                cells: vec!["平安银行".to_string()],
            },
        ],
    };
    let pairs = vec![
        ("f12".to_string(), "代码".to_string()),
        ("f14".to_string(), "名称".to_string()),
        ("f12".to_string(), "symbol".to_string()),
    ];
    let mapped = apply_field_mapping(&t, &pairs).unwrap();
    assert_eq!(mapped.n_cols(), 3);
    assert_eq!(mapped.col_name(0), "代码");
    assert_eq!(mapped.col_name(1), "名称");
    assert_eq!(mapped.col_name(2), "symbol");
    assert_eq!(mapped.cell(0, 0), "000001");
    assert_eq!(mapped.cell(1, 0), "平安银行");
    assert_eq!(mapped.cell(2, 0), "000001");
}

#[test]
fn mapping_missing_source_is_an_error() {
    let t = two_col_table();
    let pairs = vec![("nope".to_string(), "代码".to_string())];
    let r = apply_field_mapping(&t, &pairs);
    assert!(r.is_err());
    assert!(matches!(r.unwrap_err(), MappingError::MissingSourceColumn));
}

#[test]
fn cache_hit_plans_no_request() {
    let source = SinaIndexSpotDataSource {};
    assert!(fetch_plan(&source, true).is_none());
    let req = fetch_plan(&source, false).unwrap();
    assert_eq!(req.method, "GET");
    assert_eq!(req.url, source.request().url);
}

#[test]
fn fetch_end_to_end_on_miss() {
    let source = SinaIndexSpotDataSource {};
    let id = source.id();
    let (dr, plan) = fetch_on_miss(
        &source,
        id.clone(),
        Some(SINA_BODY.to_string()),
        "/tmp/qshare-cache",
        "2024-01-02",
    )
    .unwrap();
    assert_eq!(dr.data_id.as_deref(), Some(id.as_str()));
    let t = dr.data.unwrap();
    // the raw identity column survives beside the renamed ones
    let symbol = t.col_index("symbol").unwrap();
    assert_eq!(t.cell(symbol, 0), "sh000001");
    let code_col = t.col_index("代码").unwrap();
    assert_eq!(t.cell(code_col, 0), "sh000001");
    let raw_code = t.col_index("code").unwrap();
    assert_eq!(t.cell(raw_code, 0), "000001");
    let trade = t.col_index("最新价").unwrap();
    assert_eq!(t.cell(trade, 0), "2978.7147");
    assert!(t.col_index("trade").is_none());

    // the plan names the conventional cache file and carries the snapshot
    let plan = plan.unwrap();
    assert_eq!(plan.path, format!("/tmp/qshare-cache/{}-2024-01-02.csv", id));
    assert!(plan.content.starts_with("symbol,代码,名称"));

    // a later same-day call loads the very same table from that content
    let schema = source.load_cached_schema().unwrap();
    let cached = fetch_from_cache(id.clone(), Some(plan.content), &schema);
    assert_eq!(cached.data_id.as_deref(), Some(id.as_str()));
    let t2 = cached.data.unwrap();
    assert_eq!(t2.n_cols(), t.n_cols());
    assert_eq!(t2.n_rows(), t.n_rows());
    assert_eq!(t2.cell(t2.col_index("最新价").unwrap(), 0), "2978.7147");
    assert_eq!(t2.cell(t2.col_index("code").unwrap(), 0), "000001");
}

#[test]
fn transport_failure_degrades_to_tagged_empty() {
    let source = SinaIndexSpotDataSource {};
    let id = source.id();
    let (dr, plan) = fetch_on_miss(&source, id.clone(), None, "/tmp/qshare-cache", "2024-01-02")
        .unwrap();
    assert_eq!(dr.data_id.as_deref(), Some(id.as_str()));
    assert_eq!(dr.data.unwrap().n_cols(), 0);
    assert!(plan.is_none());
}

#[test]
fn corrupt_cache_degrades_to_empty() {
    let source = SinaIndexSpotDataSource {};
    let schema = source.load_cached_schema().unwrap();
    let cached = fetch_from_cache(source.id(), Some("garbage \"".to_string()), &schema);
    assert!(cached.data_id.is_none());
    assert_eq!(cached.data.unwrap().n_cols(), 0);
    let missing = fetch_from_cache(source.id(), None, &schema);
    assert!(missing.data_id.is_none());
    assert_eq!(missing.data.unwrap().n_cols(), 0);
}

#[test]
fn malformed_body_fails_and_propagates() {
    let source = SinaSpotEmDataSource {};
    let body = "there is no array here".to_string();
    let r = source.to_dataframe(Some(body.clone()));
    assert!(matches!(r, Err(ParseError::MissingArrayMarker)));
    let out = fetch_on_miss(&source, source.id(), Some(body), "/tmp/qshare-cache", "2024-01-02");
    assert!(matches!(out, Err(FetchError::Parse(ParseError::MissingArrayMarker))));
}

#[test]
fn truncated_body_is_an_error() {
    let source = SinaSpotEmDataSource {};
    let r = source.to_dataframe(Some("x[".to_string()));
    assert!(matches!(r, Err(ParseError::TruncatedBody)));
}

#[test]
fn parse_error_variants_cover_bad_shapes() {
    assert!(matches!(json_body_to_table("oops"), Err(ParseError::InvalidBody)));
    assert!(matches!(
        json_body_to_table("[{\"a\":1,\"a\":2}]"),
        Err(ParseError::DuplicateColumn)
    ));
    assert!(matches!(
        json_body_to_table("[{\"a\":1},{\"b\":2}]"),
        Err(ParseError::InconsistentRecord)
    ));
    assert!(matches!(
        json_body_to_table("[{\"a\":1},{\"a\":\"x\"}]"),
        Err(ParseError::TypeMismatch)
    ));
}

#[test]
fn mapping_failure_propagates_from_fetch() {
    // the Eastmoney mapping expects its full field list, which this body lacks
    let source = EastmoneySpotEmDataSource {};
    let body = "({\"diff\":[{\"f12\":\"000001\",\"f2\":\"-\"}]})".to_string();
    let out = fetch_on_miss(&source, source.id(), Some(body), "/tmp/qshare-cache", "2024-01-02");
    assert!(matches!(
        out,
        Err(FetchError::Mapping(MappingError::MissingSourceColumn))
    ));
}

#[test]
fn empty_array_body_gives_empty_table() {
    let dr = DataResult::from_json("[]".to_string());
    assert!(dr.data_id.is_some());
    assert_eq!(dr.data.unwrap().n_cols(), 0);
}

#[test]
fn from_json_on_bad_body_gives_untagged_empty() {
    let dr = DataResult::from_json("not json".to_string());
    assert!(dr.data_id.is_none());
    assert_eq!(dr.data.unwrap().n_cols(), 0);
}

#[test]
fn cache_file_name_follows_convention() {
    let name = DataResult::cache_file_name("/tmp/cache", "abc123", "2024-01-02");
    assert_eq!(name, "/tmp/cache/abc123-2024-01-02.csv");
}

#[test]
fn history_row_follows_headers() {
    let headers: Vec<String> = vec![
        "date", "open", "high", "low", "close", "adjclose", "volume", "dividends", "splits",
    ]
    .into_iter()
    .map(|s| s.to_string())
    .collect();
    let row: Vec<String> = (0..12).map(|i| format!("a{}", i)).collect();
    let line = row_to_csv("sh000001".to_string(), &row, &headers, "2024-01-02");
    assert_eq!(line, "2024-01-02,a10,a8,a9,a2,a11,a5,0,0\r\n");
}

#[test]
fn history_row_keeps_symbol_and_unknown_headers_blank() {
    let headers: Vec<String> = vec!["symbol".to_string(), "mystery".to_string()];
    let row: Vec<String> = (0..12).map(|i| format!("a{}", i)).collect();
    let line = row_to_csv("sh000001".to_string(), &row, &headers, "2024-01-02");
    assert_eq!(line, "sh000001,\r\n");
}

#[test]
fn header_position_and_dated_rows() {
    let text = "symbol,date\nsh000001,2024-01-01\nsh000001,2024-01-02\n";
    let rows = parse_csv_text(text).unwrap();
    let headers = rows[0].clone();
    let idx = header_position(&headers, "date").unwrap();
    assert_eq!(idx, 1);
    assert!(has_row_dated(&rows, idx, "2024-01-02"));
    assert!(!has_row_dated(&rows, idx, "2024-01-03"));
    assert!(header_position(&headers, "close").is_none());
}

#[test]
fn unicode_escapes_decode_in_cells() {
    let t = json_body_to_table(
        "[{\"name\":\"\\u4e0a\\u8bc1\\u6307\\u6570\",\"tab\":\"a\\tb\"}]",
    )
    .unwrap();
    assert_eq!(t.cell(0, 0), "上证指数");
    assert_eq!(t.cell(1, 0), "a\tb");
}
