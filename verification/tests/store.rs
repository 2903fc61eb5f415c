use partman::config::{Cat, Config};
use partman::csv_store::{CsvRow, get_next_id, insert_part, load_all_parts};
use partman::error::Error;
use partman::part::Part;

fn mk_part(id: Option<&str>, category: &str) -> Part {
    Part {
        id: id.map(|s| s.to_string()),
        category: category.to_string(),
        subcategory: "chip".to_string(),
        description: "RES 120K".to_string(),
        value: "120K".to_string(),
        manufacturer: None,
        mpn: None,
        package: None,
        supplier1: None,
        spn1: None,
        supplier2: None,
        spn2: None,
        symbol: "Generic:R_US".to_string(),
        footprint: None,
        datasheet: None,
        status: "New".to_string(),
        notes: None,
    }
}

fn mk_config() -> Config {
    Config {
        editor_cmd: "true".to_string(),
        db_file_path: "build/components.db".to_string(),
        csv_dir_path: "csv/".to_string(),
        history_dir_path: "history/".to_string(),
        digikey: None,
        cat: vec![
            (
                "resistor".to_string(),
                Cat {
                    code: "RES".to_string(),
                    filename: "resistor.csv".to_string(),
                    subcategories: vec!["chip".to_string(), "through-hole".to_string()],
                },
            ),
            (
                "capacitor".to_string(),
                Cat {
                    code: "CAP".to_string(),
                    filename: "capacitor.csv".to_string(),
                    subcategories: vec!["chip".to_string(), "aluminium".to_string()],
                },
            ),
        ],
    }
}

#[test]
fn next_id_on_empty_catalog() {
    let parts: Vec<Part> = Vec::new();
    assert_eq!(get_next_id(&parts, "RES").unwrap(), "RES-0001");
}

#[test]
fn next_id_takes_max_plus_one() {
    let parts = vec![
        mk_part(Some("RES-0002"), "resistor"),
        mk_part(Some("RES-0041"), "resistor"),
        mk_part(Some("RES-0007"), "resistor"),
    ];
    assert_eq!(get_next_id(&parts, "RES").unwrap(), "RES-0042");
}

#[test]
fn next_id_ignores_other_categories() {
    let parts = vec![
        mk_part(Some("RES-0002"), "resistor"),
        mk_part(Some("CAP-9999"), "capacitor"),
    ];
    assert_eq!(get_next_id(&parts, "RES").unwrap(), "RES-0003");
}

#[test]
fn next_id_ignores_malformed_suffixes() {
    let parts = vec![
        mk_part(Some("RES-abc"), "resistor"),
        mk_part(Some("RES-"), "resistor"),
        mk_part(Some("RES"), "resistor"),
        mk_part(None, "resistor"),
        mk_part(Some("RES-0004"), "resistor"),
    ];
    assert_eq!(get_next_id(&parts, "RES").unwrap(), "RES-0005");
}

#[test]
fn next_id_reads_only_the_segment_after_the_first_dash() {
    let parts = vec![mk_part(Some("RES-0012-old"), "resistor")];
    assert_eq!(get_next_id(&parts, "RES").unwrap(), "RES-0013");
}

#[test]
fn next_id_accepts_a_leading_plus_in_the_suffix() {
    let parts = vec![mk_part(Some("RES-+12"), "resistor")];
    assert_eq!(get_next_id(&parts, "RES").unwrap(), "RES-0013");
}

#[test]
fn next_id_reads_zero_padded_suffixes_as_numbers() {
    let parts = vec![mk_part(Some("RES-0099"), "resistor")];
    assert_eq!(get_next_id(&parts, "RES").unwrap(), "RES-0100");
}

#[test]
fn next_id_grows_past_four_digits() {
    let parts = vec![mk_part(Some("RES-9999"), "resistor")];
    assert_eq!(get_next_id(&parts, "RES").unwrap(), "RES-10000");
}

#[test]
fn row_roundtrip_all_optionals_absent() {
    let p = mk_part(Some("RES-0001"), "resistor");
    let row = CsvRow::from_part(&p);
    assert_eq!(row.id, "RES-0001");
    assert_eq!(row.manufacturer, "");
    let mut back = row.into_part();
    back.category = "resistor".to_string();
    assert_eq!(back.id.as_deref(), Some("RES-0001"));
    assert_eq!(back.manufacturer, None);
    assert_eq!(back.notes, None);
    assert_eq!(back.symbol, p.symbol);
    assert_eq!(back.status, p.status);
}

#[test]
fn row_roundtrip_all_optionals_present() {
    let mut p = mk_part(Some("CAP-0009"), "capacitor");
    p.manufacturer = Some("YAGEO".to_string());
    p.mpn = Some("CC0402MRX5R5BB106".to_string());
    p.package = Some("0402".to_string());
    p.supplier1 = Some("Digi-Key".to_string());
    p.spn1 = Some("123-456".to_string());
    p.supplier2 = Some("LCSC".to_string());
    p.spn2 = Some("C12345".to_string());
    p.footprint = Some("CAP:CAPC100X50X55N".to_string());
    p.datasheet = Some("https://example.com/ds.pdf".to_string());
    p.notes = Some("ask before reordering".to_string());
    let row = CsvRow::from_part(&p);
    let mut back = row.into_part();
    back.category = "capacitor".to_string();
    assert_eq!(back.id, p.id);
    assert_eq!(back.manufacturer, p.manufacturer);
    assert_eq!(back.mpn, p.mpn);
    assert_eq!(back.package, p.package);
    assert_eq!(back.supplier1, p.supplier1);
    assert_eq!(back.spn1, p.spn1);
    assert_eq!(back.supplier2, p.supplier2);
    assert_eq!(back.spn2, p.spn2);
    assert_eq!(back.footprint, p.footprint);
    assert_eq!(back.datasheet, p.datasheet);
    assert_eq!(back.notes, p.notes);
}

#[test]
fn validate_rejects_unassigned_id() {
    let config = mk_config();
    let p = mk_part(None, "resistor");
    assert_eq!(p.validate(&config), Err(Error::IdUnassigned));
}

#[test]
fn validate_rejects_unknown_category() {
    let config = mk_config();
    let p = mk_part(Some("IND-0001"), "inductor");
    assert_eq!(p.validate(&config), Err(Error::UnknownCategory));
}

#[test]
fn validate_accepts_configured_category_with_id() {
    let config = mk_config();
    let p = mk_part(Some("RES-0001"), "resistor");
    assert_eq!(p.validate(&config), Ok(()));
}

#[test]
fn load_all_parts_missing_files_mean_empty_catalog() {
    let config = mk_config();
    let files: Vec<Option<String>> = vec![None, None];
    let parts = load_all_parts(&config.cat, &files).unwrap();
    assert!(parts.is_empty());
}

#[test]
fn load_all_parts_tags_rows_with_their_category() {
    let config = mk_config();
    let resistor_csv = "ID,Subcategory,Description,Value,Manufacturer,MPN,Package,Supplier1,SPN1,Supplier2,SPN2,Symbol,Footprint,Datasheet,Status,Notes\nRES-0001,chip,RES 120K,120K,,,,,,,,Generic:R_US,,,New,\n";
    let files: Vec<Option<String>> = vec![Some(resistor_csv.to_string()), None];
    let parts = load_all_parts(&config.cat, &files).unwrap();
    assert_eq!(parts.len(), 1);
    assert_eq!(parts[0].category, "resistor");
    assert_eq!(parts[0].id.as_deref(), Some("RES-0001"));
    assert_eq!(parts[0].manufacturer, None);
    assert_eq!(parts[0].description, "RES 120K");
}

#[test]
fn load_all_parts_reads_quoted_fields() {
    let config = mk_config();
    let resistor_csv = "ID,Subcategory,Description,Value,Manufacturer,MPN,Package,Supplier1,SPN1,Supplier2,SPN2,Symbol,Footprint,Datasheet,Status,Notes\nRES-0001,chip,\"RES, 120K \"\"thin\"\"\",120K,,,,,,,,Generic:R_US,,,New,\n";
    let files: Vec<Option<String>> = vec![Some(resistor_csv.to_string()), None];
    let parts = load_all_parts(&config.cat, &files).unwrap();
    assert_eq!(parts[0].description, "RES, 120K \"thin\"");
}

#[test]
fn load_all_parts_rejects_malformed_rows() {
    let config = mk_config();
    let resistor_csv = "ID,Subcategory,Description\nRES-0001,chip\n";
    let files: Vec<Option<String>> = vec![Some(resistor_csv.to_string()), None];
    assert_eq!(
        load_all_parts(&config.cat, &files).map(|ps| ps.len()),
        Err(Error::MalformedRow)
    );
}

#[test]
fn load_all_parts_accepts_empty_existing_file() {
    let config = mk_config();
    let files: Vec<Option<String>> = vec![Some(String::new()), None];
    let parts = load_all_parts(&config.cat, &files).unwrap();
    assert!(parts.is_empty());
}

#[test]
fn insert_part_appends_header_for_new_file() {
    let config = mk_config();
    let p = mk_part(Some("RES-0001"), "resistor");
    let plan = insert_part(&p, &config, false).unwrap();
    assert_eq!(plan.filename, "resistor.csv");
    assert_eq!(
        plan.content,
        "ID,Subcategory,Description,Value,Manufacturer,MPN,Package,Supplier1,SPN1,Supplier2,SPN2,Symbol,Footprint,Datasheet,Status,Notes\nRES-0001,chip,RES 120K,120K,,,,,,,,Generic:R_US,,,New,\n"
    );
}

#[test]
fn insert_part_appends_row_only_for_existing_file() {
    let config = mk_config();
    let p = mk_part(Some("RES-0002"), "resistor");
    let plan = insert_part(&p, &config, true).unwrap();
    assert_eq!(
        plan.content,
        "RES-0002,chip,RES 120K,120K,,,,,,,,Generic:R_US,,,New,\n"
    );
}

#[test]
fn insert_part_quotes_fields_that_need_it() {
    let config = mk_config();
    let mut p = mk_part(Some("RES-0003"), "resistor");
    p.description = "RES, \"low\" noise".to_string();
    let plan = insert_part(&p, &config, true).unwrap();
    assert_eq!(
        plan.content,
        "RES-0003,chip,\"RES, \"\"low\"\" noise\",120K,,,,,,,,Generic:R_US,,,New,\n"
    );
}

#[test]
fn insert_part_rejects_unknown_category() {
    let config = mk_config();
    let p = mk_part(Some("IND-0001"), "inductor");
    assert!(matches!(
        insert_part(&p, &config, true),
        Err(Error::UnknownCategory)
    ));
}
