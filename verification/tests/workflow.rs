use partman::cli::BuildCmd;
use partman::config::{Cat, Config};
use partman::editor::{changed, clean, process_edit, process_form};
use partman::error::Error;
use partman::form::{Form, parse_form};
use partman::history::{find_latest, snapshot_name};
use partman::kicad_db::build_kicad_db;
use partman::part::Part;
use partman::product::{
    Category, Manufacturer, ProductDescription, ProductInfo, ProductStatus,
};

fn mk_config() -> Config {
    Config {
        editor_cmd: "true".to_string(),
        db_file_path: "build/components.db".to_string(),
        csv_dir_path: "csv/".to_string(),
        history_dir_path: "history/".to_string(),
        digikey: None,
        cat: vec![(
            "resistor".to_string(),
            Cat {
                code: "RES".to_string(),
                filename: "resistor.csv".to_string(),
                subcategories: vec!["chip".to_string(), "through-hole".to_string()],
            },
        )],
    }
}

fn filled_form(category: &str) -> Form {
    let mut f = Form::default();
    f.about.category = category.to_string();
    f
}

#[test]
fn clean_drops_comments_and_trailing_whitespace() {
    let text = "# a comment\nvalue = \"1\"   \n   # indented comment\nplain\n";
    let cleaned = clean(text);
    assert_eq!(cleaned, vec!["value = \"1\"".to_string(), "plain".to_string()]);
}

#[test]
fn clean_keeps_blank_lines_as_empty_entries() {
    let text = "a\n\nb";
    let cleaned = clean(text);
    assert_eq!(cleaned, vec!["a".to_string(), "".to_string(), "b".to_string()]);
}

#[test]
fn cleaning_cleaned_text_changes_nothing() {
    let text = "# header comment\nvalue = \"1\"  \n\n  # note\nplain\t\n";
    let once = clean(text);
    let rejoined = once.join("\n");
    let twice = clean(&rejoined);
    assert_eq!(once, twice);
    assert!(!changed(&rejoined, text));
}

#[test]
fn unchanged_when_only_comments_and_spacing_differ() {
    let original = "# written by the editor\ncategory = \"resistor\"\n";
    let edited = "# reworded comment entirely\ncategory = \"resistor\"   \n";
    assert!(!changed(original, edited));
}

#[test]
fn changed_when_content_differs() {
    let original = "category = \"resistor\"\n";
    let edited = "category = \"capacitor\"\n";
    assert!(changed(original, edited));
}

#[test]
fn process_edit_reports_no_change_for_identical_content() {
    let text = "anything at all";
    assert!(process_edit(text, text).unwrap().is_none());
}

#[test]
fn process_edit_rejects_malformed_edit() {
    let original = "";
    let edited = "this is [ not a document";
    assert!(matches!(
        process_edit(original, edited),
        Err(Error::MalformedForm)
    ));
}

#[test]
fn render_then_parse_restores_the_fields() {
    let mut f = filled_form("resistor");
    f.categories = Some(mk_config().cat.clone());
    f.long_description = Some("a very long description".to_string());
    f.component.manufacturer = "YAGEO \"official\"".to_string();
    let text = f.render();
    let parsed = parse_form(&text).unwrap();
    assert_eq!(parsed.about.id, None);
    assert_eq!(parsed.about.category, "resistor");
    assert_eq!(parsed.about.subcategory, f.about.subcategory);
    assert_eq!(parsed.about.description, f.about.description);
    assert_eq!(parsed.about.value, f.about.value);
    assert_eq!(parsed.component.manufacturer, "YAGEO \"official\"");
    assert_eq!(parsed.component.mpn, f.component.mpn);
    assert_eq!(parsed.component.package, f.component.package);
    assert_eq!(parsed.component.datasheet, f.component.datasheet);
    assert_eq!(parsed.suppliers.supplier1, f.suppliers.supplier1);
    assert_eq!(parsed.suppliers.spn1, f.suppliers.spn1);
    assert_eq!(parsed.suppliers.supplier2, f.suppliers.supplier2);
    assert_eq!(parsed.suppliers.spn2, f.suppliers.spn2);
    assert_eq!(parsed.library.symbol, f.library.symbol);
    assert_eq!(parsed.library.footprint, f.library.footprint);
    assert_eq!(parsed.library.status, f.library.status);
    assert_eq!(parsed.library.notes, f.library.notes);
    assert!(parsed.categories.is_none());
    assert!(parsed.long_description.is_none());
}

#[test]
fn rendered_template_comments_carry_the_category_options() {
    let mut f = filled_form("resistor");
    f.categories = Some(mk_config().cat.clone());
    let text = f.render();
    assert!(text.contains("# Category and Subcategory options:"));
    assert!(text.contains("#    resistor: [chip, through-hole]"));
}

#[test]
fn parse_form_keeps_an_id_present_in_the_text() {
    let mut f = filled_form("resistor");
    f.categories = Some(mk_config().cat.clone());
    let mut text = f.render();
    text.push_str("\n[about]\nid = \"RES-0009\"\n");
    // a second [about] table is malformed; write a fresh template instead
    let fresh = text.replace("\n[about]\nid = \"RES-0009\"\n", "");
    let with_id = fresh.replace("[about]\ncategory", "[about]\nid = \"RES-0009\"\ncategory");
    let parsed = parse_form(&with_id).unwrap();
    assert_eq!(parsed.about.id.as_deref(), Some("RES-0009"));
}

#[test]
fn find_latest_picks_the_largest_timestamp() {
    let names = vec![
        "1000.toml".to_string(),
        "999.toml".to_string(),
        "abc.toml".to_string(),
    ];
    assert_eq!(find_latest(&names).unwrap(), "1000.toml");
}

#[test]
fn find_latest_fails_on_empty_directory() {
    let names: Vec<String> = Vec::new();
    assert_eq!(find_latest(&names), Err(Error::NothingToResume));
}

#[test]
fn find_latest_fails_when_nothing_is_numeric() {
    let names = vec!["abc.toml".to_string(), "draft.txt".to_string(), ".toml".to_string()];
    assert_eq!(find_latest(&names), Err(Error::NothingToResume));
}

#[test]
fn find_latest_ignores_other_extensions() {
    let names = vec!["2000.txt".to_string(), "1500.toml".to_string()];
    assert_eq!(find_latest(&names).unwrap(), "1500.toml");
}

#[test]
fn snapshot_names_are_timestamps_with_extension() {
    assert_eq!(snapshot_name(1700000000), "1700000000.toml");
}

#[test]
fn find_latest_recognizes_what_an_edit_session_writes() {
    let names = vec![snapshot_name(5), snapshot_name(1700000000), snapshot_name(42)];
    assert_eq!(find_latest(&names).unwrap(), "1700000000.toml");
}

#[test]
fn find_latest_normalizes_leading_zeros() {
    let names = vec!["0100.toml".to_string()];
    assert_eq!(find_latest(&names).unwrap(), "100.toml");
}

#[test]
fn rebuild_plan_is_deterministic() {
    let config = mk_config();
    let parts = vec![{
        let f = filled_form("resistor");
        let mut p: Part = f.into_part();
        p.id = Some("RES-0001".to_string());
        p
    }];
    let plan1 = build_kicad_db(&parts, &config.cat);
    let plan2 = build_kicad_db(&parts, &config.cat);
    assert_eq!(plan1.len(), plan2.len());
    for (a, b) in plan1.iter().zip(plan2.iter()) {
        assert_eq!(a.sql, b.sql);
        assert_eq!(a.params, b.params);
    }
}

#[test]
fn rebuild_plan_skips_parts_of_unconfigured_categories() {
    let config = mk_config();
    let mut stray = filled_form("resistor").into_part();
    stray.category = "inductor".to_string();
    stray.id = Some("IND-0001".to_string());
    let parts = vec![stray];
    let plan = build_kicad_db(&parts, &config.cat);
    assert_eq!(plan.len(), 1);
    assert!(plan[0].sql.starts_with("CREATE TABLE resistor"));
}

#[test]
fn build_cmd_plans_tables_and_rows() {
    let config = mk_config();
    let resistor_csv = "ID,Subcategory,Description,Value,Manufacturer,MPN,Package,Supplier1,SPN1,Supplier2,SPN2,Symbol,Footprint,Datasheet,Status,Notes\nRES-0001,chip,RES 120K,120K,,,,,,,,Generic:R_US,,,New,\n";
    let files = vec![Some(resistor_csv.to_string())];
    let cmd = BuildCmd {};
    let plan = cmd.run(&config, &files).unwrap();
    assert_eq!(plan.len(), 2);
    assert!(plan[0].sql.starts_with("CREATE TABLE resistor (id TEXT PRIMARY KEY,"));
    assert!(plan[1].sql.starts_with("INSERT INTO resistor (id,"));
    assert_eq!(plan[1].params[0], "RES-0001");
}

#[test]
fn end_to_end_first_part_gets_id_one_and_lands_everywhere() {
    let config = mk_config();
    let files: Vec<Option<String>> = vec![None];
    let form = filled_form("resistor");
    let out = process_form(form, &config, &files).unwrap();
    assert_eq!(out.part.id.as_deref(), Some("RES-0001"));
    assert_eq!(out.append.filename, "resistor.csv");
    assert!(out.append.content.starts_with("ID,Subcategory,"));
    assert_eq!(out.append.content.lines().count(), 2);
    // the appended file now loads back as exactly that one part
    let grown = vec![Some(out.append.content.clone())];
    let parts = partman::csv_store::load_all_parts(&config.cat, &grown).unwrap();
    assert_eq!(parts.len(), 1);
    assert_eq!(parts[0].id.as_deref(), Some("RES-0001"));
    assert_eq!(parts[0].category, "resistor");
    // and the rebuilt database holds one resistor row with that id
    let inserts: Vec<_> = out
        .db
        .iter()
        .filter(|s| s.sql.starts_with("INSERT INTO resistor"))
        .collect();
    assert_eq!(inserts.len(), 1);
    assert_eq!(inserts[0].params[0], "RES-0001");
}

#[test]
fn process_form_lowercases_and_trims_the_category() {
    let config = mk_config();
    let files: Vec<Option<String>> = vec![None];
    let form = filled_form("  Resistor ");
    let out = process_form(form, &config, &files).unwrap();
    assert_eq!(out.part.category, "resistor");
    assert_eq!(out.part.id.as_deref(), Some("RES-0001"));
}

#[test]
fn process_form_rejects_unknown_category() {
    let config = mk_config();
    let files: Vec<Option<String>> = vec![None];
    let form = filled_form("inductor");
    assert!(matches!(
        process_form(form, &config, &files),
        Err(Error::UnknownCategory)
    ));
}

#[test]
fn process_form_assigns_the_next_free_id() {
    let config = mk_config();
    let resistor_csv = "ID,Subcategory,Description,Value,Manufacturer,MPN,Package,Supplier1,SPN1,Supplier2,SPN2,Symbol,Footprint,Datasheet,Status,Notes\nRES-0007,chip,RES 1K,1K,,,,,,,,Generic:R_US,,,New,\n";
    let files = vec![Some(resistor_csv.to_string())];
    let form = filled_form("resistor");
    let out = process_form(form, &config, &files).unwrap();
    assert_eq!(out.part.id.as_deref(), Some("RES-0008"));
    // appending to an existing file must not repeat the header
    assert!(!out.append.content.starts_with("ID,"));
}

#[test]
fn form_into_part_normalizes_blank_optionals() {
    let mut f = filled_form("resistor");
    f.suppliers.spn1 = "   ".to_string();
    f.component.manufacturer = "YAGEO".to_string();
    let p = f.into_part();
    assert_eq!(p.spn1, None);
    assert_eq!(p.manufacturer.as_deref(), Some("YAGEO"));
    assert_eq!(p.notes, None);
}

#[test]
fn form_into_part_keeps_written_notes() {
    let mut f = filled_form("resistor");
    f.library.notes = "ask before reordering".to_string();
    let p = f.into_part();
    assert_eq!(p.notes.as_deref(), Some("ask before reordering"));
}

#[test]
fn edited_notes_reach_the_catalog_row() {
    let config = mk_config();
    let files: Vec<Option<String>> = vec![None];
    let mut form = filled_form("resistor");
    form.library.notes = "hand-soldered sample".to_string();
    let out = process_form(form, &config, &files).unwrap();
    assert_eq!(out.part.notes.as_deref(), Some("hand-soldered sample"));
    assert!(out.append.content.contains("hand-soldered sample"));
}

#[test]
fn default_config_text_carries_the_category_table() {
    let text = partman::config::Config::default_config();
    assert!(text.starts_with("\n# Partman Config File\n"));
    assert!(text.contains("[cat.resistor]\ncode = \"RES\"\nfilename = \"resistor.csv\"\n"));
    assert!(text.contains("[cat.capacitor]"));
    let secrets = partman::config::Secrets::default_secrets();
    assert!(secrets.contains("[digikey]\nclient_id = \"\"\nclient_secret = \"\"\n"));
}

#[test]
fn template_without_category_table_has_no_trailing_comment() {
    let f = Form::default();
    let text = f.render();
    assert!(!text.contains("# Category and Subcategory options:"));
    assert!(text.ends_with("\"\n\n\n"));
}

#[test]
fn form_prefilled_from_product_record() {
    let info = ProductInfo {
        search_spn: Some("311-120KLRCT-ND".to_string()),
        description: ProductDescription {
            product_description: "RES SMD 120K OHM 1% 1/16W 0402".to_string(),
            detailed_description: "120 kOhms ±1% 0.063W chip resistor".to_string(),
        },
        manufacturer: Manufacturer { name: "YAGEO".to_string() },
        manufacturer_product_number: "RC0402FR-07120KL".to_string(),
        datasheet_url: None,
        product_variations: vec![],
        normally_stocking: true,
        discontinued: false,
        end_of_life: false,
        parameters: vec![],
        quantity_available: 1000,
        product_status: ProductStatus { status: "Active".to_string() },
        category: Category { name: "Resistors".to_string(), child_categories: vec![] },
    };
    let f = Form::from_product(info);
    assert_eq!(f.about.category, "Resistors");
    assert_eq!(f.about.description, "RES SMD 120K OHM 1% 1/16W 0402");
    assert_eq!(f.component.manufacturer, "YAGEO");
    assert_eq!(f.component.mpn, "RC0402FR-07120KL");
    assert_eq!(f.component.datasheet, "");
    assert_eq!(f.suppliers.spn1, "311-120KLRCT-ND");
    assert_eq!(
        f.long_description.as_deref(),
        Some("120 kOhms ±1% 0.063W chip resistor")
    );
    assert!(f.categories.is_none());
}
