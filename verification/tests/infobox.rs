use asset_stickers::fields::FieldMap;
use asset_stickers::infobox::{extract_infobox, Extraction};
use asset_stickers::markup::parse_markup;

fn part(name: &str, value: &str) -> String {
    format!("<part><name>{}</name>=<value>{}</value></part>", name, value)
}

fn page(title: &str, parts: &[String]) -> String {
    format!("<root><template><title>{}</title>{}</template></root>", title, parts.concat())
}

fn extract(xml: &str) -> Extraction {
    let root = parse_markup(xml).ok().expect("well-formed markup");
    extract_infobox(&root, "EquipmentInfobox")
}

fn found(e: Extraction) -> FieldMap {
    match e {
        Extraction::Found(fields) => fields,
        Extraction::Absent => panic!("absent"),
        Extraction::Malformed(reason) => panic!("malformed: {}", reason),
    }
}

fn get<'a>(m: &'a FieldMap, k: &str) -> Option<&'a str> {
    m.get(k).map(|s| s.as_str())
}

#[test]
fn another_template_is_absent() {
    let xml = page("OtherTemplate", &[part("owner", "X")]);
    assert!(matches!(extract(&xml), Extraction::Absent));
}

#[test]
fn another_template_is_absent_even_if_malformed() {
    let xml = page("OtherTemplate", &["<part><value>x</value></part>".to_string()]);
    assert!(matches!(extract(&xml), Extraction::Absent));
}

#[test]
fn a_page_without_template_is_absent() {
    assert!(matches!(extract("<root><h level=\"2\">text</h>more</root>"), Extraction::Absent));
    assert!(matches!(extract("<root/>"), Extraction::Absent));
    let untitled = format!("<root><template>{}</template></root>", part("a", "b"));
    assert!(matches!(extract(&untitled), Extraction::Absent));
    let empty_title = page("", &[part("a", "b")]);
    assert!(matches!(extract(&empty_title), Extraction::Absent));
}

#[test]
fn only_the_first_template_counts() {
    let xml = "<root><template><title>Other</title></template>\
               <template><title>EquipmentInfobox</title></template></root>";
    assert!(matches!(extract(xml), Extraction::Absent));
    let nested = "<root><div><template><title>EquipmentInfobox</title></template></div></root>";
    assert!(matches!(extract(nested), Extraction::Absent));
}

#[test]
fn the_last_of_two_parameters_of_one_name_counts() {
    let xml = page("EquipmentInfobox", &[part("owner", "X"), part("owner", "Y")]);
    let fields = found(extract(&xml));
    assert_eq!(get(&fields, "owner"), Some("Y"));
}

#[test]
fn names_and_values_are_trimmed() {
    let xml = page(
        " EquipmentInfobox\n",
        &[part(" name ", "\n Laser cutter \t"), part("model", ""), part("note\n", "a  b")],
    );
    let fields = found(extract(&xml));
    assert_eq!(get(&fields, "name"), Some("Laser cutter"));
    assert_eq!(get(&fields, "model"), Some(""));
    assert_eq!(get(&fields, "note"), Some("a  b"));
    assert!(!fields.contains_key(" name "));
}

#[test]
fn the_title_is_matched_as_written() {
    let xml = page("equipmentinfobox", &[part("a", "b")]);
    assert!(matches!(extract(&xml), Extraction::Absent));
    let root = parse_markup(&xml).ok().unwrap();
    assert!(matches!(extract_infobox(&root, "equipmentinfobox"), Extraction::Found(_)));
    assert!(matches!(extract_infobox(&root, " equipmentinfobox"), Extraction::Absent));
}

#[test]
fn a_parameter_without_value_is_empty() {
    let xml = page(
        "EquipmentInfobox",
        &[
            "<part><name>trainingform</name>=<value/></part>".to_string(),
            "<part><name>image</name></part>".to_string(),
            "<part><name>x</name>=<value><ext>y</ext></value></part>".to_string(),
        ],
    );
    let fields = found(extract(&xml));
    assert_eq!(get(&fields, "trainingform"), Some(""));
    assert_eq!(get(&fields, "image"), Some(""));
    assert_eq!(get(&fields, "x"), Some(""));
}

#[test]
fn a_parameter_without_name_is_malformed() {
    let xml = page(
        "EquipmentInfobox",
        &[
            part("owner", "X"),
            "<part><name index=\"1\"/><value>positional</value></part>".to_string(),
            part("a", "b"),
        ],
    );
    match extract(&xml) {
        Extraction::Malformed(reason) => {
            assert_eq!(reason, "a parameter of the record has no readable name")
        }
        _ => panic!("expected a malformed record"),
    }
    let nameless = page("EquipmentInfobox", &["<part/>".to_string()]);
    assert!(matches!(extract(&nameless), Extraction::Malformed(_)));
}

#[test]
fn other_nodes_of_the_invocation_are_skipped() {
    let xml = "<root><template lineStart=\"1\"><title>EquipmentInfobox</title> text \
               <!-- a comment --><comment>x</comment>\
               <part><name>owner</name>=<value>X</value></part><ext/><![CDATA[data]]></template></root>";
    let fields = found(extract(xml));
    assert_eq!(get(&fields, "owner"), Some("X"));
    assert!(!fields.contains_key("comment"));
    assert!(!fields.contains_key("title"));
}

#[test]
fn text_in_pieces_is_joined() {
    let xml = "<root><template><title>Equipment<!-- -->Infobox</title>\
               <part><name>na<![CDATA[me]]></name>=<value>Band<ext/>saw</value></part></template></root>";
    let fields = found(extract(xml));
    assert_eq!(get(&fields, "name"), Some("Bandsaw"));
}

#[test]
fn extracts_a_whole_record() {
    let xml = "<root><template><title>EquipmentInfobox\n</title>\
               <part><name>name</name>=<value>Bandsaw\n</value></part>\
               <part><name>owner</name>=<value>[[User:Jane]]</value></part>\
               <part><name>trainingform</name>=<value/></part>\
               </template> trailing text <h level=\"2\">== Notes ==</h></root>";
    let fields = found(extract(xml));
    assert_eq!(get(&fields, "name"), Some("Bandsaw"));
    assert_eq!(get(&fields, "owner"), Some("[[User:Jane]]"));
    assert_eq!(get(&fields, "trainingform"), Some(""));
    assert!(!fields.contains_key("url"));
}

#[test]
fn markup_that_is_not_well_formed_is_an_error() {
    let err = parse_markup("<root><template></root>").err().expect("an error");
    assert!(!err.is_empty());
    assert_ne!(err, "<root><template></root>");
    assert!(parse_markup("").is_err());
    assert!(parse_markup("<root/>").is_ok());
}
