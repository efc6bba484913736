use asset_stickers::config::{Config, Identifier, TemplateVariant};
use asset_stickers::derive::Derived;
use asset_stickers::error::StickerError;
use asset_stickers::fields::FieldMap;
use asset_stickers::markup::parse_markup;
use asset_stickers::render::{find_variant, render_sticker, select_variant};
use asset_stickers::sticker::{
    complete_sticker, image_fragment, qr_fragment, sticker_from_markup, sticker_with_image,
    ImageData, PendingSticker, Progress,
};
use asset_stickers::wiki::{api_url, decode_page_reply, page_request, sticker_from_reply};
use asset_stickers::json::parse_json;

fn variant(name: &str, text: &str) -> TemplateVariant {
    TemplateVariant {
        name: name.to_string(),
        text: text.to_string(),
        neutral_style: "fill:#ffffff;fill-opacity:1;".to_string(),
        webinterface_hides_image: true,
    }
}

fn config() -> Config {
    Config {
        infobox: "EquipmentInfobox".to_string(),
        id_base: "HTTPS://YHS.MOD3.UK/W/".to_string(),
        identifier: Identifier::PageId,
        image_base: "https://wiki.example/thumb.php?w=400&f=".to_string(),
        qr_size: 200,
        variants: vec![
            variant("112x45mm", "<svg a>{{name}}|{{owner}}|{{training}}|{{bgstyle}}|{{url}}|{{webinterface}}|{{NOESCimage}}</svg>"),
            variant("96x34mm", "<svg b>{{name}}|{{NOESCqrcode_svg}}</svg>"),
            variant("45x45mm", "<svg c>{{url}}</svg>"),
        ],
        default_variant: "112x45mm".to_string(),
    }
}

fn map(entries: &[(&str, &str)]) -> FieldMap {
    let mut m = FieldMap::new();
    for (k, v) in entries {
        m.insert(k.to_string(), v.to_string());
    }
    m
}

fn page_xml(parts: &[(&str, &str)]) -> String {
    let mut xml = String::from("<root><template><title>EquipmentInfobox</title>");
    for (k, v) in parts {
        xml.push_str(&format!("<part><name>{}</name>=<value>{}</value></part>", k, v));
    }
    xml.push_str("</template></root>");
    xml
}

fn reply_json(page_id: Option<u64>, xml: Option<&str>) -> String {
    let mut parse = String::from("{\"title\":\"T\"");
    if let Some(id) = page_id {
        parse.push_str(&format!(",\"pageid\":{}", id));
    }
    if let Some(x) = xml {
        let quoted = x.replace('\\', "\\\\").replace('"', "\\\"");
        parse.push_str(&format!(",\"parsetree\":{{\"*\":\"{}\"}}", quoted));
    }
    parse.push('}');
    format!("{{\"parse\":{}}}", parse)
}

fn done(p: Progress) -> String {
    match p {
        Progress::Done(svg) => svg,
        Progress::NeedsImage(_) => panic!("needs an image"),
        Progress::Failed(e) => panic!("failed: {}", e.message()),
    }
}

fn failed(p: Progress) -> StickerError {
    match p {
        Progress::Failed(e) => e,
        _ => panic!("expected a failure"),
    }
}

#[test]
fn selects_the_layout_that_the_record_asks_for() {
    let c = config();
    assert_eq!(select_variant(&c, &map(&[])).ok().unwrap().name, "112x45mm");
    assert_eq!(select_variant(&c, &map(&[("sticker_sz", "45x45mm")])).ok().unwrap().name, "45x45mm");
    match select_variant(&c, &map(&[("sticker_sz", "10x10mm")])) {
        Err(StickerError::UnsupportedVariant(name)) => assert_eq!(name, "10x10mm"),
        _ => panic!("expected an unsupported variant"),
    }
    assert_eq!(find_variant(&c, "96x34mm"), Some(1));
    assert_eq!(find_variant(&c, "96x34"), None);
}

#[test]
fn renders_in_the_layout_named() {
    let c = config();
    let fields = map(&[("url", "u&v"), ("name", "Saw")]);
    assert_eq!(render_sticker(&c, &fields, Some("45x45mm")).ok().unwrap(), "<svg c>u&#38;v</svg>");
    let e = render_sticker(&c, &fields, None).err().unwrap();
    match &e {
        StickerError::MissingField(name) => assert_eq!(name, "owner"),
        _ => panic!("expected a missing field"),
    }
    assert_eq!(e.message(), "The template needs the field owner, which the record does not have.");
    let e = render_sticker(&c, &fields, Some("nope")).err().unwrap();
    assert_eq!(e.message(), "Sticker size is set to nope, but no template for this size exists.");
}

#[test]
fn makes_a_qr_code() {
    let svg = qr_fragment("HTTPS://YHS.MOD3.UK/W/42", 200).expect("a QR code");
    assert!(svg.starts_with("<?xml"));
    assert!(svg.contains("<svg width=\"200\" height=\"200\""));
    assert!(svg.ends_with("</svg>"));
    assert_eq!(qr_fragment("HTTPS://YHS.MOD3.UK/W/42", 200), Some(svg.clone()));
    assert_ne!(qr_fragment("HTTPS://YHS.MOD3.UK/W/43", 200), Some(svg));
}

#[test]
fn a_text_too_long_has_no_qr_code() {
    let long = "x".repeat(8000);
    assert_eq!(qr_fragment(&long, 200), None);
    let very_long = "x".repeat(70000);
    assert_eq!(qr_fragment(&very_long, 200), None);
    assert_eq!(qr_fragment("abc", 0), None);
}

#[test]
fn renders_a_sticker_from_markup() {
    let c = config();
    let root = parse_markup(&page_xml(&[("name", "Band &lt;saw&gt;"), ("owner", "Jane"), ("trainingurl", "x")]))
        .ok()
        .unwrap();
    let svg = done(sticker_from_markup(&c, "Equipment/Bandsaw", &root, Some(42)));
    assert_eq!(
        svg,
        "<svg a>Band &lt;saw&gt;|Kindly loaned by Jane|DO NOT USE without training!|fill:#ff6b72;fill-opacity:1;|HTTPS://YHS.MOD3.UK/W/42||</svg>"
    );
}

#[test]
fn the_qr_code_goes_in_as_it_is() {
    let c = config();
    let root = parse_markup(&page_xml(&[("name", "Saw"), ("sticker_sz", "96x34mm")])).ok().unwrap();
    let svg = done(sticker_from_markup(&c, "Equipment/Saw", &root, Some(7)));
    let qr = qr_fragment("HTTPS://YHS.MOD3.UK/W/7", 200).unwrap();
    assert_eq!(svg, format!("<svg b>Saw|{}</svg>", qr));
}

#[test]
fn the_page_name_can_identify_the_record() {
    let mut c = config();
    c.identifier = Identifier::PageName;
    let root = parse_markup(&page_xml(&[("sticker_sz", "45x45mm")])).ok().unwrap();
    let svg = done(sticker_from_markup(&c, "Equipment/Saw", &root, None));
    assert_eq!(svg, "<svg c>HTTPS://YHS.MOD3.UK/W/Equipment/Saw</svg>");
}

#[test]
fn failures_of_one_sticker() {
    let c = config();
    let other = parse_markup("<root><template><title>Other</title></template></root>").ok().unwrap();
    let e = failed(sticker_from_markup(&c, "N", &other, Some(1)));
    assert!(matches!(e, StickerError::Absent(_)));
    assert_eq!(e.message(), "Failed to find and parse EquipmentInfobox on page. Does it exist?");

    let bad = parse_markup(
        "<root><template><title>EquipmentInfobox</title><part><name index=\"1\"/><value>x</value></part></template></root>",
    )
    .ok()
    .unwrap();
    let e = failed(sticker_from_markup(&c, "N", &bad, Some(1)));
    assert!(matches!(e, StickerError::Malformed(_, _)));
    assert_eq!(
        e.message(),
        "Failed to parse EquipmentInfobox on page: a parameter of the record has no readable name"
    );

    let sized = parse_markup(&page_xml(&[("sticker_sz", "1x1mm")])).ok().unwrap();
    let e = failed(sticker_from_markup(&c, "N", &sized, Some(1)));
    assert_eq!(e.message(), "Sticker size is set to 1x1mm, but no template for this size exists.");

    let fine = parse_markup(&page_xml(&[("name", "x")])).ok().unwrap();
    let e = failed(sticker_from_markup(&c, "N", &fine, None));
    assert!(matches!(e, StickerError::MissingIdentifier));
    assert_eq!(e.message(), "Failed to parse page ID from API response");

    let mut long = config();
    long.id_base = "x".repeat(9000);
    let e = failed(sticker_from_markup(&long, "N", &fine, Some(1)));
    assert!(matches!(e, StickerError::QrFailed));
}

#[test]
fn a_page_with_another_template_holds_no_record() {
    let c = config();
    let xml = "<root><template><title>OtherTemplate</title>\
               <part><name>owner</name><value>X</value></part></template></root>";
    let e = failed(sticker_from_reply(&c, "Equipment/Saw", Ok(reply_json(Some(7), Some(xml)))));
    match &e {
        StickerError::Absent(template) => assert_eq!(template, "EquipmentInfobox"),
        _ => panic!("expected an absent record"),
    }
    assert_eq!(e.message(), "Failed to find and parse EquipmentInfobox on page. Does it exist?");
    let malformed = "<root><template><title>EquipmentInfobox</title>\
                     <part><value>X</value></part></template></root>";
    let m = failed(sticker_from_reply(&c, "Equipment/Saw", Ok(reply_json(Some(7), Some(malformed)))));
    assert!(matches!(m, StickerError::Malformed(_, _)));
    assert_ne!(m.message(), e.message());
}

#[test]
fn a_sticker_with_a_photo_waits_for_it() {
    let c = config();
    let root = parse_markup(&page_xml(&[("name", "Saw"), ("image", "Band saw/1.jpg")])).ok().unwrap();
    let pending = match sticker_from_markup(&c, "Equipment/Saw", &root, Some(5)) {
        Progress::NeedsImage(p) => p,
        _ => panic!("expected to wait for the photo"),
    };
    assert_eq!(pending.image_url, "https://wiki.example/thumb.php?w=400&f=Band%20saw%2F1.jpg");
    assert!(!pending.fields.contains_key("image"));
    assert!(pending.fields.contains_key("NOESCqrcode_svg"));
    let image = ImageData { mime: Some("image/png".to_string()), bytes: b"Man".to_vec() };
    let svg = sticker_with_image(pending, Ok(image)).ok().unwrap();
    assert_eq!(
        svg,
        "<svg a>Saw|Owned by York Hackspace|no training required|fill:#ffffff;fill-opacity:1;|HTTPS://YHS.MOD3.UK/W/5||<image href=\"data:image/png;base64,TWFu\" x=\"35\" y=\"20\" width=\"65\" height=\"20\" /></svg>"
    );
}

#[test]
fn a_web_interface_goes_without_the_photo() {
    let c = config();
    let root = parse_markup(&page_xml(&[("name", "Saw"), ("image", "a.jpg"), ("webinterface", "http://saw")]))
        .ok()
        .unwrap();
    let svg = done(sticker_from_markup(&c, "Equipment/Saw", &root, Some(5)));
    assert!(svg.ends_with("|http://saw|</svg>"));
}

#[test]
fn a_placeholder_without_field_fails_the_sticker() {
    let c = config();
    let root = parse_markup(&page_xml(&[("owner", "Jane")])).ok().unwrap();
    let e = failed(sticker_from_markup(&c, "Equipment/Saw", &root, Some(5)));
    match &e {
        StickerError::MissingField(name) => assert_eq!(name, "name"),
        _ => panic!("expected a missing field"),
    }
    let with_image = parse_markup(&page_xml(&[("image", "a.jpg")])).ok().unwrap();
    let e = failed(sticker_from_markup(&c, "Equipment/Saw", &with_image, Some(5)));
    assert!(matches!(e, StickerError::MissingField(_)));
    let pending = PendingSticker {
        fields: map(&[]),
        template: "{{NOESCimage}}{{other}}".to_string(),
        image_url: "u".to_string(),
    };
    let image = ImageData { mime: None, bytes: Vec::new() };
    let e = sticker_with_image(pending, Ok(image)).err().unwrap();
    assert_eq!(e.message(), "The template needs the field other, which the record does not have.");
}

#[test]
fn a_photo_that_cannot_be_fetched_fails_the_sticker() {
    let pending = PendingSticker {
        fields: map(&[]),
        template: "{{NOESCimage}}".to_string(),
        image_url: "u".to_string(),
    };
    let e = sticker_with_image(pending, Err("timeout".to_string())).err().unwrap();
    assert!(matches!(e, StickerError::ImageFailed(_)));
    assert_eq!(e.message(), "timeout");
}

#[test]
fn a_photo_without_type_is_a_jpeg() {
    let pending = PendingSticker {
        fields: map(&[]),
        template: "{{NOESCimage}}".to_string(),
        image_url: "u".to_string(),
    };
    let image = ImageData { mime: None, bytes: vec![0xff, 0xd8] };
    assert_eq!(
        sticker_with_image(pending, Ok(image)).ok().unwrap(),
        "<image href=\"data:image/jpeg;base64,/9g=\" x=\"35\" y=\"20\" width=\"65\" height=\"20\" />"
    );
}

#[test]
fn the_photo_s_markup() {
    assert_eq!(
        image_fragment("image/png", "QUJD"),
        "<image href=\"data:image/png;base64,QUJD\" x=\"35\" y=\"20\" width=\"65\" height=\"20\" />"
    );
    assert_eq!(
        image_fragment("a\"b", ""),
        "<image href=\"data:a&#34;b;base64,\" x=\"35\" y=\"20\" width=\"65\" height=\"20\" />"
    );
}

#[test]
fn complete_sticker_goes_by_the_qr_code_it_is_given() {
    let c = config();
    let derived = Derived { fields: map(&[("name", "Saw")]), image: None };
    let p = complete_sticker(&c, &c.variants[1], derived, Some("<qr/>".to_string()));
    assert_eq!(done(p), "<svg b>Saw|<qr/></svg>");
    let derived = Derived { fields: map(&[("name", "Saw")]), image: Some("a b.png".to_string()) };
    match complete_sticker(&c, &c.variants[1], derived, Some("<qr/>".to_string())) {
        Progress::NeedsImage(p) => {
            assert_eq!(p.image_url, "https://wiki.example/thumb.php?w=400&f=a%20b.png");
            assert_eq!(p.template, "<svg b>{{name}}|{{NOESCqrcode_svg}}</svg>");
            assert_eq!(p.fields.get("NOESCqrcode_svg").map(|s| s.as_str()), Some("<qr/>"));
        }
        _ => panic!("expected to wait for the photo"),
    }
    let derived = Derived { fields: map(&[("name", "Saw")]), image: None };
    let e = failed(complete_sticker(&c, &c.variants[1], derived, None));
    assert!(matches!(e, StickerError::QrFailed));
    assert_eq!(e.message(), "Failed to generate the QR code of the record");
}

#[test]
fn builds_the_queries() {
    assert_eq!(
        page_request("Equipment/3D Printer & Co"),
        "action=parse&format=json&page=Equipment%2F3D%20Printer%20%26%20Co&prop=parsetree&contentmodel=wikitext"
    );
    assert_eq!(
        api_url("https://wiki.example/api.php", "https://tags.example", "a=b"),
        "https://wiki.example/api.php?origin=https%3A%2F%2Ftags.example&a=b"
    );
    assert_eq!(page_request("Fräse-1_a.b~"), "action=parse&format=json&page=Fr%C3%A4se-1_a.b~&prop=parsetree&contentmodel=wikitext");
}

#[test]
fn reads_the_reply_to_a_page_query() {
    let json = parse_json(&reply_json(Some(42), Some("<root/>"))).ok().unwrap();
    let reply = decode_page_reply(&json);
    assert_eq!(reply.page_id, Some(42));
    assert_eq!(reply.parse_tree.as_deref(), Some("<root/>"));
    let json = parse_json("{\"parse\":{\"pageid\":-1,\"parsetree\":{\"*\":5}}}").ok().unwrap();
    let reply = decode_page_reply(&json);
    assert_eq!(reply.page_id, None);
    assert_eq!(reply.parse_tree, None);
    let json = parse_json("{\"parse\":{\"pageid\":18446744073709551615,\"parsetree\":\"x\"}}")
        .ok()
        .unwrap();
    let reply = decode_page_reply(&json);
    assert_eq!(reply.page_id, Some(u64::MAX));
    assert_eq!(reply.parse_tree, None);
    for id in ["1.5", "\"7\"", "null", "true", "[7]", "18446744073709551616"] {
        let json = parse_json(&format!("{{\"parse\":{{\"pageid\":{}}}}}", id)).ok().unwrap();
        assert_eq!(decode_page_reply(&json).page_id, None, "{}", id);
    }
    let json = parse_json("{\"parse\":{\"pageid\":1,\"pageid\":2}}").ok().unwrap();
    assert_eq!(decode_page_reply(&json).page_id, Some(2));
    let json = parse_json("{\"error\":{\"code\":\"missingtitle\"}}").ok().unwrap();
    let reply = decode_page_reply(&json);
    assert_eq!(reply.page_id, None);
    assert_eq!(reply.parse_tree, None);
    let json = parse_json("[1,2]").ok().unwrap();
    assert_eq!(decode_page_reply(&json).page_id, None);
}

#[test]
fn renders_a_sticker_from_a_reply() {
    let c = config();
    let body = reply_json(Some(9), Some(&page_xml(&[("name", "Saw"), ("sticker_sz", "45x45mm")])));
    let svg = done(sticker_from_reply(&c, "Equipment/Saw", Ok(body)));
    assert_eq!(svg, "<svg c>HTTPS://YHS.MOD3.UK/W/9</svg>");
}

#[test]
fn failures_of_a_reply() {
    let c = config();
    let e = failed(sticker_from_reply(&c, "N", Err("connection refused".to_string())));
    assert!(matches!(e, StickerError::Transport(_)));
    assert_eq!(e.message(), "Error fetching data: Request failed: connection refused");

    let e = failed(sticker_from_reply(&c, "N", Ok("<html>".to_string())));
    assert!(matches!(e, StickerError::Decode(_)));
    assert!(e.message().starts_with("Error fetching data: Failed to decode reply as JSON: "));
    assert!(e.message().len() > "Error fetching data: Failed to decode reply as JSON: ".len());

    let e = failed(sticker_from_reply(&c, "N", Ok(reply_json(None, Some("<root/>")))));
    assert!(matches!(e, StickerError::MissingIdentifier));

    let e = failed(sticker_from_reply(&c, "N", Ok(reply_json(Some(1), None))));
    assert!(matches!(e, StickerError::MissingParseTree));
    assert_eq!(
        e.message(),
        "Internal error: API response does not include parse tree for requested page"
    );

    let e = failed(sticker_from_reply(&c, "N", Ok(reply_json(Some(1), Some("<root><a></root>")))));
    assert!(matches!(e, StickerError::BadMarkup(_)));
    let parser_text = parse_markup("<root><a></root>").err().unwrap();
    assert!(!parser_text.is_empty());
    assert_eq!(e.message(), parser_text);

    let e = failed(sticker_from_reply(&c, "N", Ok(reply_json(Some(1), Some("<root/>")))));
    assert!(matches!(e, StickerError::Absent(_)));

    let mut by_name = config();
    by_name.identifier = Identifier::PageName;
    let body = reply_json(None, Some(&page_xml(&[("sticker_sz", "45x45mm")])));
    assert_eq!(done(sticker_from_reply(&by_name, "A", Ok(body))), "<svg c>HTTPS://YHS.MOD3.UK/W/A</svg>");
}
