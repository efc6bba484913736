use asset_stickers::archive::{generate_download_link, link_of_archive, zip_archive};
use asset_stickers::batch::{
    split_names, Batch, BatchReply, BatchRequest, BatchResult, Item, Outcome,
};
use asset_stickers::config::{Config, Identifier, TemplateVariant};
use asset_stickers::sticker::ImageData;

fn config() -> Config {
    Config {
        infobox: "EquipmentInfobox".to_string(),
        id_base: "HTTPS://YHS.MOD3.UK/W/".to_string(),
        identifier: Identifier::PageId,
        image_base: "https://wiki.example/thumb.php?w=400&f=".to_string(),
        qr_size: 200,
        variants: vec![TemplateVariant {
            name: "112x45mm".to_string(),
            text: "<svg>{{name}}:{{owner}}:{{NOESCimage}}</svg>\n".to_string(),
            neutral_style: "fill:#ffffff;fill-opacity:1;".to_string(),
            webinterface_hides_image: true,
        }],
        default_variant: "112x45mm".to_string(),
    }
}

fn reply(page_id: u64, parts: &str) -> BatchReply {
    let xml = format!(
        "<root><template><title>EquipmentInfobox</title>{}</template></root>",
        parts
    );
    let quoted = xml.replace('"', "\\\"");
    BatchReply::Page(Ok(format!(
        "{{\"parse\":{{\"pageid\":{},\"parsetree\":{{\"*\":\"{}\"}}}}}}",
        page_id, quoted
    )))
}

fn good(page_id: u64, name: &str) -> BatchReply {
    reply(page_id, &format!("<part><name>name</name>=<value>{}</value></part>", name))
}

fn page_query(request: &BatchRequest) -> &str {
    match request {
        BatchRequest::Page(q) => q,
        _ => panic!("expected a page request"),
    }
}

#[test]
fn a_failure_does_not_end_the_batch() {
    let c = config();
    let (mut batch, request) = Batch::start("Good\nBadOwner\nGood2");
    assert!(page_query(&request).contains("page=Good&"));
    let request = batch.step(&c, good(1, "first"));
    assert!(page_query(&request).contains("page=BadOwner&"));
    let malformed = reply(
        2,
        "<part><name>name</name>=<value>second</value></part><part><name index=\"1\"/><value>BadOwnerValue</value></part>",
    );
    let request = batch.step(&c, malformed);
    assert!(page_query(&request).contains("page=Good2&"));
    assert!(!batch.is_finished());
    let request = batch.step(&c, good(3, "third"));
    assert!(matches!(request, BatchRequest::Finished));
    assert!(batch.is_finished());

    let result = batch.result();
    assert_eq!(result.items.len(), 3);
    assert_eq!(result.items[0].name, "Good");
    assert!(matches!(result.items[0].outcome, Outcome::Rendered(_)));
    assert_eq!(result.items[1].name, "BadOwner");
    match &result.items[1].outcome {
        Outcome::Failed(message) => assert_eq!(
            message,
            "Failed to parse EquipmentInfobox on page: a parameter of the record has no readable name"
        ),
        _ => panic!("expected a failure"),
    }
    assert_eq!(result.items[2].name, "Good2");
    assert!(matches!(result.items[2].outcome, Outcome::Rendered(_)));

    let text = result.success_text();
    assert_eq!(
        text,
        "<svg>first:Owned by York Hackspace:</svg>\n<svg>third:Owned by York Hackspace:</svg>\n"
    );
    assert!(!text.contains("BadOwner"));
    assert!(!text.contains("second"));
    assert_eq!(
        result.error_log(),
        "Failed to generate sticker for \"BadOwner\": Failed to parse EquipmentInfobox on page: a parameter of the record has no readable name\n"
    );
    let files = result.archive_entries();
    assert_eq!(files.len(), 2);
    assert_eq!(files[0].0, "Good.svg");
    assert_eq!(files[1].0, "Good2.svg");
    assert_eq!(files[1].1, "<svg>third:Owned by York Hackspace:</svg>\n");
}

#[test]
fn an_empty_batch_is_finished_at_once() {
    let c = config();
    for input in ["", "  \n \n", "\n\n\n"] {
        let (mut batch, request) = Batch::start(input);
        assert!(matches!(request, BatchRequest::Finished));
        assert!(batch.is_finished());
        assert_eq!(batch.result().items.len(), 0);
        assert_eq!(batch.result().error_log(), "");
        assert_eq!(batch.result().success_text(), "");
        assert!(batch.result().archive_entries().is_empty());
        let request = batch.step(&c, good(1, "late"));
        assert!(matches!(request, BatchRequest::Finished));
        assert_eq!(batch.result().items.len(), 0);
    }
}

#[test]
fn a_page_without_the_record_is_logged_and_asks_for_nothing_more() {
    let c = config();
    let (mut batch, _) = Batch::start("Other\nGood");
    let other = BatchReply::Page(Ok(
        "{\"parse\":{\"pageid\":7,\"parsetree\":{\"*\":\"<root><template><title>OtherTemplate</title><part><name>owner</name><value>X</value></part></template></root>\"}}}"
            .to_string(),
    ));
    let request = batch.step(&c, other);
    assert!(page_query(&request).contains("page=Good&"));
    assert_eq!(batch.result().items.len(), 1);
    assert_eq!(
        batch.result().error_log(),
        "Failed to generate sticker for \"Other\": Failed to find and parse EquipmentInfobox on page. Does it exist?\n"
    );
}

#[test]
fn every_item_can_fail() {
    let c = config();
    let (mut batch, _) = Batch::start("A\nB");
    batch.step(&c, BatchReply::Page(Err("offline".to_string())));
    let request = batch.step(&c, BatchReply::Page(Ok("{}".to_string())));
    assert!(matches!(request, BatchRequest::Finished));
    assert_eq!(batch.result().success_text(), "");
    assert_eq!(
        batch.result().error_log(),
        "Failed to generate sticker for \"A\": Error fetching data: Request failed: offline\n\
         Failed to generate sticker for \"B\": Failed to parse page ID from API response\n"
    );
}

#[test]
fn a_photo_is_fetched_in_between() {
    let c = config();
    let (mut batch, _) = Batch::start("Saw\nMill");
    let with_image = reply(
        5,
        "<part><name>name</name>=<value>saw</value></part><part><name>image</name>=<value>Saw 1.jpg</value></part>",
    );
    let request = batch.step(&c, with_image);
    match &request {
        BatchRequest::Image(url) => {
            assert_eq!(url, "https://wiki.example/thumb.php?w=400&f=Saw%201.jpg")
        }
        _ => panic!("expected an image request"),
    }
    assert_eq!(batch.result().items.len(), 0);
    let image = ImageData { mime: Some("image/png".to_string()), bytes: b"Ma".to_vec() };
    let request = batch.step(&c, BatchReply::Image(Ok(image)));
    assert!(page_query(&request).contains("page=Mill&"));
    assert_eq!(batch.result().items.len(), 1);
    assert_eq!(
        batch.result().success_text(),
        "<svg>saw:Owned by York Hackspace:<image href=\"data:image/png;base64,TWE=\" x=\"35\" y=\"20\" width=\"65\" height=\"20\" /></svg>\n"
    );
}

#[test]
fn a_photo_that_fails_fails_the_item_only() {
    let c = config();
    let (mut batch, _) = Batch::start("Saw\nMill");
    let with_image = reply(
        5,
        "<part><name>name</name>=<value>saw</value></part><part><name>image</name>=<value>a.jpg</value></part>",
    );
    assert!(matches!(batch.step(&c, with_image), BatchRequest::Image(_)));
    let request = batch.step(&c, BatchReply::Image(Err("404".to_string())));
    assert!(page_query(&request).contains("page=Mill&"));
    batch.step(&c, good(6, "mill"));
    assert_eq!(
        batch.result().error_log(),
        "Failed to generate sticker for \"Saw\": 404\n"
    );
    assert_eq!(batch.result().success_text(), "<svg>mill:Owned by York Hackspace:</svg>\n");
}

#[test]
fn a_reply_of_the_wrong_kind_fails_the_item() {
    let c = config();
    let (mut batch, _) = Batch::start("Saw\nMill");
    let image = ImageData { mime: None, bytes: Vec::new() };
    let request = batch.step(&c, BatchReply::Image(Ok(image)));
    assert!(page_query(&request).contains("page=Mill&"));
    let with_image = reply(
        5,
        "<part><name>name</name>=<value>mill</value></part><part><name>image</name>=<value>a.jpg</value></part>",
    );
    assert!(matches!(batch.step(&c, with_image), BatchRequest::Image(_)));
    let request = batch.step(&c, good(5, "again"));
    assert!(matches!(request, BatchRequest::Finished));
    assert_eq!(
        batch.result().error_log(),
        "Failed to generate sticker for \"Saw\": The reply does not answer the request\n\
         Failed to generate sticker for \"Mill\": The reply does not answer the request\n"
    );
}

#[test]
fn reads_the_list_of_names() {
    assert_eq!(split_names("a\nb"), vec!["a".to_string(), "b".to_string()]);
    assert_eq!(split_names("  a\n\n\nb c\n"), vec!["a".to_string(), "b c".to_string()]);
    assert_eq!(split_names("Equipment/Saw"), vec!["Equipment/Saw".to_string()]);
    assert_eq!(split_names("a \n b"), vec!["a ".to_string(), " b".to_string()]);
    assert!(split_names("").is_empty());
    assert!(split_names(" \t\n ").is_empty());
}

fn item(name: &str, outcome: Outcome) -> Item {
    Item { name: name.to_string(), outcome }
}

#[test]
fn the_outputs_follow_the_order_of_the_items() {
    let result = BatchResult {
        items: vec![
            item("a", Outcome::Failed("x".to_string())),
            item("b", Outcome::Rendered("<1/>".to_string())),
            item("c", Outcome::Failed("y".to_string())),
            item("d", Outcome::Rendered("<2/>".to_string())),
        ],
    };
    assert_eq!(result.success_text(), "<1/><2/>");
    assert_eq!(
        result.error_log(),
        "Failed to generate sticker for \"a\": x\nFailed to generate sticker for \"c\": y\n"
    );
    let files = result.archive_entries();
    assert_eq!(
        files,
        vec![("b.svg".to_string(), "<1/>".to_string()), ("d.svg".to_string(), "<2/>".to_string())]
    );
    let link = result.download_link().expect("a link");
    assert!(link.starts_with("data:application/zip;base64,UEsDB"));
    assert_eq!(Some(link), generate_download_link(&files));
}

#[test]
fn packs_an_archive() {
    let files = vec![
        ("a.svg".to_string(), "<svg>a</svg>".repeat(100)),
        ("b.svg".to_string(), String::new()),
    ];
    let bytes = zip_archive(&files).expect("an archive");
    assert_eq!(&bytes[0..4], b"PK\x03\x04");
    assert!(bytes.windows(5).any(|w| w == b"a.svg"));
    assert!(bytes.windows(5).any(|w| w == b"b.svg"));
    assert!(bytes.len() < 1200);
    assert_eq!(zip_archive(&files), Some(bytes));
    let empty = zip_archive(&Vec::new()).expect("an archive");
    assert_eq!(&empty[0..4], b"PK\x05\x06");
}

#[test]
fn offers_an_archive_as_a_link() {
    assert_eq!(link_of_archive(None), None);
    assert_eq!(
        link_of_archive(Some(b"Man".to_vec())),
        Some("data:application/zip;base64,TWFu".to_string())
    );
    assert_eq!(
        link_of_archive(Some(vec![0xfb, 0xff, 0xbe, 0x00])),
        Some("data:application/zip;base64,+/++AA==".to_string())
    );
    assert_eq!(link_of_archive(Some(Vec::new())), Some("data:application/zip;base64,".to_string()));
}
