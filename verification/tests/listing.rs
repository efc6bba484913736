use asset_stickers::json::parse_json;
use asset_stickers::listing::{
    decode_listing_page, join_lines, Listing, ListingError, ListingPage, ListingStep,
    DEFAULT_BOUND,
};
use asset_stickers::wiki::listing_request;

fn page(titles: &[&str], next: Option<&str>) -> ListingPage {
    ListingPage {
        titles: titles.iter().map(|t| t.to_string()).collect(),
        next: next.map(|t| t.to_string()),
    }
}

fn body(titles: &[&str], next: Option<&str>) -> String {
    let pages: Vec<String> = titles
        .iter()
        .enumerate()
        .map(|(i, t)| format!("\"{}\":{{\"pageid\":{},\"title\":\"{}\"}}", 100 + i, 100 + i, t))
        .collect();
    let more = match next {
        Some(t) => format!("\"continue\":{{\"gapcontinue\":\"{}\",\"continue\":\"gapcontinue||\"}},", t),
        None => String::new(),
    };
    format!("{{{}\"query\":{{\"pages\":{{{}}}}}}}", more, pages.join(","))
}

fn query(step: &ListingStep) -> &str {
    match step {
        ListingStep::Fetch(q) => q,
        _ => panic!("expected a request"),
    }
}

#[test]
fn exhausts_after_exactly_as_many_requests_as_the_bound() {
    let (mut listing, mut step) = Listing::start("Equipment/", 3);
    let mut sent = 0;
    let mut replies = 0;
    loop {
        match step {
            ListingStep::Fetch(_) => {
                sent += 1;
                replies += 1;
                step = listing.advance(Ok(page(&["Equipment/Saw"], Some("Equipment/T"))));
            }
            ListingStep::Failed(e) => {
                assert!(matches!(e, ListingError::Exhausted(3)));
                assert_eq!(
                    e.message(),
                    "Too many requests, page listing incomplete after 3 requests."
                );
                break;
            }
            ListingStep::Done(_) => panic!("the wiki never said that the list was complete"),
        }
        assert!(replies <= 3);
    }
    assert_eq!(sent, 3);
    assert_eq!(listing.requests(), 3);
}

#[test]
fn exhausts_with_replies_as_text() {
    assert_eq!(DEFAULT_BOUND, 999);
    let (mut listing, mut step) = Listing::start("Equipment/", DEFAULT_BOUND);
    let mut sent = 0;
    while let ListingStep::Fetch(_) = step {
        sent += 1;
        step = listing.step(Ok(body(&["Equipment/Saw"], Some("Equipment/Saw"))));
    }
    assert_eq!(sent, 999);
    match step {
        ListingStep::Failed(e) => assert_eq!(
            e.message(),
            "Too many requests, page listing incomplete after 999 requests."
        ),
        _ => panic!("expected exhaustion"),
    }
}

#[test]
fn a_bound_of_no_requests_fails_at_once() {
    let (listing, step) = Listing::start("Equipment/", 0);
    match step {
        ListingStep::Failed(e) => {
            assert!(matches!(e, ListingError::Exhausted(0)));
            assert_eq!(e.message(), "Too many requests, page listing incomplete after 0 requests.");
        }
        _ => panic!("expected exhaustion"),
    }
    assert_eq!(listing.requests(), 0);
}

#[test]
fn lists_the_names_of_all_pages() {
    let (mut listing, step) = Listing::start("Equipment/", 999);
    assert_eq!(
        query(&step),
        "action=query&format=json&generator=allpages&gapprefix=Equipment%2F"
    );
    let step = listing.step(Ok(body(&["Equipment/Bandsaw", "Equipment/"], Some("Equipment/Lathe 2"))));
    assert_eq!(
        query(&step),
        "action=query&format=json&generator=allpages&gapprefix=Equipment%2F&gapcontinue=Equipment%2FLathe%202"
    );
    let step = listing.step(Ok(body(&["Equipment/Lathe 2", "Equipment/Mill"], None)));
    match step {
        ListingStep::Done(names) => {
            assert_eq!(names, "Equipment/Bandsaw\nEquipment/Lathe 2\nEquipment/Mill")
        }
        _ => panic!("expected the list"),
    }
    assert_eq!(listing.requests(), 2);
}

#[test]
fn the_last_request_allowed_may_complete_the_list() {
    let (mut listing, _) = Listing::start("E/", 2);
    assert!(matches!(listing.advance(Ok(page(&["E/a"], Some("t")))), ListingStep::Fetch(_)));
    match listing.advance(Ok(page(&["E/b"], None))) {
        ListingStep::Done(names) => assert_eq!(names, "E/a\nE/b"),
        _ => panic!("expected the list"),
    }
}

#[test]
fn an_empty_list_is_the_empty_text() {
    let (mut listing, _) = Listing::start("E/", 5);
    match listing.advance(Ok(page(&[], None))) {
        ListingStep::Done(names) => assert_eq!(names, ""),
        _ => panic!("expected the list"),
    }
    assert_eq!(join_lines(&vec![]), "");
    assert_eq!(join_lines(&vec!["a".to_string()]), "a");
    assert_eq!(join_lines(&vec!["a".to_string(), "".to_string(), "b".to_string()]), "a\n\nb");
}

#[test]
fn errors_end_the_listing() {
    let (mut listing, _) = Listing::start("Equipment/", 9);
    match listing.step(Err("offline".to_string())) {
        ListingStep::Failed(e) => {
            assert!(matches!(e, ListingError::Transport(_)));
            assert_eq!(e.message(), "Error fetching data: Request failed: offline");
        }
        _ => panic!("expected a failure"),
    }
    let (mut listing, _) = Listing::start("Equipment/", 9);
    match listing.step(Ok("not json".to_string())) {
        ListingStep::Failed(e) => {
            assert!(matches!(e, ListingError::Decode(_)));
            assert!(e.message().starts_with("Error fetching data: Failed to decode reply as JSON: "));
        }
        _ => panic!("expected a failure"),
    }
}

fn decode(text: &str) -> Result<ListingPage, ListingError> {
    let json = parse_json(text).ok().unwrap();
    decode_listing_page(&json, "Equipment/")
}

#[test]
fn reads_a_page_of_results() {
    let p = decode(&body(&["Equipment/Saw", "Equipment/", "Equipment", "Equipment/Ä"], Some("x y"))).ok().unwrap();
    assert_eq!(p.titles, vec!["Equipment/Saw".to_string(), "Equipment/Ä".to_string()]);
    assert_eq!(p.next.as_deref(), Some("x y"));
    let p = decode(&body(&[], None)).ok().unwrap();
    assert!(p.titles.is_empty());
    assert_eq!(p.next, None);
    let p = decode("{\"continue\":null,\"query\":{\"pages\":{}}}").ok().unwrap();
    assert_eq!(p.next, None);
}

#[test]
fn pages_come_in_the_order_of_their_keys() {
    let text = "{\"query\":{\"pages\":{\"30\":{\"title\":\"Equipment/C\"},\"10\":{\"title\":\"Equipment/A\"},\"20\":{\"title\":\"Equipment/B\"}}}}";
    let p = decode(text).ok().unwrap();
    assert_eq!(
        p.titles,
        vec!["Equipment/A".to_string(), "Equipment/B".to_string(), "Equipment/C".to_string()]
    );
}

#[test]
fn replies_of_another_shape_are_errors() {
    let e = decode("{\"batchcomplete\":\"\"}").err().unwrap();
    assert!(matches!(e, ListingError::MissingQuery));
    assert_eq!(e.message(), "Query data missing from JSON response");
    let e = decode("{\"query\":null}").err().unwrap();
    assert!(matches!(e, ListingError::MissingQuery));
    let e = decode("{\"query\":{\"pages\":[1]}}").err().unwrap();
    assert!(matches!(e, ListingError::MissingPages));
    assert_eq!(e.message(), "pages missing from query in JSON response");
    let e = decode("{\"query\":{}}").err().unwrap();
    assert!(matches!(e, ListingError::MissingPages));
    let e = decode("{\"query\":{\"pages\":{\"1\":{\"title\":\"Equipment/A\"},\"2\":{\"title\":7}}}}")
        .err()
        .unwrap();
    assert!(matches!(e, ListingError::MissingTitle));
    assert_eq!(e.message(), "page title missing from page in JSON response");
    let e = decode("{\"query\":{\"pages\":{\"1\":7}}}").err().unwrap();
    assert!(matches!(e, ListingError::MissingTitle));
    let e = decode("{\"continue\":{\"continue\":\"-||\"},\"query\":{\"pages\":{}}}").err().unwrap();
    assert!(matches!(e, ListingError::MissingContinuation));
    assert_eq!(e.message(), "Continue name missing, api broken?");
    let e = decode("{\"continue\":true,\"query\":{\"pages\":{}}}").err().unwrap();
    assert!(matches!(e, ListingError::MissingContinuation));
}

#[test]
fn a_missing_title_comes_before_a_missing_continuation() {
    let e = decode("{\"continue\":5,\"query\":{\"pages\":{\"1\":{}}}}").err().unwrap();
    assert!(matches!(e, ListingError::MissingTitle));
}

#[test]
fn builds_the_listing_query() {
    assert_eq!(
        listing_request("Equipment/", None),
        "action=query&format=json&generator=allpages&gapprefix=Equipment%2F"
    );
    assert_eq!(
        listing_request("A b", Some("C&d")),
        "action=query&format=json&generator=allpages&gapprefix=A%20b&gapcontinue=C%26d"
    );
}

#[test]
fn text_that_is_no_json_is_an_error() {
    let err = parse_json("{\"a\":").err().unwrap();
    assert!(err.contains("EOF"));
    assert!(parse_json("").is_err());
    assert!(parse_json("{\"a\":1}").is_ok());
}
