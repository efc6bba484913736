//! What is asked of the wiki and what its replies hold.

use vstd::prelude::*;
use vstd::string::StringExecFns;
use vstd::utf8::encode_utf8;
use crate::codec::{percent_encoded, url_encode};
use crate::config::{Config, Identifier};
use crate::derive::identifier_text;
use crate::error::{StickerError, StickerErrorView};
use crate::json::{
    json_member, json_number, json_reading, json_text, parse_json, value_tree, JsonTree,
};
use crate::markup::{parse_markup, xml_reading};
use crate::sticker::{sticker_from_markup, sticker_progress, Progress, ProgressView};

verus! {

/// The percent-encoded form of the text `s`.
pub open spec fn url_encoded(s: Seq<char>) -> Seq<char> {
    percent_encoded(encode_utf8(s))
}

/// The query that asks for the parse tree of the page called `name`.
pub open spec fn page_query(name: Seq<char>) -> Seq<char> {
    "action=parse&format=json&page="@ + url_encoded(name)
        + "&prop=parsetree&contentmodel=wikitext"@
}

/// The query that asks for the parse tree of the page called `name`.
pub fn page_request(name: &str) -> (r: String)
    ensures
        r@ == page_query(name@),
{
    let encoded = url_encode(name);
    "action=parse&format=json&page=".to_owned().concat(encoded.as_str()).concat(
        "&prop=parsetree&contentmodel=wikitext",
    )
}

/// The address at which the wiki answers `query` for a caller at `origin`.
pub open spec fn api_address(base: Seq<char>, origin: Seq<char>, query: Seq<char>) -> Seq<char> {
    base + "?origin="@ + url_encoded(origin) + "&"@ + query
}

/// The address at which the wiki answers `query` for a caller at `origin`.
pub fn api_url(base: &str, origin: &str, query: &str) -> (r: String)
    ensures
        r@ == api_address(base@, origin@, query@),
{
    let encoded = url_encode(origin);
    base.to_owned().concat("?origin=").concat(encoded.as_str()).concat("&").concat(query)
}

/// The query that asks for one page of the names that begin with `prefix`,
/// from the start or from where `token` says.
pub open spec fn listing_query(prefix: Seq<char>, token: Option<Seq<char>>) -> Seq<char> {
    let first = "action=query&format=json&generator=allpages&gapprefix="@ + url_encoded(prefix);
    match token {
        Some(t) => first + "&gapcontinue="@ + url_encoded(t),
        None => first,
    }
}

/// The query that asks for one page of the names that begin with `prefix`,
/// from the start or from where `token` says.
pub fn listing_request(prefix: &str, token: Option<&str>) -> (r: String)
    ensures
        r@ == listing_query(
            prefix@,
            match token {
                Some(t) => Some(t@),
                None => None,
            },
        ),
{
    let encoded = url_encode(prefix);
    let first = "action=query&format=json&generator=allpages&gapprefix=".to_owned().concat(
        encoded.as_str(),
    );
    match token {
        Some(t) => {
            let cursor = url_encode(t);
            first.concat("&gapcontinue=").concat(cursor.as_str())
        },
        None => first,
    }
}

/// What the reply to a page query holds.
pub struct PageReply {
    /// The numeric id of the page.
    pub page_id: Option<u64>,
    /// The parse tree of the page, as XML text.
    pub parse_tree: Option<String>,
}

/// The numeric id of the page in the reply `json`.
pub open spec fn page_id_of(json: JsonTree) -> Option<u64> {
    json.member("parse"@).member("pageid"@).number()
}

/// The parse tree of the page in the reply `json`.
pub open spec fn parse_tree_of(json: JsonTree) -> Option<Seq<char>> {
    json.member("parse"@).member("parsetree"@).member("*"@).text()
}

/// Reads the reply to a page query: the page id under `parse.pageid`, where
/// it is an unsigned integer, and the parse tree under `parse.parsetree.*`,
/// where it is a string.
pub fn decode_page_reply(json: &serde_json::Value) -> (r: PageReply)
    ensures
        r.page_id == page_id_of(value_tree(*json)),
        r.parse_tree is Some <==> parse_tree_of(value_tree(*json)) is Some,
        r.parse_tree matches Some(t) ==> Some(t@) == parse_tree_of(value_tree(*json)),
{
    let parse = json_member(json, "parse");
    let page_id = json_number(json_member(parse, "pageid"));
    let parse_tree = json_text(json_member(json_member(parse, "parsetree"), "*"));
    PageReply { page_id, parse_tree }
}

/// How far the sticker of the page called `name` comes, given what
/// fetching the page gave: the body of the reply, or the transport's error.
pub open spec fn page_progress(
    config: Config,
    name: Seq<char>,
    reply: Result<Seq<char>, Seq<char>>,
) -> ProgressView {
    match reply {
        Err(detail) => ProgressView::Failed(StickerErrorView::Transport(detail)),
        Ok(body) => match json_reading(body) {
            Err(message) => ProgressView::Failed(StickerErrorView::Decode(message)),
            Ok(json) => {
                if identifier_text(config.identifier, name, page_id_of(json)) is None {
                    ProgressView::Failed(StickerErrorView::MissingIdentifier)
                } else {
                    match parse_tree_of(json) {
                        None => ProgressView::Failed(StickerErrorView::MissingParseTree),
                        Some(xml) => match xml_reading(xml) {
                            Err(message) => ProgressView::Failed(
                                StickerErrorView::BadMarkup(message),
                            ),
                            Ok(root) => sticker_progress(config, name, root, page_id_of(json)),
                        },
                    }
                }
            },
        },
    }
}

/// What a text or an error text stands for.
pub open spec fn reply_view(reply: Result<String, String>) -> Result<Seq<char>, Seq<char>> {
    match reply {
        Ok(body) => Ok(body@),
        Err(detail) => Err(detail@),
    }
}

/// Takes the sticker of the page called `name` as far as it goes without
/// the photo, given what fetching the page gave: the body of the reply, or
/// the transport's error.
///
/// A reply that is no JSON document, that lacks the page id where the
/// canonical URL needs it, that lacks the parse tree, or whose parse tree
/// is not well-formed, fails the sticker.
pub fn sticker_from_reply(config: &Config, name: &str, reply: Result<String, String>) -> (r:
    Progress)
    ensures
        r@ == page_progress(*config, name@, reply_view(reply)),
{
    let body = match reply {
        Ok(body) => body,
        Err(detail) => {
            return Progress::Failed(StickerError::Transport(detail));
        },
    };
    let json = match parse_json(body.as_str()) {
        Ok(json) => json,
        Err(message) => {
            return Progress::Failed(StickerError::Decode(message));
        },
    };
    let page = decode_page_reply(&json);
    match config.identifier {
        Identifier::PageId => {
            if page.page_id.is_none() {
                return Progress::Failed(StickerError::MissingIdentifier);
            }
        },
        Identifier::PageName => {},
    }
    let xml = match page.parse_tree {
        Some(xml) => xml,
        None => {
            return Progress::Failed(StickerError::MissingParseTree);
        },
    };
    let root = match parse_markup(xml.as_str()) {
        Ok(root) => root,
        Err(message) => {
            return Progress::Failed(StickerError::BadMarkup(message));
        },
    };
    sticker_from_markup(config, name, &root, page.page_id)
}

} // verus!
