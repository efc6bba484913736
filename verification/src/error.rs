//! Why a sticker could not be made.

use vstd::prelude::*;
use vstd::string::StringExecFns;

verus! {

/// The reason for which one item failed.
pub enum StickerError {
    /// The page could not be fetched; the text is the transport's.
    Transport(String),
    /// The reply was not the JSON document that was expected; the text is
    /// the decoder's.
    Decode(String),
    /// The reply holds no page id, which the canonical URL needs.
    MissingIdentifier,
    /// The reply holds no parse tree.
    MissingParseTree,
    /// The parse tree is not well-formed markup; the text is the parser's.
    BadMarkup(String),
    /// The page holds no invocation of the template, whose name is given.
    Absent(String),
    /// The invocation of the template, whose name is given first, is not of
    /// the expected shape; the second text says why.
    Malformed(String, String),
    /// The record asks for a layout, whose name is given, that does not
    /// exist.
    UnsupportedVariant(String),
    /// The layout has a placeholder, whose name is given, for which the
    /// record gives no field.
    MissingField(String),
    /// No QR code could be made of the canonical URL.
    QrFailed,
    /// The photo could not be fetched; the text is the transport's.
    ImageFailed(String),
    /// The photo is too large to embed.
    ImageTooLarge,
    /// What came back does not answer what was asked.
    UnexpectedReply,
}

/// What a `StickerError` stands for.
pub ghost enum StickerErrorView {
    Transport(Seq<char>),
    Decode(Seq<char>),
    MissingIdentifier,
    MissingParseTree,
    BadMarkup(Seq<char>),
    Absent(Seq<char>),
    Malformed(Seq<char>, Seq<char>),
    UnsupportedVariant(Seq<char>),
    MissingField(Seq<char>),
    QrFailed,
    ImageFailed(Seq<char>),
    ImageTooLarge,
    UnexpectedReply,
}

impl View for StickerError {
    type V = StickerErrorView;

    open spec fn view(&self) -> StickerErrorView {
        match self {
            StickerError::Transport(detail) => StickerErrorView::Transport(detail@),
            StickerError::Decode(detail) => StickerErrorView::Decode(detail@),
            StickerError::MissingIdentifier => StickerErrorView::MissingIdentifier,
            StickerError::MissingParseTree => StickerErrorView::MissingParseTree,
            StickerError::BadMarkup(detail) => StickerErrorView::BadMarkup(detail@),
            StickerError::Absent(template) => StickerErrorView::Absent(template@),
            StickerError::Malformed(template, reason) => StickerErrorView::Malformed(
                template@,
                reason@,
            ),
            StickerError::UnsupportedVariant(name) => StickerErrorView::UnsupportedVariant(name@),
            StickerError::MissingField(name) => StickerErrorView::MissingField(name@),
            StickerError::QrFailed => StickerErrorView::QrFailed,
            StickerError::ImageFailed(detail) => StickerErrorView::ImageFailed(detail@),
            StickerError::ImageTooLarge => StickerErrorView::ImageTooLarge,
            StickerError::UnexpectedReply => StickerErrorView::UnexpectedReply,
        }
    }
}

/// The text that tells a reader of the error log what went wrong.
pub open spec fn error_text(e: StickerErrorView) -> Seq<char> {
    match e {
        StickerErrorView::Transport(detail) => "Error fetching data: Request failed: "@ + detail,
        StickerErrorView::Decode(detail) => "Error fetching data: Failed to decode reply as JSON: "@
            + detail,
        StickerErrorView::MissingIdentifier => "Failed to parse page ID from API response"@,
        StickerErrorView::MissingParseTree =>
            "Internal error: API response does not include parse tree for requested page"@,
        StickerErrorView::BadMarkup(detail) => detail,
        StickerErrorView::Absent(template) => "Failed to find and parse "@ + template
            + " on page. Does it exist?"@,
        StickerErrorView::Malformed(template, reason) => "Failed to parse "@ + template
            + " on page: "@ + reason,
        StickerErrorView::UnsupportedVariant(name) => "Sticker size is set to "@ + name
            + ", but no template for this size exists."@,
        StickerErrorView::MissingField(name) => "The template needs the field "@ + name
            + ", which the record does not have."@,
        StickerErrorView::QrFailed => "Failed to generate the QR code of the record"@,
        StickerErrorView::ImageFailed(detail) => detail,
        StickerErrorView::ImageTooLarge => "The image is too large to embed"@,
        StickerErrorView::UnexpectedReply => "The reply does not answer the request"@,
    }
}

impl StickerError {
    /// The text that tells a reader of the error log what went wrong.
    pub fn message(&self) -> (text: String)
        ensures
            text@ == error_text(self@),
    {
        match self {
            StickerError::Transport(detail) => {
                "Error fetching data: Request failed: ".to_owned().concat(detail.as_str())
            },
            StickerError::Decode(detail) => {
                "Error fetching data: Failed to decode reply as JSON: ".to_owned().concat(
                    detail.as_str(),
                )
            },
            StickerError::MissingIdentifier => {
                "Failed to parse page ID from API response".to_owned()
            },
            StickerError::MissingParseTree => {
                "Internal error: API response does not include parse tree for requested page".to_owned()
            },
            StickerError::BadMarkup(detail) => detail.clone(),
            StickerError::Absent(template) => {
                "Failed to find and parse ".to_owned().concat(template.as_str()).concat(
                    " on page. Does it exist?",
                )
            },
            StickerError::Malformed(template, reason) => {
                "Failed to parse ".to_owned().concat(template.as_str()).concat(
                    " on page: ",
                ).concat(reason.as_str())
            },
            StickerError::UnsupportedVariant(name) => {
                "Sticker size is set to ".to_owned().concat(name.as_str()).concat(
                    ", but no template for this size exists.",
                )
            },
            StickerError::MissingField(name) => {
                "The template needs the field ".to_owned().concat(name.as_str()).concat(
                    ", which the record does not have.",
                )
            },
            StickerError::QrFailed => "Failed to generate the QR code of the record".to_owned(),
            StickerError::ImageFailed(detail) => detail.clone(),
            StickerError::ImageTooLarge => "The image is too large to embed".to_owned(),
            StickerError::UnexpectedReply => "The reply does not answer the request".to_owned(),
        }
    }
}

} // verus!
