//! The pipeline of one sticker: from the markup tree of a page to the SVG
//! document, by way of the record, its derived fields, the QR code of its
//! canonical URL and, where the record has one, its photo.

use vstd::prelude::*;
use vstd::string::{StringExecFns, StringSliceAdditionalSpecFns};
use vstd::utf8::encode_utf8;
use crate::codec::{
    base64, base64_encode, base64_fits, percent_encoded, qr_svg, qr_svg_of, url_encode,
    QR_TEXT_LIMIT,
};
use crate::config::{Config, TemplateVariant};
use crate::derive::{
    canonical_url, derive_fields, derived_fields, identifier_text, image_to_embed,
    lemma_derived_fields_are_safe, record_identifier, record_owner_line, Derived,
};
use crate::error::{StickerError, StickerErrorView};
use crate::escape::{esc_xml, escaped};
use crate::fields::{is_raw_name, FieldMap};
use crate::infobox::{extract_infobox, extraction, Extraction, ExtractionView};
use crate::markup::{element_tree, MarkupTree};
use crate::render::{
    fill_template, filled, requested_variant, select_variant, variant_position,
};
use crate::template::{expand_template, first_unfilled};

verus! {

/// The name under which the QR code is given to the template.
pub open spec fn qr_field() -> Seq<char> {
    "NOESCqrcode_svg"@
}

/// The name under which the photo is given to the template.
pub open spec fn image_field() -> Seq<char> {
    "NOESCimage"@
}

/// The type of a photo whose server names none.
pub open spec fn default_mime() -> Seq<char> {
    "image/jpeg"@
}

/// A sticker that waits for its photo.
pub struct PendingSticker {
    /// The fields for the template, the photo still missing.
    pub fields: FieldMap,
    /// The layout to expand.
    pub template: String,
    /// The address of the photo's thumbnail.
    pub image_url: String,
}

/// How far a sticker has come once the page has been read.
pub enum Progress {
    /// The sticker is rendered.
    Done(String),
    /// The sticker needs the photo at the given address.
    NeedsImage(PendingSticker),
    /// The sticker cannot be made.
    Failed(StickerError),
}

/// What a `Progress` stands for.
pub ghost enum ProgressView {
    Done(Seq<char>),
    NeedsImage { fields: Map<Seq<char>, Seq<char>>, template: Seq<char>, image_url: Seq<char> },
    Failed(StickerErrorView),
}

impl View for Progress {
    type V = ProgressView;

    open spec fn view(&self) -> ProgressView {
        match self {
            Progress::Done(svg) => ProgressView::Done(svg@),
            Progress::NeedsImage(pending) => ProgressView::NeedsImage {
                fields: pending.fields@,
                template: pending.template@,
                image_url: pending.image_url@,
            },
            Progress::Failed(e) => ProgressView::Failed(e@),
        }
    }
}

/// The QR code of `url` as an SVG document `size` pixels wide, or `None`
/// where there is none: text of more than `QR_TEXT_LIMIT` bytes is not
/// handed to the generator.
pub open spec fn qr_code(url: Seq<char>, size: nat) -> Option<Seq<char>> {
    if encode_utf8(url).len() > QR_TEXT_LIMIT {
        None
    } else {
        qr_svg(url, size)
    }
}

/// Makes the QR code of `url` as an SVG document `size` pixels wide.
pub fn qr_fragment(url: &str, size: usize) -> (r: Option<String>)
    ensures
        r is Some <==> qr_code(url@, size as nat) is Some,
        r matches Some(svg) ==> Some(svg@) == qr_code(url@, size as nat),
{
    if url.as_bytes().len() > QR_TEXT_LIMIT {
        None
    } else {
        qr_svg_of(url, size)
    }
}

/// The address of the thumbnail of the photo called `image`.
pub open spec fn thumbnail_url(image_base: Seq<char>, image: Seq<char>) -> Seq<char> {
    image_base + percent_encoded(encode_utf8(image))
}

/// How far a sticker has come once its fields are derived and the
/// generator has answered with `qr`.
pub open spec fn completed(
    variant: TemplateVariant,
    image_base: Seq<char>,
    fields: Map<Seq<char>, Seq<char>>,
    image: Option<Seq<char>>,
    qr: Option<Seq<char>>,
) -> ProgressView {
    match qr {
        None => ProgressView::Failed(StickerErrorView::QrFailed),
        Some(svg) => {
            let all = fields.insert(qr_field(), svg).insert(image_field(), Seq::empty());
            match filled(variant.text@, all) {
                Err(e) => ProgressView::Failed(e),
                Ok(sticker) => match image {
                    None => ProgressView::Done(sticker),
                    Some(name) => ProgressView::NeedsImage {
                        fields: all,
                        template: variant.text@,
                        image_url: thumbnail_url(image_base, name),
                    },
                },
            }
        },
    }
}

/// Completes a sticker whose fields are derived, given the QR code `qr`
/// that the generator made of its canonical URL.
///
/// Without a QR code the sticker fails. With it, the code goes into the
/// fields as it is, and so does an empty photo. A placeholder of the layout
/// that finds no field fails the sticker. Else the sticker is rendered, or,
/// where a photo is to be embedded, waits for it.
pub fn complete_sticker(
    config: &Config,
    variant: &TemplateVariant,
    derived: Derived,
    qr: Option<String>,
) -> (r: Progress)
    ensures
        r@ == completed(
            *variant,
            config.image_base@,
            derived.fields@,
            match derived.image {
                Some(name) => Some(name@),
                None => None,
            },
            match qr {
                Some(svg) => Some(svg@),
                None => None,
            },
        ),
{
    let svg = match qr {
        Some(svg) => svg,
        None => {
            return Progress::Failed(StickerError::QrFailed);
        },
    };
    let mut fields = derived.fields;
    fields.insert("NOESCqrcode_svg".to_owned(), svg);
    fields.insert("NOESCimage".to_owned(), String::new());
    match first_unfilled(variant.text.as_str(), &fields) {
        Some(name) => {
            return Progress::Failed(StickerError::MissingField(name));
        },
        None => {},
    }
    match derived.image {
        None => Progress::Done(expand_template(variant.text.as_str(), &fields)),
        Some(name) => {
            let encoded = url_encode(name.as_str());
            let image_url = config.image_base.clone().concat(encoded.as_str());
            Progress::NeedsImage(
                PendingSticker { fields, template: variant.text.clone(), image_url },
            )
        },
    }
}

/// How far the sticker of the page called `name` comes, given the markup
/// tree under `root` and the page's numeric id.
pub open spec fn sticker_progress(
    config: Config,
    name: Seq<char>,
    root: MarkupTree,
    page_id: Option<u64>,
) -> ProgressView {
    match extraction(root, config.infobox@) {
        ExtractionView::Absent => ProgressView::Failed(StickerErrorView::Absent(config.infobox@)),
        ExtractionView::Malformed(reason) => ProgressView::Failed(
            StickerErrorView::Malformed(config.infobox@, reason),
        ),
        ExtractionView::Found(record) => {
            let wanted = requested_variant(record, config.default_variant@);
            let k = variant_position(config.variants@, wanted, 0);
            if k >= config.variants@.len() {
                ProgressView::Failed(StickerErrorView::UnsupportedVariant(wanted))
            } else {
                match identifier_text(config.identifier, name, page_id) {
                    None => ProgressView::Failed(StickerErrorView::MissingIdentifier),
                    Some(id) => {
                        let variant = config.variants@[k];
                        let url = canonical_url(config.id_base@, id);
                        completed(
                            variant,
                            config.image_base@,
                            derived_fields(
                                record,
                                url,
                                variant.neutral_style@,
                                record_owner_line(record),
                            ),
                            image_to_embed(record, variant.webinterface_hides_image),
                            qr_code(url, config.qr_size as nat),
                        )
                    },
                }
            }
        },
    }
}

/// Takes the sticker of the page called `name` as far as it goes without
/// the photo: extracts the record from the markup tree under `root`,
/// selects the layout, derives the fields, makes the QR code, and renders
/// the sticker unless a photo is to be embedded first.
pub fn sticker_from_markup(
    config: &Config,
    name: &str,
    root: &xmltree::Element,
    page_id: Option<u64>,
) -> (r: Progress)
    ensures
        r@ == sticker_progress(*config, name@, element_tree(*root), page_id),
{
    let record = match extract_infobox(root, config.infobox.as_str()) {
        Extraction::Absent => {
            return Progress::Failed(StickerError::Absent(config.infobox.clone()));
        },
        Extraction::Malformed(reason) => {
            return Progress::Failed(StickerError::Malformed(config.infobox.clone(), reason));
        },
        Extraction::Found(record) => record,
    };
    let variant = match select_variant(config, &record) {
        Ok(variant) => variant,
        Err(e) => {
            return Progress::Failed(e);
        },
    };
    let id = record_identifier(&config.identifier, name, page_id);
    let derived = match derive_fields(
        config,
        variant,
        record,
        match &id {
            Some(text) => Some(text.as_str()),
            None => None,
        },
    ) {
        Ok(derived) => derived,
        Err(e) => {
            return Progress::Failed(e);
        },
    };
    let url = config.id_base.clone().concat(id.unwrap().as_str());
    let qr = qr_fragment(url.as_str(), config.qr_size);
    complete_sticker(config, variant, derived, qr)
}

/// A photo as its server sent it.
pub struct ImageData {
    /// The type that the server named, if it named one.
    pub mime: Option<String>,
    /// The bytes of the photo.
    pub bytes: Vec<u8>,
}

/// The markup that embeds a photo of type `mime` whose base64 form is
/// `data`.
pub open spec fn image_markup(mime: Seq<char>, data: Seq<char>) -> Seq<char> {
    "<image href=\"data:"@ + escaped(mime) + ";base64,"@ + data
        + "\" x=\"35\" y=\"20\" width=\"65\" height=\"20\" />"@
}

/// The markup that embeds a photo of type `mime` whose base64 form is
/// `data`. The type is escaped; the data is inserted as it is.
pub fn image_fragment(mime: &str, data: &str) -> (r: String)
    ensures
        r@ == image_markup(mime@, data@),
{
    let safe = esc_xml(mime);
    "<image href=\"data:".to_owned().concat(safe.as_str()).concat(";base64,").concat(data).concat(
        "\" x=\"35\" y=\"20\" width=\"65\" height=\"20\" />",
    )
}

/// The type of the photo: what the server named, or the default.
pub open spec fn mime_of(mime: Option<Seq<char>>) -> Seq<char> {
    match mime {
        Some(m) => m,
        None => default_mime(),
    }
}

/// The sticker that `fields` and `template` give once the photo has come
/// as `mime` and `bytes`.
pub open spec fn with_image(
    fields: Map<Seq<char>, Seq<char>>,
    template: Seq<char>,
    mime: Option<Seq<char>>,
    bytes: Seq<u8>,
) -> Result<Seq<char>, StickerErrorView> {
    if base64_fits(bytes.len()) {
        filled(template, fields.insert(image_field(), image_markup(mime_of(mime), base64(bytes))))
    } else {
        Err(StickerErrorView::ImageTooLarge)
    }
}

/// Renders a sticker that waited for its photo.
///
/// `image` is what fetching the photo gave: the photo, or the transport's
/// error, with which the sticker fails. The photo is embedded as a data URL
/// in base64 and goes into the fields as it is.
pub fn sticker_with_image(pending: PendingSticker, image: Result<ImageData, String>) -> (r: Result<
    String,
    StickerError,
>)
    ensures
        match image {
            Err(detail) => r matches Err(e) && e@ == StickerErrorView::ImageFailed(detail@),
            Ok(data) => match with_image(
                pending.fields@,
                pending.template@,
                match data.mime {
                    Some(m) => Some(m@),
                    None => None,
                },
                data.bytes@,
            ) {
                Ok(svg) => r matches Ok(text) && text@ == svg,
                Err(e) => r matches Err(err) && err@ == e,
            },
        },
{
    let data = match image {
        Ok(data) => data,
        Err(detail) => {
            return Err(StickerError::ImageFailed(detail));
        },
    };
    if data.bytes.len() / 3 > (usize::MAX - 4) / 4 {
        return Err(StickerError::ImageTooLarge);
    }
    let encoded = base64_encode(&data.bytes);
    let fragment = match &data.mime {
        Some(m) => image_fragment(m.as_str(), encoded.as_str()),
        None => image_fragment("image/jpeg", encoded.as_str()),
    };
    let mut fields = pending.fields;
    fields.insert("NOESCimage".to_owned(), fragment);
    fill_template(pending.template.as_str(), &fields)
}

/// Of the fields given to the template only the QR code and the photo are
/// inserted as they are: every value that comes from the record is escaped.
pub proof fn lemma_only_built_fragments_are_raw(
    record: Map<Seq<char>, Seq<char>>,
    url: Seq<char>,
    neutral_style: Seq<char>,
    owner_text: Seq<char>,
    svg: Seq<char>,
    image: Seq<char>,
)
    ensures
        ({
            let all = derived_fields(record, url, neutral_style, owner_text).insert(
                qr_field(),
                svg,
            ).insert(image_field(), image);
            forall|name: Seq<char>|
                all.contains_key(name) && is_raw_name(name) ==> name == qr_field() || name
                    == image_field()
        }),
{
    lemma_derived_fields_are_safe(record, url, neutral_style, owner_text);
}

} // verus!
