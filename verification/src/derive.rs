//! Derivation of the fields that a sticker shows from the fields of a
//! record: the canonical URL, the training banner and its background, the
//! ownership line, and which photo to embed.

use vstd::prelude::*;
use vstd::string::StringExecFns;
use crate::codec::{lowercase, to_lowercase};
use crate::config::{Config, Identifier, TemplateVariant};
use crate::error::{StickerError, StickerErrorView};
use crate::fields::{escaped_part, is_raw_name, raw_prefix, FieldMap};
use crate::text::{
    begins_with, chars_of, copy_range, decimal, decimal_chars, finishes_with, matches_at,
    same_text, string_of, trim, trimmed,
};

verus! {

/// The banner of equipment that needs training.
pub open spec fn training_required_text() -> Seq<char> {
    "DO NOT USE without training!"@
}

/// The banner of equipment that needs no training.
pub open spec fn no_training_text() -> Seq<char> {
    "no training required"@
}

/// The background style of equipment that needs training.
pub open spec fn danger_style() -> Seq<char> {
    "fill:#ff6b72;fill-opacity:1;"@
}

/// The ownership line of what the hosting organisation owns.
pub open spec fn house_owned_text() -> Seq<char> {
    "Owned by York Hackspace"@
}

/// What the ownership line of loaned equipment begins with.
pub open spec fn loaned_by_text() -> Seq<char> {
    "Kindly loaned by "@
}

/// Whether an owner, in lower case and trimmed, names the hosting
/// organisation. No owner at all means the organisation.
pub open spec fn is_house_name(normal: Seq<char>) -> bool {
    ||| normal == "york hackspace"@
    ||| normal == "hackspace"@
    ||| normal == "york hack space"@
    ||| normal == "hack space"@
    ||| normal == "yhs"@
    ||| normal == ""@
}

/// Tests whether `normal` names the hosting organisation.
pub fn is_house(normal: &str) -> (b: bool)
    ensures
        b == is_house_name(normal@),
{
    same_text(normal, "york hackspace") || same_text(normal, "hackspace") || same_text(
        normal,
        "york hack space",
    ) || same_text(normal, "hack space") || same_text(normal, "yhs") || same_text(normal, "")
}

/// The name to show for an owner: what stands between `[[User:` and `]]`
/// where the owner is written as a reference to a user's page, else the
/// owner as written.
pub open spec fn display_name(owner: Seq<char>) -> Seq<char> {
    if begins_with(owner, "[[User:"@) && finishes_with(owner, "]]"@) {
        owner.subrange("[[User:"@.len() as int, owner.len() - "]]"@.len())
    } else {
        owner
    }
}

/// The name to show for the owner `s`: a reference to a user's page,
/// `[[User:Name]]`, gives `Name`; anything else is kept as it is.
pub fn unwrap_name(s: &str) -> (r: String)
    ensures
        r@ == display_name(s@),
{
    let v = chars_of(s);
    let open = chars_of("[[User:");
    let close = chars_of("]]");
    proof {
        reveal_strlit("[[User:");
        reveal_strlit("]]");
    }
    let n = v.len();
    if matches_at(&v, 0, &open) && n >= 2 && matches_at(&v, n - 2, &close) {
        assert(n >= 9) by {
            assert(v@.subrange(0, 7)[5] == 'r');
            assert(v@.subrange(0, 7)[6] == ':');
            assert(v@.subrange(n - 2, n as int)[0] == ']');
            assert(v@.subrange(n - 2, n as int)[1] == ']');
        }
        let inner = copy_range(&v, 7, n - 2);
        string_of(&inner)
    } else {
        string_of(&v)
    }
}

/// The ownership line for the owner `owner`, whose lower-case form is
/// `lowered`.
pub open spec fn owner_phrase(owner: Seq<char>, lowered: Seq<char>) -> Seq<char> {
    if is_house_name(trimmed(lowered)) {
        house_owned_text()
    } else {
        loaned_by_text() + display_name(owner)
    }
}

/// The ownership line for the owner `owner`, given its lower-case form
/// `lowered`: the organisation's line where the trimmed lower-case form
/// names the organisation, else the loan line with the name to show.
pub fn owner_text(owner: &str, lowered: &str) -> (r: String)
    ensures
        r@ == owner_phrase(owner@, lowered@),
{
    let normal = trim(lowered);
    if is_house(normal.as_str()) {
        "Owned by York Hackspace".to_owned()
    } else {
        let name = unwrap_name(owner);
        "Kindly loaned by ".to_owned().concat(name.as_str())
    }
}

/// The ownership line for the owner `owner`.
pub fn owner_line(owner: &str) -> (r: String)
    ensures
        r@ == owner_phrase(owner@, lowercase(owner@)),
{
    let lowered = to_lowercase(owner);
    owner_text(owner, lowered.as_str())
}

/// Whether the record asks for training: it has a field `trainingurl` or a
/// field `trainingform`, whatever they hold.
pub open spec fn requires_training(record: Map<Seq<char>, Seq<char>>) -> bool {
    record.contains_key("trainingurl"@) || record.contains_key("trainingform"@)
}

/// The owner that the record names; a record without the field names none.
pub open spec fn record_owner(record: Map<Seq<char>, Seq<char>>) -> Seq<char> {
    if record.contains_key("owner"@) {
        record["owner"@]
    } else {
        ""@
    }
}

/// The lower-case form of the owner that the record names; of a record
/// that names none it is empty.
pub open spec fn lowered_owner(record: Map<Seq<char>, Seq<char>>) -> Seq<char> {
    if record.contains_key("owner"@) {
        lowercase(record["owner"@])
    } else {
        ""@
    }
}

/// The ownership line of the record.
pub open spec fn record_owner_line(record: Map<Seq<char>, Seq<char>>) -> Seq<char> {
    owner_phrase(record_owner(record), lowered_owner(record))
}

/// The photo to fetch and embed, if any: the record's `image`, unless the
/// layout hides the photo of a record that has a `webinterface`.
pub open spec fn image_to_embed(
    record: Map<Seq<char>, Seq<char>>,
    webinterface_hides_image: bool,
) -> Option<Seq<char>> {
    if record.contains_key("image"@) && !(webinterface_hides_image && record.contains_key(
        "webinterface"@,
    )) {
        Some(record["image"@])
    } else {
        None
    }
}

/// The fields given to the template, but for the QR code and the photo: the
/// record's own fields that are escaped on insertion, with `url`,
/// `training`, `bgstyle` and `owner` set to what was derived, an empty
/// `webinterface` where the record has none, and without `image`.
pub open spec fn derived_fields(
    record: Map<Seq<char>, Seq<char>>,
    url: Seq<char>,
    neutral_style: Seq<char>,
    owner_text: Seq<char>,
) -> Map<Seq<char>, Seq<char>> {
    let training = if requires_training(record) {
        training_required_text()
    } else {
        no_training_text()
    };
    let style = if requires_training(record) {
        danger_style()
    } else {
        neutral_style
    };
    let set = escaped_part(record).insert("url"@, url).insert("training"@, training).insert(
        "bgstyle"@,
        style,
    ).insert("owner"@, owner_text);
    let with_interface = if record.contains_key("webinterface"@) {
        set
    } else {
        set.insert("webinterface"@, ""@)
    };
    with_interface.remove("image"@)
}

/// What derivation gives: the fields for the template, and the name of the
/// photo to embed, if any.
pub struct Derived {
    pub fields: FieldMap,
    pub image: Option<String>,
}

/// The identifier at the end of the canonical URL of the page called
/// `name`, whose numeric id is `page_id`.
pub open spec fn identifier_text(
    identifier: Identifier,
    name: Seq<char>,
    page_id: Option<u64>,
) -> Option<Seq<char>> {
    match identifier {
        Identifier::PageName => Some(name),
        Identifier::PageId => match page_id {
            Some(id) => Some(decimal(id as nat)),
            None => None,
        },
    }
}

/// The identifier at the end of the canonical URL of the page called
/// `name`, whose numeric id is `page_id`: the name, or the id in decimal,
/// as `identifier` says. There is none where the id is asked for and
/// missing.
pub fn record_identifier(identifier: &Identifier, name: &str, page_id: Option<u64>) -> (r: Option<
    String,
>)
    ensures
        r is Some <==> identifier_text(*identifier, name@, page_id) is Some,
        r matches Some(text) ==> Some(text@) == identifier_text(*identifier, name@, page_id),
{
    match identifier {
        Identifier::PageName => Some(name.to_owned()),
        Identifier::PageId => match page_id {
            Some(id) => {
                let digits = decimal_chars(id);
                Some(string_of(&digits))
            },
            None => None,
        },
    }
}

/// Derives the fields of a sticker from the fields `record` of a record,
/// given the lower-case form `lowered_owner` of the owner that the record
/// names.
///
/// `url` is the canonical URL of the record, `neutral_style` the background
/// of equipment that needs no training, and `webinterface_hides_image`
/// says whether a record with a web interface goes without its photo.
pub fn derive_with(
    record: FieldMap,
    url: String,
    neutral_style: &str,
    webinterface_hides_image: bool,
    lowered_owner: &str,
) -> (r: Derived)
    ensures
        r.fields@ == derived_fields(
            record@,
            url@,
            neutral_style@,
            owner_phrase(record_owner(record@), lowered_owner@),
        ),
        r.image is Some <==> image_to_embed(record@, webinterface_hides_image) is Some,
        r.image matches Some(name) ==> Some(name@) == image_to_embed(
            record@,
            webinterface_hides_image,
        ),
{
    let needs_training = record.contains_key("trainingurl") || record.contains_key(
        "trainingform",
    );
    let has_interface = record.contains_key("webinterface");
    let owner = match record.get("owner") {
        Some(text) => text.clone(),
        None => "".to_owned(),
    };
    let image = match record.get("image") {
        Some(name) => {
            if webinterface_hides_image && has_interface {
                None
            } else {
                Some(name.clone())
            }
        },
        None => None,
    };
    let line = owner_text(owner.as_str(), lowered_owner);
    let mut fields = record;
    fields.drop_raw();
    fields.insert("url".to_owned(), url);
    if needs_training {
        fields.insert("training".to_owned(), "DO NOT USE without training!".to_owned());
        fields.insert("bgstyle".to_owned(), "fill:#ff6b72;fill-opacity:1;".to_owned());
    } else {
        fields.insert("training".to_owned(), "no training required".to_owned());
        fields.insert("bgstyle".to_owned(), neutral_style.to_owned());
    }
    fields.insert("owner".to_owned(), line);
    if !has_interface {
        fields.insert("webinterface".to_owned(), "".to_owned());
    }
    fields.remove("image");
    Derived { fields, image }
}

/// The canonical URL of the record identified by `id`.
pub open spec fn canonical_url(id_base: Seq<char>, id: Seq<char>) -> Seq<char> {
    id_base + id
}

/// Derives the fields of a sticker from the fields `record` of a record.
///
/// `record_id` identifies the record in its canonical URL; without it
/// derivation fails, and with it derivation succeeds: every other field has
/// its default.
pub fn derive_fields(
    config: &Config,
    variant: &TemplateVariant,
    record: FieldMap,
    record_id: Option<&str>,
) -> (r: Result<Derived, StickerError>)
    ensures
        r is Ok <==> record_id is Some,
        r matches Err(e) ==> e@ == StickerErrorView::MissingIdentifier,
        r matches Ok(d) ==> {
            &&& d.fields@ == derived_fields(
                record@,
                canonical_url(config.id_base@, record_id.unwrap()@),
                variant.neutral_style@,
                record_owner_line(record@),
            )
            &&& d.image is Some <==> image_to_embed(record@, variant.webinterface_hides_image)
                is Some
            &&& d.image matches Some(name) ==> Some(name@) == image_to_embed(
                record@,
                variant.webinterface_hides_image,
            )
        },
{
    let id = match record_id {
        Some(id) => id,
        None => {
            return Err(StickerError::MissingIdentifier);
        },
    };
    let url = config.id_base.clone().concat(id);
    let lowered = match record.get("owner") {
        Some(text) => to_lowercase(text.as_str()),
        None => "".to_owned(),
    };
    Ok(
        derive_with(
            record,
            url,
            variant.neutral_style.as_str(),
            variant.webinterface_hides_image,
            lowered.as_str(),
        ),
    )
}

/// A record without an owner is owned by the hosting organisation.
pub proof fn lemma_no_owner_is_house_owned(
    record: Map<Seq<char>, Seq<char>>,
    url: Seq<char>,
    neutral_style: Seq<char>,
)
    requires
        !record.contains_key("owner"@),
    ensures
        record_owner_line(record) == house_owned_text(),
        derived_fields(record, url, neutral_style, record_owner_line(record))["owner"@]
            == house_owned_text(),
{
    reveal_strlit("");
    reveal_strlit("owner");
    reveal_strlit("webinterface");
    reveal_strlit("image");
    assert(""@ =~= Seq::<char>::empty());
    assert(trimmed(""@) == ""@);
    assert("owner"@ != "webinterface"@) by {
        assert("owner"@.len() != "webinterface"@.len());
    }
    assert("owner"@ != "image"@) by {
        assert("owner"@[0] != "image"@[0]);
    }
}

/// An owner whose trimmed lower-case form does not name the hosting
/// organisation is named in the ownership line as a lender: the line is
/// the loan text followed by the name to show, and the name as written
/// where it is no reference to a user's page.
pub proof fn lemma_other_owner_is_lender(owner: Seq<char>, lowered: Seq<char>)
    requires
        !is_house_name(trimmed(lowered)),
    ensures
        owner_phrase(owner, lowered) == loaned_by_text() + display_name(owner),
        !begins_with(owner, "[[User:"@) ==> owner_phrase(owner, lowered) == loaned_by_text()
            + owner,
{
}

/// A record with a field `trainingform`, whatever it holds, or with a
/// field `trainingurl`, gets the training banner and the danger style; a
/// record with neither gets the other banner and the neutral style.
pub proof fn lemma_training_rule(
    record: Map<Seq<char>, Seq<char>>,
    url: Seq<char>,
    neutral_style: Seq<char>,
    owner_text: Seq<char>,
)
    ensures
        ({
            let derived = derived_fields(record, url, neutral_style, owner_text);
            let asked = record.contains_key("trainingform"@) || record.contains_key(
                "trainingurl"@,
            );
            &&& derived.contains_key("training"@)
            &&& derived.contains_key("bgstyle"@)
            &&& asked ==> derived["training"@] == training_required_text() && derived["bgstyle"@]
                == danger_style()
            &&& !asked ==> derived["training"@] == no_training_text() && derived["bgstyle"@]
                == neutral_style
        }),
{
    reveal_strlit("training");
    reveal_strlit("bgstyle");
    reveal_strlit("owner");
    reveal_strlit("webinterface");
    reveal_strlit("image");
    assert("training"@.len() == 8 && "bgstyle"@.len() == 7 && "owner"@.len() == 5
        && "webinterface"@.len() == 12 && "image"@.len() == 5);
}

/// The derived fields hold the canonical URL under `url`, whatever the
/// record holds there, and no `image`; and no field of the record whose
/// value would be inserted without escaping is among them.
pub proof fn lemma_derived_fields_are_safe(
    record: Map<Seq<char>, Seq<char>>,
    url: Seq<char>,
    neutral_style: Seq<char>,
    owner_text: Seq<char>,
)
    ensures
        ({
            let derived = derived_fields(record, url, neutral_style, owner_text);
            &&& derived.contains_key("url"@) && derived["url"@] == url
            &&& !derived.contains_key("image"@)
            &&& derived.contains_key("webinterface"@)
            &&& forall|name: Seq<char>| derived.contains_key(name) ==> !is_raw_name(name)
        }),
{
    reveal_strlit("url");
    reveal_strlit("training");
    reveal_strlit("bgstyle");
    reveal_strlit("owner");
    reveal_strlit("webinterface");
    reveal_strlit("image");
    assert("url"@.len() == 3 && "training"@.len() == 8 && "bgstyle"@.len() == 7 && "owner"@.len()
        == 5 && "webinterface"@.len() == 12 && "image"@.len() == 5);
    let derived = derived_fields(record, url, neutral_style, owner_text);
    assert forall|name: Seq<char>| derived.contains_key(name) implies !is_raw_name(name) by {
        if is_raw_name(name) {
            assert(name.subrange(0, 5) == raw_prefix());
            assert(name[0] == 'N');
            assert(name.subrange(0, 5)[0] == 'N');
            assert(name != "url"@ && name != "training"@ && name != "bgstyle"@ && name
                != "owner"@ && name != "webinterface"@);
        }
    }
}

} // verus!
