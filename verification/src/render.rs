//! Selection of a sticker layout and rendering of a sticker.

use vstd::prelude::*;
use crate::config::{Config, TemplateVariant};
use crate::error::{StickerError, StickerErrorView};
use crate::fields::FieldMap;
use crate::template::{expand_template, expanded, first_unfilled, unfilled};
use crate::text::same_text;

verus! {

/// The position of the first of `variants` that is called `name`, counted
/// from position `from`, or the number of variants if there is none.
pub open spec fn variant_position(variants: Seq<TemplateVariant>, name: Seq<char>, from: int) -> int
    decreases variants.len() - from,
{
    if from < 0 || from >= variants.len() {
        variants.len() as int
    } else if variants[from].name@ == name {
        from
    } else {
        variant_position(variants, name, from + 1)
    }
}

/// The position of the first of `variants` called `name` is a position of
/// a variant of that name, or the number of variants.
pub proof fn lemma_variant_position(variants: Seq<TemplateVariant>, name: Seq<char>, from: int)
    requires
        0 <= from <= variants.len(),
    ensures
        from <= variant_position(variants, name, from) <= variants.len(),
        variant_position(variants, name, from) < variants.len() ==> variants[variant_position(
            variants,
            name,
            from,
        )].name@ == name,
        forall|k: int|
            from <= k < variant_position(variants, name, from) ==> variants[k].name@ != name,
    decreases variants.len() - from,
{
    if from < variants.len() && variants[from].name@ != name {
        lemma_variant_position(variants, name, from + 1);
    }
}

/// The name of the layout that a record asks for: what its field
/// `sticker_sz` holds, or `default` where it has no such field.
pub open spec fn requested_variant(
    record: Map<Seq<char>, Seq<char>>,
    default: Seq<char>,
) -> Seq<char> {
    if record.contains_key("sticker_sz"@) {
        record["sticker_sz"@]
    } else {
        default
    }
}

/// The position of the layout called `name` among the layouts of `config`,
/// if there is one of that name.
pub fn find_variant(config: &Config, name: &str) -> (r: Option<usize>)
    ensures
        r is Some <==> variant_position(config.variants@, name@, 0) < config.variants@.len(),
        r matches Some(k) ==> k == variant_position(config.variants@, name@, 0),
{
    let mut i: usize = 0;
    while i < config.variants.len()
        invariant
            i <= config.variants@.len(),
            variant_position(config.variants@, name@, 0) == variant_position(
                config.variants@,
                name@,
                i as int,
            ),
        decreases config.variants@.len() - i,
    {
        if same_text(config.variants[i].name.as_str(), name) {
            return Some(i);
        }
        i += 1;
    }
    None
}

/// The name of the layout that the record `record` asks for.
pub fn variant_name(config: &Config, record: &FieldMap) -> (r: String)
    ensures
        r@ == requested_variant(record@, config.default_variant@),
{
    match record.get("sticker_sz") {
        Some(name) => name.clone(),
        None => config.default_variant.clone(),
    }
}

/// The layout that the record `record` asks for, or the default layout
/// where it asks for none. A name that no layout bears is an error.
pub fn select_variant<'a>(config: &'a Config, record: &FieldMap) -> (r: Result<
    &'a TemplateVariant,
    StickerError,
>)
    ensures
        ({
            let name = requested_variant(record@, config.default_variant@);
            let k = variant_position(config.variants@, name, 0);
            match r {
                Ok(variant) => k < config.variants@.len() && *variant == config.variants@[k],
                Err(e) => k == config.variants@.len() && e@
                    == StickerErrorView::UnsupportedVariant(name),
            }
        }),
{
    let name = variant_name(config, record);
    proof {
        lemma_variant_position(config.variants@, name@, 0);
    }
    match find_variant(config, name.as_str()) {
        Some(k) => Ok(&config.variants[k]),
        None => Err(StickerError::UnsupportedVariant(name)),
    }
}

/// What expanding the layout `template` with `fields` gives: the sticker,
/// or, where a placeholder of the layout would be left as written, the
/// error that names it.
pub open spec fn filled(template: Seq<char>, fields: Map<Seq<char>, Seq<char>>) -> Result<
    Seq<char>,
    StickerErrorView,
> {
    match unfilled(template, fields) {
        Some(name) => Err(StickerErrorView::MissingField(name)),
        None => Ok(expanded(template, fields)),
    }
}

/// Expands the layout `template` with `fields`. Every placeholder of the
/// layout must find its field: one that does not is an error, and no
/// sticker is made.
pub fn fill_template(template: &str, fields: &FieldMap) -> (r: Result<String, StickerError>)
    ensures
        match filled(template@, fields@) {
            Ok(text) => r matches Ok(svg) && svg@ == text,
            Err(e) => r matches Err(err) && err@ == e,
        },
{
    match first_unfilled(template, fields) {
        Some(name) => Err(StickerError::MissingField(name)),
        None => Ok(expand_template(template, fields)),
    }
}

/// What rendering `fields` in the layout called `variant` gives.
pub open spec fn rendering(
    variants: Seq<TemplateVariant>,
    fields: Map<Seq<char>, Seq<char>>,
    variant: Seq<char>,
) -> Result<Seq<char>, StickerErrorView> {
    let k = variant_position(variants, variant, 0);
    if k < variants.len() {
        filled(variants[k].text@, fields)
    } else {
        Err(StickerErrorView::UnsupportedVariant(variant))
    }
}

/// Renders a sticker: expands the layout called `variant`, or the default
/// layout where `variant` is `None`, with `fields`. A name that no layout
/// bears is an error, and so is a placeholder of the layout that finds no
/// field.
pub fn render_sticker(config: &Config, fields: &FieldMap, variant: Option<&str>) -> (r: Result<
    String,
    StickerError,
>)
    ensures
        ({
            let name = match variant {
                Some(v) => v@,
                None => config.default_variant@,
            };
            match rendering(config.variants@, fields@, name) {
                Ok(text) => r matches Ok(svg) && svg@ == text,
                Err(e) => r matches Err(err) && err@ == e,
            }
        }),
{
    let name = match variant {
        Some(v) => v.to_owned(),
        None => config.default_variant.clone(),
    };
    match find_variant(config, name.as_str()) {
        Some(k) => fill_template(config.variants[k].text.as_str(), fields),
        None => Err(StickerError::UnsupportedVariant(name)),
    }
}

} // verus!
