//! What a deployment chooses: where the wiki is, how a record is
//! identified, and which sticker layouts exist.

use vstd::prelude::*;

verus! {

/// How the identifier at the end of a record's canonical URL is chosen.
pub enum Identifier {
    /// The numeric id that the wiki gives the page.
    PageId,
    /// The name of the page.
    PageName,
}

/// One sticker layout.
pub struct TemplateVariant {
    /// The name by which a record asks for this layout.
    pub name: String,
    /// The SVG document with its placeholders.
    pub text: String,
    /// The style of the background where no training is required.
    pub neutral_style: String,
    /// Whether a record with a web interface goes without its photo in
    /// this layout.
    pub webinterface_hides_image: bool,
}

/// The configuration of the sticker pipeline.
pub struct Config {
    /// The name of the template whose invocation holds a record.
    pub infobox: String,
    /// What the canonical URL of a record begins with.
    pub id_base: String,
    /// How the rest of the canonical URL is chosen.
    pub identifier: Identifier,
    /// What the address of a photo's thumbnail begins with.
    pub image_base: String,
    /// The width and height of the QR code, in pixels.
    pub qr_size: usize,
    /// The layouts.
    pub variants: Vec<TemplateVariant>,
    /// The name of the layout of a record that asks for none.
    pub default_variant: String,
}

} // verus!
