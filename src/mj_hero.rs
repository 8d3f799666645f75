use vstd::prelude::*;
use crate::component::Component;
use crate::mjml::{AttributeMap, MjBodyChild};

verus! {

/// Tag name of the hero element.
pub const NAME: &'static str = "mj-hero";

/// Marker type identifying the hero element kind.
pub struct MjHeroTag;

/// A hero element: attributes kept as written, and body content.
pub type MjHero = Component<MjHeroTag, AttributeMap, Vec<MjBodyChild>>;

impl MjHeroTag {
    /// The tag name of the element kind.
    pub fn static_tag() -> (r: &'static str)
        ensures
            r@ == NAME@,
    {
        NAME
    }
}

} // verus!
