use vstd::prelude::*;

verus! {

/// Tag name of the preview element.
pub const NAME: &'static str = "mj-preview";

/// The preview text of a message: its text content is kept as it stands.
pub struct MJPreview {
    pub children: String,
}

impl MJPreview {
    /// The text held by the element.
    pub fn content(&self) -> (r: &str)
        ensures
            r@ == self.children@,
    {
        self.children.as_str()
    }
}

impl From<String> for MJPreview {
    fn from(children: String) -> (r: Self) {
        MJPreview { children }
    }
}

impl vstd::std_specs::convert::FromSpecImpl<String> for MJPreview {
    open spec fn obeys_from_spec() -> bool {
        true
    }

    open spec fn from_spec(children: String) -> MJPreview {
        MJPreview { children }
    }
}

} // verus!
