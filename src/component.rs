use vstd::prelude::*;

verus! {

/// One element of a document: `tag` marks its kind, `attributes` holds what
/// its attributes gave, `children` what its content gave. Each element kind
/// is this type with its own three parameters.
pub struct Component<Tag, Attributes, Children> {
    pub tag: Tag,
    pub attributes: Attributes,
    pub children: Children,
}

} // verus!
