use vstd::prelude::*;
use vstd::string::StringSliceAdditionalSpecFns;
use crate::component::Component;
use crate::mj_hero::MjHero;
use crate::mj_preview::MJPreview;
use crate::parser::{Error, MrmlCursor, Origin, ParseOutput, ParserOptions, Span, Token, Warning, WarningKind, tokens_of, same_name, hazard_from};

verus! {

/// Tag name of the root element.
pub const NAME: &'static str = "mjml";
/// Tag name of the head element.
pub const MJ_HEAD: &'static str = "mj-head";
/// Tag name of the body element.
pub const MJ_BODY: &'static str = "mj-body";

/// Attributes kept as written: names and optional values, in document order.
pub type AttributeMap = Vec<(String, Option<String>)>;

/// The attributes that the root element knows. An absent attribute, and one
/// written without a value, is `None`.
pub struct MjmlAttributes {
    pub owa: Option<String>,
    pub lang: Option<String>,
    pub dir: Option<String>,
}

/// Marker of the root element kind.
pub struct MjmlTag;

/// Marker of the head element kind.
pub struct MjHeadTag;

/// Marker of the body element kind.
pub struct MjBodyTag;

/// An element that may stand in the content of a body.
pub enum MjBodyChild {
    MjHero(MjHero),
}

pub type MjHead = Component<MjHeadTag, AttributeMap, Vec<MJPreview>>;

/// A body element. This grammar gives it no legal child, so its content is
/// always empty once parsed.
pub type MjBody = Component<MjBodyTag, AttributeMap, Vec<MjBodyChild>>;

/// The two named slots of the root element.
pub struct MjmlChildren {
    pub head: Option<MjHead>,
    pub body: Option<MjBody>,
}

pub type Mjml = Component<MjmlTag, MjmlAttributes, MjmlChildren>;

/// What a head element holds: its attributes and the text of each preview.
pub struct HeadView {
    pub attributes: Seq<(String, Option<String>)>,
    pub children: Seq<Seq<char>>,
}

/// What a parsed root element holds.
pub struct MjmlView {
    pub attributes: MjmlAttributes,
    pub head: Option<HeadView>,
    pub body: Option<Seq<(String, Option<String>)>>,
}

impl View for MjHead {
    type V = HeadView;

    open spec fn view(&self) -> HeadView {
        HeadView {
            attributes: self.attributes@,
            children: self.children@.map_values(|p: MJPreview| p.children@),
        }
    }
}

impl View for Mjml {
    type V = MjmlView;

    open spec fn view(&self) -> MjmlView {
        MjmlView {
            attributes: self.attributes,
            head: match self.children.head {
                Some(h) => Some(h@),
                None => None,
            },
            body: match self.children.body {
                Some(b) => Some(b.attributes@),
                None => None,
            },
        }
    }
}

pub open spec fn end_of_stream() -> Error {
    Error::EndOfStream { origin: Origin::Root }
}

pub open spec fn unexpected_element(span: Span) -> Error {
    Error::UnexpectedElement { origin: Origin::Root, position: span }
}

pub open spec fn unexpected_attribute(span: Span) -> Warning {
    Warning { kind: WarningKind::UnexpectedAttribute, span }
}

/// Attributes of an element that keeps every attribute: read up to the first
/// token that is not an attribute; the result is that token's index.
pub open spec fn attribute_map_spec(
    toks: Seq<Token>,
    pos: int,
    acc: Seq<(String, Option<String>)>,
) -> Result<(Seq<(String, Option<String>)>, int), Error>
    decreases toks.len() - pos,
{
    if pos < 0 || pos >= toks.len() {
        Err(end_of_stream())
    } else {
        match toks[pos] {
            Token::Attribute { local, value, .. } => attribute_map_spec(
                toks,
                pos + 1,
                acc.push((local, value)),
            ),
            Token::Invalid { .. } => Err(toks[pos].misplaced()),
            _ => Ok((acc, pos)),
        }
    }
}

/// Attributes of an element that knows none: each one is a warning.
pub open spec fn unknown_attributes_spec(toks: Seq<Token>, pos: int, w: Seq<Warning>) -> Result<
    (int, Seq<Warning>),
    Error,
>
    decreases toks.len() - pos,
{
    if pos < 0 || pos >= toks.len() {
        Err(end_of_stream())
    } else {
        match toks[pos] {
            Token::Attribute { span, .. } => unknown_attributes_spec(
                toks,
                pos + 1,
                w.push(unexpected_attribute(span)),
            ),
            Token::Invalid { .. } => Err(toks[pos].misplaced()),
            _ => Ok((pos, w)),
        }
    }
}

/// Attributes of the root element: `owa`, `lang` and `dir` are kept (a later
/// one replaces an earlier one), any other name is a warning.
pub open spec fn mjml_attributes_spec(
    toks: Seq<Token>,
    pos: int,
    acc: MjmlAttributes,
    w: Seq<Warning>,
) -> Result<(MjmlAttributes, int, Seq<Warning>), Error>
    decreases toks.len() - pos,
{
    if pos < 0 || pos >= toks.len() {
        Err(end_of_stream())
    } else {
        match toks[pos] {
            Token::Attribute { local, value, span } => if local@ == "owa"@ {
                mjml_attributes_spec(
                    toks,
                    pos + 1,
                    MjmlAttributes { owa: value, lang: acc.lang, dir: acc.dir },
                    w,
                )
            } else if local@ == "lang"@ {
                mjml_attributes_spec(
                    toks,
                    pos + 1,
                    MjmlAttributes { owa: acc.owa, lang: value, dir: acc.dir },
                    w,
                )
            } else if local@ == "dir"@ {
                mjml_attributes_spec(
                    toks,
                    pos + 1,
                    MjmlAttributes { owa: acc.owa, lang: acc.lang, dir: value },
                    w,
                )
            } else {
                mjml_attributes_spec(toks, pos + 1, acc, w.push(unexpected_attribute(span)))
            },
            Token::Invalid { .. } => Err(toks[pos].misplaced()),
            _ => Ok((acc, pos, w)),
        }
    }
}


/// What follows an element's attributes: `/>` ends it (`false`), `>` opens
/// its content (`true`).
pub open spec fn element_end_spec(toks: Seq<Token>, pos: int) -> Result<bool, Error> {
    if pos < 0 || pos >= toks.len() {
        Err(end_of_stream())
    } else {
        match toks[pos] {
            Token::EndEmpty { .. } => Ok(false),
            Token::EndOpen { .. } => Ok(true),
            _ => Err(toks[pos].misplaced()),
        }
    }
}

/// Content of an element that takes no child element: blank text and
/// comments are skipped up to its closing tag, whose index is the result.
pub open spec fn empty_children_spec(toks: Seq<Token>, pos: int, name: Seq<char>) -> Result<
    int,
    Error,
>
    decreases toks.len() - pos,
{
    if pos < 0 || pos >= toks.len() {
        Err(end_of_stream())
    } else if toks[pos].closes(name) {
        Ok(pos)
    } else if toks[pos].is_insignificant() {
        empty_children_spec(toks, pos + 1, name)
    } else {
        match toks[pos] {
            Token::ElementStart { span, .. } => Err(unexpected_element(span)),
            _ => Err(toks[pos].misplaced()),
        }
    }
}

/// Content of a preview element: all its text, comments left out, up to its
/// closing tag.
pub open spec fn preview_text_spec(toks: Seq<Token>, pos: int, acc: Seq<char>) -> Result<
    (Seq<char>, int),
    Error,
>
    decreases toks.len() - pos,
{
    if pos < 0 || pos >= toks.len() {
        Err(end_of_stream())
    } else if toks[pos].closes(crate::mj_preview::NAME@) {
        Ok((acc, pos))
    } else {
        match toks[pos] {
            Token::Text { text, .. } => preview_text_spec(toks, pos + 1, acc + text@),
            Token::Comment { .. } => preview_text_spec(toks, pos + 1, acc),
            Token::ElementStart { span, .. } => Err(unexpected_element(span)),
            _ => Err(toks[pos].misplaced()),
        }
    }
}

/// A preview element whose start tag ends just before `pos`: its text, the
/// index after its last token, and the warnings.
pub open spec fn preview_spec(toks: Seq<Token>, pos: int, w: Seq<Warning>) -> Result<
    (Seq<char>, int, Seq<Warning>),
    Error,
> {
    match unknown_attributes_spec(toks, pos, w) {
        Err(e) => Err(e),
        Ok((p1, w1)) => match element_end_spec(toks, p1) {
            Err(e) => Err(e),
            Ok(open) => if !open {
                Ok((Seq::empty(), p1 + 1, w1))
            } else {
                match preview_text_spec(toks, p1 + 1, Seq::empty()) {
                    Err(e) => Err(e),
                    Ok((text, p2)) => Ok((text, p2 + 1, w1)),
                }
            },
        },
    }
}

/// A body element whose start tag ends just before `pos`.
pub open spec fn body_spec(toks: Seq<Token>, pos: int) -> Result<
    (Seq<(String, Option<String>)>, int),
    Error,
> {
    match attribute_map_spec(toks, pos, Seq::empty()) {
        Err(e) => Err(e),
        Ok((attrs, p1)) => match element_end_spec(toks, p1) {
            Err(e) => Err(e),
            Ok(open) => if !open {
                Ok((attrs, p1 + 1))
            } else {
                match empty_children_spec(toks, p1 + 1, MJ_BODY@) {
                    Err(e) => Err(e),
                    Ok(p2) => Ok((attrs, p2 + 1)),
                }
            },
        },
    }
}

/// Content of a head element: its previews in document order, blank text and
/// comments skipped, up to its closing tag.
pub open spec fn head_children_spec(
    toks: Seq<Token>,
    pos: int,
    acc: Seq<Seq<char>>,
    w: Seq<Warning>,
) -> Result<(Seq<Seq<char>>, int, Seq<Warning>), Error>
    decreases toks.len() - pos,
{
    if pos < 0 || pos >= toks.len() {
        Err(end_of_stream())
    } else if toks[pos].closes(MJ_HEAD@) {
        Ok((acc, pos, w))
    } else if toks[pos].is_insignificant() {
        head_children_spec(toks, pos + 1, acc, w)
    } else {
        match toks[pos] {
            Token::ElementStart { local, span } => if local@ == crate::mj_preview::NAME@ {
                match preview_spec(toks, pos + 1, w) {
                    Err(e) => Err(e),
                    Ok((text, p, w1)) => if pos < p <= toks.len() {
                        head_children_spec(toks, p, acc.push(text), w1)
                    } else {
                        Err(end_of_stream())
                    },
                }
            } else {
                Err(unexpected_element(span))
            },
            _ => Err(toks[pos].misplaced()),
        }
    }
}

/// A head element whose start tag ends just before `pos`.
pub open spec fn head_spec(toks: Seq<Token>, pos: int, w: Seq<Warning>) -> Result<
    (HeadView, int, Seq<Warning>),
    Error,
> {
    match attribute_map_spec(toks, pos, Seq::empty()) {
        Err(e) => Err(e),
        Ok((attrs, p1)) => match element_end_spec(toks, p1) {
            Err(e) => Err(e),
            Ok(open) => if !open {
                Ok((HeadView { attributes: attrs, children: Seq::empty() }, p1 + 1, w))
            } else {
                match head_children_spec(toks, p1 + 1, Seq::empty(), w) {
                    Err(e) => Err(e),
                    Ok((children, p2, w1)) => Ok(
                        (HeadView { attributes: attrs, children }, p2 + 1, w1),
                    ),
                }
            },
        },
    }
}

/// Content of the root element: a head and a body, each in its own slot (a
/// second one replaces the first), blank text and comments skipped, up to
/// the closing tag.
pub open spec fn mjml_children_spec(
    toks: Seq<Token>,
    pos: int,
    head: Option<HeadView>,
    body: Option<Seq<(String, Option<String>)>>,
    w: Seq<Warning>,
) -> Result<(Option<HeadView>, Option<Seq<(String, Option<String>)>>, int, Seq<Warning>), Error>
    decreases toks.len() - pos,
{
    if pos < 0 || pos >= toks.len() {
        Err(end_of_stream())
    } else if toks[pos].closes(NAME@) {
        Ok((head, body, pos, w))
    } else if toks[pos].is_insignificant() {
        mjml_children_spec(toks, pos + 1, head, body, w)
    } else {
        match toks[pos] {
            Token::ElementStart { local, span } => if local@ == MJ_HEAD@ {
                match head_spec(toks, pos + 1, w) {
                    Err(e) => Err(e),
                    Ok((h, p, w1)) => if pos < p <= toks.len() {
                        mjml_children_spec(toks, p, Some(h), body, w1)
                    } else {
                        Err(end_of_stream())
                    },
                }
            } else if local@ == MJ_BODY@ {
                match body_spec(toks, pos + 1) {
                    Err(e) => Err(e),
                    Ok((b, p)) => if pos < p <= toks.len() {
                        mjml_children_spec(toks, p, head, Some(b), w)
                    } else {
                        Err(end_of_stream())
                    },
                }
            } else {
                Err(unexpected_element(span))
            },
            _ => Err(toks[pos].misplaced()),
        }
    }
}

pub open spec fn no_attributes() -> MjmlAttributes {
    MjmlAttributes { owa: None, lang: None, dir: None }
}

/// The root element whose start tag ends just before `pos`.
pub open spec fn mjml_spec(toks: Seq<Token>, pos: int, w: Seq<Warning>) -> Result<
    (MjmlView, int, Seq<Warning>),
    Error,
> {
    match mjml_attributes_spec(toks, pos, no_attributes(), w) {
        Err(e) => Err(e),
        Ok((attrs, p1, w1)) => match element_end_spec(toks, p1) {
            Err(e) => Err(e),
            Ok(open) => if !open {
                Ok((MjmlView { attributes: attrs, head: None, body: None }, p1 + 1, w1))
            } else {
                match mjml_children_spec(toks, p1 + 1, None, None, w1) {
                    Err(e) => Err(e),
                    Ok((head, body, p2, w2)) => Ok(
                        (MjmlView { attributes: attrs, head, body }, p2 + 1, w2),
                    ),
                }
            },
        },
    }
}

/// A document: blank text and comments, then the root element. What follows
/// the root element is not read.
pub open spec fn root_spec(toks: Seq<Token>, pos: int, w: Seq<Warning>) -> Result<(MjmlView, Seq<Warning>), Error>
    decreases toks.len() - pos,
{
    if pos < 0 || pos >= toks.len() {
        Err(end_of_stream())
    } else if toks[pos].is_insignificant() {
        root_spec(toks, pos + 1, w)
    } else {
        match toks[pos] {
            Token::ElementStart { local, span } => if local@ == NAME@ {
                match mjml_spec(toks, pos + 1, w) {
                    Err(e) => Err(e),
                    Ok((m, _p, w)) => Ok((m, w)),
                }
            } else {
                Err(unexpected_element(span))
            },
            _ => Err(toks[pos].misplaced()),
        }
    }
}

/// The result of parsing a template text.
pub open spec fn document_spec(text: &str) -> Result<(MjmlView, Seq<Warning>), Error> {
    match hazard_from(text.spec_bytes(), 0, true) {
        Some(e) => Err(e),
        None => root_spec(tokens_of(text@), 0, Seq::empty()),
    }
}


fn clone_value(v: &Option<String>) -> (r: Option<String>)
    ensures
        r == *v,
{
    match v {
        Some(s) => Some(s.clone()),
        None => None,
    }
}

/// Reads the attributes of an element that keeps every attribute.
pub fn parse_attribute_map(c: &mut MrmlCursor) -> (r: Result<AttributeMap, Error>)
    requires
        old(c).pos <= old(c).tokens@.len(),
    ensures
        final(c).tokens == old(c).tokens,
        final(c).warnings == old(c).warnings,
        old(c).pos <= final(c).pos <= final(c).tokens@.len(),
        match attribute_map_spec(old(c).tokens@, old(c).pos as int, Seq::empty()) {
            Ok((attrs, p)) => r matches Ok(m) && m@ == attrs && final(c).pos == p,
            Err(e) => r == Err::<AttributeMap, Error>(e),
        },
{
    let ghost toks = c.tokens@;
    let ghost pos0 = c.pos as int;
    let mut attrs: AttributeMap = Vec::new();
    loop
        invariant
            c.tokens@ == toks,
            c.tokens == old(c).tokens,
            c.warnings == old(c).warnings,
            pos0 == old(c).pos,
            pos0 <= c.pos <= toks.len(),
            attribute_map_spec(toks, pos0, Seq::empty()) == attribute_map_spec(
                toks,
                c.pos as int,
                attrs@,
            ),
        decreases toks.len() - c.pos,
    {
        match c.next_attribute() {
            Err(e) => return Err(e),
            Ok(None) => return Ok(attrs),
            Ok(Some(i)) => match &c.tokens[i] {
                Token::Attribute { local, value, .. } => {
                    attrs.push((local.clone(), clone_value(value)));
                },
                _ => {},
            },
        }
    }
}

/// Reads the attributes of an element that knows none, with a warning for
/// each.
pub fn parse_unknown_attributes(c: &mut MrmlCursor) -> (r: Result<(), Error>)
    requires
        old(c).pos <= old(c).tokens@.len(),
    ensures
        final(c).tokens == old(c).tokens,
        old(c).pos <= final(c).pos <= final(c).tokens@.len(),
        match unknown_attributes_spec(old(c).tokens@, old(c).pos as int, old(c).warnings@) {
            Ok((p, w)) => r is Ok && final(c).pos == p && final(c).warnings@ == w,
            Err(e) => r == Err::<(), Error>(e),
        },
{
    let ghost toks = c.tokens@;
    let ghost pos0 = c.pos as int;
    let ghost w0 = c.warnings@;
    loop
        invariant
            c.tokens@ == toks,
            c.tokens == old(c).tokens,
            pos0 == old(c).pos,
            w0 == old(c).warnings@,
            pos0 <= c.pos <= toks.len(),
            unknown_attributes_spec(toks, pos0, w0) == unknown_attributes_spec(
                toks,
                c.pos as int,
                c.warnings@,
            ),
        decreases toks.len() - c.pos,
    {
        match c.next_attribute() {
            Err(e) => return Err(e),
            Ok(None) => return Ok(()),
            Ok(Some(i)) => {
                let span = c.tokens[i].span();
                c.add_warning(WarningKind::UnexpectedAttribute, span);
            },
        }
    }
}

/// Reads the attributes of the root element: `owa`, `lang` and `dir` are
/// kept, any other name is recorded as a warning.
pub fn parse_attributes(c: &mut MrmlCursor) -> (r: Result<MjmlAttributes, Error>)
    requires
        old(c).pos <= old(c).tokens@.len(),
    ensures
        final(c).tokens == old(c).tokens,
        old(c).pos <= final(c).pos <= final(c).tokens@.len(),
        match mjml_attributes_spec(
            old(c).tokens@,
            old(c).pos as int,
            no_attributes(),
            old(c).warnings@,
        ) {
            Ok((attrs, p, w)) => r == Ok::<MjmlAttributes, Error>(attrs) && final(c).pos == p
                && final(c).warnings@ == w,
            Err(e) => r == Err::<MjmlAttributes, Error>(e),
        },
{
    let ghost toks = c.tokens@;
    let ghost pos0 = c.pos as int;
    let ghost w0 = c.warnings@;
    let mut attrs = MjmlAttributes { owa: None, lang: None, dir: None };
    loop
        invariant
            c.tokens@ == toks,
            c.tokens == old(c).tokens,
            pos0 == old(c).pos,
            w0 == old(c).warnings@,
            pos0 <= c.pos <= toks.len(),
            mjml_attributes_spec(toks, pos0, no_attributes(), w0) == mjml_attributes_spec(
                toks,
                c.pos as int,
                attrs,
                c.warnings@,
            ),
        decreases toks.len() - c.pos,
    {
        match c.next_attribute() {
            Err(e) => return Err(e),
            Ok(None) => return Ok(attrs),
            Ok(Some(i)) => {
                let mut unknown: Option<Span> = None;
                match &c.tokens[i] {
                    Token::Attribute { local, value, span } => {
                        if same_name(local, "owa") {
                            attrs.owa = clone_value(value);
                        } else if same_name(local, "lang") {
                            attrs.lang = clone_value(value);
                        } else if same_name(local, "dir") {
                            attrs.dir = clone_value(value);
                        } else {
                            unknown = Some(*span);
                        }
                    },
                    _ => {},
                }
                if let Some(span) = unknown {
                    c.add_warning(WarningKind::UnexpectedAttribute, span);
                }
            },
        }
    }
}


/// Reads what ends an opening tag: `true` where content follows.
pub fn parse_element_end(c: &mut MrmlCursor) -> (r: Result<bool, Error>)
    requires
        old(c).pos <= old(c).tokens@.len(),
    ensures
        final(c).tokens == old(c).tokens,
        final(c).warnings == old(c).warnings,
        old(c).pos <= final(c).pos <= final(c).tokens@.len(),
        match element_end_spec(old(c).tokens@, old(c).pos as int) {
            Ok(open) => r == Ok::<bool, Error>(open) && final(c).pos == old(c).pos + 1,
            Err(e) => r == Err::<bool, Error>(e),
        },
{
    let i = match c.assert_next() {
        Ok(i) => i,
        Err(e) => return Err(e),
    };
    match &c.tokens[i] {
        Token::EndEmpty { .. } => Ok(false),
        Token::EndOpen { .. } => Ok(true),
        t => Err(t.to_misplaced()),
    }
}

/// Reads the content of an element that takes no child element, up to its
/// closing tag, which is left unread.
pub fn parse_empty_children(c: &mut MrmlCursor, name: &str) -> (r: Result<(), Error>)
    requires
        old(c).pos <= old(c).tokens@.len(),
    ensures
        final(c).tokens == old(c).tokens,
        final(c).warnings == old(c).warnings,
        old(c).pos <= final(c).pos <= final(c).tokens@.len(),
        r is Ok ==> final(c).pos < final(c).tokens@.len(),
        match empty_children_spec(old(c).tokens@, old(c).pos as int, name@) {
            Ok(p) => r is Ok && final(c).pos == p,
            Err(e) => r == Err::<(), Error>(e),
        },
{
    let ghost toks = c.tokens@;
    let ghost pos0 = c.pos as int;
    loop
        invariant
            c.tokens@ == toks,
            c.tokens == old(c).tokens,
            c.warnings == old(c).warnings,
            pos0 == old(c).pos,
            pos0 <= c.pos <= toks.len(),
            empty_children_spec(toks, pos0, name@) == empty_children_spec(
                toks,
                c.pos as int,
                name@,
            ),
        decreases toks.len() - c.pos,
    {
        let i = match c.assert_next() {
            Ok(i) => i,
            Err(e) => return Err(e),
        };
        if c.tokens[i].is_close_of(name) {
            c.rewind();
            return Ok(());
        }
        if !c.tokens[i].insignificant() {
            return match c.tokens[i].start_named(name) {
                Some((_, span)) => Err(Error::UnexpectedElement { origin: c.origin(), position: span }),
                None => Err(c.tokens[i].to_misplaced()),
            };
        }
    }
}

/// Reads the text of a preview element up to its closing tag, which is left
/// unread.
pub fn parse_preview_text(c: &mut MrmlCursor) -> (r: Result<String, Error>)
    requires
        old(c).pos <= old(c).tokens@.len(),
    ensures
        final(c).tokens == old(c).tokens,
        final(c).warnings == old(c).warnings,
        old(c).pos <= final(c).pos <= final(c).tokens@.len(),
        r is Ok ==> final(c).pos < final(c).tokens@.len(),
        match preview_text_spec(old(c).tokens@, old(c).pos as int, Seq::empty()) {
            Ok((text, p)) => r matches Ok(s) && s@ == text && final(c).pos == p,
            Err(e) => r == Err::<String, Error>(e),
        },
{
    let ghost toks = c.tokens@;
    let ghost pos0 = c.pos as int;
    let mut text = String::new();
    loop
        invariant
            c.tokens@ == toks,
            c.tokens == old(c).tokens,
            c.warnings == old(c).warnings,
            pos0 == old(c).pos,
            pos0 <= c.pos <= toks.len(),
            preview_text_spec(toks, pos0, Seq::empty()) == preview_text_spec(
                toks,
                c.pos as int,
                text@,
            ),
        decreases toks.len() - c.pos,
    {
        let i = match c.assert_next() {
            Ok(i) => i,
            Err(e) => return Err(e),
        };
        if c.tokens[i].is_close_of(crate::mj_preview::NAME) {
            c.rewind();
            return Ok(text);
        }
        match &c.tokens[i] {
            Token::Text { text: t, .. } => text.append(t.as_str()),
            Token::Comment { .. } => {},
            Token::ElementStart { span, .. } => return Err(
                Error::UnexpectedElement { origin: Origin::Root, position: *span },
            ),
            t => return Err(t.to_misplaced()),
        }
    }
}

/// Reads a preview element whose start tag was just consumed, up to and
/// including its end.
pub fn parse_preview(c: &mut MrmlCursor) -> (r: Result<MJPreview, Error>)
    requires
        old(c).pos <= old(c).tokens@.len(),
    ensures
        final(c).tokens == old(c).tokens,
        old(c).pos <= final(c).pos <= final(c).tokens@.len(),
        match preview_spec(old(c).tokens@, old(c).pos as int, old(c).warnings@) {
            Ok((text, p, w)) => r matches Ok(m) && m.children@ == text && final(c).pos == p
                && final(c).warnings@ == w && old(c).pos < p,
            Err(e) => r == Err::<MJPreview, Error>(e),
        },
{
    if let Err(e) = parse_unknown_attributes(c) {
        return Err(e);
    }
    let open = match parse_element_end(c) {
        Ok(open) => open,
        Err(e) => return Err(e),
    };
    if !open {
        return Ok(MJPreview { children: String::new() });
    }
    let children = match parse_preview_text(c) {
        Ok(t) => t,
        Err(e) => return Err(e),
    };
    let _ = c.assert_next();
    Ok(MJPreview { children })
}

/// Reads a body element whose start tag was just consumed, up to and
/// including its end.
pub fn parse_body(c: &mut MrmlCursor) -> (r: Result<MjBody, Error>)
    requires
        old(c).pos <= old(c).tokens@.len(),
    ensures
        final(c).tokens == old(c).tokens,
        final(c).warnings == old(c).warnings,
        old(c).pos <= final(c).pos <= final(c).tokens@.len(),
        match body_spec(old(c).tokens@, old(c).pos as int) {
            Ok((attrs, p)) => r matches Ok(b) && b.attributes@ == attrs && b.children@.len() == 0
                && final(c).pos == p && old(c).pos < p,
            Err(e) => r == Err::<MjBody, Error>(e),
        },
{
    let attributes = match parse_attribute_map(c) {
        Ok(a) => a,
        Err(e) => return Err(e),
    };
    let open = match parse_element_end(c) {
        Ok(open) => open,
        Err(e) => return Err(e),
    };
    if open {
        if let Err(e) = parse_empty_children(c, MJ_BODY) {
            return Err(e);
        }
        let _ = c.assert_next();
    }
    Ok(Component { tag: MjBodyTag, attributes, children: Vec::new() })
}


pub open spec fn preview_texts(v: Seq<MJPreview>) -> Seq<Seq<char>> {
    v.map_values(|p: MJPreview| p.children@)
}

/// Reads the content of a head element up to its closing tag, which is left
/// unread.
pub fn parse_head_children(c: &mut MrmlCursor) -> (r: Result<Vec<MJPreview>, Error>)
    requires
        old(c).pos <= old(c).tokens@.len(),
    ensures
        final(c).tokens == old(c).tokens,
        old(c).pos <= final(c).pos <= final(c).tokens@.len(),
        r is Ok ==> final(c).pos < final(c).tokens@.len(),
        match head_children_spec(old(c).tokens@, old(c).pos as int, Seq::empty(), old(c).warnings@) {
            Ok((cs, p, w)) => r matches Ok(v) && preview_texts(v@) == cs && final(c).pos == p
                && final(c).warnings@ == w,
            Err(e) => r == Err::<Vec<MJPreview>, Error>(e),
        },
{
    let ghost toks = c.tokens@;
    let ghost pos0 = c.pos as int;
    let ghost w0 = c.warnings@;
    let mut children: Vec<MJPreview> = Vec::new();
    assert(preview_texts(children@) =~= Seq::empty());
    loop
        invariant
            c.tokens@ == toks,
            c.tokens == old(c).tokens,
            pos0 == old(c).pos,
            w0 == old(c).warnings@,
            pos0 <= c.pos <= toks.len(),
            head_children_spec(toks, pos0, Seq::empty(), w0) == head_children_spec(
                toks,
                c.pos as int,
                preview_texts(children@),
                c.warnings@,
            ),
        decreases toks.len() - c.pos,
    {
        let i = match c.assert_next() {
            Ok(i) => i,
            Err(e) => return Err(e),
        };
        if c.tokens[i].is_close_of(MJ_HEAD) {
            c.rewind();
            return Ok(children);
        }
        if !c.tokens[i].insignificant() {
            match c.tokens[i].start_named(crate::mj_preview::NAME) {
                Some((true, _)) => {
                    let child = match parse_preview(c) {
                        Ok(child) => child,
                        Err(e) => return Err(e),
                    };
                    let ghost before = preview_texts(children@);
                    children.push(child);
                    assert(preview_texts(children@) =~= before.push(child.children@));
                },
                Some((false, span)) => return Err(
                    Error::UnexpectedElement { origin: c.origin(), position: span },
                ),
                None => return Err(c.tokens[i].to_misplaced()),
            }
        }
    }
}

/// Reads a head element whose start tag was just consumed, up to and
/// including its end.
pub fn parse_head(c: &mut MrmlCursor) -> (r: Result<MjHead, Error>)
    requires
        old(c).pos <= old(c).tokens@.len(),
    ensures
        final(c).tokens == old(c).tokens,
        old(c).pos <= final(c).pos <= final(c).tokens@.len(),
        match head_spec(old(c).tokens@, old(c).pos as int, old(c).warnings@) {
            Ok((h, p, w)) => r matches Ok(m) && m@ == h && final(c).pos == p
                && final(c).warnings@ == w && old(c).pos < p,
            Err(e) => r == Err::<MjHead, Error>(e),
        },
{
    let attributes = match parse_attribute_map(c) {
        Ok(a) => a,
        Err(e) => return Err(e),
    };
    let open = match parse_element_end(c) {
        Ok(open) => open,
        Err(e) => return Err(e),
    };
    if !open {
        let children: Vec<MJPreview> = Vec::new();
        assert(preview_texts(children@) =~= Seq::empty());
        return Ok(Component { tag: MjHeadTag, attributes, children });
    }
    let children = match parse_head_children(c) {
        Ok(cs) => cs,
        Err(e) => return Err(e),
    };
    let _ = c.assert_next();
    Ok(Component { tag: MjHeadTag, attributes, children })
}

/// The body slot, where filled, holds a body with no content: this grammar
/// gives a body no legal child.
pub open spec fn body_is_empty(m: MjmlChildren) -> bool {
    m.body matches Some(b) ==> b.children@.len() == 0
}

pub open spec fn head_view(h: Option<MjHead>) -> Option<HeadView> {
    match h {
        Some(h) => Some(h@),
        None => None,
    }
}

pub open spec fn body_view(b: Option<MjBody>) -> Option<Seq<(String, Option<String>)>> {
    match b {
        Some(b) => Some(b.attributes@),
        None => None,
    }
}

/// Reads the content of the root element up to its closing tag, which is
/// left unread.
pub fn parse_children(c: &mut MrmlCursor) -> (r: Result<MjmlChildren, Error>)
    requires
        old(c).pos <= old(c).tokens@.len(),
    ensures
        final(c).tokens == old(c).tokens,
        old(c).pos <= final(c).pos <= final(c).tokens@.len(),
        r is Ok ==> final(c).pos < final(c).tokens@.len(),
        match mjml_children_spec(old(c).tokens@, old(c).pos as int, None, None, old(c).warnings@) {
            Ok((h, b, p, w)) => r matches Ok(m) && head_view(m.head) == h && body_view(m.body) == b && body_is_empty(m)
                && final(c).pos == p && final(c).warnings@ == w,
            Err(e) => r == Err::<MjmlChildren, Error>(e),
        },
{
    let ghost toks = c.tokens@;
    let ghost pos0 = c.pos as int;
    let ghost w0 = c.warnings@;
    let mut children = MjmlChildren { head: None, body: None };
    loop
        invariant
            c.tokens@ == toks,
            c.tokens == old(c).tokens,
            pos0 == old(c).pos,
            w0 == old(c).warnings@,
            pos0 <= c.pos <= toks.len(),
            mjml_children_spec(toks, pos0, None, None, w0) == mjml_children_spec(
                toks,
                c.pos as int,
                head_view(children.head),
                body_view(children.body),
                c.warnings@,
            ),
            body_is_empty(children),
        decreases toks.len() - c.pos,
    {
        let i = match c.assert_next() {
            Ok(i) => i,
            Err(e) => return Err(e),
        };
        if c.tokens[i].is_close_of(NAME) {
            c.rewind();
            return Ok(children);
        }
        if !c.tokens[i].insignificant() {
            match c.tokens[i].start_named(MJ_HEAD) {
                Some((true, _)) => {
                    match parse_head(c) {
                        Ok(h) => children.head = Some(h),
                        Err(e) => return Err(e),
                    }
                },
                Some((false, span)) => {
                    if same_start(&c.tokens[i], MJ_BODY) {
                        match parse_body(c) {
                            Ok(b) => children.body = Some(b),
                            Err(e) => return Err(e),
                        }
                    } else {
                        return Err(Error::UnexpectedElement { origin: c.origin(), position: span });
                    }
                },
                None => return Err(c.tokens[i].to_misplaced()),
            }
        }
    }
}

fn same_start(t: &Token, name: &str) -> (r: bool)
    ensures
        r == (t matches Token::ElementStart { local, .. } && local@ == name@),
{
    match t.start_named(name) {
        Some((b, _)) => b,
        None => false,
    }
}

/// Reads the root element whose start tag was just consumed, up to and
/// including its end.
pub fn parse_element(c: &mut MrmlCursor) -> (r: Result<Mjml, Error>)
    requires
        old(c).pos <= old(c).tokens@.len(),
    ensures
        final(c).tokens == old(c).tokens,
        old(c).pos <= final(c).pos <= final(c).tokens@.len(),
        match mjml_spec(old(c).tokens@, old(c).pos as int, old(c).warnings@) {
            Ok((m, p, w)) => r matches Ok(v) && v@ == m && body_is_empty(v.children) && final(c).pos == p
                && final(c).warnings@ == w,
            Err(e) => r == Err::<Mjml, Error>(e),
        },
{
    let attributes = match parse_attributes(c) {
        Ok(a) => a,
        Err(e) => return Err(e),
    };
    let open = match parse_element_end(c) {
        Ok(open) => open,
        Err(e) => return Err(e),
    };
    if !open {
        return Ok(Component { tag: MjmlTag, attributes, children: MjmlChildren { head: None, body: None } });
    }
    let children = match parse_children(c) {
        Ok(cs) => cs,
        Err(e) => return Err(e),
    };
    let _ = c.assert_next();
    Ok(Component { tag: MjmlTag, attributes, children })
}


/// Reads a document from the cursor: blank text and comments, then the root
/// element.
pub fn parse_root(c: &mut MrmlCursor) -> (r: Result<Mjml, Error>)
    requires
        old(c).pos <= old(c).tokens@.len(),
    ensures
        final(c).tokens == old(c).tokens,
        match root_spec(old(c).tokens@, old(c).pos as int, old(c).warnings@) {
            Ok((m, w)) => r matches Ok(v) && v@ == m && body_is_empty(v.children) && final(c).warnings@ == w,
            Err(e) => r == Err::<Mjml, Error>(e),
        },
{
    let ghost toks = c.tokens@;
    let ghost pos0 = c.pos as int;
    loop
        invariant
            c.tokens@ == toks,
            c.tokens == old(c).tokens,
            pos0 == old(c).pos,
            c.warnings == old(c).warnings,
            pos0 <= c.pos <= toks.len(),
            root_spec(toks, pos0, c.warnings@) == root_spec(toks, c.pos as int, c.warnings@),
        decreases toks.len() - c.pos,
    {
        let i = match c.assert_next() {
            Ok(i) => i,
            Err(e) => return Err(e),
        };
        if !c.tokens[i].insignificant() {
            return match c.tokens[i].start_named(NAME) {
                Some((true, _)) => parse_element(c),
                Some((false, span)) => Err(
                    Error::UnexpectedElement { origin: c.origin(), position: span },
                ),
                None => Err(c.tokens[i].to_misplaced()),
            };
        }
    }
}

impl Mjml {
    /// Parses a template with the given options. An error's byte span, where
    /// it has one, lies within the text.
    pub fn parse_with_options(value: &str, opts: &ParserOptions) -> (r: Result<
        ParseOutput<Self>,
        Error,
    >)
        ensures
            match document_spec(value) {
                Ok((m, w)) => r matches Ok(o) && o.element@ == m && body_is_empty(o.element.children)
                    && o.warnings@ == w,
                Err(e) => r == Err::<ParseOutput<Self>, Error>(e),
            },
            r matches Err(e) ==> e.within(value.spec_bytes().len() as int),
    {
        let _n: usize = value.as_bytes().len();
        proof {
            crate::bounds::lemma_hazard_within(value.spec_bytes(), 0, true);
        }
        let mut cursor = match MrmlCursor::new(value) {
            Ok(c) => c,
            Err(e) => return Err(e),
        };
        assert(cursor.warnings@ =~= Seq::<Warning>::empty());
        proof {
            crate::bounds::lemma_root_within(cursor.tokens@, 0, Seq::empty(), value.spec_bytes().len() as int);
        }
        match parse_root(&mut cursor) {
            Ok(element) => Ok(ParseOutput { element, warnings: cursor.warnings }),
            Err(e) => Err(e),
        }
    }

    /// Parses a template with the default options.
    pub fn parse(value: &str) -> (r: Result<ParseOutput<Self>, Error>)
        ensures
            match document_spec(value) {
                Ok((m, w)) => r matches Ok(o) && o.element@ == m && body_is_empty(o.element.children)
                    && o.warnings@ == w,
                Err(e) => r == Err::<ParseOutput<Self>, Error>(e),
            },
            r matches Err(e) ==> e.within(value.spec_bytes().len() as int),
    {
        let opts = ParserOptions::default();
        Self::parse_with_options(value, &opts)
    }
}

} // verus!
