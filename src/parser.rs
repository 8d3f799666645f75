use vstd::prelude::*;
use vstd::string::StringSliceAdditionalSpecFns;
use vstd::string::StrSliceExecFns;
use htmlparser::Token as HtmlToken;

verus! {

/// A byte range of the template text.
#[derive(Clone, Copy, Debug, PartialEq, Eq, Structural)]
pub struct Span {
    pub start: usize,
    pub end: usize,
}

/// Which document an error was found in.
#[derive(Clone, Copy, Debug, PartialEq, Eq, Structural)]
pub enum Origin {
    Root,
}

#[derive(Clone, Copy, Debug, PartialEq, Eq, Structural)]
pub enum WarningKind {
    UnexpectedAttribute,
}

/// A diagnostic that does not stop the parse.
#[derive(Clone, Copy, Debug, PartialEq, Eq, Structural)]
pub struct Warning {
    pub kind: WarningKind,
    pub span: Span,
}

/// A failure that stops the parse.
#[derive(Clone, Copy, Debug, PartialEq, Eq, Structural)]
pub enum Error {
    UnexpectedElement { origin: Origin, position: Span },
    UnexpectedToken { origin: Origin, position: Span },
    EndOfStream { origin: Origin },
    ParserError { origin: Origin, row: u32, col: u32 },
    /// A conditional comment (`<!--[if`, `<![if`, `<![endif`) where a token
    /// may start: this grammar does not accept them.
    ConditionalComment { origin: Origin, position: Span },
    /// A `>` in text right after a multi-byte character: the tokenizer cannot
    /// take it.
    SplitCharacter { origin: Origin, position: Span },
}

impl Error {
    /// The error's byte span, where it has one, lies within the first `n`
    /// bytes.
    pub open spec fn within(self, n: int) -> bool {
        match self {
            Error::UnexpectedElement { position, .. } => position.start <= position.end <= n,
            Error::UnexpectedToken { position, .. } => position.start <= position.end <= n,
            Error::ConditionalComment { position, .. } => position.start <= position.end <= n,
            Error::SplitCharacter { position, .. } => position.start <= position.end <= n,
            _ => true,
        }
    }
}

/// Every token's span lies within the first `n` bytes.
pub open spec fn spans_within(toks: Seq<Token>, n: int) -> bool {
    forall|i: int| 0 <= i < toks.len() ==> (#[trigger] toks[i]).span_of().start <= toks[i].span_of().end <= n
}

/// Why a fragment could not be loaded.
#[derive(Clone, Copy, Debug, PartialEq, Eq, Structural)]
pub enum IncludeLoaderError {
    NotFound,
}

/// Resolves the name of an included fragment to its text. Implemented by the
/// users of the parser; the root grammar loads no fragment.
pub trait IncludeLoader {
    fn resolve(&self, name: &str) -> Result<String, IncludeLoaderError>;
}

/// A loader that knows no fragment.
pub struct NoopIncludeLoader;

impl IncludeLoader for NoopIncludeLoader {
    fn resolve(&self, name: &str) -> Result<String, IncludeLoaderError> {
        Err(IncludeLoaderError::NotFound)
    }
}

/// Options of a parse.
pub struct ParserOptions {
    pub include_loader: Box<dyn IncludeLoader>,
}

impl Default for ParserOptions {
    fn default() -> (r: Self)
        ensures
            true,
    {
        ParserOptions { include_loader: Box::new(NoopIncludeLoader) }
    }
}

/// A parsed element together with the warnings met on the way, in the order
/// in which their tokens come in the text.
pub struct ParseOutput<T> {
    pub element: T,
    pub warnings: Vec<Warning>,
}

/// One structural token of the template text.
pub enum Token {
    /// `<name`
    ElementStart { local: String, span: Span },
    /// `name="value"` inside an opening tag
    Attribute { local: String, value: Option<String>, span: Span },
    /// `>` closing an opening tag
    EndOpen { span: Span },
    /// `/>` closing a self-closing tag
    EndEmpty { span: Span },
    /// `</name>`
    ElementClose { local: String, span: Span },
    Text { text: String, span: Span },
    Comment { span: Span },
    /// A declaration, a DOCTYPE or another token that no element accepts.
    Other { span: Span },
    /// Malformed text: the stream of tokens ends here.
    Invalid { row: u32, col: u32 },
}

impl Token {
    pub open spec fn span_of(self) -> Span {
        match self {
            Token::ElementStart { span, .. } => span,
            Token::Attribute { span, .. } => span,
            Token::EndOpen { span } => span,
            Token::EndEmpty { span } => span,
            Token::ElementClose { span, .. } => span,
            Token::Text { span, .. } => span,
            Token::Comment { span } => span,
            Token::Other { span } => span,
            Token::Invalid { .. } => Span { start: 0, end: 0 },
        }
    }

    /// The error raised when this token stands where the grammar forbids it.
    pub open spec fn misplaced(self) -> Error {
        match self {
            Token::Invalid { row, col } => Error::ParserError { origin: Origin::Root, row, col },
            _ => Error::UnexpectedToken { origin: Origin::Root, position: self.span_of() },
        }
    }

    /// Whitespace-only text or a comment.
    pub open spec fn is_insignificant(self) -> bool {
        match self {
            Token::Text { text, .. } => all_white_space(text@),
            Token::Comment { .. } => true,
            _ => false,
        }
    }

    /// A closing tag of the element with the given name.
    pub open spec fn closes(self, name: Seq<char>) -> bool {
        match self {
            Token::ElementClose { local, .. } => local@ == name,
            _ => false,
        }
    }

    pub fn span(&self) -> (r: Span)
        ensures
            r == self.span_of(),
    {
        match self {
            Token::ElementStart { span, .. } => *span,
            Token::Attribute { span, .. } => *span,
            Token::EndOpen { span } => *span,
            Token::EndEmpty { span } => *span,
            Token::ElementClose { span, .. } => *span,
            Token::Text { span, .. } => *span,
            Token::Comment { span } => *span,
            Token::Other { span } => *span,
            Token::Invalid { .. } => Span { start: 0, end: 0 },
        }
    }

    pub fn to_misplaced(&self) -> (r: Error)
        ensures
            r == self.misplaced(),
    {
        match self {
            Token::Invalid { row, col } => Error::ParserError { origin: Origin::Root, row: *row, col: *col },
            _ => Error::UnexpectedToken { origin: Origin::Root, position: self.span() },
        }
    }

    pub fn insignificant(&self) -> (r: bool)
        ensures
            r == self.is_insignificant(),
    {
        match self {
            Token::Text { text, .. } => is_blank(text.as_str()),
            Token::Comment { .. } => true,
            _ => false,
        }
    }

    /// For a start tag: whether it has the given name, and its span.
    pub fn start_named(&self, name: &str) -> (r: Option<(bool, Span)>)
        ensures
            match self {
                Token::ElementStart { local, span } => r == Some((local@ == name@, *span)),
                _ => r is None,
            },
    {
        match self {
            Token::ElementStart { local, span } => Some((same_name(local, name), *span)),
            _ => None,
        }
    }

    pub fn is_close_of(&self, name: &str) -> (r: bool)
        ensures
            r == self.closes(name@),
    {
        match self {
            Token::ElementClose { local, .. } => same_name(local, name),
            _ => false,
        }
    }
}

/// Whether a name read from the text is the given tag or attribute name.
pub fn same_name(s: &String, name: &str) -> (r: bool)
    ensures
        r == (s@ == name@),
{
    let owned = name.to_owned();
    *s == owned
}

/// A character of the Unicode White_Space property.
pub open spec fn is_white_space(c: char) -> bool {
    let n = c as u32;
    (0x9 <= n <= 0xd) || n == 0x20 || n == 0x85 || n == 0xa0 || n == 0x1680 || (0x2000 <= n
        <= 0x200a) || n == 0x2028 || n == 0x2029 || n == 0x202f || n == 0x205f || n == 0x3000
}

pub open spec fn all_white_space(s: Seq<char>) -> bool {
    forall|i: int| 0 <= i < s.len() ==> is_white_space(#[trigger] s[i])
}

/// The tokens that htmlparser's tokenizer yields for a text, ending at the
/// first malformed token.
pub uninterp spec fn tokens_of(text: Seq<char>) -> Seq<Token>;

fn white_space_char(c: char) -> (r: bool)
    ensures
        r == is_white_space(c),
{
    let n = c as u32;
    (0x9 <= n && n <= 0xd) || n == 0x20 || n == 0x85 || n == 0xa0 || n == 0x1680 || (0x2000 <= n
        && n <= 0x200a) || n == 0x2028 || n == 0x2029 || n == 0x202f || n == 0x205f || n == 0x3000
}

/// Whether every character of the text is white space.
pub fn is_blank(s: &str) -> (r: bool)
    ensures
        r == all_white_space(s@),
{
    let len = s.unicode_len();
    let mut i: usize = 0;
    while i < len
        invariant
            len == s@.len(),
            i <= len,
            forall|k: int| 0 <= k < i ==> is_white_space(#[trigger] s@[k]),
        decreases len - i,
    {
        if !white_space_char(s.get_char(i)) {
            return false;
        }
        i = i + 1;
    }
    true
}

#[verifier::external_type_specification]
#[verifier::external_body]
pub struct ExHtmlToken<'a>(HtmlToken<'a>);

#[verifier::external_type_specification]
#[verifier::external_body]
pub struct ExElementEnd<'a>(htmlparser::ElementEnd<'a>);

/// Relies on `htmlparser::Tokenizer`: each token it yields, in order, with its
/// byte spans; an error becomes `Invalid` and ends the sequence, as the
/// tokenizer yields nothing after an error. Every span is a byte range of
/// the text, as each `StrSpan` is a slice of it. The tokenizer panics on some
/// malformed conditional comments, and where the first `>` of a run of text
/// has a multi-byte character's inner byte two bytes before it; the text may
/// hold neither.
#[verifier::external_body]
fn tokenize(text: &str) -> (r: Vec<Token>)
    requires
        hazard_from(text.spec_bytes(), 0, true) is None,
    ensures
        r@ == tokens_of(text@),
        forall|i: int| 0 <= i < r@.len() ==> (#[trigger] r@[i]).span_of().start <= r@[i].span_of().end
            <= text.spec_bytes().len(),
{
    htmlparser::Tokenizer::from(text).map(|item| match item {
        Ok(t) => convert(t),
        Err(e) => Token::Invalid { row: e.pos().row, col: e.pos().col },
    }).collect()
}

/// Relies on the fields of `htmlparser::Token` and on `Token::span`, to carry
/// one token of the tokenizer over to a `Token`.
#[verifier::external_body]
fn convert(t: HtmlToken<'_>) -> Token {
    let span = Span { start: t.span().start(), end: t.span().end() };
    match t {
        HtmlToken::ElementStart { local, .. } => Token::ElementStart { local: local.to_string(), span },
        HtmlToken::Attribute { local, value, .. } => Token::Attribute { local: local.to_string(), value: value.map(|v| v.to_string()), span },
        HtmlToken::ElementEnd { end, .. } => convert_end(end, span),
        HtmlToken::Text { text } => Token::Text { text: text.to_string(), span },
        HtmlToken::Comment { .. } => Token::Comment { span },
        _ => Token::Other { span },
    }
}

/// Relies on the variants of `htmlparser::ElementEnd`, to carry the end of a
/// tag over to a `Token`.
#[verifier::external_body]
fn convert_end(end: htmlparser::ElementEnd<'_>, span: Span) -> Token {
    match end {
        htmlparser::ElementEnd::Open => Token::EndOpen { span },
        htmlparser::ElementEnd::Empty => Token::EndEmpty { span },
        htmlparser::ElementEnd::Close(_, local) => Token::ElementClose { local: local.to_string(), span },
    }
}

/// The bytes `p` stand in `b` at `i`.
pub open spec fn bytes_at(b: Seq<u8>, i: int, p: Seq<u8>) -> bool {
    0 <= i && i + p.len() <= b.len() && b.subrange(i, i + p.len()) == p
}

/// `<!--[if`
pub open spec fn hidden_if() -> Seq<u8> {
    seq![60u8, 33u8, 45u8, 45u8, 91u8, 105u8, 102u8]
}

/// `<![if`
pub open spec fn revealed_if() -> Seq<u8> {
    seq![60u8, 33u8, 91u8, 105u8, 102u8]
}

/// `<![endif`
pub open spec fn revealed_endif() -> Seq<u8> {
    seq![60u8, 33u8, 91u8, 101u8, 110u8, 100u8, 105u8, 102u8]
}

/// `<!--<![endif`
pub open spec fn hidden_endif() -> Seq<u8> {
    seq![60u8, 33u8, 45u8, 45u8, 60u8, 33u8, 91u8, 101u8, 110u8, 100u8, 105u8, 102u8]
}

/// A byte that continues a multi-byte UTF-8 character.
pub open spec fn is_continuation(x: u8) -> bool {
    0x80 <= x <= 0xbf
}

/// The first piece of the text, from `i` on, that the tokenizer cannot take
/// safely. `outside` says that the last `<` or `>` before `i` is a `>` (or
/// that there is none): only there can a token or a run of text start.
/// - a conditional comment opener where a token may start;
/// - a `>` that may be the first `>` of a run of text, with a byte that
///   continues a character two bytes before it.
pub open spec fn hazard_from(b: Seq<u8>, i: int, outside: bool) -> Option<Error>
    decreases b.len() - i,
{
    if i < 0 || i >= b.len() {
        None
    } else if b[i] == 60u8 {
        if outside && bytes_at(b, i, hidden_endif()) {
            Some(conditional_comment(i, i + 12))
        } else if outside && bytes_at(b, i, hidden_if()) {
            Some(conditional_comment(i, i + 7))
        } else if outside && bytes_at(b, i, revealed_endif()) {
            Some(conditional_comment(i, i + 8))
        } else if outside && bytes_at(b, i, revealed_if()) {
            Some(conditional_comment(i, i + 5))
        } else {
            hazard_from(b, i + 1, false)
        }
    } else if b[i] == 62u8 {
        if outside && i >= 2 && is_continuation(b[i - 2]) {
            Some(Error::SplitCharacter {
                origin: Origin::Root,
                position: Span { start: (i - 2) as usize, end: (i + 1) as usize },
            })
        } else {
            hazard_from(b, i + 1, true)
        }
    } else {
        hazard_from(b, i + 1, outside)
    }
}

pub open spec fn conditional_comment(start: int, end: int) -> Error {
    Error::ConditionalComment {
        origin: Origin::Root,
        position: Span { start: start as usize, end: end as usize },
    }
}

fn bytes_match(b: &[u8], i: usize, p: &Vec<u8>) -> (r: bool)
    ensures
        r == bytes_at(b@, i as int, p@),
{
    if p.len() > b.len() || i > b.len() - p.len() {
        return false;
    }
    let mut j: usize = 0;
    while j < p.len()
        invariant
            j <= p@.len(),
            i + p@.len() <= b@.len() <= usize::MAX,
            forall|k: int| 0 <= k < j ==> b@[i + k] == p@[k],
        decreases p@.len() - j,
    {
        if b[i + j] != p[j] {
            assert(b@.subrange(i as int, i + p@.len())[j as int] != p@[j as int]);
            return false;
        }
        j = j + 1;
    }
    assert(b@.subrange(i as int, i + p@.len()) =~= p@);
    true
}

/// Finds the first piece of a text that the tokenizer cannot take safely.
pub fn find_hazard(text: &str) -> (r: Option<Error>)
    ensures
        r == hazard_from(text.spec_bytes(), 0, true),
{
    let b = text.as_bytes();
    let hidden: Vec<u8> = vec![60u8, 33u8, 45u8, 45u8, 91u8, 105u8, 102u8];
    let revealed: Vec<u8> = vec![60u8, 33u8, 91u8, 105u8, 102u8];
    let endif: Vec<u8> = vec![60u8, 33u8, 91u8, 101u8, 110u8, 100u8, 105u8, 102u8];
    let hidden_end: Vec<u8> = vec![
        60u8, 33u8, 45u8, 45u8, 60u8, 33u8, 91u8, 101u8, 110u8, 100u8, 105u8, 102u8,
    ];
    assert(hidden@ =~= hidden_if());
    assert(revealed@ =~= revealed_if());
    assert(endif@ =~= revealed_endif());
    assert(hidden_end@ =~= hidden_endif());
    let mut outside = true;
    let mut i: usize = 0;
    while i < b.len()
        invariant
            b@ == text.spec_bytes(),
            i <= b@.len(),
            hidden@ == hidden_if(),
            revealed@ == revealed_if(),
            endif@ == revealed_endif(),
            hidden_end@ == hidden_endif(),
            hazard_from(b@, 0, true) == hazard_from(b@, i as int, outside),
        decreases b@.len() - i,
    {
        if b[i] == 60u8 {
            if outside {
                if bytes_match(b, i, &hidden_end) {
                    return Some(Error::ConditionalComment { origin: Origin::Root, position: Span { start: i, end: i + 12 } });
                }
                if bytes_match(b, i, &hidden) {
                    return Some(Error::ConditionalComment { origin: Origin::Root, position: Span { start: i, end: i + 7 } });
                }
                if bytes_match(b, i, &endif) {
                    return Some(Error::ConditionalComment { origin: Origin::Root, position: Span { start: i, end: i + 8 } });
                }
                if bytes_match(b, i, &revealed) {
                    return Some(Error::ConditionalComment { origin: Origin::Root, position: Span { start: i, end: i + 5 } });
                }
            }
            outside = false;
        } else if b[i] == 62u8 {
            if outside && i >= 2 && 0x80u8 <= b[i - 2] && b[i - 2] <= 0xbfu8 {
                return Some(Error::SplitCharacter { origin: Origin::Root, position: Span { start: i - 2, end: i + 1 } });
            }
            outside = true;
        }
        i = i + 1;
    }
    None
}

/// A position in the token sequence of a template, with the warnings
/// collected so far.
pub struct MrmlCursor {
    pub tokens: Vec<Token>,
    pub pos: usize,
    pub warnings: Vec<Warning>,
}

impl MrmlCursor {
    /// A cursor at the start of the text's tokens, with no warnings; an
    /// error where the text holds what the tokenizer cannot take.
    pub fn new(text: &str) -> (r: Result<Self, Error>)
        ensures
            match hazard_from(text.spec_bytes(), 0, true) {
                Some(e) => r == Err::<Self, Error>(e),
                None => r matches Ok(c) && c.tokens@ == tokens_of(text@) && c.pos == 0
                    && c.warnings@.len() == 0 && spans_within(c.tokens@, text.spec_bytes().len() as int),
            },
    {
        match find_hazard(text) {
            Some(e) => Err(e),
            None => Ok(MrmlCursor { tokens: tokenize(text), pos: 0, warnings: Vec::new() }),
        }
    }

    pub fn origin(&self) -> (r: Origin)
        ensures
            r == Origin::Root,
    {
        Origin::Root
    }

    /// Consumes the next token and returns its index, or fails at the end of
    /// the tokens.
    pub fn assert_next(&mut self) -> (r: Result<usize, Error>)
        requires
            old(self).pos <= old(self).tokens@.len(),
        ensures
            final(self).tokens == old(self).tokens,
            final(self).warnings == old(self).warnings,
            old(self).pos < old(self).tokens@.len() ==> r == Ok::<usize, Error>(old(self).pos)
                && final(self).pos == old(self).pos + 1,
            old(self).pos == old(self).tokens@.len() ==> r == Err::<usize, Error>(
                Error::EndOfStream { origin: Origin::Root },
            ) && final(self).pos == old(self).pos,
    {
        if self.pos < self.tokens.len() {
            self.pos = self.pos + 1;
            Ok(self.pos - 1)
        } else {
            Err(Error::EndOfStream { origin: self.origin() })
        }
    }

    /// Consumes the next token if it is an attribute and returns its index;
    /// `None`, consuming nothing, at any other token but a malformed one.
    pub fn next_attribute(&mut self) -> (r: Result<Option<usize>, Error>)
        requires
            old(self).pos <= old(self).tokens@.len(),
        ensures
            final(self).tokens == old(self).tokens,
            final(self).warnings == old(self).warnings,
            old(self).pos == old(self).tokens@.len() ==> r == Err::<Option<usize>, Error>(
                Error::EndOfStream { origin: Origin::Root },
            ) && final(self).pos == old(self).pos,
            old(self).pos < old(self).tokens@.len() ==> match old(self).tokens@[old(self).pos as int] {
                Token::Attribute { .. } => r == Ok::<Option<usize>, Error>(Some(old(self).pos))
                    && final(self).pos == old(self).pos + 1,
                Token::Invalid { .. } => r == Err::<Option<usize>, Error>(
                    old(self).tokens@[old(self).pos as int].misplaced(),
                ) && final(self).pos == old(self).pos,
                _ => r == Ok::<Option<usize>, Error>(None) && final(self).pos == old(self).pos,
            },
    {
        if self.pos >= self.tokens.len() {
            return Err(Error::EndOfStream { origin: self.origin() });
        }
        match &self.tokens[self.pos] {
            Token::Attribute { .. } => {
                self.pos = self.pos + 1;
                Ok(Some(self.pos - 1))
            },
            Token::Invalid { row, col } => Err(
                Error::ParserError { origin: Origin::Root, row: *row, col: *col },
            ),
            _ => Ok(None),
        }
    }

    /// Gives back the token that was consumed last.
    pub fn rewind(&mut self)
        requires
            old(self).pos > 0,
        ensures
            final(self).tokens == old(self).tokens,
            final(self).warnings == old(self).warnings,
            final(self).pos == old(self).pos - 1,
    {
        self.pos = self.pos - 1;
    }

    pub fn add_warning(&mut self, kind: WarningKind, span: Span)
        ensures
            final(self).tokens == old(self).tokens,
            final(self).pos == old(self).pos,
            final(self).warnings@ == old(self).warnings@.push(Warning { kind, span }),
    {
        self.warnings.push(Warning { kind, span });
    }
}

} // verus!
