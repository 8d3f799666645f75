use vstd::prelude::*;
use crate::mjml::{
    HeadView, MjmlAttributes, MjmlView, MJ_BODY, MJ_HEAD, NAME, attribute_map_spec, body_spec,
    element_end_spec, empty_children_spec, head_children_spec, head_spec, mjml_attributes_spec,
    mjml_children_spec, mjml_spec, no_attributes, preview_spec, preview_text_spec, root_spec,
    unexpected_attribute, unexpected_element, unknown_attributes_spec,
};
use crate::parser::{Span, Token, Warning};
use crate::shift::{
    agree3, agree_on, lemma_prefix_body, lemma_prefix_head, lemma_shift_empty_children, lemma_shift_head_children, lemma_shift_root_children,
};

verus! {

/// Whether an attribute name is one that the root element keeps.
pub open spec fn known_root_attribute(name: Seq<char>) -> bool {
    name == "owa"@ || name == "lang"@ || name == "dir"@
}

/// The warnings owed to a run of attribute tokens of the root element: one
/// for each attribute whose name it does not know, in order.
pub open spec fn root_attribute_warnings(s: Seq<Token>) -> Seq<Warning>
    decreases s.len(),
{
    if s.len() == 0 {
        Seq::empty()
    } else {
        let first = match s[0] {
            Token::Attribute { local, span, .. } => if known_root_attribute(local@) {
                Seq::empty()
            } else {
                seq![unexpected_attribute(span)]
            },
            _ => Seq::empty(),
        };
        first + root_attribute_warnings(s.drop_first())
    }
}

/// The root's attribute record after a run of attribute tokens: a known name
/// sets its field (a later one wins), an unknown name changes nothing.
pub open spec fn root_attributes_of(s: Seq<Token>, acc: MjmlAttributes) -> MjmlAttributes
    decreases s.len(),
{
    if s.len() == 0 {
        acc
    } else {
        let next = match s[0] {
            Token::Attribute { local, value, .. } => if local@ == "owa"@ {
                MjmlAttributes { owa: value, lang: acc.lang, dir: acc.dir }
            } else if local@ == "lang"@ {
                MjmlAttributes { owa: acc.owa, lang: value, dir: acc.dir }
            } else if local@ == "dir"@ {
                MjmlAttributes { owa: acc.owa, lang: acc.lang, dir: value }
            } else {
                acc
            },
            _ => acc,
        };
        root_attributes_of(s.drop_first(), next)
    }
}

/// An attribute with an unknown name leaves no trace in the root's record:
/// inserting one anywhere in a run of attributes gives the same record.
pub proof fn law_unknown_attribute_leaves_record(
    before: Seq<Token>,
    after: Seq<Token>,
    unknown: Token,
    acc: MjmlAttributes,
)
    requires
        unknown matches Token::Attribute { local, .. } && !known_root_attribute(local@),
    ensures
        root_attributes_of(before + seq![unknown] + after, acc) == root_attributes_of(
            before + after,
            acc,
        ),
    decreases before.len(),
{
    reveal_strlit("owa");
    reveal_strlit("lang");
    reveal_strlit("dir");
    if before.len() == 0 {
        assert((before + seq![unknown] + after).drop_first() =~= after);
        assert(before + after =~= after);
    } else {
        let first = before[0];
        assert((before + seq![unknown] + after).drop_first() =~= before.drop_first() + seq![unknown]
            + after);
        assert((before + after).drop_first() =~= before.drop_first() + after);
        assert((before + seq![unknown] + after)[0] == first);
        assert((before + after)[0] == first);
        let next = match first {
            Token::Attribute { local, value, .. } => if local@ == "owa"@ {
                MjmlAttributes { owa: value, lang: acc.lang, dir: acc.dir }
            } else if local@ == "lang"@ {
                MjmlAttributes { owa: acc.owa, lang: value, dir: acc.dir }
            } else if local@ == "dir"@ {
                MjmlAttributes { owa: acc.owa, lang: acc.lang, dir: value }
            } else {
                acc
            },
            _ => acc,
        };
        law_unknown_attribute_leaves_record(before.drop_first(), after, unknown, next);
    }
}

/// Any number of attributes with unknown names, inserted together at any
/// place of a run of attributes, leave the root's record as it was.
pub proof fn law_unknown_attributes_leave_record(
    before: Seq<Token>,
    unknowns: Seq<Token>,
    after: Seq<Token>,
    acc: MjmlAttributes,
)
    requires
        forall|i: int| 0 <= i < unknowns.len() ==> (#[trigger] unknowns[i] matches Token::Attribute {
            local,
            ..
        } && !known_root_attribute(local@)),
    ensures
        root_attributes_of(before + unknowns + after, acc) == root_attributes_of(before + after, acc),
    decreases unknowns.len(),
{
    if unknowns.len() > 0 {
        let rest = unknowns.drop_first();
        assert forall|i: int| 0 <= i < rest.len() implies (#[trigger] rest[i] matches Token::Attribute {
            local,
            ..
        } && !known_root_attribute(local@)) by {
            assert(rest[i] == unknowns[i + 1]);
        }
        assert(unknowns[0] matches Token::Attribute { local, .. } && !known_root_attribute(local@));
        law_unknown_attribute_leaves_record(before, rest + after, unknowns[0], acc);
        assert(before + unknowns + after =~= before + seq![unknowns[0]] + (rest + after));
        law_unknown_attributes_leave_record(before, rest, after, acc);
        assert(before + (rest + after) =~= before + rest + after);
    } else {
        assert(before + unknowns + after =~= before + after);
    }
}

/// A token at which the attributes of an element stop without error.
pub open spec fn ends_attributes(t: Token) -> bool {
    !(t is Attribute) && !(t is Invalid)
}

/// Unknown attributes never make the root element fail: a run of attribute
/// tokens ending at a token that is neither an attribute nor malformed is read
/// whole, exactly one warning is added for each attribute with an unknown
/// name, in the order of the tokens, and the record is the one that the known
/// names give.
pub proof fn law_unknown_attributes_warn(
    toks: Seq<Token>,
    pos: int,
    end: int,
    acc: MjmlAttributes,
    w: Seq<Warning>,
)
    requires
        0 <= pos <= end < toks.len(),
        forall|i: int| pos <= i < end ==> toks[i] is Attribute,
        ends_attributes(toks[end]),
    ensures
        mjml_attributes_spec(toks, pos, acc, w) matches Ok((a, p, w2)) && p == end && w2 == w
            + root_attribute_warnings(toks.subrange(pos, end)) && a == root_attributes_of(
            toks.subrange(pos, end),
            acc,
        ),
    decreases end - pos,
{
    reveal_strlit("owa");
    reveal_strlit("lang");
    reveal_strlit("dir");
    if pos == end {
        assert(toks.subrange(pos, end) =~= Seq::<Token>::empty());
        assert(w + Seq::<Warning>::empty() =~= w);
    } else {
        let s = toks.subrange(pos, end);
        assert(s.drop_first() =~= toks.subrange(pos + 1, end));
        match toks[pos] {
            Token::Attribute { local, value, span } => {
                let next = if local@ == "owa"@ {
                    MjmlAttributes { owa: value, lang: acc.lang, dir: acc.dir }
                } else if local@ == "lang"@ {
                    MjmlAttributes { owa: acc.owa, lang: value, dir: acc.dir }
                } else if local@ == "dir"@ {
                    MjmlAttributes { owa: acc.owa, lang: acc.lang, dir: value }
                } else {
                    acc
                };
                let w1 = if known_root_attribute(local@) {
                    w
                } else {
                    w.push(unexpected_attribute(span))
                };
                law_unknown_attributes_warn(toks, pos + 1, end, next, w1);
                assert(w + root_attribute_warnings(s) =~= w1 + root_attribute_warnings(
                    toks.subrange(pos + 1, end),
                ));
            },
            _ => {},
        }
    }
}

/// A child element whose name the parent does not list makes the parent fail
/// with an unexpected-element error at that child's start tag: the root
/// takes only a head and a body, the head only previews, the body nothing.
pub proof fn law_illegal_child_fails(
    toks: Seq<Token>,
    pos: int,
    head: Option<HeadView>,
    body: Option<Seq<(String, Option<String>)>>,
    acc: Seq<Seq<char>>,
    w: Seq<Warning>,
    local: String,
    span: Span,
)
    requires
        0 <= pos < toks.len(),
        toks[pos] == (Token::ElementStart { local, span }),
    ensures
        local@ != MJ_HEAD@ && local@ != MJ_BODY@ ==> mjml_children_spec(toks, pos, head, body, w)
            == Err::<(Option<HeadView>, Option<Seq<(String, Option<String>)>>, int, Seq<Warning>), crate::parser::Error>(
            unexpected_element(span),
        ),
        local@ != crate::mj_preview::NAME@ ==> head_children_spec(toks, pos, acc, w) == Err::<
            (Seq<Seq<char>>, int, Seq<Warning>),
            crate::parser::Error,
        >(unexpected_element(span)),
        empty_children_spec(toks, pos, MJ_BODY@) == Err::<int, crate::parser::Error>(
            unexpected_element(span),
        ),
{
}

/// Two token sequences that hold the same attributes from `pos` to `end`,
/// where both stop, give the root element the same attributes and warnings.
proof fn lemma_root_attributes_agree(
    toks: Seq<Token>,
    other: Seq<Token>,
    pos: int,
    end: int,
    acc: MjmlAttributes,
    w: Seq<Warning>,
)
    requires
        0 <= pos <= end < toks.len(),
        end < other.len(),
        forall|i: int| pos <= i < end ==> toks[i] is Attribute && other[i] == toks[i],
        ends_attributes(toks[end]),
        ends_attributes(other[end]),
    ensures
        mjml_attributes_spec(toks, pos, acc, w) == mjml_attributes_spec(other, pos, acc, w),
        mjml_attributes_spec(toks, pos, acc, w) matches Ok((_a, p, _w)) && p == end,
    decreases end - pos,
{
    if pos < end {
        match toks[pos] {
            Token::Attribute { local, value, span } => {
                let next = if local@ == "owa"@ {
                    MjmlAttributes { owa: value, lang: acc.lang, dir: acc.dir }
                } else if local@ == "lang"@ {
                    MjmlAttributes { owa: acc.owa, lang: value, dir: acc.dir }
                } else if local@ == "dir"@ {
                    MjmlAttributes { owa: acc.owa, lang: acc.lang, dir: value }
                } else {
                    acc
                };
                let w1 = if local@ == "owa"@ || local@ == "lang"@ || local@ == "dir"@ {
                    w
                } else {
                    w.push(unexpected_attribute(span))
                };
                lemma_root_attributes_agree(toks, other, pos + 1, end, next, w1);
            },
            _ => {},
        }
    }
}

/// A root element written self-closing (`<mjml ... />`) gives the same tree
/// and the same warnings as the same element written with an opening tag
/// directly followed by its closing tag (`<mjml ...></mjml>`); the second
/// form has one token more.
pub proof fn law_self_closing_same_as_open_close(
    toks: Seq<Token>,
    pos: int,
    end: int,
    w: Seq<Warning>,
    open: Span,
    close: Span,
    name: String,
)
    requires
        0 <= pos <= end < toks.len(),
        forall|i: int| pos <= i < end ==> toks[i] is Attribute,
        toks[end] is EndEmpty,
        name@ == NAME@,
    ensures
        ({
            let pair = toks.update(end, Token::EndOpen { span: open }).insert(
                end + 1,
                Token::ElementClose { local: name, span: close },
            );
            mjml_spec(toks, pos, w) matches Ok((m1, p1, w1)) && mjml_spec(pair, pos, w) matches Ok(
                (m2, p2, w2),
            ) && m1 == m2 && w1 == w2 && p1 == end + 1 && p2 == end + 2
        }),
{
    let pair = toks.update(end, Token::EndOpen { span: open }).insert(
        end + 1,
        Token::ElementClose { local: name, span: close },
    );
    assert forall|i: int| pos <= i < end implies toks[i] is Attribute && pair[i] == toks[i] by {}
    lemma_root_attributes_agree(toks, pair, pos, end, no_attributes(), w);
    assert(pair[end] == Token::EndOpen { span: open });
    assert(pair[end + 1] == Token::ElementClose { local: name, span: close });
}

/// Blank text and comments among the children of an element whose text is
/// not content are passed over: reading from the first of a run of such
/// tokens gives what reading from the token after the run gives.
pub proof fn law_blank_children_skipped(
    toks: Seq<Token>,
    pos: int,
    count: int,
    head: Option<HeadView>,
    body: Option<Seq<(String, Option<String>)>>,
    acc: Seq<Seq<char>>,
    w: Seq<Warning>,
)
    requires
        0 <= pos,
        0 <= count,
        pos + count <= toks.len(),
        forall|i: int| pos <= i < pos + count ==> #[trigger] toks[i].is_insignificant(),
    ensures
        mjml_children_spec(toks, pos, head, body, w) == mjml_children_spec(
            toks,
            pos + count,
            head,
            body,
            w,
        ),
        head_children_spec(toks, pos, acc, w) == head_children_spec(toks, pos + count, acc, w),
        empty_children_spec(toks, pos, MJ_BODY@) == empty_children_spec(
            toks,
            pos + count,
            MJ_BODY@,
        ),
    decreases count,
{
    if count > 0 {
        assert(toks[pos].is_insignificant());
        law_blank_children_skipped(toks, pos + 1, count - 1, head, body, acc, w);
    }
}

/// Whitespace-only text and comments inserted between the children of an
/// element whose text is not content (the root, a head, a body) leave what is
/// read unchanged: the same record, the same warnings, the same error; only
/// the position reached moves by the number of tokens inserted.
pub proof fn law_blank_children_ignored(
    toks: Seq<Token>,
    pos: int,
    blanks: Seq<Token>,
    head: Option<HeadView>,
    body: Option<Seq<(String, Option<String>)>>,
    acc: Seq<Seq<char>>,
    w: Seq<Warning>,
)
    requires
        0 <= pos <= toks.len(),
        forall|i: int| 0 <= i < blanks.len() ==> #[trigger] blanks[i].is_insignificant(),
    ensures
        ({
            let with = toks.subrange(0, pos) + blanks + toks.subrange(pos, toks.len() as int);
            let d = blanks.len() as int;
            &&& match (
                mjml_children_spec(toks, pos, head, body, w),
                mjml_children_spec(with, pos, head, body, w),
            ) {
                (Ok((h1, b1, q1, w1)), Ok((h2, b2, q2, w2))) => h1 == h2 && b1 == b2 && w1 == w2
                    && q2 == q1 + d,
                (Err(e1), Err(e2)) => e1 == e2,
                _ => false,
            }
            &&& agree3(head_children_spec(toks, pos, acc, w), head_children_spec(with, pos, acc, w), d)
            &&& match (empty_children_spec(toks, pos, MJ_BODY@), empty_children_spec(with, pos, MJ_BODY@)) {
                (Ok(q1), Ok(q2)) => q2 == q1 + d,
                (Err(e1), Err(e2)) => e1 == e2,
                _ => false,
            }
        }),
{
    let with = toks.subrange(0, pos) + blanks + toks.subrange(pos, toks.len() as int);
    let d = blanks.len() as int;
    assert forall|i: int| pos <= i < pos + d implies #[trigger] with[i].is_insignificant() by {
        assert(with[i] == blanks[i - pos]);
    }
    law_blank_children_skipped(with, pos, d, head, body, acc, w);
    assert forall|i: int| 0 <= i < toks.len() - pos implies #[trigger] toks[pos + i] == with[(pos + d) + i] by {}
    lemma_shift_root_children(toks, pos, with, pos + d, head, body, w);
    lemma_shift_head_children(toks, pos, with, pos + d, acc, w);
    lemma_shift_empty_children(toks, pos, with, pos + d, MJ_BODY@);
}

/// A whole preview element with text at `i`: its start tag, `>`, one text
/// token and its closing tag.
pub open spec fn preview_block(toks: Seq<Token>, i: int) -> bool {
    0 <= i && i + 4 <= toks.len() && (toks[i] matches Token::ElementStart { local, .. }
        && local@ == crate::mj_preview::NAME@) && toks[i + 1] is EndOpen && toks[i + 2] is Text
        && toks[i + 3].closes(crate::mj_preview::NAME@)
}

pub open spec fn text_of(t: Token) -> Seq<char> {
    match t {
        Token::Text { text, .. } => text@,
        _ => Seq::empty(),
    }
}

/// A head whose content is a run of whole preview elements followed by its
/// closing tag holds exactly those previews, with their text, in document
/// order, and adds no warning.
pub proof fn law_head_children_mirror_input(
    toks: Seq<Token>,
    pos: int,
    count: int,
    acc: Seq<Seq<char>>,
    w: Seq<Warning>,
)
    requires
        0 <= pos,
        0 <= count,
        forall|j: int| 0 <= j < count ==> #[trigger] preview_block(toks, pos + 4 * j),
        pos + 4 * count < toks.len(),
        toks[pos + 4 * count].closes(MJ_HEAD@),
    ensures
        head_children_spec(toks, pos, acc, w) == Ok::<
            (Seq<Seq<char>>, int, Seq<Warning>),
            crate::parser::Error,
        >(
            (
                acc + Seq::new(count as nat, |j: int| text_of(toks[pos + 4 * j + 2])),
                pos + 4 * count,
                w,
            ),
        ),
    decreases count,
{
    reveal_strlit("mj-head");
    reveal_strlit("mj-preview");
    if count == 0 {
        assert(acc + Seq::new(0, |j: int| text_of(toks[pos + 4 * j + 2])) =~= acc);
    } else {
        assert(preview_block(toks, pos + 4 * 0));
        let text = text_of(toks[pos + 2]);
        assert(unknown_attributes_spec(toks, pos + 1, w) == Ok::<(int, Seq<Warning>), crate::parser::Error>((pos + 1, w)));
        assert(element_end_spec(toks, pos + 1) == Ok::<bool, crate::parser::Error>(true));
        assert(Seq::<char>::empty() + text =~= text);
        assert(preview_text_spec(toks, pos + 3, text) == Ok::<(Seq<char>, int), crate::parser::Error>((text, pos + 3)));
        assert(preview_text_spec(toks, pos + 2, Seq::empty()) == Ok::<(Seq<char>, int), crate::parser::Error>((text, pos + 3)));
        assert(preview_spec(toks, pos + 1, w) == Ok::<(Seq<char>, int, Seq<Warning>), crate::parser::Error>((text, pos + 4, w)));
        assert forall|j: int| 0 <= j < count - 1 implies #[trigger] preview_block(
            toks,
            (pos + 4) + 4 * j,
        ) by {
            assert(preview_block(toks, pos + 4 * (j + 1)));
            assert(pos + 4 * (j + 1) == (pos + 4) + 4 * j);
        }
        assert((pos + 4) + 4 * (count - 1) == pos + 4 * count);
        law_head_children_mirror_input(toks, pos + 4, count - 1, acc.push(text), w);
        assert(acc.push(text) + Seq::new(
            (count - 1) as nat,
            |j: int| text_of(toks[(pos + 4) + 4 * j + 2]),
        ) =~= acc + Seq::new(count as nat, |j: int| text_of(toks[pos + 4 * j + 2])));
    }
}


/// The content of a root element holding a head with `count` whole preview
/// elements and then a self-closing body: `<mj-head>` previews `</mj-head>`
/// `<mj-body/>` `</mjml>`, from `pos` on.
pub open spec fn head_then_body(toks: Seq<Token>, pos: int, count: int) -> bool {
    let q = pos + 3 + 4 * count;
    &&& 0 <= pos
    &&& 0 <= count
    &&& q + 2 < toks.len()
    &&& toks[pos] matches Token::ElementStart { local, .. } && local@ == MJ_HEAD@
    &&& toks[pos + 1] is EndOpen
    &&& forall|j: int| 0 <= j < count ==> #[trigger] preview_block(toks, pos + 2 + 4 * j)
    &&& toks[q - 1].closes(MJ_HEAD@)
    &&& toks[q] matches Token::ElementStart { local, .. } && local@ == MJ_BODY@
    &&& toks[q + 1] is EndEmpty
    &&& toks[q + 2].closes(NAME@)
}

/// A root element whose children are all legal fills its slots as the input
/// nests them: the head holds the previews in document order, the body slot
/// is filled, and reading stops at the root's closing tag with no warning.
pub proof fn law_root_children_mirror_input(toks: Seq<Token>, pos: int, count: int, w: Seq<Warning>)
    requires
        head_then_body(toks, pos, count),
    ensures
        mjml_children_spec(toks, pos, None, None, w) == Ok::<
            (Option<HeadView>, Option<Seq<(String, Option<String>)>>, int, Seq<Warning>),
            crate::parser::Error,
        >(
            (
                Some(
                    HeadView {
                        attributes: Seq::empty(),
                        children: Seq::new(
                            count as nat,
                            |j: int| text_of(toks[pos + 2 + 4 * j + 2]),
                        ),
                    },
                ),
                Some(Seq::empty()),
                pos + 5 + 4 * count,
                w,
            ),
        ),
{
    reveal_strlit("mjml");
    reveal_strlit("mj-head");
    reveal_strlit("mj-body");
    reveal_strlit("mj-preview");
    let q = pos + 3 + 4 * count;
    let texts = Seq::new(count as nat, |j: int| text_of(toks[pos + 2 + 4 * j + 2]));
    law_head_children_mirror_input(toks, pos + 2, count, Seq::empty(), w);
    assert(Seq::<Seq<char>>::empty() + texts =~= texts);
    assert(head_children_spec(toks, pos + 2, Seq::empty(), w) == Ok::<
        (Seq<Seq<char>>, int, Seq<Warning>),
        crate::parser::Error,
    >((texts, q - 1, w)));
    assert(attribute_map_spec(toks, pos + 1, Seq::empty()) == Ok::<
        (Seq<(String, Option<String>)>, int),
        crate::parser::Error,
    >((Seq::empty(), pos + 1)));
    assert(element_end_spec(toks, pos + 1) == Ok::<bool, crate::parser::Error>(true));
    let head = HeadView { attributes: Seq::empty(), children: texts };
    assert(head_spec(toks, pos + 1, w) == Ok::<(HeadView, int, Seq<Warning>), crate::parser::Error>(
        (head, q, w),
    ));
    assert(attribute_map_spec(toks, q + 1, Seq::empty()) == Ok::<
        (Seq<(String, Option<String>)>, int),
        crate::parser::Error,
    >((Seq::empty(), q + 1)));
    assert(body_spec(toks, q + 1) == Ok::<(Seq<(String, Option<String>)>, int), crate::parser::Error>(
        (Seq::empty(), q + 2),
    ));
    assert(mjml_children_spec(toks, q + 2, Some(head), Some(Seq::empty()), w) == Ok::<
        (Option<HeadView>, Option<Seq<(String, Option<String>)>>, int, Seq<Warning>),
        crate::parser::Error,
    >((Some(head), Some(Seq::empty()), q + 2, w)));
    assert(MJ_HEAD@[3] != MJ_BODY@[3]);
    assert(mjml_children_spec(toks, q, Some(head), None, w) == mjml_children_spec(
        toks,
        q + 2,
        Some(head),
        Some(Seq::empty()),
        w,
    ));
}


/// A document `<mjml>` `<mj-head>` previews `</mj-head>` `<mj-body/>`
/// `</mjml>` parses: the tree holds a head with those previews in document
/// order and a body, with no attribute and no warning.
pub proof fn law_document_mirrors_input(toks: Seq<Token>, count: int)
    requires
        toks.len() > 1,
        toks[0] matches Token::ElementStart { local, .. } && local@ == NAME@,
        toks[1] is EndOpen,
        head_then_body(toks, 2, count),
    ensures
        root_spec(toks, 0, Seq::empty()) == Ok::<(MjmlView, Seq<Warning>), crate::parser::Error>(
            (
                MjmlView {
                    attributes: no_attributes(),
                    head: Some(
                        HeadView {
                            attributes: Seq::empty(),
                            children: Seq::new(
                                count as nat,
                                |j: int| text_of(toks[2 + 2 + 4 * j + 2]),
                            ),
                        },
                    ),
                    body: Some(Seq::empty()),
                },
                Seq::empty(),
            ),
        ),
{
    law_root_children_mirror_input(toks, 2, count, Seq::empty());
    assert(mjml_attributes_spec(toks, 1, no_attributes(), Seq::empty()) == Ok::<
        (MjmlAttributes, int, Seq<Warning>),
        crate::parser::Error,
    >((no_attributes(), 1, Seq::empty())));
    assert(element_end_spec(toks, 1) == Ok::<bool, crate::parser::Error>(true));
}


/// The state of the root's content reading when it comes to the token at
/// `k`, having started at `pos`: the slots and warnings so far, or `None`
/// where it never stops at `k` (it fails first, ends first, or `k` lies
/// inside a child element).
pub open spec fn root_children_reach(
    toks: Seq<Token>,
    pos: int,
    head: Option<HeadView>,
    body: Option<Seq<(String, Option<String>)>>,
    w: Seq<Warning>,
    k: int,
) -> Option<(Option<HeadView>, Option<Seq<(String, Option<String>)>>, Seq<Warning>)>
    decreases toks.len() - pos,
{
    if pos == k {
        Some((head, body, w))
    } else if pos < 0 || pos > k || pos >= toks.len() || toks[pos].closes(NAME@) {
        None
    } else if toks[pos].is_insignificant() {
        root_children_reach(toks, pos + 1, head, body, w, k)
    } else {
        match toks[pos] {
            Token::ElementStart { local, .. } => if local@ == MJ_HEAD@ {
                match head_spec(toks, pos + 1, w) {
                    Ok((h, p, w1)) => if pos < p <= toks.len() {
                        root_children_reach(toks, p, Some(h), body, w1, k)
                    } else {
                        None
                    },
                    Err(_) => None,
                }
            } else if local@ == MJ_BODY@ {
                match body_spec(toks, pos + 1) {
                    Ok((b, p)) => if pos < p <= toks.len() {
                        root_children_reach(toks, p, head, Some(b), w, k)
                    } else {
                        None
                    },
                    Err(_) => None,
                }
            } else {
                None
            },
            _ => None,
        }
    }
}

/// Reading the root's content from `pos` gives what reading it from a token
/// that it reaches gives, in the state in which it reaches that token.
pub proof fn law_root_children_resume(
    toks: Seq<Token>,
    pos: int,
    head: Option<HeadView>,
    body: Option<Seq<(String, Option<String>)>>,
    w: Seq<Warning>,
    k: int,
)
    requires
        root_children_reach(toks, pos, head, body, w, k) is Some,
    ensures
        ({
            let (h, b, w1) = root_children_reach(toks, pos, head, body, w, k).unwrap();
            mjml_children_spec(toks, pos, head, body, w) == mjml_children_spec(toks, k, h, b, w1)
        }),
    decreases toks.len() - pos,
{
    if pos != k {
        if toks[pos].is_insignificant() {
            law_root_children_resume(toks, pos + 1, head, body, w, k);
        } else if let Token::ElementStart { local, .. } = toks[pos] {
            if local@ == MJ_HEAD@ {
                if let Ok((h, p, w1)) = head_spec(toks, pos + 1, w) {
                    law_root_children_resume(toks, p, Some(h), body, w1, k);
                }
            } else if local@ == MJ_BODY@ {
                if let Ok((b, p)) = body_spec(toks, pos + 1) {
                    law_root_children_resume(toks, p, head, Some(b), w, k);
                }
            }
        }
    }
}

/// After any legal children, blank text and comments, a child element of
/// the root that is neither a head nor a body makes the root fail with an
/// unexpected-element error at that child's start tag.
pub proof fn law_illegal_root_child_fails(
    toks: Seq<Token>,
    pos: int,
    k: int,
    local: String,
    span: Span,
)
    requires
        root_children_reach(toks, pos, None, None, Seq::empty(), k) is Some,
        0 <= k < toks.len(),
        toks[k] == (Token::ElementStart { local, span }),
        local@ != MJ_HEAD@,
        local@ != MJ_BODY@,
    ensures
        mjml_children_spec(toks, pos, None, None, Seq::empty()) == Err::<
            (Option<HeadView>, Option<Seq<(String, Option<String>)>>, int, Seq<Warning>),
            crate::parser::Error,
        >(unexpected_element(span)),
{
    law_root_children_resume(toks, pos, None, None, Seq::empty(), k);
    let (h, b, w1) = root_children_reach(toks, pos, None, None, Seq::empty(), k).unwrap();
    law_illegal_child_fails(toks, k, h, b, Seq::empty(), w1, local, span);
}


/// Reading the root's content only looks at the tokens before the point it
/// reaches: another sequence with the same tokens there reaches that point in
/// the same state.
proof fn lemma_root_reach_prefix(
    t1: Seq<Token>,
    t2: Seq<Token>,
    pos: int,
    head: Option<HeadView>,
    body: Option<Seq<(String, Option<String>)>>,
    w: Seq<Warning>,
    k: int,
)
    requires
        root_children_reach(t1, pos, head, body, w, k) is Some,
        agree_on(t1, t2, pos, k),
    ensures
        root_children_reach(t2, pos, head, body, w, k) == root_children_reach(t1, pos, head, body, w, k),
    decreases t1.len() - pos,
{
    if pos != k {
        assert(t1[pos] == t2[pos]);
        if t1[pos].is_insignificant() {
            lemma_root_reach_prefix(t1, t2, pos + 1, head, body, w, k);
        } else if let Token::ElementStart { local, .. } = t1[pos] {
            if local@ == MJ_HEAD@ {
                let (h, p, w1) = head_spec(t1, pos + 1, w).unwrap();
                lemma_root_reach_prefix(t1, t2, p, Some(h), body, w1, k);
                lemma_prefix_head(t1, t2, pos + 1, w);
            } else {
                let (b, p) = body_spec(t1, pos + 1).unwrap();
                lemma_root_reach_prefix(t1, t2, p, head, Some(b), w, k);
                lemma_prefix_body(t1, t2, pos + 1);
            }
        }
    }
}

proof fn lemma_reach_bound(
    toks: Seq<Token>,
    pos: int,
    head: Option<HeadView>,
    body: Option<Seq<(String, Option<String>)>>,
    w: Seq<Warning>,
    k: int,
)
    requires
        root_children_reach(toks, pos, head, body, w, k) is Some,
    ensures
        pos <= k,
    decreases toks.len() - pos,
{
}

/// Whitespace-only text and comments inserted at any point between the
/// root's children, after any legal children, leave the root's content
/// record, warnings and errors unchanged; only the position reached moves by
/// the number of tokens inserted.
pub proof fn law_blanks_between_root_children(
    toks: Seq<Token>,
    pos: int,
    k: int,
    blanks: Seq<Token>,
    head: Option<HeadView>,
    body: Option<Seq<(String, Option<String>)>>,
    w: Seq<Warning>,
)
    requires
        0 <= pos,
        k <= toks.len(),
        root_children_reach(toks, pos, head, body, w, k) is Some,
        forall|i: int| 0 <= i < blanks.len() ==> #[trigger] blanks[i].is_insignificant(),
    ensures
        ({
            let with = toks.subrange(0, k) + blanks + toks.subrange(k, toks.len() as int);
            match (
                mjml_children_spec(toks, pos, head, body, w),
                mjml_children_spec(with, pos, head, body, w),
            ) {
                (Ok((h1, b1, q1, w1)), Ok((h2, b2, q2, w2))) => h1 == h2 && b1 == b2 && w1 == w2
                    && q2 == q1 + blanks.len(),
                (Err(e1), Err(e2)) => e1 == e2,
                _ => false,
            }
        }),
{
    let with = toks.subrange(0, k) + blanks + toks.subrange(k, toks.len() as int);
    lemma_reach_bound(toks, pos, head, body, w, k);
    assert forall|i: int| pos <= i < k implies #[trigger] toks[i] == with[i] by {}
    lemma_root_reach_prefix(toks, with, pos, head, body, w, k);
    law_root_children_resume(toks, pos, head, body, w, k);
    law_root_children_resume(with, pos, head, body, w, k);
    let (h, b, w1) = root_children_reach(toks, pos, head, body, w, k).unwrap();
    law_blank_children_ignored(toks, k, blanks, h, b, Seq::empty(), w1);
}


proof fn lemma_attribute_runs_agree(
    toks: Seq<Token>,
    other: Seq<Token>,
    pos: int,
    end: int,
    acc: Seq<(String, Option<String>)>,
    w: Seq<Warning>,
)
    requires
        0 <= pos <= end < toks.len(),
        end < other.len(),
        forall|i: int| pos <= i < end ==> toks[i] is Attribute && other[i] == toks[i],
        ends_attributes(toks[end]),
        ends_attributes(other[end]),
    ensures
        attribute_map_spec(toks, pos, acc) == attribute_map_spec(other, pos, acc),
        attribute_map_spec(toks, pos, acc) matches Ok((_a, p)) && p == end,
        unknown_attributes_spec(toks, pos, w) == unknown_attributes_spec(other, pos, w),
        unknown_attributes_spec(toks, pos, w) matches Ok((p, _w)) && p == end,
    decreases end - pos,
{
    if pos < end {
        if let Token::Attribute { local, value, span } = toks[pos] {
            lemma_attribute_runs_agree(
                toks,
                other,
                pos + 1,
                end,
                acc.push((local, value)),
                w.push(unexpected_attribute(span)),
            );
        }
    }
}

/// Head, body and preview elements written self-closing give the same
/// element, the same warnings and the same errors as when written with an
/// opening tag directly followed by their closing tag; the second form has
/// one token more.
pub proof fn law_self_closing_children_same_as_open_close(
    toks: Seq<Token>,
    pos: int,
    end: int,
    w: Seq<Warning>,
    open: Span,
    close: Span,
    name: String,
)
    requires
        0 <= pos <= end < toks.len(),
        forall|i: int| pos <= i < end ==> toks[i] is Attribute,
        toks[end] is EndEmpty,
    ensures
        ({
            let pair = toks.update(end, Token::EndOpen { span: open }).insert(
                end + 1,
                Token::ElementClose { local: name, span: close },
            );
            &&& name@ == MJ_HEAD@ ==> (head_spec(toks, pos, w) matches Ok((h1, p1, w1))
                && head_spec(pair, pos, w) matches Ok((h2, p2, w2)) && h1 == h2 && w1 == w2 && p1
                == end + 1 && p2 == end + 2)
            &&& name@ == MJ_BODY@ ==> (body_spec(toks, pos) matches Ok((b1, p1)) && body_spec(
                pair,
                pos,
            ) matches Ok((b2, p2)) && b1 == b2 && p1 == end + 1 && p2 == end + 2)
            &&& name@ == crate::mj_preview::NAME@ ==> (preview_spec(toks, pos, w) matches Ok(
                (s1, p1, w1),
            ) && preview_spec(pair, pos, w) matches Ok((s2, p2, w2)) && s1 == s2 && w1 == w2
                && p1 == end + 1 && p2 == end + 2)
        }),
{
    let pair = toks.update(end, Token::EndOpen { span: open }).insert(
        end + 1,
        Token::ElementClose { local: name, span: close },
    );
    assert forall|i: int| pos <= i < end implies toks[i] is Attribute && pair[i] == toks[i] by {}
    lemma_attribute_runs_agree(toks, pair, pos, end, Seq::empty(), w);
    assert(pair[end] == Token::EndOpen { span: open });
    assert(pair[end + 1] == Token::ElementClose { local: name, span: close });
}


/// Where the root's content is only legal children (heads and bodies that
/// parse), blank text and comments up to the root's closing tag at `k`, the
/// content parses, and each slot holds the last child of its kind in the
/// input, as reading in document order fills it.
pub proof fn law_legal_root_children_succeed(toks: Seq<Token>, pos: int, k: int, w: Seq<Warning>)
    requires
        root_children_reach(toks, pos, None, None, w, k) is Some,
        0 <= k < toks.len(),
        toks[k].closes(NAME@),
    ensures
        ({
            let (h, b, w1) = root_children_reach(toks, pos, None, None, w, k).unwrap();
            mjml_children_spec(toks, pos, None, None, w) == Ok::<
                (Option<HeadView>, Option<Seq<(String, Option<String>)>>, int, Seq<Warning>),
                crate::parser::Error,
            >((h, b, k, w1))
        }),
{
    law_root_children_resume(toks, pos, None, None, w, k);
}

} // verus!
