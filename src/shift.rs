use vstd::prelude::*;
use crate::mjml::{
    HeadView, MJ_BODY, MJ_HEAD, attribute_map_spec, body_spec, element_end_spec,
    empty_children_spec, head_children_spec, head_spec, mjml_children_spec, preview_spec,
    preview_text_spec, unknown_attributes_spec,
};
use crate::parser::{Error, Token, Warning};

verus! {

/// The tokens of `t1` from `p1` on are the tokens of `t2` from `p2` on.
pub open spec fn same_from(t1: Seq<Token>, p1: int, t2: Seq<Token>, p2: int) -> bool {
    &&& 0 <= p1 <= t1.len()
    &&& 0 <= p2 <= t2.len()
    &&& t1.len() - p1 == t2.len() - p2
    &&& forall|i: int| 0 <= i < t1.len() - p1 ==> #[trigger] t1[p1 + i] == t2[p2 + i]
}

/// Two results that agree but for positions, which differ by `d`.
pub open spec fn agree2<A>(r1: Result<(A, int), Error>, r2: Result<(A, int), Error>, d: int) -> bool {
    match (r1, r2) {
        (Ok((a1, q1)), Ok((a2, q2))) => a1 == a2 && q2 == q1 + d,
        (Err(e1), Err(e2)) => e1 == e2,
        _ => false,
    }
}

pub open spec fn agree3<A, B>(
    r1: Result<(A, int, B), Error>,
    r2: Result<(A, int, B), Error>,
    d: int,
) -> bool {
    match (r1, r2) {
        (Ok((a1, q1, b1)), Ok((a2, q2, b2))) => a1 == a2 && b1 == b2 && q2 == q1 + d,
        (Err(e1), Err(e2)) => e1 == e2,
        _ => false,
    }
}

proof fn lemma_same_from_next(t1: Seq<Token>, p1: int, t2: Seq<Token>, p2: int)
    requires
        same_from(t1, p1, t2, p2),
        p1 < t1.len(),
    ensures
        same_from(t1, p1 + 1, t2, p2 + 1),
        t1[p1] == t2[p2],
{
    assert(t1[p1 + 0] == t2[p2 + 0]);
    assert forall|i: int| 0 <= i < t1.len() - (p1 + 1) implies #[trigger] t1[(p1 + 1) + i] == t2[(
    p2 + 1) + i] by {
        assert(t1[p1 + (i + 1)] == t2[p2 + (i + 1)]);
    }
}

proof fn lemma_same_from_skip(t1: Seq<Token>, p1: int, t2: Seq<Token>, p2: int, k: int)
    requires
        same_from(t1, p1, t2, p2),
        0 <= k <= t1.len() - p1,
    ensures
        same_from(t1, p1 + k, t2, p2 + k),
{
    assert forall|i: int| 0 <= i < t1.len() - (p1 + k) implies #[trigger] t1[(p1 + k) + i] == t2[(
    p2 + k) + i] by {
        assert(t1[p1 + (i + k)] == t2[p2 + (i + k)]);
    }
}

pub proof fn lemma_shift_attribute_map(
    t1: Seq<Token>,
    p1: int,
    t2: Seq<Token>,
    p2: int,
    acc: Seq<(String, Option<String>)>,
)
    requires
        same_from(t1, p1, t2, p2),
    ensures
        agree2(attribute_map_spec(t1, p1, acc), attribute_map_spec(t2, p2, acc), p2 - p1),
        attribute_map_spec(t1, p1, acc) matches Ok((_a, q)) ==> p1 <= q < t1.len(),
    decreases t1.len() - p1,
{
    if p1 < t1.len() {
        lemma_same_from_next(t1, p1, t2, p2);
        if let Token::Attribute { local, value, .. } = t1[p1] {
            lemma_shift_attribute_map(t1, p1 + 1, t2, p2 + 1, acc.push((local, value)));
        }
    }
}

pub proof fn lemma_shift_unknown_attributes(
    t1: Seq<Token>,
    p1: int,
    t2: Seq<Token>,
    p2: int,
    w: Seq<Warning>,
)
    requires
        same_from(t1, p1, t2, p2),
    ensures
        match (unknown_attributes_spec(t1, p1, w), unknown_attributes_spec(t2, p2, w)) {
            (Ok((q1, w1)), Ok((q2, w2))) => w1 == w2 && q2 == q1 + (p2 - p1) && p1 <= q1 < t1.len(),
            (Err(e1), Err(e2)) => e1 == e2,
            _ => false,
        },
    decreases t1.len() - p1,
{
    if p1 < t1.len() {
        lemma_same_from_next(t1, p1, t2, p2);
        if let Token::Attribute { span, .. } = t1[p1] {
            lemma_shift_unknown_attributes(
                t1,
                p1 + 1,
                t2,
                p2 + 1,
                w.push(crate::mjml::unexpected_attribute(span)),
            );
        }
    }
}

pub proof fn lemma_shift_element_end(t1: Seq<Token>, p1: int, t2: Seq<Token>, p2: int)
    requires
        same_from(t1, p1, t2, p2),
    ensures
        element_end_spec(t1, p1) == element_end_spec(t2, p2),
{
    if p1 < t1.len() {
        lemma_same_from_next(t1, p1, t2, p2);
    }
}

pub proof fn lemma_shift_empty_children(
    t1: Seq<Token>,
    p1: int,
    t2: Seq<Token>,
    p2: int,
    name: Seq<char>,
)
    requires
        same_from(t1, p1, t2, p2),
    ensures
        match (empty_children_spec(t1, p1, name), empty_children_spec(t2, p2, name)) {
            (Ok(q1), Ok(q2)) => q2 == q1 + (p2 - p1) && p1 <= q1 < t1.len(),
            (Err(e1), Err(e2)) => e1 == e2,
            _ => false,
        },
    decreases t1.len() - p1,
{
    if p1 < t1.len() {
        lemma_same_from_next(t1, p1, t2, p2);
        lemma_shift_empty_children(t1, p1 + 1, t2, p2 + 1, name);
    }
}

pub proof fn lemma_shift_preview_text(
    t1: Seq<Token>,
    p1: int,
    t2: Seq<Token>,
    p2: int,
    acc: Seq<char>,
)
    requires
        same_from(t1, p1, t2, p2),
    ensures
        agree2(preview_text_spec(t1, p1, acc), preview_text_spec(t2, p2, acc), p2 - p1),
        preview_text_spec(t1, p1, acc) matches Ok((_a, q)) ==> p1 <= q < t1.len(),
    decreases t1.len() - p1,
{
    if p1 < t1.len() {
        lemma_same_from_next(t1, p1, t2, p2);
        match t1[p1] {
            Token::Text { text, .. } => lemma_shift_preview_text(t1, p1 + 1, t2, p2 + 1, acc + text@),
            _ => lemma_shift_preview_text(t1, p1 + 1, t2, p2 + 1, acc),
        }
    }
}

pub proof fn lemma_shift_preview(t1: Seq<Token>, p1: int, t2: Seq<Token>, p2: int, w: Seq<Warning>)
    requires
        same_from(t1, p1, t2, p2),
    ensures
        agree3(preview_spec(t1, p1, w), preview_spec(t2, p2, w), p2 - p1),
        preview_spec(t1, p1, w) matches Ok((_a, q, _w)) ==> p1 < q <= t1.len(),
{
    lemma_shift_unknown_attributes(t1, p1, t2, p2, w);
    if let Ok((q, _w1)) = unknown_attributes_spec(t1, p1, w) {
        if 0 <= q - p1 <= t1.len() - p1 {
            lemma_same_from_skip(t1, p1, t2, p2, q - p1);
            lemma_shift_element_end(t1, q, t2, q + (p2 - p1));
            if q < t1.len() {
                lemma_same_from_skip(t1, p1, t2, p2, q + 1 - p1);
                lemma_shift_preview_text(t1, q + 1, t2, q + 1 + (p2 - p1), Seq::empty());
            }
        }
    }
}


pub proof fn lemma_shift_body(t1: Seq<Token>, p1: int, t2: Seq<Token>, p2: int)
    requires
        same_from(t1, p1, t2, p2),
    ensures
        agree2(body_spec(t1, p1), body_spec(t2, p2), p2 - p1),
        body_spec(t1, p1) matches Ok((_a, q)) ==> p1 < q <= t1.len(),
{
    lemma_shift_attribute_map(t1, p1, t2, p2, Seq::empty());
    if let Ok((_a, q)) = attribute_map_spec(t1, p1, Seq::empty()) {
        lemma_same_from_skip(t1, p1, t2, p2, q - p1);
        lemma_shift_element_end(t1, q, t2, q + (p2 - p1));
        lemma_same_from_skip(t1, p1, t2, p2, q + 1 - p1);
        lemma_shift_empty_children(t1, q + 1, t2, q + 1 + (p2 - p1), MJ_BODY@);
    }
}

pub proof fn lemma_shift_head_children(
    t1: Seq<Token>,
    p1: int,
    t2: Seq<Token>,
    p2: int,
    acc: Seq<Seq<char>>,
    w: Seq<Warning>,
)
    requires
        same_from(t1, p1, t2, p2),
    ensures
        agree3(head_children_spec(t1, p1, acc, w), head_children_spec(t2, p2, acc, w), p2 - p1),
        head_children_spec(t1, p1, acc, w) matches Ok((_a, q, _w)) ==> p1 <= q < t1.len(),
    decreases t1.len() - p1,
{
    if p1 < t1.len() {
        lemma_same_from_next(t1, p1, t2, p2);
        if t1[p1].is_insignificant() {
            lemma_shift_head_children(t1, p1 + 1, t2, p2 + 1, acc, w);
        } else if let Token::ElementStart { local, span } = t1[p1] {
            lemma_shift_preview(t1, p1 + 1, t2, p2 + 1, w);
            if let Ok((text, q, w1)) = preview_spec(t1, p1 + 1, w) {
                lemma_same_from_skip(t1, p1, t2, p2, q - p1);
                lemma_shift_head_children(t1, q, t2, q + (p2 - p1), acc.push(text), w1);
            }
        }
    }
}

pub proof fn lemma_shift_head(t1: Seq<Token>, p1: int, t2: Seq<Token>, p2: int, w: Seq<Warning>)
    requires
        same_from(t1, p1, t2, p2),
    ensures
        agree3(head_spec(t1, p1, w), head_spec(t2, p2, w), p2 - p1),
        head_spec(t1, p1, w) matches Ok((_a, q, _w)) ==> p1 < q <= t1.len(),
{
    lemma_shift_attribute_map(t1, p1, t2, p2, Seq::empty());
    if let Ok((_a, q)) = attribute_map_spec(t1, p1, Seq::empty()) {
        lemma_same_from_skip(t1, p1, t2, p2, q - p1);
        lemma_shift_element_end(t1, q, t2, q + (p2 - p1));
        lemma_same_from_skip(t1, p1, t2, p2, q + 1 - p1);
        lemma_shift_head_children(t1, q + 1, t2, q + 1 + (p2 - p1), Seq::empty(), w);
    }
}

/// Reading the content of the root element depends only on the tokens from
/// the start position on: the same tokens elsewhere give the same record,
/// with positions moved alike.
pub proof fn lemma_shift_root_children(
    t1: Seq<Token>,
    p1: int,
    t2: Seq<Token>,
    p2: int,
    head: Option<HeadView>,
    body: Option<Seq<(String, Option<String>)>>,
    w: Seq<Warning>,
)
    requires
        same_from(t1, p1, t2, p2),
    ensures
        match (mjml_children_spec(t1, p1, head, body, w), mjml_children_spec(t2, p2, head, body, w)) {
            (Ok((h1, b1, q1, w1)), Ok((h2, b2, q2, w2))) => h1 == h2 && b1 == b2 && w1 == w2 && q2
                == q1 + (p2 - p1),
            (Err(e1), Err(e2)) => e1 == e2,
            _ => false,
        },
    decreases t1.len() - p1,
{
    if p1 < t1.len() {
        lemma_same_from_next(t1, p1, t2, p2);
        if t1[p1].is_insignificant() {
            lemma_shift_root_children(t1, p1 + 1, t2, p2 + 1, head, body, w);
        } else if let Token::ElementStart { local, span } = t1[p1] {
            lemma_shift_head(t1, p1 + 1, t2, p2 + 1, w);
            lemma_shift_body(t1, p1 + 1, t2, p2 + 1);
            if local@ == MJ_HEAD@ {
                if let Ok((h, q, w1)) = head_spec(t1, p1 + 1, w) {
                    lemma_same_from_skip(t1, p1, t2, p2, q - p1);
                    lemma_shift_root_children(t1, q, t2, q + (p2 - p1), Some(h), body, w1);
                }
            } else if local@ == MJ_BODY@ {
                if let Ok((b, q)) = body_spec(t1, p1 + 1) {
                    lemma_same_from_skip(t1, p1, t2, p2, q - p1);
                    lemma_shift_root_children(t1, q, t2, q + (p2 - p1), head, Some(b), w);
                }
            }
        }
    }
}


/// `t1` and `t2` hold the same tokens from `a` up to `b`.
pub open spec fn agree_on(t1: Seq<Token>, t2: Seq<Token>, a: int, b: int) -> bool {
    &&& 0 <= a
    &&& b <= t1.len()
    &&& b <= t2.len()
    &&& forall|i: int| a <= i < b ==> #[trigger] t1[i] == t2[i]
}

proof fn lemma_prefix_attribute_map(
    t1: Seq<Token>,
    t2: Seq<Token>,
    p: int,
    acc: Seq<(String, Option<String>)>,
)
    requires
        attribute_map_spec(t1, p, acc) matches Ok((_a, q)) && agree_on(t1, t2, p, q + 1),
    ensures
        attribute_map_spec(t2, p, acc) == attribute_map_spec(t1, p, acc),
    decreases t1.len() - p,
{
    lemma_shift_attribute_map(t1, p, t1, p, acc);
    if let Token::Attribute { local, value, .. } = t1[p] {
        lemma_shift_attribute_map(t1, p + 1, t1, p + 1, acc.push((local, value)));
        lemma_prefix_attribute_map(t1, t2, p + 1, acc.push((local, value)));
    }
    assert(t1[p] == t2[p]);
}

proof fn lemma_prefix_unknown_attributes(t1: Seq<Token>, t2: Seq<Token>, p: int, w: Seq<Warning>)
    requires
        unknown_attributes_spec(t1, p, w) matches Ok((q, _w)) && agree_on(t1, t2, p, q + 1),
    ensures
        unknown_attributes_spec(t2, p, w) == unknown_attributes_spec(t1, p, w),
    decreases t1.len() - p,
{
    lemma_shift_unknown_attributes(t1, p, t1, p, w);
    if let Token::Attribute { span, .. } = t1[p] {
        let w1 = w.push(crate::mjml::unexpected_attribute(span));
        lemma_shift_unknown_attributes(t1, p + 1, t1, p + 1, w1);
        lemma_prefix_unknown_attributes(t1, t2, p + 1, w1);
    }
    assert(t1[p] == t2[p]);
}

proof fn lemma_prefix_empty_children(t1: Seq<Token>, t2: Seq<Token>, p: int, name: Seq<char>)
    requires
        empty_children_spec(t1, p, name) matches Ok(q) && agree_on(t1, t2, p, q + 1),
    ensures
        empty_children_spec(t2, p, name) == empty_children_spec(t1, p, name),
    decreases t1.len() - p,
{
    lemma_shift_empty_children(t1, p, t1, p, name);
    if !t1[p].closes(name) {
        lemma_shift_empty_children(t1, p + 1, t1, p + 1, name);
        lemma_prefix_empty_children(t1, t2, p + 1, name);
    }
    assert(t1[p] == t2[p]);
}

proof fn lemma_prefix_preview_text(t1: Seq<Token>, t2: Seq<Token>, p: int, acc: Seq<char>)
    requires
        preview_text_spec(t1, p, acc) matches Ok((_s, q)) && agree_on(t1, t2, p, q + 1),
    ensures
        preview_text_spec(t2, p, acc) == preview_text_spec(t1, p, acc),
    decreases t1.len() - p,
{
    lemma_shift_preview_text(t1, p, t1, p, acc);
    if !t1[p].closes(crate::mj_preview::NAME@) {
        match t1[p] {
            Token::Text { text, .. } => {
                lemma_shift_preview_text(t1, p + 1, t1, p + 1, acc + text@);
                lemma_prefix_preview_text(t1, t2, p + 1, acc + text@);
            },
            _ => {
                lemma_shift_preview_text(t1, p + 1, t1, p + 1, acc);
                lemma_prefix_preview_text(t1, t2, p + 1, acc);
            },
        }
    }
    assert(t1[p] == t2[p]);
}

proof fn lemma_prefix_preview(t1: Seq<Token>, t2: Seq<Token>, p: int, w: Seq<Warning>)
    requires
        preview_spec(t1, p, w) matches Ok((_s, q, _w)) && agree_on(t1, t2, p, q),
    ensures
        preview_spec(t2, p, w) == preview_spec(t1, p, w),
{
    lemma_shift_unknown_attributes(t1, p, t1, p, w);
    let (q1, _w1) = unknown_attributes_spec(t1, p, w).unwrap();
    if element_end_spec(t1, q1) == Ok::<bool, Error>(true) {
        lemma_same_from_skip(t1, p, t1, p, q1 + 1 - p);
        lemma_shift_preview_text(t1, q1 + 1, t1, q1 + 1, Seq::empty());
        lemma_prefix_preview_text(t1, t2, q1 + 1, Seq::empty());
    }
    lemma_prefix_unknown_attributes(t1, t2, p, w);
    assert(t1[q1] == t2[q1]);
}

pub proof fn lemma_prefix_body(t1: Seq<Token>, t2: Seq<Token>, p: int)
    requires
        body_spec(t1, p) matches Ok((_a, q)) && agree_on(t1, t2, p, q),
    ensures
        body_spec(t2, p) == body_spec(t1, p),
{
    lemma_shift_attribute_map(t1, p, t1, p, Seq::empty());
    let (_a, q1) = attribute_map_spec(t1, p, Seq::empty()).unwrap();
    if element_end_spec(t1, q1) == Ok::<bool, Error>(true) {
        lemma_same_from_skip(t1, p, t1, p, q1 + 1 - p);
        lemma_shift_empty_children(t1, q1 + 1, t1, q1 + 1, MJ_BODY@);
        lemma_prefix_empty_children(t1, t2, q1 + 1, MJ_BODY@);
    }
    lemma_prefix_attribute_map(t1, t2, p, Seq::empty());
    assert(t1[q1] == t2[q1]);
}

proof fn lemma_prefix_head_children(
    t1: Seq<Token>,
    t2: Seq<Token>,
    p: int,
    acc: Seq<Seq<char>>,
    w: Seq<Warning>,
)
    requires
        head_children_spec(t1, p, acc, w) matches Ok((_c, q, _w)) && agree_on(t1, t2, p, q + 1),
    ensures
        head_children_spec(t2, p, acc, w) == head_children_spec(t1, p, acc, w),
    decreases t1.len() - p,
{
    lemma_shift_head_children(t1, p, t1, p, acc, w);
    if !t1[p].closes(MJ_HEAD@) {
        if t1[p].is_insignificant() {
            lemma_shift_head_children(t1, p + 1, t1, p + 1, acc, w);
            lemma_prefix_head_children(t1, t2, p + 1, acc, w);
        } else {
            let (text, p3, w1) = preview_spec(t1, p + 1, w).unwrap();
            lemma_same_from_skip(t1, p, t1, p, p3 - p);
            lemma_shift_head_children(t1, p3, t1, p3, acc.push(text), w1);
            lemma_prefix_head_children(t1, t2, p3, acc.push(text), w1);
            lemma_prefix_preview(t1, t2, p + 1, w);
        }
    }
    assert(t1[p] == t2[p]);
}

pub proof fn lemma_prefix_head(t1: Seq<Token>, t2: Seq<Token>, p: int, w: Seq<Warning>)
    requires
        head_spec(t1, p, w) matches Ok((_h, q, _w)) && agree_on(t1, t2, p, q),
    ensures
        head_spec(t2, p, w) == head_spec(t1, p, w),
{
    lemma_shift_attribute_map(t1, p, t1, p, Seq::empty());
    let (_a, q1) = attribute_map_spec(t1, p, Seq::empty()).unwrap();
    if element_end_spec(t1, q1) == Ok::<bool, Error>(true) {
        lemma_same_from_skip(t1, p, t1, p, q1 + 1 - p);
        lemma_shift_head_children(t1, q1 + 1, t1, q1 + 1, Seq::empty(), w);
        lemma_prefix_head_children(t1, t2, q1 + 1, Seq::empty(), w);
    }
    lemma_prefix_attribute_map(t1, t2, p, Seq::empty());
    assert(t1[q1] == t2[q1]);
}

} // verus!
