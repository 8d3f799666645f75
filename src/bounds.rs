use vstd::prelude::*;
use crate::mjml::{
    attribute_map_spec, body_spec, element_end_spec, empty_children_spec, head_children_spec,
    head_spec, mjml_attributes_spec, mjml_children_spec, mjml_spec, preview_spec,
    preview_text_spec, root_spec, unknown_attributes_spec, HeadView, MjmlAttributes,
    unexpected_attribute,
};
use crate::parser::{Error, Token, Warning, hazard_from, spans_within};

verus! {

// Each lemma: where every token's span lies within the first `n` bytes, an
// error that reading gives has its span there too.

proof fn lemma_misplaced_within(toks: Seq<Token>, i: int, n: int)
    requires
        spans_within(toks, n),
        0 <= i < toks.len(),
    ensures
        toks[i].misplaced().within(n),
        toks[i] matches Token::ElementStart { span, .. } ==> span.start <= span.end <= n,
{
    assert(toks[i].span_of().start <= toks[i].span_of().end <= n);
}

proof fn lemma_attribute_map_within(toks: Seq<Token>, pos: int, acc: Seq<(String, Option<String>)>, n: int)
    requires spans_within(toks, n),
    ensures attribute_map_spec(toks, pos, acc) matches Err(e) ==> e.within(n),
    decreases toks.len() - pos,
{
    if 0 <= pos < toks.len() {
        lemma_misplaced_within(toks, pos, n);
        if let Token::Attribute { local, value, .. } = toks[pos] {
            lemma_attribute_map_within(toks, pos + 1, acc.push((local, value)), n);
        }
    }
}

proof fn lemma_unknown_attributes_within(toks: Seq<Token>, pos: int, w: Seq<Warning>, n: int)
    requires spans_within(toks, n),
    ensures unknown_attributes_spec(toks, pos, w) matches Err(e) ==> e.within(n),
    decreases toks.len() - pos,
{
    if 0 <= pos < toks.len() {
        lemma_misplaced_within(toks, pos, n);
        if let Token::Attribute { span, .. } = toks[pos] {
            lemma_unknown_attributes_within(toks, pos + 1, w.push(unexpected_attribute(span)), n);
        }
    }
}

proof fn lemma_mjml_attributes_within(toks: Seq<Token>, pos: int, acc: MjmlAttributes, w: Seq<Warning>, n: int)
    requires spans_within(toks, n),
    ensures mjml_attributes_spec(toks, pos, acc, w) matches Err(e) ==> e.within(n),
    decreases toks.len() - pos,
{
    if 0 <= pos < toks.len() {
        lemma_misplaced_within(toks, pos, n);
        if let Token::Attribute { local, value, span } = toks[pos] {
            let next = if local@ == "owa"@ {
                MjmlAttributes { owa: value, lang: acc.lang, dir: acc.dir }
            } else if local@ == "lang"@ {
                MjmlAttributes { owa: acc.owa, lang: value, dir: acc.dir }
            } else if local@ == "dir"@ {
                MjmlAttributes { owa: acc.owa, lang: acc.lang, dir: value }
            } else {
                acc
            };
            let w1 = if local@ == "owa"@ || local@ == "lang"@ || local@ == "dir"@ {
                w
            } else {
                w.push(unexpected_attribute(span))
            };
            lemma_mjml_attributes_within(toks, pos + 1, next, w1, n);
        }
    }
}

proof fn lemma_element_end_within(toks: Seq<Token>, pos: int, n: int)
    requires spans_within(toks, n),
    ensures element_end_spec(toks, pos) matches Err(e) ==> e.within(n),
{
    if 0 <= pos < toks.len() {
        lemma_misplaced_within(toks, pos, n);
    }
}

proof fn lemma_empty_children_within(toks: Seq<Token>, pos: int, name: Seq<char>, n: int)
    requires spans_within(toks, n),
    ensures empty_children_spec(toks, pos, name) matches Err(e) ==> e.within(n),
    decreases toks.len() - pos,
{
    if 0 <= pos < toks.len() {
        lemma_misplaced_within(toks, pos, n);
        lemma_empty_children_within(toks, pos + 1, name, n);
    }
}

proof fn lemma_preview_text_within(toks: Seq<Token>, pos: int, acc: Seq<char>, n: int)
    requires spans_within(toks, n),
    ensures preview_text_spec(toks, pos, acc) matches Err(e) ==> e.within(n),
    decreases toks.len() - pos,
{
    if 0 <= pos < toks.len() {
        lemma_misplaced_within(toks, pos, n);
        match toks[pos] {
            Token::Text { text, .. } => lemma_preview_text_within(toks, pos + 1, acc + text@, n),
            _ => lemma_preview_text_within(toks, pos + 1, acc, n),
        }
    }
}

proof fn lemma_preview_within(toks: Seq<Token>, pos: int, w: Seq<Warning>, n: int)
    requires spans_within(toks, n),
    ensures preview_spec(toks, pos, w) matches Err(e) ==> e.within(n),
{
    lemma_unknown_attributes_within(toks, pos, w, n);
    if let Ok((p1, _w1)) = unknown_attributes_spec(toks, pos, w) {
        lemma_element_end_within(toks, p1, n);
        lemma_preview_text_within(toks, p1 + 1, Seq::empty(), n);
    }
}

proof fn lemma_body_within(toks: Seq<Token>, pos: int, n: int)
    requires spans_within(toks, n),
    ensures body_spec(toks, pos) matches Err(e) ==> e.within(n),
{
    lemma_attribute_map_within(toks, pos, Seq::empty(), n);
    if let Ok((_a, p1)) = attribute_map_spec(toks, pos, Seq::empty()) {
        lemma_element_end_within(toks, p1, n);
        lemma_empty_children_within(toks, p1 + 1, crate::mjml::MJ_BODY@, n);
    }
}

proof fn lemma_head_children_within(toks: Seq<Token>, pos: int, acc: Seq<Seq<char>>, w: Seq<Warning>, n: int)
    requires spans_within(toks, n),
    ensures head_children_spec(toks, pos, acc, w) matches Err(e) ==> e.within(n),
    decreases toks.len() - pos,
{
    if 0 <= pos < toks.len() {
        lemma_misplaced_within(toks, pos, n);
        if toks[pos].is_insignificant() {
            lemma_head_children_within(toks, pos + 1, acc, w, n);
        } else {
            lemma_preview_within(toks, pos + 1, w, n);
            if let Ok((text, p, w1)) = preview_spec(toks, pos + 1, w) {
                if pos < p <= toks.len() {
                    lemma_head_children_within(toks, p, acc.push(text), w1, n);
                }
            }
        }
    }
}

proof fn lemma_head_within(toks: Seq<Token>, pos: int, w: Seq<Warning>, n: int)
    requires spans_within(toks, n),
    ensures head_spec(toks, pos, w) matches Err(e) ==> e.within(n),
{
    lemma_attribute_map_within(toks, pos, Seq::empty(), n);
    if let Ok((_a, p1)) = attribute_map_spec(toks, pos, Seq::empty()) {
        lemma_element_end_within(toks, p1, n);
        lemma_head_children_within(toks, p1 + 1, Seq::empty(), w, n);
    }
}

proof fn lemma_mjml_children_within(
    toks: Seq<Token>,
    pos: int,
    head: Option<HeadView>,
    body: Option<Seq<(String, Option<String>)>>,
    w: Seq<Warning>,
    n: int,
)
    requires spans_within(toks, n),
    ensures mjml_children_spec(toks, pos, head, body, w) matches Err(e) ==> e.within(n),
    decreases toks.len() - pos,
{
    if 0 <= pos < toks.len() {
        lemma_misplaced_within(toks, pos, n);
        if toks[pos].is_insignificant() {
            lemma_mjml_children_within(toks, pos + 1, head, body, w, n);
        } else {
            lemma_head_within(toks, pos + 1, w, n);
            lemma_body_within(toks, pos + 1, n);
            if let Ok((h, p, w1)) = head_spec(toks, pos + 1, w) {
                if pos < p <= toks.len() {
                    lemma_mjml_children_within(toks, p, Some(h), body, w1, n);
                }
            }
            if let Ok((b, p)) = body_spec(toks, pos + 1) {
                if pos < p <= toks.len() {
                    lemma_mjml_children_within(toks, p, head, Some(b), w, n);
                }
            }
        }
    }
}

/// A document read from tokens whose spans lie within the first `n` bytes
/// fails, if at all, with an error whose span lies there too.
pub proof fn lemma_root_within(toks: Seq<Token>, pos: int, w: Seq<Warning>, n: int)
    requires spans_within(toks, n),
    ensures root_spec(toks, pos, w) matches Err(e) ==> e.within(n),
    decreases toks.len() - pos,
{
    if 0 <= pos < toks.len() {
        lemma_misplaced_within(toks, pos, n);
        if toks[pos].is_insignificant() {
            lemma_root_within(toks, pos + 1, w, n);
        } else {
            lemma_mjml_attributes_within(toks, pos + 1, crate::mjml::no_attributes(), w, n);
            if let Ok((_a, p1, w1)) = mjml_attributes_spec(toks, pos + 1, crate::mjml::no_attributes(), w) {
                lemma_element_end_within(toks, p1, n);
                lemma_mjml_children_within(toks, p1 + 1, None, None, w1, n);
            }
        }
    }
}

/// The piece of text that the tokenizer cannot take lies within the text.
pub proof fn lemma_hazard_within(b: Seq<u8>, i: int, outside: bool)
    requires
        b.len() <= usize::MAX,
    ensures hazard_from(b, i, outside) matches Some(e) ==> e.within(b.len() as int),
    decreases b.len() - i,
{
    if 0 <= i < b.len() {
        lemma_hazard_within(b, i + 1, false);
        lemma_hazard_within(b, i + 1, true);
        lemma_hazard_within(b, i + 1, outside);
    }
}

} // verus!
