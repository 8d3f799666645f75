use mrml_core::mj_hero::MjHeroTag;
use mrml_core::mj_preview::MJPreview;
use mrml_core::mjml::Mjml;
use mrml_core::parser::{Error, IncludeLoader, IncludeLoaderError, Origin, ParseOutput, ParserOptions, Span, WarningKind};

#[test]
fn should_parse_with_options_sync() {
    let template = "<mjml></mjml>";
    let output = Mjml::parse_with_options(template, &Default::default()).unwrap();
    assert!(output.element.children.body.is_none());
    assert!(output.element.children.head.is_none());
}

#[test]
fn should_parse_sync() {
    let template = "<mjml></mjml>";
    let output = Mjml::parse(template).unwrap();
    assert!(output.element.children.body.is_none());
    assert!(output.element.children.head.is_none());
}

#[test]
fn should_parse_without_children_sync() {
    let template = "<mjml />";
    let output: ParseOutput<Mjml> = Mjml::parse(template).unwrap();
    assert!(output.element.children.body.is_none());
    assert!(output.element.children.head.is_none());
}

#[test]
fn should_parse_with_lang_sync() {
    let template = "<mjml lang=\"fr\"></mjml>";
    let output = Mjml::parse(template).unwrap();
    assert_eq!(output.element.attributes.lang.unwrap(), "fr");
}

#[test]
fn should_parse_with_owa() {
    let template = "<mjml owa=\"desktop\"></mjml>";
    let output = Mjml::parse(template).unwrap();
    assert_eq!(output.element.attributes.owa.unwrap(), "desktop");
}

#[test]
fn should_parse_with_dir() {
    let template = "<mjml dir=\"rtl\"></mjml>";
    let output = Mjml::parse(template).unwrap();
    assert_eq!(output.element.attributes.dir.unwrap(), "rtl");
}

#[test]
fn should_not_fail_with_unknown_param() {
    let template = "<mjml unknown=\"true\"></mjml>";
    let _output = Mjml::parse(template).unwrap();
}

#[test]
#[should_panic(expected = "UnexpectedToken { origin: Root, position: Span { start: 6, end: 11 } }")]
fn should_fail_with_text_as_child() {
    let template = "<mjml>Hello</mjml>";
    let _ = Mjml::parse(template).unwrap();
}

#[test]
#[should_panic(expected = "UnexpectedElement { origin: Root, position: Span { start: 6, end: 10 } }")]
fn should_fail_with_other_child() {
    let template = "<mjml><div /></mjml>";
    let _ = Mjml::parse(template).unwrap();
}

#[test]
fn empty_root_has_no_warnings_and_no_attributes() {
    let output = Mjml::parse("<mjml></mjml>").unwrap();
    assert!(output.warnings.is_empty());
    assert!(output.element.attributes.lang.is_none());
    assert!(output.element.attributes.owa.is_none());
    assert!(output.element.attributes.dir.is_none());
}

#[test]
fn lang_only_leaves_other_attributes_absent() {
    let output = Mjml::parse("<mjml lang=\"fr\"></mjml>").unwrap();
    assert!(output.warnings.is_empty());
    assert!(output.element.attributes.owa.is_none());
    assert!(output.element.attributes.dir.is_none());
}

#[test]
fn unknown_attribute_gives_one_warning_at_its_span() {
    let output = Mjml::parse("<mjml unknown=\"true\"></mjml>").unwrap();
    assert_eq!(output.warnings.len(), 1);
    assert_eq!(output.warnings[0].kind, WarningKind::UnexpectedAttribute);
    assert_eq!(output.warnings[0].span, Span { start: 6, end: 20 });
    assert!(output.element.attributes.lang.is_none());
}

#[test]
fn unknown_attributes_are_warned_in_order() {
    let output = Mjml::parse("<mjml a=\"1\" lang=\"en\" b=\"2\"></mjml>").unwrap();
    assert_eq!(output.warnings.len(), 2);
    assert_eq!(output.warnings[0].span, Span { start: 6, end: 11 });
    assert_eq!(output.warnings[1].span, Span { start: 22, end: 27 });
    assert_eq!(output.element.attributes.lang.unwrap(), "en");
}

#[test]
fn self_closing_and_open_close_agree() {
    let a = Mjml::parse("<mjml lang=\"fr\" />").unwrap();
    let b = Mjml::parse("<mjml lang=\"fr\"></mjml>").unwrap();
    assert_eq!(a.element.attributes.lang, b.element.attributes.lang);
    assert!(a.element.children.head.is_none() && b.element.children.head.is_none());
    assert!(a.element.children.body.is_none() && b.element.children.body.is_none());
    assert_eq!(a.warnings.len(), b.warnings.len());
}

#[test]
fn head_and_body_fill_their_slots() {
    let output = Mjml::parse(
        "<mjml><mj-head><mj-preview>Hi there</mj-preview></mj-head><mj-body width=\"600px\"></mj-body></mjml>",
    )
    .unwrap();
    let head = output.element.children.head.unwrap();
    assert_eq!(head.children.len(), 1);
    assert_eq!(head.children[0].content(), "Hi there");
    let body = output.element.children.body.unwrap();
    assert_eq!(body.attributes.len(), 1);
    assert_eq!(body.attributes[0].0, "width");
    assert_eq!(body.attributes[0].1.as_deref(), Some("600px"));
}

#[test]
fn whitespace_and_comments_between_children_are_ignored() {
    let plain = Mjml::parse("<mjml><mj-head /><mj-body /></mjml>").unwrap();
    let spaced = Mjml::parse("<mjml>\n  <!-- c -->\n  <mj-head />\n  <mj-body />\n</mjml>").unwrap();
    assert!(plain.element.children.head.is_some() && spaced.element.children.head.is_some());
    assert!(plain.element.children.body.is_some() && spaced.element.children.body.is_some());
    assert!(spaced.warnings.is_empty());
}

#[test]
fn preview_keeps_its_text() {
    let output = Mjml::parse("<mjml><mj-head><mj-preview>  a <!-- x --> b </mj-preview></mj-head></mjml>").unwrap();
    let head = output.element.children.head.unwrap();
    assert_eq!(head.children[0].content(), "  a  b ");
}

#[test]
fn preview_attribute_is_a_warning() {
    let output = Mjml::parse("<mjml><mj-head><mj-preview x=\"1\">t</mj-preview></mj-head></mjml>").unwrap();
    assert_eq!(output.warnings.len(), 1);
    assert_eq!(output.warnings[0].span, Span { start: 27, end: 32 });
}

#[test]
fn unexpected_element_in_body() {
    let err = Mjml::parse("<mjml><mj-body><p></p></mj-body></mjml>").err().unwrap();
    assert_eq!(err, Error::UnexpectedElement { origin: Origin::Root, position: Span { start: 15, end: 17 } });
}

#[test]
fn wrong_root_is_unexpected_element() {
    let err = Mjml::parse("<div></div>").err().unwrap();
    assert_eq!(err, Error::UnexpectedElement { origin: Origin::Root, position: Span { start: 0, end: 4 } });
}

#[test]
fn unclosed_root_is_end_of_stream() {
    let err = Mjml::parse("<mjml>").err().unwrap();
    assert_eq!(err, Error::EndOfStream { origin: Origin::Root });
}

#[test]
fn malformed_text_is_a_parser_error() {
    let err = Mjml::parse("<mjml lang=fr></mjml>").err().unwrap();
    assert!(matches!(err, Error::ParserError { origin: Origin::Root, .. }));
}

#[test]
fn empty_text_is_end_of_stream() {
    let err = Mjml::parse("").err().unwrap();
    assert_eq!(err, Error::EndOfStream { origin: Origin::Root });
}

#[test]
fn preview_content_and_hero_tag() {
    let p = MJPreview::from("hello".to_string());
    assert_eq!(p.content(), "hello");
    assert_eq!(MjHeroTag::static_tag(), "mj-hero");
}

#[test]
fn previews_keep_document_order() {
    let output = Mjml::parse(
        "<mjml><mj-head><mj-preview>one</mj-preview> <mj-preview>two</mj-preview></mj-head><mj-body /></mjml>",
    )
    .unwrap();
    let head = output.element.children.head.unwrap();
    assert_eq!(head.children.len(), 2);
    assert_eq!(head.children[0].content(), "one");
    assert_eq!(head.children[1].content(), "two");
    assert!(output.element.children.body.is_some());
    assert!(output.warnings.is_empty());
}

#[test]
fn second_head_replaces_first() {
    let output = Mjml::parse(
        "<mjml><mj-head><mj-preview>a</mj-preview></mj-head><mj-head /></mjml>",
    )
    .unwrap();
    assert!(output.element.children.head.unwrap().children.is_empty());
}

#[test]
fn element_in_preview_is_unexpected() {
    let err = Mjml::parse("<mjml><mj-head><mj-preview><b>x</b></mj-preview></mj-head></mjml>").err().unwrap();
    assert_eq!(err, Error::UnexpectedElement { origin: Origin::Root, position: Span { start: 27, end: 29 } });
}

#[test]
fn unknown_child_of_head_is_unexpected() {
    let err = Mjml::parse("<mjml><mj-head><mj-title /></mj-head></mjml>").err().unwrap();
    assert_eq!(err, Error::UnexpectedElement { origin: Origin::Root, position: Span { start: 15, end: 24 } });
}

#[test]
fn malformed_conditional_comment_is_an_error() {
    let err = Mjml::parse("<mjml><!--[if IE]x</mjml>").err().unwrap();
    assert_eq!(err, Error::ConditionalComment { origin: Origin::Root, position: Span { start: 6, end: 13 } });
}

#[test]
fn conditional_comment_after_root_is_an_error() {
    let err = Mjml::parse("<mjml></mjml><![endif x").err().unwrap();
    assert_eq!(err, Error::ConditionalComment { origin: Origin::Root, position: Span { start: 13, end: 21 } });
}

#[test]
fn revealed_conditional_comment_is_an_error() {
    let err = Mjml::parse("<mjml><![if !IE]></mjml>").err().unwrap();
    assert_eq!(err, Error::ConditionalComment { origin: Origin::Root, position: Span { start: 6, end: 11 } });
}

#[test]
fn non_breaking_space_is_blank() {
    let output = Mjml::parse("<mjml>\u{a0}\u{3000}<mj-body /></mjml>").unwrap();
    assert!(output.element.children.body.is_some());
}

#[test]
fn conditional_marker_inside_comment_is_accepted() {
    let output = Mjml::parse("<mjml><!-- <![if x --></mjml>").unwrap();
    assert!(output.element.children.head.is_none());
}

#[test]
fn multibyte_character_before_text_angle_is_an_error() {
    let err = Mjml::parse("<mjml>€></mjml>").err().unwrap();
    assert_eq!(err, Error::SplitCharacter { origin: Origin::Root, position: Span { start: 7, end: 10 } });
}

#[test]
fn multibyte_character_in_preview_before_angle_is_an_error() {
    let err = Mjml::parse("<mjml><mj-head><mj-preview>日本></mj-preview></mj-head></mjml>").err().unwrap();
    assert!(matches!(err, Error::SplitCharacter { origin: Origin::Root, .. }));
}

#[test]
fn multibyte_attribute_value_is_accepted() {
    let output = Mjml::parse("<mjml lang=\"fé\"></mjml>").unwrap();
    assert_eq!(output.element.attributes.lang.unwrap(), "fé");
}

#[test]
fn multibyte_preview_text_is_kept() {
    let output = Mjml::parse("<mjml><mj-head><mj-preview>日本 x</mj-preview></mj-head></mjml>").unwrap();
    assert_eq!(output.element.children.head.unwrap().children[0].content(), "日本 x");
}

struct OneFragment;

impl IncludeLoader for OneFragment {
    fn resolve(&self, name: &str) -> Result<String, IncludeLoaderError> {
        if name == "header" {
            Ok("<mj-head />".to_string())
        } else {
            Err(IncludeLoaderError::NotFound)
        }
    }
}

#[test]
fn parse_with_a_custom_loader() {
    let options = ParserOptions { include_loader: Box::new(OneFragment) };
    assert!(options.include_loader.resolve("other").is_err());
    let output = Mjml::parse_with_options("<mjml><mj-body /></mjml>", &options).unwrap();
    assert!(output.element.children.body.is_some());
}
