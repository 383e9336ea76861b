//! Tests of the template compiler: tokenization, field parsing, the
//! error taxonomy, and the documented policy for `%` characters that
//! start no field reference.

use tag_rename::compile;
use tag_rename::CompileError;
use tag_rename::CompiledTemplate;
use tag_rename::Element;
use tag_rename::Field;

fn lit(text: &str) -> Element {
    Element::Literal(text.to_string())
}

fn elements(template: &str) -> Vec<Element> {
    compile(template).expect("template should compile").elements
}

fn unknown_key(template: &str) -> String {
    match compile(template) {
        Ok(_) => panic!("template should be rejected"),
        Err(CompileError::UnknownField(key)) => key,
    }
}

#[test]
fn empty_template_compiles_to_no_elements() {
    assert_eq!(elements(""), vec![]);
}

#[test]
fn literal_only_template_is_one_literal() {
    assert_eq!(elements("just a name"), vec![lit("just a name")]);
}

#[test]
fn each_known_field_parses() {
    assert_eq!(elements("%album"), vec![Element::FieldRef(Field::Album)]);
    assert_eq!(elements("%artist"), vec![Element::FieldRef(Field::Artist)]);
    assert_eq!(elements("%title"), vec![Element::FieldRef(Field::Title)]);
    assert_eq!(elements("%track"), vec![Element::FieldRef(Field::Track)]);
    assert_eq!(elements("%year"), vec![Element::FieldRef(Field::Year)]);
}

#[test]
fn fields_and_literals_keep_source_order() {
    assert_eq!(
        elements("%artist - %title"),
        vec![
            Element::FieldRef(Field::Artist),
            lit(" - "),
            Element::FieldRef(Field::Title),
        ]
    );
}

#[test]
fn adjacent_literal_text_is_one_element() {
    assert_eq!(
        elements("%track. some - long.name"),
        vec![Element::FieldRef(Field::Track), lit(". some - long.name")]
    );
}

#[test]
fn unknown_field_is_rejected() {
    assert_eq!(unknown_key("%bogus"), "bogus");
}

#[test]
fn unknown_key_is_reported_without_percent() {
    assert_eq!(unknown_key("a %nope b"), "nope");
}

#[test]
fn field_keys_are_case_sensitive() {
    // An uppercase letter cannot start a key, so `%Album` is a literal;
    // a key that merely extends a known one is unknown.
    assert_eq!(elements("%Album"), vec![lit("%Album")]);
    assert_eq!(unknown_key("%albumx"), "albumx");
}

#[test]
fn first_unknown_key_wins() {
    assert_eq!(unknown_key("%artist %bogus %nope"), "bogus");
}

#[test]
fn field_from_key_covers_the_closed_set() {
    assert_eq!(Field::from_key("album"), Some(Field::Album));
    assert_eq!(Field::from_key("artist"), Some(Field::Artist));
    assert_eq!(Field::from_key("title"), Some(Field::Title));
    assert_eq!(Field::from_key("track"), Some(Field::Track));
    assert_eq!(Field::from_key("year"), Some(Field::Year));
    assert_eq!(Field::from_key("Album"), None);
    assert_eq!(Field::from_key(""), None);
    assert_eq!(Field::from_key("genre"), None);
}

#[test]
fn lone_percent_is_a_literal() {
    // The pinned policy for a `%` with no following lowercase letter:
    // it starts a literal token of its own.
    assert_eq!(elements("%"), vec![lit("%")]);
    assert_eq!(elements("a%"), vec![lit("a"), lit("%")]);
    assert_eq!(elements("%%"), vec![lit("%"), lit("%")]);
    assert_eq!(elements("%3x"), vec![lit("%3x")]);
    assert_eq!(elements("%%artist"), vec![lit("%"), Element::FieldRef(Field::Artist)]);
}

#[test]
fn compilation_is_idempotent() {
    let template = "%track - %artist - %title (%year)";
    let first: CompiledTemplate = compile(template).expect("should compile");
    let second: CompiledTemplate = compile(template).expect("should compile");
    assert_eq!(first.elements, second.elements);
}

#[test]
fn elements_cover_every_character() {
    // Rebuilding the source text of each element reconstructs the
    // template: no character is lost or duplicated.
    for template in [
        "",
        "%artist - %title",
        "a% b%%-c %track%",
        "%album%year x",
        "100% %track",
    ] {
        let rebuilt: String = elements(template)
            .iter()
            .map(|e| match e {
                Element::Literal(text) => text.clone(),
                Element::FieldRef(Field::Album) => "%album".to_string(),
                Element::FieldRef(Field::Artist) => "%artist".to_string(),
                Element::FieldRef(Field::Title) => "%title".to_string(),
                Element::FieldRef(Field::Track) => "%track".to_string(),
                Element::FieldRef(Field::Year) => "%year".to_string(),
            })
            .collect::<Vec<_>>()
            .concat();
        assert_eq!(rebuilt, template);
    }
}
