//! Tests of the template evaluator: concatenation order, fail-fast
//! missing fields, numeric formatting, and error messages.

use tag_rename::compile;
use tag_rename::decimal_string;
use tag_rename::evaluate;
use tag_rename::Error;
use tag_rename::EvalError;
use tag_rename::Field;
use tag_rename::MetadataRecord;

fn empty_record() -> MetadataRecord {
    MetadataRecord { album: None, artist: None, title: None, track: None, year: None }
}

fn full_record() -> MetadataRecord {
    MetadataRecord {
        album: Some("Music Has the Right to Children".to_string()),
        artist: Some("Boards of Canada".to_string()),
        title: Some("Roygbiv".to_string()),
        track: Some(7),
        year: Some(1998),
    }
}

fn render(template: &str, record: &MetadataRecord) -> Result<String, EvalError> {
    let compiled = compile(template).expect("template should compile");
    evaluate(&compiled, record)
}

#[test]
fn literal_template_round_trips_unchanged() {
    let template = "no references here, 100% literal";
    assert_eq!(render(template, &empty_record()).as_deref(), Ok(template));
    assert_eq!(render(template, &full_record()).as_deref(), Ok(template));
}

#[test]
fn empty_template_evaluates_to_empty_string() {
    assert_eq!(render("", &empty_record()).as_deref(), Ok(""));
}

#[test]
fn output_preserves_element_order() {
    assert_eq!(
        render("%artist - %title", &full_record()).as_deref(),
        Ok("Boards of Canada - Roygbiv")
    );
}

#[test]
fn all_fields_resolve() {
    assert_eq!(
        render("%track. %artist - %title (%album, %year)", &full_record()).as_deref(),
        Ok("7. Boards of Canada - Roygbiv (Music Has the Right to Children, 1998)")
    );
}

#[test]
fn missing_field_fails_fast() {
    let mut record = full_record();
    record.album = None;
    assert_eq!(
        render("%album %artist", &record),
        Err(EvalError::MissingField(Field::Album))
    );
}

#[test]
fn first_missing_field_wins() {
    assert_eq!(
        render("%title %album", &empty_record()),
        Err(EvalError::MissingField(Field::Title))
    );
}

#[test]
fn missing_field_after_resolved_one_is_reported() {
    let mut record = full_record();
    record.year = None;
    assert_eq!(
        render("%artist (%year)", &record),
        Err(EvalError::MissingField(Field::Year))
    );
}

#[test]
fn track_number_formats_without_padding() {
    assert_eq!(render("%track", &full_record()).as_deref(), Ok("7"));
}

#[test]
fn year_formats_as_plain_decimal() {
    assert_eq!(render("%year", &full_record()).as_deref(), Ok("1998"));
}

#[test]
fn decimal_rendering_is_canonical() {
    assert_eq!(decimal_string(0), "0");
    assert_eq!(decimal_string(7), "7");
    assert_eq!(decimal_string(10), "10");
    assert_eq!(decimal_string(1998), "1998");
    assert_eq!(decimal_string(u32::MAX), "4294967295");
}

#[test]
fn display_names_are_canonical() {
    assert_eq!(Field::Album.display_name(), "Album");
    assert_eq!(Field::Artist.display_name(), "Artist");
    assert_eq!(Field::Title.display_name(), "Title");
    assert_eq!(Field::Track.display_name(), "Track");
    assert_eq!(Field::Year.display_name(), "Year");
}

#[test]
fn error_messages_match_the_tool_output() {
    let compile_err = match compile("%bogus") {
        Err(e) => e,
        Ok(_) => panic!("template should be rejected"),
    };
    assert_eq!(Error::from_compile(compile_err).message(), "bad format key: bogus");

    let eval_err = render("%album", &empty_record()).expect_err("album should be missing");
    assert_eq!(
        Error::from_eval(eval_err).message(),
        "missing required tag: Album"
    );

    let source = Error::from_source("no tags found".to_string());
    assert_eq!(source.message(), "no tags found");
    assert_eq!(source, Error::Source("no tags found".to_string()));
}
