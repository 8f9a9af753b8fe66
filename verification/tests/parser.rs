//! Tests for the phrase parser: normalization, classification and assembly.

use text_engine::parser::Parser;

#[test]
fn parses_verb_and_object() {
    let cmd = Parser::parse("take water").unwrap();
    assert_eq!(cmd.verb.as_deref(), Some("take"));
    assert_eq!(cmd.obj.as_deref(), Some("water"));
    assert_eq!(cmd.prep, None);
    assert_eq!(cmd.obj_prep, None);
}

#[test]
fn lowercases_and_drops_stop_words() {
    let cmd = Parser::parse("Put the Tea Bag in THE mug").unwrap();
    assert_eq!(cmd.verb.as_deref(), Some("put"));
    assert_eq!(cmd.obj.as_deref(), Some("tea bag"));
    assert_eq!(cmd.prep.as_deref(), Some("in"));
    assert_eq!(cmd.obj_prep.as_deref(), Some("mug"));
}

#[test]
fn joins_multi_word_phrases_on_both_sides() {
    let cmd = Parser::parse("put hot water in tea mug").unwrap();
    assert_eq!(cmd.obj.as_deref(), Some("hot water"));
    assert_eq!(cmd.obj_prep.as_deref(), Some("tea mug"));
}

#[test]
fn bare_direction_is_a_command() {
    let cmd = Parser::parse("n").unwrap();
    assert_eq!(cmd.verb.as_deref(), Some("n"));
    assert_eq!(cmd.obj, None);
}

#[test]
fn go_direction_collapses_to_direction() {
    // "go" is a stop-word, so "go north" is the bare direction "north".
    let cmd = Parser::parse("go north").unwrap();
    assert_eq!(cmd.verb.as_deref(), Some("north"));
    assert_eq!(cmd.obj, None);
}

#[test]
fn empty_input_fails() {
    assert!(matches!(Parser::parse(""), Err("I didn't get that, come again?")));
}

#[test]
fn whitespace_only_input_fails() {
    assert!(Parser::parse("   \t  ").is_err());
}

#[test]
fn stop_words_only_fails() {
    // Every word is dropped during normalization, so nothing can parse.
    assert!(Parser::parse("the a an of").is_err());
    assert!(Parser::parse("To The").is_err());
}

#[test]
fn preposition_without_following_object_fails() {
    assert!(Parser::parse("put water in").is_err());
}

#[test]
fn second_preposition_fails() {
    assert!(Parser::parse("put water in mug in cupboard").is_err());
}

#[test]
fn direction_after_verb_fails() {
    assert!(Parser::parse("walk north").is_err());
}

#[test]
fn verb_alone_parses() {
    let cmd = Parser::parse("inventory").unwrap();
    assert_eq!(cmd.verb.as_deref(), Some("inventory"));
    assert_eq!(cmd.obj, None);
}
