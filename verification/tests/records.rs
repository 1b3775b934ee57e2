use gedcom::error::{Block, Expected, ParseError, Unhandled};
use gedcom::parser::Parser;
use gedcom::tokenizer::Token;
use gedcom::tree::GedcomData;
use gedcom::types::{EventType, FamilyLinkType, Gender, Pedigree};

fn level(n: u8) -> Token {
    Token::Level(n)
}

fn pointer(s: &str) -> Token {
    Token::Pointer(s.to_string())
}

fn tag(s: &str) -> Token {
    Token::Tag(s.to_string())
}

fn value(s: &str) -> Token {
    Token::LineValue(s.to_string())
}

fn text(s: &str) -> Option<String> {
    Some(s.to_string())
}

fn parse(tokens: Vec<Token>) -> Result<GedcomData, ParseError> {
    Parser::new(tokens).parse_record()
}

fn trailer() -> Vec<Token> {
    vec![level(0), tag("TRLR")]
}

fn individual_john() -> Vec<Token> {
    vec![
        level(0),
        pointer("@I1@"),
        tag("INDI"),
        level(1),
        tag("NAME"),
        value("John /Doe/"),
        level(1),
        tag("SEX"),
        value("M"),
        level(1),
        tag("BIRT"),
        level(2),
        tag("DATE"),
        value("1 JAN 1900"),
        level(2),
        tag("PLAC"),
        value("Springfield"),
        level(1),
        tag("FAMC"),
        value("@F1@"),
    ]
}

#[test]
fn individual_with_birth_and_family() {
    let mut tokens = individual_john();
    tokens.extend(trailer());
    let data = parse(tokens).unwrap();
    assert_eq!(data.individuals.len(), 1);
    let person = &data.individuals[0];
    assert_eq!(person.xref, text("@I1@"));
    let name = person.name.as_ref().unwrap();
    assert_eq!(name.value, text("John /Doe/"));
    assert_eq!(name.given, None);
    assert_eq!(name.surname, None);
    assert_eq!(person.sex, Gender::Male);
    assert_eq!(person.events.len(), 1);
    assert_eq!(person.events[0].event, EventType::Birth);
    assert_eq!(person.events[0].date, text("1 JAN 1900"));
    assert_eq!(person.events[0].place, text("Springfield"));
    assert_eq!(person.events[0].source_data, None);
    assert!(person.events[0].citations.is_empty());
    assert_eq!(person.families.len(), 1);
    assert_eq!(person.families[0].xref(), "@F1@");
    assert_eq!(person.families[0].link_type(), FamilyLinkType::Child);
    assert_eq!(person.families[0].pedigree(), None);
    assert!(data.families.is_empty());
    assert!(data.sources.is_empty());
    assert!(data.repositories.is_empty());
    assert!(data.submitters.is_empty());
}

#[test]
fn individual_without_family_lines_has_no_links() {
    let data = parse(vec![
        level(0),
        pointer("@I2@"),
        tag("INDI"),
        level(1),
        tag("SEX"),
        value("F"),
        level(0),
        tag("TRLR"),
    ])
    .unwrap();
    assert_eq!(data.individuals.len(), 1);
    assert!(data.individuals[0].families.is_empty());
    assert_eq!(data.individuals[0].sex, Gender::Female);
    assert_eq!(data.individuals[0].name, None);
}

#[test]
fn second_link_to_same_family_is_dropped() {
    let data = parse(vec![
        level(0),
        pointer("@I1@"),
        tag("INDI"),
        level(1),
        tag("FAMC"),
        value("@F1@"),
        level(2),
        tag("PEDI"),
        value("birth"),
        level(1),
        tag("FAMC"),
        value("@F1@"),
        level(2),
        tag("PEDI"),
        value("adopted"),
        level(1),
        tag("FAMS"),
        value("@F2@"),
        level(0),
        tag("TRLR"),
    ])
    .unwrap();
    let links = &data.individuals[0].families;
    assert_eq!(links.len(), 2);
    assert_eq!(links[0].xref(), "@F1@");
    assert_eq!(links[0].link_type(), FamilyLinkType::Child);
    assert_eq!(links[0].pedigree(), Some(Pedigree::Birth));
    assert_eq!(links[1].xref(), "@F2@");
    assert_eq!(links[1].link_type(), FamilyLinkType::Spouse);
    assert_eq!(links[1].pedigree(), None);
}

#[test]
fn spouse_link_after_child_link_to_same_family_is_dropped() {
    let data = parse(vec![
        level(0),
        tag("INDI"),
        level(1),
        tag("FAMC"),
        value("@F1@"),
        level(1),
        tag("FAMS"),
        value("@F1@"),
        level(0),
        tag("TRLR"),
    ])
    .unwrap();
    let links = &data.individuals[0].families;
    assert_eq!(links.len(), 1);
    assert_eq!(links[0].link_type(), FamilyLinkType::Child);
    assert_eq!(data.individuals[0].xref, None);
}

#[test]
fn last_pedigree_line_of_a_link_counts() {
    let data = parse(vec![
        level(0),
        tag("INDI"),
        level(1),
        tag("FAMC"),
        value("@F1@"),
        level(2),
        tag("PEDI"),
        value("foster"),
        level(2),
        tag("PEDI"),
        value("Sealing"),
        level(0),
        tag("TRLR"),
    ])
    .unwrap();
    assert_eq!(data.individuals[0].families[0].pedigree(), Some(Pedigree::Sealing));
}

fn source_with_title(lines: Vec<Token>) -> Vec<Token> {
    let mut tokens = vec![level(0), pointer("@S1@"), tag("SOUR")];
    tokens.extend(lines);
    tokens.extend(trailer());
    tokens
}

#[test]
fn title_joins_concatenation_and_continuation() {
    let data = parse(source_with_title(vec![
        level(1),
        tag("TITL"),
        value("firstpart"),
        level(2),
        tag("CONC"),
        value("secondpart"),
        level(2),
        tag("CONT"),
        value("thirdpart"),
    ]))
    .unwrap();
    assert_eq!(data.sources[0].title, text("firstpart secondpart\nthirdpart"));
    assert_eq!(data.sources[0].abbreviation, None);
}

#[test]
fn title_with_two_concatenations_and_one_continuation() {
    let data = parse(source_with_title(vec![
        level(1),
        tag("TITL"),
        value("a"),
        level(2),
        tag("CONC"),
        value("b"),
        level(2),
        tag("CONC"),
        value("c"),
        level(2),
        tag("CONT"),
        value("d"),
    ]))
    .unwrap();
    assert_eq!(data.sources[0].title, text("a b c\nd"));
}

#[test]
fn abbreviation_without_continuation_is_the_line_value() {
    let data = parse(source_with_title(vec![level(1), tag("ABBR"), value("Census")])).unwrap();
    assert_eq!(data.sources[0].abbreviation, text("Census"));
    assert_eq!(data.sources[0].title, None);
    assert_eq!(data.sources[0].xref, text("@S1@"));
}

fn individual_of_gender(letter: &str) -> Result<GedcomData, ParseError> {
    parse(vec![
        level(0),
        tag("INDI"),
        level(1),
        tag("SEX"),
        value(letter),
        level(0),
        tag("TRLR"),
    ])
}

#[test]
fn gender_letters_map_to_genders() {
    assert_eq!(individual_of_gender("M").unwrap().individuals[0].sex, Gender::Male);
    assert_eq!(individual_of_gender("F").unwrap().individuals[0].sex, Gender::Female);
    assert_eq!(individual_of_gender("N").unwrap().individuals[0].sex, Gender::Nonbinary);
    assert_eq!(individual_of_gender("U").unwrap().individuals[0].sex, Gender::Unknown);
}

#[test]
fn any_other_gender_value_ends_the_parse() {
    for bad in ["X", "m", "", "MF", "Male"] {
        let error = individual_of_gender(bad).unwrap_err();
        assert_eq!(
            error,
            ParseError {
                position: 4,
                line: 2,
                expected: Expected::Gender,
                found: Some(value(bad)),
            }
        );
    }
}

#[test]
fn gender_without_value_ends_the_parse() {
    let error = parse(vec![
        level(0),
        tag("INDI"),
        level(1),
        tag("SEX"),
        level(0),
        tag("TRLR"),
    ])
    .unwrap_err();
    assert_eq!(
        error,
        ParseError { position: 4, line: 3, expected: Expected::LineValue, found: Some(level(0)) }
    );
}

#[test]
fn unknown_top_level_tag_is_noted_and_passed_over() {
    let mut tokens = vec![level(0), tag("NOTE")];
    tokens.extend(individual_john());
    tokens.extend(vec![level(0), pointer("@F1@"), tag("FAM")]);
    tokens.extend(trailer());
    let mut parser = Parser::new(tokens);
    let data = parser.parse_record().unwrap();
    assert_eq!(data.individuals.len(), 1);
    assert_eq!(data.individuals[0].xref, text("@I1@"));
    assert_eq!(data.families.len(), 1);
    assert_eq!(data.families[0].xref, text("@F1@"));
    assert_eq!(parser.unhandled(), &vec![Unhandled { line: 1, token: tag("NOTE") }]);
}

#[test]
fn token_in_place_of_a_record_tag_is_noted_and_passed_over() {
    let mut parser = Parser::new(vec![
        level(0),
        pointer("@X1@"),
        pointer("@X2@"),
        level(0),
        value("stray"),
        level(0),
        tag("NAME"),
        level(0),
        tag("TRLR"),
    ]);
    let data = parser.parse_record().unwrap();
    assert_eq!(data, GedcomData::default());
    assert_eq!(
        parser.unhandled(),
        &vec![
            Unhandled { line: 1, token: pointer("@X2@") },
            Unhandled { line: 2, token: value("stray") },
            Unhandled { line: 3, token: tag("NAME") },
        ]
    );
}

#[test]
fn value_after_unknown_top_level_tag_ends_the_parse() {
    let mut parser = Parser::new(vec![
        level(0),
        tag("NOTE"),
        value("remark"),
        level(0),
        tag("TRLR"),
    ]);
    let error = parser.parse_record().unwrap_err();
    assert_eq!(
        error,
        ParseError {
            position: 2,
            line: 1,
            expected: Expected::RecordLevel,
            found: Some(value("remark")),
        }
    );
    assert_eq!(parser.unhandled(), &vec![Unhandled { line: 1, token: tag("NOTE") }]);
}

#[test]
fn header_is_skipped_whatever_it_holds() {
    let mut tokens = vec![
        level(0),
        tag("HEAD"),
        level(1),
        tag("GEDC"),
        level(2),
        tag("VERS"),
        value("5.5"),
        level(1),
        tag("CHAR"),
        value("UTF-8"),
        level(1),
        pointer("@odd@"),
        value("loose"),
        tag("INDI"),
    ];
    tokens.extend(individual_john());
    tokens.extend(trailer());
    let mut parser = Parser::new(tokens);
    let data = parser.parse_record().unwrap();
    assert_eq!(data.individuals.len(), 1);
    assert_eq!(data.individuals[0].xref, text("@I1@"));
    assert!(parser.unhandled().is_empty());
}

#[test]
fn header_that_never_ends_fails_at_the_end_of_input() {
    let error = parse(vec![level(0), tag("HEAD"), level(1), tag("SOUR"), value("x")]).unwrap_err();
    assert_eq!(
        error,
        ParseError { position: 5, line: 2, expected: Expected::RecordLevel, found: None }
    );
}

#[test]
fn record_counts_match_the_input() {
    let data = parse(vec![
        level(0),
        tag("HEAD"),
        level(1),
        tag("SOUR"),
        value("generator"),
        level(0),
        pointer("@U1@"),
        tag("SUBM"),
        level(0),
        pointer("@I1@"),
        tag("INDI"),
        level(0),
        pointer("@I2@"),
        tag("INDI"),
        level(0),
        tag("INDI"),
        level(0),
        pointer("@F1@"),
        tag("FAM"),
        level(0),
        pointer("@F2@"),
        tag("FAM"),
        level(0),
        pointer("@S1@"),
        tag("SOUR"),
        level(0),
        pointer("@R1@"),
        tag("REPO"),
        level(0),
        pointer("@R2@"),
        tag("REPO"),
        level(0),
        pointer("@R3@"),
        tag("REPO"),
        level(0),
        pointer("@R4@"),
        tag("REPO"),
        level(0),
        tag("TRLR"),
    ])
    .unwrap();
    assert_eq!(data.individuals.len(), 3);
    assert_eq!(data.families.len(), 2);
    assert_eq!(data.sources.len(), 1);
    assert_eq!(data.repositories.len(), 4);
    assert_eq!(data.submitters.len(), 1);
    assert_eq!(data.individuals[1].xref, text("@I2@"));
    assert_eq!(data.individuals[2].xref, None);
    assert_eq!(data.repositories[3].xref, text("@R4@"));
}

#[test]
fn tokens_after_the_terminator_are_not_read() {
    let mut tokens = trailer();
    tokens.extend(vec![tag("JUNK"), value("junk")]);
    let data = parse(tokens).unwrap();
    assert_eq!(data, GedcomData::default());
}

#[test]
fn empty_input_fails_for_want_of_a_record() {
    let error = parse(vec![]).unwrap_err();
    assert_eq!(
        error,
        ParseError { position: 0, line: 0, expected: Expected::RecordLevel, found: None }
    );
}

#[test]
fn input_without_terminator_fails_at_its_end() {
    let error = parse(individual_john()).unwrap_err();
    assert_eq!(
        error,
        ParseError {
            position: 20,
            line: 7,
            expected: Expected::Field(Block::FamilyLink),
            found: None,
        }
    );
}

#[test]
fn input_that_ends_after_a_record_level_fails() {
    let error = parse(vec![level(0)]).unwrap_err();
    assert_eq!(
        error,
        ParseError { position: 1, line: 1, expected: Expected::RecordTag, found: None }
    );
    let error = parse(vec![level(0), pointer("@I1@")]).unwrap_err();
    assert_eq!(
        error,
        ParseError { position: 2, line: 1, expected: Expected::RecordTag, found: None }
    );
}

#[test]
fn record_must_open_at_level_zero() {
    let error = parse(vec![level(1), tag("INDI"), level(0), tag("TRLR")]).unwrap_err();
    assert_eq!(
        error,
        ParseError { position: 0, line: 1, expected: Expected::RecordLevel, found: Some(level(1)) }
    );
    let error = parse(vec![tag("INDI"), level(0), tag("TRLR")]).unwrap_err();
    assert_eq!(
        error,
        ParseError {
            position: 0,
            line: 0,
            expected: Expected::RecordLevel,
            found: Some(tag("INDI")),
        }
    );
}

#[test]
fn deeper_line_after_unknown_top_level_tag_ends_the_parse() {
    let error = parse(vec![
        level(0),
        tag("NOTE"),
        level(1),
        tag("CONT"),
        level(0),
        tag("TRLR"),
    ])
    .unwrap_err();
    assert_eq!(
        error,
        ParseError { position: 2, line: 2, expected: Expected::RecordLevel, found: Some(level(1)) }
    );
}

#[test]
fn unknown_tag_inside_a_record_ends_the_parse() {
    let error = parse(vec![
        level(0),
        pointer("@I1@"),
        tag("INDI"),
        level(1),
        tag("NOTE"),
        value("remark"),
        level(0),
        tag("TRLR"),
    ])
    .unwrap_err();
    assert_eq!(
        error,
        ParseError {
            position: 4,
            line: 2,
            expected: Expected::Field(Block::Individual),
            found: Some(tag("NOTE")),
        }
    );
}

#[test]
fn marriage_inside_an_individual_ends_the_parse() {
    let error = parse(vec![level(0), tag("INDI"), level(1), tag("MARR"), level(0), tag("TRLR")])
        .unwrap_err();
    assert_eq!(error.expected, Expected::Field(Block::Individual));
    assert_eq!(error.found, Some(tag("MARR")));
    assert_eq!(error.position, 3);
    assert_eq!(error.line, 2);
}

#[test]
fn tag_without_its_value_ends_the_parse() {
    let error = parse(vec![
        level(0),
        tag("INDI"),
        level(1),
        tag("NAME"),
        level(1),
        tag("SEX"),
        value("M"),
        level(0),
        tag("TRLR"),
    ])
    .unwrap_err();
    assert_eq!(
        error,
        ParseError { position: 4, line: 3, expected: Expected::LineValue, found: Some(level(1)) }
    );
}

#[test]
fn unknown_pedigree_ends_the_parse() {
    let error = parse(vec![
        level(0),
        tag("INDI"),
        level(1),
        tag("FAMC"),
        value("@F1@"),
        level(2),
        tag("PEDI"),
        value("step"),
        level(0),
        tag("TRLR"),
    ])
    .unwrap_err();
    assert_eq!(
        error,
        ParseError {
            position: 7,
            line: 3,
            expected: Expected::Pedigree,
            found: Some(value("step")),
        }
    );
}

#[test]
fn pedigree_is_read_whatever_its_case() {
    for (written, pedigree) in [
        ("adopted", Pedigree::Adopted),
        ("ADOPTED", Pedigree::Adopted),
        ("Birth", Pedigree::Birth),
        ("fOsTeR", Pedigree::Foster),
        ("SEALING", Pedigree::Sealing),
    ] {
        let data = parse(vec![
            level(0),
            tag("INDI"),
            level(1),
            tag("FAMS"),
            value("@F9@"),
            level(2),
            tag("PEDI"),
            value(written),
            level(0),
            tag("TRLR"),
        ])
        .unwrap();
        assert_eq!(data.individuals[0].families[0].pedigree(), Some(pedigree));
        assert_eq!(data.individuals[0].families[0].link_type(), FamilyLinkType::Spouse);
    }
}

#[test]
fn each_block_rejects_a_foreign_tag() {
    let cases: Vec<(Vec<Token>, Block, usize)> = vec![
        (vec![tag("SUBM"), level(1), tag("SEX")], Block::Submitter, 3),
        (vec![tag("FAM"), level(1), tag("NAME")], Block::Family, 3),
        (vec![tag("SOUR"), level(1), tag("NAME")], Block::Source, 3),
        (vec![tag("REPO"), level(1), tag("PHON")], Block::Repository, 3),
        (
            vec![tag("INDI"), level(1), tag("NAME"), value("n"), level(2), tag("NICK")],
            Block::Name,
            6,
        ),
        (
            vec![tag("INDI"), level(1), tag("BIRT"), level(2), tag("AGE")],
            Block::Event,
            5,
        ),
        (
            vec![tag("INDI"), level(1), tag("FAMC"), value("f"), level(2), tag("NOTE")],
            Block::FamilyLink,
            6,
        ),
        (
            vec![tag("REPO"), level(1), tag("ADDR"), value("a"), level(2), tag("CONC")],
            Block::Address,
            6,
        ),
        (
            vec![
                tag("INDI"),
                level(1),
                tag("DEAT"),
                level(2),
                tag("SOUR"),
                value("@S1@"),
                level(3),
                tag("QUAY"),
            ],
            Block::SourceCitation,
            8,
        ),
        (
            vec![tag("SOUR"), level(1), tag("REPO"), value("@R1@"), level(2), tag("PAGE")],
            Block::RepoCitation,
            6,
        ),
        (
            vec![tag("SOUR"), level(1), tag("TITL"), value("t"), level(2), tag("DATE")],
            Block::ContinuedText,
            6,
        ),
    ];
    for (body, block, position) in cases {
        let mut tokens = vec![level(0)];
        tokens.extend(body);
        tokens.extend(trailer());
        let offender = tokens[position].clone();
        let error = parse(tokens).unwrap_err();
        assert_eq!(error.expected, Expected::Field(block));
        assert_eq!(error.position, position);
        assert_eq!(error.found, Some(offender));
    }
}

#[test]
fn stray_value_inside_a_block_ends_the_parse() {
    let error = parse(vec![
        level(0),
        tag("FAM"),
        level(1),
        tag("HUSB"),
        value("@I1@"),
        value("again"),
        level(0),
        tag("TRLR"),
    ])
    .unwrap_err();
    assert_eq!(
        error,
        ParseError {
            position: 5,
            line: 2,
            expected: Expected::Field(Block::Family),
            found: Some(value("again")),
        }
    );
}
