use gedcom::error::{Expected, ParseError};
use gedcom::keyword::{classify, Keyword};
use gedcom::parser::Parser;
use gedcom::text::{decimal_string, str_eq};
use gedcom::tokenizer::{Peek, Token, Tokenizer};
use gedcom::tree::GedcomData;
use gedcom::types::{
    Address, Event, EventType, Family, FamilyLink, FamilyLinkType, Gender, Individual, Pedigree,
    RepoCitation, Source, SourceCitation, Submitter,
};

fn sample_stream() -> Vec<Token> {
    vec![
        Token::Level(0),
        Token::Pointer("@I1@".to_string()),
        Token::Tag("INDI".to_string()),
        Token::Level(1),
        Token::Tag("NAME".to_string()),
        Token::LineValue("A /B/".to_string()),
        Token::Level(0),
        Token::Tag("TRLR".to_string()),
    ]
}

#[test]
fn strings_compare_by_their_characters() {
    assert!(str_eq("", ""));
    assert!(str_eq("NAME", "NAME"));
    assert!(!str_eq("NAME", "NAMES"));
    assert!(!str_eq("NAME", "name"));
    assert!(!str_eq("FAMC", "FAMS"));
    assert!(str_eq("Zoë", "Zoë"));
    assert!(!str_eq("Zoë", "Zoe"));
    assert!(!str_eq("é", "è"));
}

#[test]
fn numbers_are_written_in_decimal() {
    assert_eq!(decimal_string(0), "0");
    assert_eq!(decimal_string(7), "7");
    assert_eq!(decimal_string(10), "10");
    assert_eq!(decimal_string(42), "42");
    assert_eq!(decimal_string(1905), "1905");
    assert_eq!(decimal_string(1234567890), "1234567890");
    assert_eq!(decimal_string(usize::MAX), usize::MAX.to_string());
}

#[test]
fn tags_are_read_as_keywords() {
    let known = [
        ("ABBR", Keyword::Abbr),
        ("ADDR", Keyword::Addr),
        ("ADOP", Keyword::Adop),
        ("ADR1", Keyword::Adr1),
        ("ADR2", Keyword::Adr2),
        ("ADR3", Keyword::Adr3),
        ("AGNC", Keyword::Agnc),
        ("BIRT", Keyword::Birt),
        ("BURI", Keyword::Buri),
        ("CALN", Keyword::Caln),
        ("CHIL", Keyword::Chil),
        ("CITY", Keyword::City),
        ("CONC", Keyword::Conc),
        ("CONT", Keyword::Cont),
        ("CTRY", Keyword::Ctry),
        ("DATA", Keyword::Data),
        ("DATE", Keyword::Date),
        ("DEAT", Keyword::Deat),
        ("EVEN", Keyword::Even),
        ("FAM", Keyword::Fam),
        ("FAMC", Keyword::Famc),
        ("FAMS", Keyword::Fams),
        ("GIVN", Keyword::Givn),
        ("HEAD", Keyword::Head),
        ("HUSB", Keyword::Husb),
        ("INDI", Keyword::Indi),
        ("MARR", Keyword::Marr),
        ("NAME", Keyword::Name),
        ("PAGE", Keyword::Page),
        ("PEDI", Keyword::Pedi),
        ("PHON", Keyword::Phon),
        ("PLAC", Keyword::Plac),
        ("POST", Keyword::Post),
        ("REPO", Keyword::Repo),
        ("RESI", Keyword::Resi),
        ("SEX", Keyword::Sex),
        ("SOUR", Keyword::Sour),
        ("STAE", Keyword::Stae),
        ("SUBM", Keyword::Subm),
        ("SURN", Keyword::Surn),
        ("TITL", Keyword::Titl),
        ("TRLR", Keyword::Trlr),
        ("WIFE", Keyword::Wife),
    ];
    for (tag, keyword) in known {
        assert_eq!(classify(tag), keyword);
    }
    for tag in ["", "NOTE", "indi", "Indi", "INDI ", "FAMX", "_CUSTOM", "CHR"] {
        assert_eq!(classify(tag), Keyword::Unknown);
    }
}

#[test]
fn cursor_walks_the_stream_and_counts_lines() {
    let mut tokenizer = Tokenizer::new(sample_stream());
    let lines = [1, 1, 1, 2, 2, 2, 3, 3];
    let peeks = [
        Peek::Level(0),
        Peek::Pointer,
        Peek::Tag(Keyword::Indi),
        Peek::Level(1),
        Peek::Tag(Keyword::Name),
        Peek::LineValue,
        Peek::Level(0),
        Peek::Tag(Keyword::Trlr),
    ];
    let stream = sample_stream();
    for i in 0..8 {
        assert!(!tokenizer.done());
        assert_eq!(tokenizer.position(), i);
        assert_eq!(tokenizer.line(), lines[i]);
        assert_eq!(tokenizer.peek(), peeks[i]);
        assert_eq!(tokenizer.current_token(), Some(&stream[i]));
        tokenizer.next_token();
    }
    assert!(tokenizer.done());
    assert_eq!(tokenizer.position(), 8);
    assert_eq!(tokenizer.line(), 3);
    assert_eq!(tokenizer.peek(), Peek::End);
    assert_eq!(tokenizer.current_token(), None);
    tokenizer.next_token();
    assert_eq!(tokenizer.position(), 8);
    assert_eq!(tokenizer.line(), 3);
    assert!(tokenizer.done());
}

#[test]
fn cursor_on_an_empty_stream_is_done() {
    let mut tokenizer = Tokenizer::new(Vec::new());
    assert!(tokenizer.done());
    assert_eq!(tokenizer.line(), 0);
    assert_eq!(tokenizer.position(), 0);
    assert_eq!(tokenizer.peek(), Peek::End);
    tokenizer.next_token();
    assert_eq!(tokenizer.position(), 0);
}

#[test]
fn line_is_zero_before_the_first_level_token() {
    let mut tokenizer =
        Tokenizer::new(vec![Token::Tag("X".to_string()), Token::Level(3), Token::Level(4)]);
    assert_eq!(tokenizer.line(), 0);
    assert_eq!(tokenizer.peek(), Peek::Tag(Keyword::Unknown));
    tokenizer.next_token();
    assert_eq!(tokenizer.line(), 1);
    assert_eq!(tokenizer.peek(), Peek::Level(3));
    tokenizer.next_token();
    assert_eq!(tokenizer.line(), 2);
}

#[test]
fn token_clone_is_equal() {
    for token in sample_stream() {
        assert_eq!(token.clone(), token);
    }
}

#[test]
fn diagnostic_prefix_names_the_line() {
    let mut parser = Parser::new(sample_stream());
    assert_eq!(parser.dbg(), "line 1:");
    assert!(parser.parse_record().is_ok());
    assert_eq!(parser.dbg(), "line 3:");
    assert_eq!(Parser::new(Vec::new()).dbg(), "line 0:");
}

#[test]
fn parser_stops_on_the_terminator_and_fails_if_asked_again() {
    let mut parser = Parser::new(sample_stream());
    let data = parser.parse_record().unwrap();
    assert_eq!(data.individuals.len(), 1);
    assert!(parser.unhandled().is_empty());
    let again = parser.parse_record().unwrap_err();
    assert_eq!(
        again,
        ParseError {
            position: 7,
            line: 3,
            expected: Expected::RecordLevel,
            found: Some(Token::Tag("TRLR".to_string())),
        }
    );
}

#[test]
fn genders_are_read_from_single_letters() {
    assert_eq!(Gender::from_text("M"), Some(Gender::Male));
    assert_eq!(Gender::from_text("F"), Some(Gender::Female));
    assert_eq!(Gender::from_text("N"), Some(Gender::Nonbinary));
    assert_eq!(Gender::from_text("U"), Some(Gender::Unknown));
    for other in ["", "m", "f", "X", "MM", " M", "Male"] {
        assert_eq!(Gender::from_text(other), None);
    }
}

#[test]
fn pedigrees_are_read_whatever_the_case() {
    assert_eq!(Pedigree::from_text("adopted"), Some(Pedigree::Adopted));
    assert_eq!(Pedigree::from_text("Adopted"), Some(Pedigree::Adopted));
    assert_eq!(Pedigree::from_text("birth"), Some(Pedigree::Birth));
    assert_eq!(Pedigree::from_text("BIRTH"), Some(Pedigree::Birth));
    assert_eq!(Pedigree::from_text("foster"), Some(Pedigree::Foster));
    assert_eq!(Pedigree::from_text("FoStEr"), Some(Pedigree::Foster));
    assert_eq!(Pedigree::from_text("sealing"), Some(Pedigree::Sealing));
    assert_eq!(Pedigree::from_text("SEALING"), Some(Pedigree::Sealing));
    for other in [
        "",
        "adopt",
        "births",
        "birth ",
        " birth",
        "step",
        "seal ing",
        "fo\u{17f}ter",
        "b\u{130}rth",
        "b\u{131}rth",
        "\u{212a}",
        "a\u{64}opte\u{44}\u{301}",
        "BlRTH",
    ] {
        assert_eq!(Pedigree::from_text(other), None);
    }
}

#[test]
fn family_link_kind_follows_the_tag() {
    let child = FamilyLink::new("@F1@".to_string(), "FAMC");
    assert_eq!(child.xref(), "@F1@");
    assert_eq!(child.link_type(), FamilyLinkType::Child);
    assert_eq!(child.pedigree(), None);
    let spouse = FamilyLink::new("@F2@".to_string(), "FAMS");
    assert_eq!(spouse.xref(), "@F2@");
    assert_eq!(spouse.link_type(), FamilyLinkType::Spouse);
    assert_eq!(spouse.pedigree(), None);
}

#[test]
fn set_pedigree_fills_and_replaces() {
    let mut link = FamilyLink::new("@F1@".to_string(), "FAMC");
    link.set_pedigree("Adopted");
    assert_eq!(link.pedigree(), Some(Pedigree::Adopted));
    assert_eq!(link.xref(), "@F1@");
    assert_eq!(link.link_type(), FamilyLinkType::Child);
    link.set_pedigree("FOSTER");
    assert_eq!(link.pedigree(), Some(Pedigree::Foster));
}

#[test]
fn new_individual_is_blank() {
    let individual = Individual::new(Some("@I1@".to_string()));
    assert_eq!(individual.xref, Some("@I1@".to_string()));
    assert_eq!(individual.name, None);
    assert_eq!(individual.sex, Gender::Unknown);
    assert!(individual.events.is_empty());
    assert!(individual.families.is_empty());
    assert_eq!(Individual::new(None).xref, None);
}

#[test]
fn add_family_keeps_the_first_link_to_a_family() {
    let mut individual = Individual::new(None);
    let mut first = FamilyLink::new("@F1@".to_string(), "FAMC");
    first.set_pedigree("birth");
    individual.add_family(first);
    individual.add_family(FamilyLink::new("@F2@".to_string(), "FAMS"));
    individual.add_family(FamilyLink::new("@F1@".to_string(), "FAMS"));
    individual.add_family(FamilyLink::new("@F2@".to_string(), "FAMC"));
    individual.add_family(FamilyLink::new("@F3@".to_string(), "FAMC"));
    assert_eq!(individual.families.len(), 3);
    assert_eq!(individual.families[0].xref(), "@F1@");
    assert_eq!(individual.families[0].link_type(), FamilyLinkType::Child);
    assert_eq!(individual.families[0].pedigree(), Some(Pedigree::Birth));
    assert_eq!(individual.families[1].xref(), "@F2@");
    assert_eq!(individual.families[1].link_type(), FamilyLinkType::Spouse);
    assert_eq!(individual.families[2].xref(), "@F3@");
}

#[test]
fn add_event_appends() {
    let mut individual = Individual::new(None);
    individual.add_event(Event::new(EventType::Birth));
    individual.add_event(Event::new(EventType::Death));
    assert_eq!(individual.events.len(), 2);
    assert_eq!(individual.events[0].event, EventType::Birth);
    assert_eq!(individual.events[1].event, EventType::Death);
    assert!(individual.families.is_empty());
}

#[test]
fn event_collects_citations_and_source_data() {
    let mut event = Event::new(EventType::Other);
    assert_eq!(event.event, EventType::Other);
    assert_eq!(event.date, None);
    assert_eq!(event.place, None);
    assert_eq!(event.source_data, None);
    assert!(event.citations.is_empty());
    event.add_citation(SourceCitation { xref: "@S1@".to_string(), page: None });
    event.add_citation(SourceCitation { xref: "@S2@".to_string(), page: Some("3".to_string()) });
    event.with_source_data("BIRT".to_string());
    event.with_source_data("DEAT".to_string());
    assert_eq!(event.source_data, Some("DEAT".to_string()));
    assert_eq!(event.citations.len(), 2);
    assert_eq!(event.citations[0].xref, "@S1@");
    assert_eq!(event.citations[1].page, Some("3".to_string()));
}

#[test]
fn family_setters_and_appenders() {
    let mut family = Family::new(Some("@F1@".to_string()));
    assert_eq!(family.individual1, None);
    assert_eq!(family.individual2, None);
    assert!(family.children.is_empty());
    assert!(family.events.is_empty());
    family.set_individual1("@I1@".to_string());
    family.set_individual2("@I2@".to_string());
    family.add_child("@I3@".to_string());
    family.add_child("@I4@".to_string());
    family.add_event(Event::new(EventType::Marriage));
    assert_eq!(family.xref, Some("@F1@".to_string()));
    assert_eq!(family.individual1, Some("@I1@".to_string()));
    assert_eq!(family.individual2, Some("@I2@".to_string()));
    assert_eq!(family.children, vec!["@I3@".to_string(), "@I4@".to_string()]);
    assert_eq!(family.events.len(), 1);
}

#[test]
fn source_collects_citations_and_events() {
    let mut source = Source::new(Some("@S1@".to_string()));
    assert_eq!(source.xref, Some("@S1@".to_string()));
    assert_eq!(source.abbreviation, None);
    assert_eq!(source.title, None);
    assert_eq!(source.data.agency, None);
    assert!(source.data.events.is_empty());
    assert!(source.repo_citations.is_empty());
    source.add_repo_citation(RepoCitation { xref: "@R1@".to_string(), call_number: None });
    source.add_repo_citation(RepoCitation {
        xref: "@R2@".to_string(),
        call_number: Some("7".to_string()),
    });
    source.data.add_event(Event::new(EventType::Other));
    assert_eq!(source.repo_citations.len(), 2);
    assert_eq!(source.repo_citations[0].xref, "@R1@");
    assert_eq!(source.repo_citations[1].call_number, Some("7".to_string()));
    assert_eq!(source.data.events.len(), 1);
}

#[test]
fn blank_values_of_the_other_records() {
    let submitter = Submitter::new(Some("@U1@".to_string()));
    assert_eq!(submitter.xref, Some("@U1@".to_string()));
    assert_eq!(submitter.name, None);
    assert_eq!(submitter.address, None);
    assert_eq!(submitter.phone, None);
    let address = Address::default();
    assert_eq!(
        address,
        Address {
            value: None,
            adr1: None,
            adr2: None,
            adr3: None,
            city: None,
            state: None,
            post: None,
            country: None,
        }
    );
}

#[test]
fn tree_appends_in_order() {
    let mut data = GedcomData::default();
    assert!(data.individuals.is_empty());
    data.add_individual(Individual::new(Some("@I1@".to_string())));
    data.add_individual(Individual::new(Some("@I2@".to_string())));
    data.add_family(Family::new(Some("@F1@".to_string())));
    data.add_source(Source::new(None));
    data.add_submitter(Submitter::new(None));
    data.add_repository(gedcom::types::Repository {
        xref: Some("@R1@".to_string()),
        name: None,
        address: None,
    });
    assert_eq!(data.individuals.len(), 2);
    assert_eq!(data.individuals[0].xref, Some("@I1@".to_string()));
    assert_eq!(data.individuals[1].xref, Some("@I2@".to_string()));
    assert_eq!(data.families.len(), 1);
    assert_eq!(data.sources.len(), 1);
    assert_eq!(data.submitters.len(), 1);
    assert_eq!(data.repositories.len(), 1);
    assert_eq!(data.repositories[0].xref, Some("@R1@".to_string()));
}

#[test]
fn tree_finds_the_first_record_with_an_id() {
    let mut data = GedcomData::default();
    assert!(data.individual("@I1@").is_none());
    data.add_individual(Individual::new(None));
    data.add_individual(Individual::new(Some("@I1@".to_string())));
    let mut second = Individual::new(Some("@I2@".to_string()));
    second.sex = Gender::Female;
    data.add_individual(second);
    let mut shadowed = Individual::new(Some("@I2@".to_string()));
    shadowed.sex = Gender::Male;
    data.add_individual(shadowed);
    data.add_family(Family::new(Some("@F1@".to_string())));
    data.add_source(Source::new(Some("@S1@".to_string())));
    data.add_submitter(Submitter::new(Some("@U1@".to_string())));
    data.add_repository(gedcom::types::Repository {
        xref: Some("@R1@".to_string()),
        name: Some("Archive".to_string()),
        address: None,
    });
    assert_eq!(data.individual("@I1@").unwrap().xref, Some("@I1@".to_string()));
    assert_eq!(data.individual("@I2@").unwrap().sex, Gender::Female);
    assert!(data.individual("@I3@").is_none());
    assert!(data.individual("").is_none());
    assert!(data.individual("@F1@").is_none());
    assert_eq!(data.family("@F1@").unwrap().xref, Some("@F1@".to_string()));
    assert!(data.family("@I1@").is_none());
    assert_eq!(data.source("@S1@").unwrap().xref, Some("@S1@".to_string()));
    assert!(data.source("@S2@").is_none());
    assert_eq!(data.submitter("@U1@").unwrap().xref, Some("@U1@".to_string()));
    assert!(data.submitter("@U2@").is_none());
    assert_eq!(data.repository("@R1@").unwrap().name, Some("Archive".to_string()));
    assert!(data.repository("@R2@").is_none());
}
