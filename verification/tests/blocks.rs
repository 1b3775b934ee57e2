use gedcom::parser::Parser;
use gedcom::tokenizer::Token;
use gedcom::tree::GedcomData;
use gedcom::types::{Address, EventType, RepoCitation, SourceCitation};

fn read(lines: &[(u8, Option<&str>, &str, Option<&str>)]) -> GedcomData {
    let mut tokens = Vec::new();
    for (depth, id, name, content) in lines {
        tokens.push(Token::Level(*depth));
        if let Some(id) = id {
            tokens.push(Token::Pointer(id.to_string()));
        }
        tokens.push(Token::Tag(name.to_string()));
        if let Some(content) = content {
            tokens.push(Token::LineValue(content.to_string()));
        }
    }
    Parser::new(tokens).parse_record().unwrap()
}

fn some(s: &str) -> Option<String> {
    Some(s.to_string())
}

#[test]
fn family_with_partners_children_and_marriage() {
    let data = read(&[
        (0, Some("@F1@"), "FAM", None),
        (1, None, "HUSB", Some("@I1@")),
        (1, None, "WIFE", Some("@I2@")),
        (1, None, "CHIL", Some("@I3@")),
        (1, None, "MARR", None),
        (2, None, "DATE", Some("2 FEB 1920")),
        (2, None, "PLAC", Some("Shelbyville")),
        (1, None, "CHIL", Some("@I4@")),
        (0, None, "TRLR", None),
    ]);
    assert_eq!(data.families.len(), 1);
    let family = &data.families[0];
    assert_eq!(family.xref, some("@F1@"));
    assert_eq!(family.individual1, some("@I1@"));
    assert_eq!(family.individual2, some("@I2@"));
    assert_eq!(family.children, vec!["@I3@".to_string(), "@I4@".to_string()]);
    assert_eq!(family.events.len(), 1);
    assert_eq!(family.events[0].event, EventType::Marriage);
    assert_eq!(family.events[0].date, some("2 FEB 1920"));
    assert_eq!(family.events[0].place, some("Shelbyville"));
}

#[test]
fn later_partner_line_replaces_the_earlier() {
    let data = read(&[
        (0, None, "FAM", None),
        (1, None, "HUSB", Some("@I1@")),
        (1, None, "HUSB", Some("@I5@")),
        (0, None, "TRLR", None),
    ]);
    assert_eq!(data.families[0].individual1, some("@I5@"));
    assert_eq!(data.families[0].individual2, None);
}

#[test]
fn individual_events_keep_their_order_and_kinds() {
    let data = read(&[
        (0, Some("@I1@"), "INDI", None),
        (1, None, "BIRT", None),
        (2, None, "DATE", Some("1900")),
        (1, None, "ADOP", None),
        (1, None, "RESI", None),
        (2, None, "PLAC", Some("Ogdenville")),
        (1, None, "DEAT", None),
        (2, None, "DATE", Some("1980")),
        (2, None, "SOUR", Some("@S1@")),
        (3, None, "PAGE", Some("42")),
        (2, None, "SOUR", Some("@S2@")),
        (1, None, "BURI", None),
        (0, None, "TRLR", None),
    ]);
    let events = &data.individuals[0].events;
    let kinds: Vec<EventType> = events.iter().map(|e| e.event).collect();
    assert_eq!(
        kinds,
        vec![
            EventType::Birth,
            EventType::Adoption,
            EventType::Residence,
            EventType::Death,
            EventType::Burial,
        ]
    );
    assert_eq!(events[0].date, some("1900"));
    assert_eq!(events[1].date, None);
    assert_eq!(events[2].place, some("Ogdenville"));
    assert_eq!(
        events[3].citations,
        vec![
            SourceCitation { xref: "@S1@".to_string(), page: some("42") },
            SourceCitation { xref: "@S2@".to_string(), page: None },
        ]
    );
    assert!(events[4].citations.is_empty());
}

#[test]
fn name_with_parts() {
    let data = read(&[
        (0, Some("@I1@"), "INDI", None),
        (1, None, "NAME", Some("Jane /Roe/")),
        (2, None, "GIVN", Some("Jane")),
        (2, None, "SURN", Some("Roe")),
        (1, None, "SEX", Some("F")),
        (0, None, "TRLR", None),
    ]);
    let name = data.individuals[0].name.as_ref().unwrap();
    assert_eq!(name.value, some("Jane /Roe/"));
    assert_eq!(name.given, some("Jane"));
    assert_eq!(name.surname, some("Roe"));
}

#[test]
fn source_with_data_events_agency_and_repository() {
    let data = read(&[
        (0, Some("@S1@"), "SOUR", None),
        (1, None, "DATA", None),
        (2, None, "EVEN", Some("BIRT, DEAT")),
        (3, None, "DATE", Some("FROM 1900 TO 1950")),
        (3, None, "PLAC", Some("Capital City")),
        (2, None, "EVEN", Some("MARR")),
        (2, None, "AGNC", Some("Registry")),
        (1, None, "TITL", Some("Parish")),
        (2, None, "CONT", Some("records")),
        (1, None, "ABBR", Some("PR")),
        (1, None, "REPO", Some("@R1@")),
        (2, None, "CALN", Some("13B-1234.01")),
        (1, None, "REPO", Some("@R2@")),
        (0, None, "TRLR", None),
    ]);
    assert_eq!(data.sources.len(), 1);
    let source = &data.sources[0];
    assert_eq!(source.xref, some("@S1@"));
    assert_eq!(source.data.agency, some("Registry"));
    assert_eq!(source.data.events.len(), 2);
    assert_eq!(source.data.events[0].event, EventType::Other);
    assert_eq!(source.data.events[0].source_data, some("BIRT, DEAT"));
    assert_eq!(source.data.events[0].date, some("FROM 1900 TO 1950"));
    assert_eq!(source.data.events[0].place, some("Capital City"));
    assert_eq!(source.data.events[1].event, EventType::Other);
    assert_eq!(source.data.events[1].source_data, some("MARR"));
    assert_eq!(source.data.events[1].date, None);
    assert_eq!(source.title, some("Parish\nrecords"));
    assert_eq!(source.abbreviation, some("PR"));
    assert_eq!(
        source.repo_citations,
        vec![
            RepoCitation { xref: "@R1@".to_string(), call_number: some("13B-1234.01") },
            RepoCitation { xref: "@R2@".to_string(), call_number: None },
        ]
    );
}

#[test]
fn repository_with_address() {
    let data = read(&[
        (0, Some("@R1@"), "REPO", None),
        (1, None, "NAME", Some("Town Archive")),
        (1, None, "ADDR", Some("1 Main Street")),
        (2, None, "CONT", Some("Springfield")),
        (2, None, "CONT", Some("Zip 12345")),
        (2, None, "ADR1", Some("1 Main Street")),
        (2, None, "ADR2", Some("Floor 2")),
        (2, None, "ADR3", Some("Room 3")),
        (2, None, "CITY", Some("Springfield")),
        (2, None, "STAE", Some("IL")),
        (2, None, "POST", Some("12345")),
        (2, None, "CTRY", Some("USA")),
        (0, None, "TRLR", None),
    ]);
    assert_eq!(data.repositories.len(), 1);
    let repository = &data.repositories[0];
    assert_eq!(repository.xref, some("@R1@"));
    assert_eq!(repository.name, some("Town Archive"));
    assert_eq!(
        repository.address,
        Some(Address {
            value: some("1 Main Street\nSpringfield\nZip 12345"),
            adr1: some("1 Main Street"),
            adr2: some("Floor 2"),
            adr3: some("Room 3"),
            city: some("Springfield"),
            state: some("IL"),
            post: some("12345"),
            country: some("USA"),
        })
    );
}

#[test]
fn bare_address_has_no_value() {
    let data = read(&[
        (0, Some("@R1@"), "REPO", None),
        (1, None, "ADDR", None),
        (2, None, "CITY", Some("Springfield")),
        (0, None, "TRLR", None),
    ]);
    let address = data.repositories[0].address.as_ref().unwrap();
    assert_eq!(address.value, None);
    assert_eq!(address.city, some("Springfield"));
    assert_eq!(address.adr1, None);
    assert_eq!(data.repositories[0].name, None);
}

#[test]
fn address_that_opens_with_a_continuation_starts_with_a_line_break() {
    let data = read(&[
        (0, None, "REPO", None),
        (1, None, "ADDR", None),
        (2, None, "CONT", Some("second line")),
        (0, None, "TRLR", None),
    ]);
    let address = data.repositories[0].address.as_ref().unwrap();
    assert_eq!(address.value, some("\nsecond line"));
}

#[test]
fn submitter_with_name_address_and_phone() {
    let data = read(&[
        (0, Some("@U1@"), "SUBM", None),
        (1, None, "NAME", Some("A. Submitter")),
        (1, None, "ADDR", Some("PO Box 1")),
        (1, None, "PHON", Some("555-0100")),
        (0, None, "TRLR", None),
    ]);
    assert_eq!(data.submitters.len(), 1);
    let submitter = &data.submitters[0];
    assert_eq!(submitter.xref, some("@U1@"));
    assert_eq!(submitter.name, some("A. Submitter"));
    assert_eq!(submitter.phone, some("555-0100"));
    let address = submitter.address.as_ref().unwrap();
    assert_eq!(address.value, some("PO Box 1"));
    assert_eq!(address.city, None);
}

#[test]
fn records_of_every_kind_in_one_file() {
    let data = read(&[
        (0, None, "HEAD", None),
        (1, None, "CHAR", Some("ASCII")),
        (0, Some("@U1@"), "SUBM", None),
        (1, None, "NAME", Some("S")),
        (0, Some("@I1@"), "INDI", None),
        (1, None, "NAME", Some("A /B/")),
        (1, None, "FAMS", Some("@F1@")),
        (0, Some("@I2@"), "INDI", None),
        (1, None, "FAMS", Some("@F1@")),
        (0, Some("@F1@"), "FAM", None),
        (1, None, "HUSB", Some("@I1@")),
        (1, None, "WIFE", Some("@I2@")),
        (0, Some("@S1@"), "SOUR", None),
        (1, None, "TITL", Some("T")),
        (0, Some("@R1@"), "REPO", None),
        (1, None, "NAME", Some("R")),
        (0, None, "TRLR", None),
    ]);
    assert_eq!(data.submitters.len(), 1);
    assert_eq!(data.individuals.len(), 2);
    assert_eq!(data.families.len(), 1);
    assert_eq!(data.sources.len(), 1);
    assert_eq!(data.repositories.len(), 1);
    assert_eq!(data.individuals[0].families[0].xref(), "@F1@");
    assert_eq!(data.individuals[1].families[0].xref(), "@F1@");
    assert_eq!(data.families[0].individual2, some("@I2@"));
}
