//! The state machine that reads a token stream into a tree of records.

use crate::error::{Block, Expected, ParseError, Unhandled, UnhandledView};
use crate::grammar;
use crate::grammar::{error_at, Step};
use crate::keyword::Keyword;
use crate::text::{decimal, decimal_string, lemma_push_deep_view};
use crate::tokenizer::{line_at, token_at, Peek, Token, TokenView, Tokenizer};
use crate::tree::{GedcomData, GedcomDataView};
use crate::types::{
    link_type_of, Address, Event, EventType, EventView, Family, FamilyLink, FamilyLinkType, Gender,
    Individual, Name, Pedigree, RepoCitation, Repository, Source, SourceCitation, Submitter,
};
use vstd::prelude::*;
use vstd::string::*;

verus! {

/// The deepest level at which a record may open, so that the levels of the
/// blocks nested in it can still be counted.
const DEEPEST_RECORD: u8 = 250;

/// The parser: a cursor on the token stream, and the notes on what the
/// top level passed over.
pub struct Parser {
    tokenizer: Tokenizer,
    unhandled: Vec<Unhandled>,
}

/// The kind of event that a tag of an individual's record introduces.
fn life_event_of(keyword: Keyword) -> (kind: Option<EventType>)
    ensures
        kind == grammar::life_event(keyword),
{
    match keyword {
        Keyword::Adop => Some(EventType::Adoption),
        Keyword::Birt => Some(EventType::Birth),
        Keyword::Buri => Some(EventType::Burial),
        Keyword::Deat => Some(EventType::Death),
        Keyword::Resi => Some(EventType::Residence),
        _ => None,
    }
}

impl Parser {
    /// The token stream that the parser reads.
    pub closed spec fn stream(&self) -> Seq<TokenView> {
        self.tokenizer.stream()
    }

    /// The index of the token that the parser looks at.
    pub closed spec fn cursor(&self) -> int {
        self.tokenizer.cursor()
    }

    /// The notes on the tokens that the top level passed over so far.
    pub closed spec fn reports(&self) -> Seq<UnhandledView> {
        self.unhandled.deep_view()
    }

    /// Reading went from `before` to `self` as `step` says, and handed out
    /// `res`: on success the cursor stands behind what was read, on failure
    /// on the offending token.
    spec fn took<T: DeepView>(
        &self,
        before: &Parser,
        step: Step<T::V>,
        res: Result<T, ParseError>,
    ) -> bool {
        &&& self.stream() == before.stream()
        &&& self.reports() == before.reports()
        &&& match step {
            Ok((value, next)) => res matches Ok(r) && r.deep_view() == value && self.cursor()
                == next,
            Err(error) => res matches Err(e) && e@ == error && self.cursor() == error.position,
        }
    }

    /// A parser at the start of `tokens`.
    #[must_use]
    pub fn new(tokens: Vec<Token>) -> (parser: Parser)
        ensures
            parser.stream() == tokens.deep_view(),
            parser.cursor() == 0,
            parser.reports() == Seq::<UnhandledView>::empty(),
    {
        let parser = Parser { tokenizer: Tokenizer::new(tokens), unhandled: Vec::new() };
        assert(parser.unhandled.deep_view() =~= Seq::empty());
        parser
    }

    /// The notes on the tokens that the top level passed over so far.
    pub fn unhandled(&self) -> (notes: &Vec<Unhandled>)
        ensures
            notes.deep_view() == self.reports(),
    {
        &self.unhandled
    }

    /// The current line as the opening of a diagnostic: the word `line`, the
    /// line's number, a colon.
    pub fn dbg(&self) -> (prefix: String)
        ensures
            prefix@ == "line "@ + decimal(line_at(self.stream(), self.cursor())) + ":"@,
    {
        let mut prefix = String::from_str("line ");
        let number = decimal_string(self.tokenizer.line());
        prefix.append(number.as_str());
        prefix.append(":");
        prefix
    }

    /// The error for finding the current token where `expected` was due.
    fn fail<T>(&self, expected: Expected) -> (res: Result<T, ParseError>)
        ensures
            res matches Err(e) && e@ == error_at(self.stream(), self.cursor(), expected),
    {
        let found = match self.tokenizer.current_token() {
            Some(token) => Some(token.clone()),
            None => None,
        };
        Err(
            ParseError {
                position: self.tokenizer.position(),
                line: self.tokenizer.line(),
                expected,
                found,
            },
        )
    }

    /// Passes over the tag of a line and takes the value behind it.
    fn take_line_value(&mut self) -> (res: Result<String, ParseError>)
        requires
            old(self).cursor() < old(self).stream().len(),
        ensures
            final(self).took(
                old(self),
                grammar::line_value(old(self).stream(), old(self).cursor()),
                res,
            ),
    {
        self.tokenizer.next_token();
        let value = match self.tokenizer.current_token() {
            Some(Token::LineValue(value)) => value.clone(),
            _ => {
                return self.fail(Expected::LineValue);
            },
        };
        self.tokenizer.next_token();
        Ok(value)
    }

    /// Reads the gender on the line of the current tag.
    fn parse_gender(&mut self) -> (res: Result<Gender, ParseError>)
        requires
            old(self).cursor() < old(self).stream().len(),
        ensures
            final(self).stream() == old(self).stream(),
            final(self).reports() == old(self).reports(),
            match grammar::gender(old(self).stream(), old(self).cursor()) {
                Ok((value, next)) => res == Ok::<Gender, ParseError>(value) && final(self).cursor()
                    == next,
                Err(error) => res matches Err(e) && e@ == error && final(self).cursor()
                    == error.position,
            },
    {
        self.tokenizer.next_token();
        let gender = match self.tokenizer.current_token() {
            Some(Token::LineValue(value)) => match Gender::from_text(value.as_str()) {
                Some(gender) => gender,
                None => {
                    return self.fail(Expected::Gender);
                },
            },
            _ => {
                return self.fail(Expected::LineValue);
            },
        };
        self.tokenizer.next_token();
        Ok(gender)
    }

    /// Reads the source citation that opens at the current tag.
    fn parse_citation(&mut self, level: u8) -> (res: Result<SourceCitation, ParseError>)
        requires
            old(self).cursor() < old(self).stream().len(),
        ensures
            final(self).took(
                old(self),
                grammar::citation(old(self).stream(), old(self).cursor(), level as int),
                res,
            ),
    {
        let xref = self.take_line_value()?;
        let mut citation = SourceCitation { xref, page: None };
        loop
            invariant
                self.stream() == old(self).stream(),
                self.reports() == old(self).reports(),
                grammar::citation(old(self).stream(), old(self).cursor(), level as int)
                    == grammar::citation_fields(
                    self.stream(),
                    self.cursor(),
                    level as int,
                    citation@,
                ),
            decreases self.stream().len() - self.cursor(),
        {
            match self.tokenizer.peek() {
                Peek::Level(n) => {
                    if n <= level {
                        return Ok(citation);
                    }
                    self.tokenizer.next_token();
                },
                Peek::Tag(Keyword::Page) => {
                    let page = self.take_line_value()?;
                    citation.page = Some(page);
                },
                _ => {
                    return self.fail(Expected::Field(Block::SourceCitation));
                },
            }
        }
    }

    /// Reads the repository citation that opens at the current tag.
    fn parse_repo_citation(&mut self, level: u8) -> (res: Result<RepoCitation, ParseError>)
        requires
            old(self).cursor() < old(self).stream().len(),
        ensures
            final(self).took(
                old(self),
                grammar::repo_citation(old(self).stream(), old(self).cursor(), level as int),
                res,
            ),
    {
        let xref = self.take_line_value()?;
        let mut citation = RepoCitation { xref, call_number: None };
        loop
            invariant
                self.stream() == old(self).stream(),
                self.reports() == old(self).reports(),
                grammar::repo_citation(old(self).stream(), old(self).cursor(), level as int)
                    == grammar::repo_citation_fields(
                    self.stream(),
                    self.cursor(),
                    level as int,
                    citation@,
                ),
            decreases self.stream().len() - self.cursor(),
        {
            match self.tokenizer.peek() {
                Peek::Level(n) => {
                    if n <= level {
                        return Ok(citation);
                    }
                    self.tokenizer.next_token();
                },
                Peek::Tag(Keyword::Caln) => {
                    let number = self.take_line_value()?;
                    citation.call_number = Some(number);
                },
                _ => {
                    return self.fail(Expected::Field(Block::RepoCitation));
                },
            }
        }
    }

    /// Reads the family link that opens at the current tag; `tag` says of which
    /// kind it is.
    fn parse_family_link(&mut self, tag: &str, level: u8) -> (res: Result<FamilyLink, ParseError>)
        requires
            old(self).cursor() < old(self).stream().len(),
            tag@ == "FAMC"@ || tag@ == "FAMS"@,
        ensures
            final(self).took(
                old(self),
                grammar::family_link(
                    old(self).stream(),
                    old(self).cursor(),
                    level as int,
                    link_type_of(tag@),
                ),
                res,
            ),
    {
        let xref = self.take_line_value()?;
        let mut link = FamilyLink::new(xref, tag);
        loop
            invariant
                self.stream() == old(self).stream(),
                self.reports() == old(self).reports(),
                grammar::family_link(
                    old(self).stream(),
                    old(self).cursor(),
                    level as int,
                    link_type_of(tag@),
                ) == grammar::family_link_fields(self.stream(), self.cursor(), level as int, link@),
            decreases self.stream().len() - self.cursor(),
        {
            match self.tokenizer.peek() {
                Peek::Level(n) => {
                    if n <= level {
                        return Ok(link);
                    }
                    self.tokenizer.next_token();
                },
                Peek::Tag(Keyword::Pedi) => {
                    self.tokenizer.next_token();
                    match self.tokenizer.current_token() {
                        Some(Token::LineValue(value)) => match Pedigree::from_text(value.as_str()) {
                            Some(_) => {
                                link.set_pedigree(value.as_str());
                            },
                            None => {
                                return self.fail(Expected::Pedigree);
                            },
                        },
                        _ => {
                            return self.fail(Expected::LineValue);
                        },
                    }
                    self.tokenizer.next_token();
                },
                _ => {
                    return self.fail(Expected::Field(Block::FamilyLink));
                },
            }
        }
    }

    /// Reads the name that opens at the current tag.
    fn parse_name(&mut self, level: u8) -> (res: Result<Name, ParseError>)
        requires
            old(self).cursor() < old(self).stream().len(),
        ensures
            final(self).took(
                old(self),
                grammar::name(old(self).stream(), old(self).cursor(), level as int),
                res,
            ),
    {
        let value = self.take_line_value()?;
        let mut name = Name { value: Some(value), given: None, surname: None };
        loop
            invariant
                self.stream() == old(self).stream(),
                self.reports() == old(self).reports(),
                grammar::name(old(self).stream(), old(self).cursor(), level as int)
                    == grammar::name_fields(self.stream(), self.cursor(), level as int, name@),
            decreases self.stream().len() - self.cursor(),
        {
            match self.tokenizer.peek() {
                Peek::Level(n) => {
                    if n <= level {
                        return Ok(name);
                    }
                    self.tokenizer.next_token();
                },
                Peek::Tag(Keyword::Givn) => {
                    let given = self.take_line_value()?;
                    name.given = Some(given);
                },
                Peek::Tag(Keyword::Surn) => {
                    let surname = self.take_line_value()?;
                    name.surname = Some(surname);
                },
                _ => {
                    return self.fail(Expected::Field(Block::Name));
                },
            }
        }
    }

    /// Reads the value of the current tag's line with its continuation lines.
    fn take_continued_text(&mut self, level: u8) -> (res: Result<String, ParseError>)
        requires
            old(self).cursor() < old(self).stream().len(),
        ensures
            final(self).took(
                old(self),
                grammar::continued_text(old(self).stream(), old(self).cursor(), level as int),
                res,
            ),
    {
        let mut value = self.take_line_value()?;
        loop
            invariant
                self.stream() == old(self).stream(),
                self.reports() == old(self).reports(),
                grammar::continued_text(old(self).stream(), old(self).cursor(), level as int)
                    == grammar::continued_lines(self.stream(), self.cursor(), level as int, value@),
            decreases self.stream().len() - self.cursor(),
        {
            match self.tokenizer.peek() {
                Peek::Level(n) => {
                    if n <= level {
                        return Ok(value);
                    }
                    self.tokenizer.next_token();
                },
                Peek::Tag(Keyword::Cont) => {
                    let line = self.take_line_value()?;
                    let ghost text = value@;
                    value.append("\n");
                    value.append(line.as_str());
                    proof {
                        reveal_strlit("\n");
                        assert(value@ =~= grammar::continued(text, line@));
                    }
                },
                Peek::Tag(Keyword::Conc) => {
                    let piece = self.take_line_value()?;
                    let ghost text = value@;
                    value.append(" ");
                    value.append(piece.as_str());
                    proof {
                        reveal_strlit(" ");
                        assert(value@ =~= grammar::concatenated(text, piece@));
                    }
                },
                _ => {
                    return self.fail(Expected::Field(Block::ContinuedText));
                },
            }
        }
    }

    /// Reads the lines below an event's own line into an event of the given
    /// kind; the caller has read the event's line.
    fn parse_event_fields(&mut self, kind: EventType, level: u8) -> (res: Result<
        Event,
        ParseError,
    >)
        requires
            level < 255,
        ensures
            final(self).took(
                old(self),
                grammar::event_fields(
                    old(self).stream(),
                    old(self).cursor(),
                    level as int,
                    EventView::new(kind),
                ),
                res,
            ),
    {
        let mut event = Event::new(kind);
        loop
            invariant
                level < 255,
                self.stream() == old(self).stream(),
                self.reports() == old(self).reports(),
                grammar::event_fields(
                    old(self).stream(),
                    old(self).cursor(),
                    level as int,
                    EventView::new(kind),
                ) == grammar::event_fields(self.stream(), self.cursor(), level as int, event@),
            decreases self.stream().len() - self.cursor(),
        {
            match self.tokenizer.peek() {
                Peek::Level(n) => {
                    if n <= level {
                        return Ok(event);
                    }
                    self.tokenizer.next_token();
                },
                Peek::Tag(Keyword::Date) => {
                    let date = self.take_line_value()?;
                    event.date = Some(date);
                },
                Peek::Tag(Keyword::Plac) => {
                    let place = self.take_line_value()?;
                    event.place = Some(place);
                },
                Peek::Tag(Keyword::Sour) => {
                    proof {
                        grammar::lemma_citation_end(self.stream(), self.cursor(), level + 1);
                    }
                    let citation = self.parse_citation(level + 1)?;
                    event.add_citation(citation);
                },
                _ => {
                    return self.fail(Expected::Field(Block::Event));
                },
            }
        }
    }

    /// Reads the event of the given kind that opens at the current tag.
    fn parse_event(&mut self, kind: EventType, level: u8) -> (res: Result<Event, ParseError>)
        requires
            old(self).cursor() < old(self).stream().len(),
            level < 255,
        ensures
            final(self).took(
                old(self),
                grammar::event(old(self).stream(), old(self).cursor(), level as int, kind),
                res,
            ),
    {
        self.tokenizer.next_token();
        self.parse_event_fields(kind, level)
    }

    /// Reads the address that opens at the current tag.
    fn parse_address(&mut self, level: u8) -> (res: Result<Address, ParseError>)
        requires
            old(self).cursor() < old(self).stream().len(),
        ensures
            final(self).took(
                old(self),
                grammar::address(old(self).stream(), old(self).cursor(), level as int),
                res,
            ),
    {
        self.tokenizer.next_token();
        let mut address = Address::default();
        let mut value = String::new();
        let leads = match self.tokenizer.current_token() {
            Some(Token::LineValue(first)) => {
                value.append(first.as_str());
                true
            },
            _ => false,
        };
        if leads {
            self.tokenizer.next_token();
        }
        assert(value@ =~= match token_at(old(self).stream(), old(self).cursor() + 1) {
            Some(TokenView::LineValue(first)) => first,
            _ => Seq::empty(),
        });
        loop
            invariant
                self.stream() == old(self).stream(),
                self.reports() == old(self).reports(),
                address@.value is None,
                grammar::address(old(self).stream(), old(self).cursor(), level as int)
                    == grammar::address_fields(
                    self.stream(),
                    self.cursor(),
                    level as int,
                    address@,
                    value@,
                ),
            decreases self.stream().len() - self.cursor(),
        {
            match self.tokenizer.peek() {
                Peek::Level(n) => {
                    if n <= level {
                        if !value.as_str().is_empty() {
                            address.value = Some(value);
                        }
                        return Ok(address);
                    }
                    self.tokenizer.next_token();
                },
                Peek::Tag(Keyword::Cont) => {
                    let line = self.take_line_value()?;
                    let ghost raw = value@;
                    value.append("\n");
                    value.append(line.as_str());
                    proof {
                        reveal_strlit("\n");
                        assert(value@ =~= grammar::continued(raw, line@));
                    }
                },
                Peek::Tag(Keyword::Adr1) => {
                    let part = self.take_line_value()?;
                    address.adr1 = Some(part);
                },
                Peek::Tag(Keyword::Adr2) => {
                    let part = self.take_line_value()?;
                    address.adr2 = Some(part);
                },
                Peek::Tag(Keyword::Adr3) => {
                    let part = self.take_line_value()?;
                    address.adr3 = Some(part);
                },
                Peek::Tag(Keyword::City) => {
                    let part = self.take_line_value()?;
                    address.city = Some(part);
                },
                Peek::Tag(Keyword::Stae) => {
                    let part = self.take_line_value()?;
                    address.state = Some(part);
                },
                Peek::Tag(Keyword::Post) => {
                    let part = self.take_line_value()?;
                    address.post = Some(part);
                },
                Peek::Tag(Keyword::Ctry) => {
                    let part = self.take_line_value()?;
                    address.country = Some(part);
                },
                _ => {
                    return self.fail(Expected::Field(Block::Address));
                },
            }
        }
    }

    /// Reads the submitter record whose tag is the current token.
    fn parse_submitter(&mut self, level: u8, xref: Option<String>) -> (res: Result<
        Submitter,
        ParseError,
    >)
        requires
            old(self).cursor() < old(self).stream().len(),
            level <= DEEPEST_RECORD,
        ensures
            final(self).took(
                old(self),
                grammar::submitter(
                    old(self).stream(),
                    old(self).cursor(),
                    level as int,
                    xref.deep_view(),
                ),
                res,
            ),
    {
        self.tokenizer.next_token();
        let mut submitter = Submitter::new(xref);
        loop
            invariant
                level <= DEEPEST_RECORD,
                self.stream() == old(self).stream(),
                self.reports() == old(self).reports(),
                grammar::submitter(
                    old(self).stream(),
                    old(self).cursor(),
                    level as int,
                    xref.deep_view(),
                ) == grammar::submitter_fields(
                    self.stream(),
                    self.cursor(),
                    level as int,
                    submitter@,
                ),
            decreases self.stream().len() - self.cursor(),
        {
            match self.tokenizer.peek() {
                Peek::Level(n) => {
                    if n <= level {
                        return Ok(submitter);
                    }
                    self.tokenizer.next_token();
                },
                Peek::Tag(Keyword::Name) => {
                    let name = self.take_line_value()?;
                    submitter.name = Some(name);
                },
                Peek::Tag(Keyword::Addr) => {
                    proof {
                        grammar::lemma_address_end(self.stream(), self.cursor(), level + 1);
                    }
                    let address = self.parse_address(level + 1)?;
                    submitter.address = Some(address);
                },
                Peek::Tag(Keyword::Phon) => {
                    let phone = self.take_line_value()?;
                    submitter.phone = Some(phone);
                },
                _ => {
                    return self.fail(Expected::Field(Block::Submitter));
                },
            }
        }
    }

    /// Reads the individual's record whose tag is the current token.
    fn parse_individual(&mut self, level: u8, xref: Option<String>) -> (res: Result<
        Individual,
        ParseError,
    >)
        requires
            old(self).cursor() < old(self).stream().len(),
            level <= DEEPEST_RECORD,
        ensures
            final(self).took(
                old(self),
                grammar::individual(
                    old(self).stream(),
                    old(self).cursor(),
                    level as int,
                    xref.deep_view(),
                ),
                res,
            ),
    {
        self.tokenizer.next_token();
        let mut individual = Individual::new(xref);
        loop
            invariant
                level <= DEEPEST_RECORD,
                self.stream() == old(self).stream(),
                self.reports() == old(self).reports(),
                grammar::individual(
                    old(self).stream(),
                    old(self).cursor(),
                    level as int,
                    xref.deep_view(),
                ) == grammar::individual_fields(
                    self.stream(),
                    self.cursor(),
                    level as int,
                    individual@,
                ),
            decreases self.stream().len() - self.cursor(),
        {
            match self.tokenizer.peek() {
                Peek::Level(n) => {
                    if n <= level {
                        return Ok(individual);
                    }
                    self.tokenizer.next_token();
                },
                Peek::Tag(Keyword::Name) => {
                    proof {
                        grammar::lemma_name_end(self.stream(), self.cursor(), level + 1);
                    }
                    let name = self.parse_name(level + 1)?;
                    individual.name = Some(name);
                },
                Peek::Tag(Keyword::Sex) => {
                    let sex = self.parse_gender()?;
                    individual.sex = sex;
                },
                Peek::Tag(Keyword::Famc) => {
                    proof {
                        grammar::lemma_family_link_end(
                            self.stream(),
                            self.cursor(),
                            level + 1,
                            FamilyLinkType::Child,
                        );
                    }
                    let link = self.parse_family_link("FAMC", level + 1)?;
                    individual.add_family(link);
                },
                Peek::Tag(Keyword::Fams) => {
                    proof {
                        reveal_strlit("FAMC");
                        reveal_strlit("FAMS");
                        assert("FAMS"@[3] != "FAMC"@[3]);
                        grammar::lemma_family_link_end(
                            self.stream(),
                            self.cursor(),
                            level + 1,
                            FamilyLinkType::Spouse,
                        );
                    }
                    let link = self.parse_family_link("FAMS", level + 1)?;
                    individual.add_family(link);
                },
                Peek::Tag(keyword) => {
                    match life_event_of(keyword) {
                        Some(kind) => {
                            proof {
                                grammar::lemma_event_end(
                                    self.stream(),
                                    self.cursor(),
                                    level + 1,
                                    kind,
                                );
                            }
                            let event = self.parse_event(kind, level + 1)?;
                            individual.add_event(event);
                        },
                        None => {
                            return self.fail(Expected::Field(Block::Individual));
                        },
                    }
                },
                _ => {
                    return self.fail(Expected::Field(Block::Individual));
                },
            }
        }
    }

    /// Reads the family record whose tag is the current token.
    fn parse_family(&mut self, level: u8, xref: Option<String>) -> (res: Result<
        Family,
        ParseError,
    >)
        requires
            old(self).cursor() < old(self).stream().len(),
            level <= DEEPEST_RECORD,
        ensures
            final(self).took(
                old(self),
                grammar::family(
                    old(self).stream(),
                    old(self).cursor(),
                    level as int,
                    xref.deep_view(),
                ),
                res,
            ),
    {
        self.tokenizer.next_token();
        let mut family = Family::new(xref);
        loop
            invariant
                level <= DEEPEST_RECORD,
                self.stream() == old(self).stream(),
                self.reports() == old(self).reports(),
                grammar::family(
                    old(self).stream(),
                    old(self).cursor(),
                    level as int,
                    xref.deep_view(),
                ) == grammar::family_fields(self.stream(), self.cursor(), level as int, family@),
            decreases self.stream().len() - self.cursor(),
        {
            match self.tokenizer.peek() {
                Peek::Level(n) => {
                    if n <= level {
                        return Ok(family);
                    }
                    self.tokenizer.next_token();
                },
                Peek::Tag(Keyword::Marr) => {
                    proof {
                        grammar::lemma_event_end(
                            self.stream(),
                            self.cursor(),
                            level + 1,
                            EventType::Marriage,
                        );
                    }
                    let event = self.parse_event(EventType::Marriage, level + 1)?;
                    family.add_event(event);
                },
                Peek::Tag(Keyword::Husb) => {
                    let partner = self.take_line_value()?;
                    family.set_individual1(partner);
                },
                Peek::Tag(Keyword::Wife) => {
                    let partner = self.take_line_value()?;
                    family.set_individual2(partner);
                },
                Peek::Tag(Keyword::Chil) => {
                    let child = self.take_line_value()?;
                    family.add_child(child);
                },
                _ => {
                    return self.fail(Expected::Field(Block::Family));
                },
            }
        }
    }

    /// Reads the source record whose tag is the current token.
    fn parse_source(&mut self, level: u8, xref: Option<String>) -> (res: Result<
        Source,
        ParseError,
    >)
        requires
            old(self).cursor() < old(self).stream().len(),
            level <= DEEPEST_RECORD,
        ensures
            final(self).took(
                old(self),
                grammar::source(
                    old(self).stream(),
                    old(self).cursor(),
                    level as int,
                    xref.deep_view(),
                ),
                res,
            ),
    {
        self.tokenizer.next_token();
        let mut source = Source::new(xref);
        loop
            invariant
                level <= DEEPEST_RECORD,
                self.stream() == old(self).stream(),
                self.reports() == old(self).reports(),
                grammar::source(
                    old(self).stream(),
                    old(self).cursor(),
                    level as int,
                    xref.deep_view(),
                ) == grammar::source_fields(self.stream(), self.cursor(), level as int, source@),
            decreases self.stream().len() - self.cursor(),
        {
            match self.tokenizer.peek() {
                Peek::Level(n) => {
                    if n <= level {
                        return Ok(source);
                    }
                    self.tokenizer.next_token();
                },
                Peek::Tag(Keyword::Data) => {
                    self.tokenizer.next_token();
                },
                Peek::Tag(Keyword::Even) => {
                    let covered = self.take_line_value()?;
                    proof {
                        grammar::lemma_event_fields_end(
                            self.stream(),
                            self.cursor(),
                            level + 2,
                            EventView::new(EventType::Other),
                        );
                    }
                    let mut event = self.parse_event_fields(EventType::Other, level + 2)?;
                    event.with_source_data(covered);
                    source.data.add_event(event);
                },
                Peek::Tag(Keyword::Agnc) => {
                    let agency = self.take_line_value()?;
                    source.data.agency = Some(agency);
                },
                Peek::Tag(Keyword::Abbr) => {
                    proof {
                        grammar::lemma_continued_text_end(self.stream(), self.cursor(), level + 1);
                    }
                    let text = self.take_continued_text(level + 1)?;
                    source.abbreviation = Some(text);
                },
                Peek::Tag(Keyword::Titl) => {
                    proof {
                        grammar::lemma_continued_text_end(self.stream(), self.cursor(), level + 1);
                    }
                    let text = self.take_continued_text(level + 1)?;
                    source.title = Some(text);
                },
                Peek::Tag(Keyword::Repo) => {
                    proof {
                        grammar::lemma_repo_citation_end(self.stream(), self.cursor(), level + 1);
                    }
                    let citation = self.parse_repo_citation(level + 1)?;
                    source.add_repo_citation(citation);
                },
                _ => {
                    return self.fail(Expected::Field(Block::Source));
                },
            }
        }
    }

    /// Reads the repository record whose tag is the current token.
    fn parse_repository(&mut self, level: u8, xref: Option<String>) -> (res: Result<
        Repository,
        ParseError,
    >)
        requires
            old(self).cursor() < old(self).stream().len(),
            level <= DEEPEST_RECORD,
        ensures
            final(self).took(
                old(self),
                grammar::repository(
                    old(self).stream(),
                    old(self).cursor(),
                    level as int,
                    xref.deep_view(),
                ),
                res,
            ),
    {
        self.tokenizer.next_token();
        let mut repo = Repository { xref, name: None, address: None };
        loop
            invariant
                level <= DEEPEST_RECORD,
                self.stream() == old(self).stream(),
                self.reports() == old(self).reports(),
                grammar::repository(
                    old(self).stream(),
                    old(self).cursor(),
                    level as int,
                    xref.deep_view(),
                ) == grammar::repository_fields(self.stream(), self.cursor(), level as int, repo@),
            decreases self.stream().len() - self.cursor(),
        {
            match self.tokenizer.peek() {
                Peek::Level(n) => {
                    if n <= level {
                        return Ok(repo);
                    }
                    self.tokenizer.next_token();
                },
                Peek::Tag(Keyword::Name) => {
                    let name = self.take_line_value()?;
                    repo.name = Some(name);
                },
                Peek::Tag(Keyword::Addr) => {
                    proof {
                        grammar::lemma_address_end(self.stream(), self.cursor(), level + 1);
                    }
                    let address = self.parse_address(level + 1)?;
                    repo.address = Some(address);
                },
                _ => {
                    return self.fail(Expected::Field(Block::Repository));
                },
            }
        }
    }

    /// Skips a header: everything up to the next record.
    fn parse_header(&mut self)
        ensures
            final(self).stream() == old(self).stream(),
            final(self).reports() == old(self).reports(),
            final(self).cursor() == grammar::header_end(old(self).stream(), old(self).cursor()),
    {
        loop
            invariant
                self.stream() == old(self).stream(),
                self.reports() == old(self).reports(),
                grammar::header_end(old(self).stream(), old(self).cursor()) == grammar::header_end(
                    self.stream(),
                    self.cursor(),
                ),
            decreases self.stream().len() - self.cursor(),
        {
            match self.tokenizer.peek() {
                Peek::End => {
                    return ;
                },
                Peek::Level(n) => {
                    if n == 0 {
                        return ;
                    }
                },
                _ => {},
            }
            self.tokenizer.next_token();
        }
    }

    /// Reads the records from the current token up to the terminator.
    ///
    /// On success the tree holds every record, each kind in the order of the
    /// input, and the cursor stands on the terminator's tag. A token that
    /// stands where a record's tag is due, without being one, is noted among
    /// the reports and passed over. Anything else that the grammar does not
    /// allow ends the parse with an error, and the cursor stands on the
    /// offending token.
    pub fn parse_record(&mut self) -> (res: Result<GedcomData, ParseError>)
        ensures
            final(self).stream() == old(self).stream(),
            match grammar::records(
                old(self).stream(),
                old(self).cursor(),
                GedcomDataView::empty(),
                Seq::empty(),
            ) {
                Ok(outcome) => {
                    &&& res matches Ok(data) && data@ == outcome.tree
                    &&& final(self).reports() == old(self).reports() + outcome.unhandled
                    &&& final(self).cursor() == outcome.end
                },
                Err(failure) => {
                    &&& res matches Err(e) && e@ == failure.error
                    &&& final(self).reports() == old(self).reports() + failure.unhandled
                    &&& final(self).cursor() == failure.error.position
                },
            },
    {
        let mut data = GedcomData::default();
        let ghost mut noted: Seq<UnhandledView> = Seq::empty();
        assert(self.reports() =~= old(self).reports() + noted);
        loop
            invariant
                self.stream() == old(self).stream(),
                self.reports() == old(self).reports() + noted,
                grammar::records(
                    old(self).stream(),
                    old(self).cursor(),
                    GedcomDataView::empty(),
                    Seq::empty(),
                ) == grammar::records(self.stream(), self.cursor(), data@, noted),
            decreases self.stream().len() - self.cursor(),
        {
            let level = match self.tokenizer.peek() {
                Peek::Level(n) => n,
                _ => {
                    return self.fail(Expected::RecordLevel);
                },
            };
            if level != 0 {
                return self.fail(Expected::RecordLevel);
            }
            let ghost opened = self.cursor();
            proof {
                grammar::lemma_entry_end(self.stream(), opened);
            }
            self.tokenizer.next_token();
            let pointer = match self.tokenizer.current_token() {
                Some(Token::Pointer(xref)) => Some(xref.clone()),
                _ => None,
            };
            if pointer.is_some() {
                self.tokenizer.next_token();
            }
            assert(pointer.deep_view() == grammar::record_xref(self.stream(), opened));
            assert(self.cursor() == grammar::record_tag_at(self.stream(), opened));
            match self.tokenizer.peek() {
                Peek::Tag(Keyword::Fam) => {
                    let family = self.parse_family(level, pointer)?;
                    data.add_family(family);
                },
                Peek::Tag(Keyword::Head) => {
                    self.parse_header();
                },
                Peek::Tag(Keyword::Indi) => {
                    let individual = self.parse_individual(level, pointer)?;
                    data.add_individual(individual);
                },
                Peek::Tag(Keyword::Repo) => {
                    let repository = self.parse_repository(level, pointer)?;
                    data.add_repository(repository);
                },
                Peek::Tag(Keyword::Sour) => {
                    let source = self.parse_source(level, pointer)?;
                    data.add_source(source);
                },
                Peek::Tag(Keyword::Subm) => {
                    let submitter = self.parse_submitter(level, pointer)?;
                    data.add_submitter(submitter);
                },
                Peek::Tag(Keyword::Trlr) => {
                    return Ok(data);
                },
                Peek::End => {
                    return self.fail(Expected::RecordTag);
                },
                _ => {
                    let line = self.tokenizer.line();
                    let note = match self.tokenizer.current_token() {
                        Some(token) => Some(Unhandled { line, token: token.clone() }),
                        None => None,
                    };
                    if let Some(note) = note {
                        let ghost before = self.unhandled;
                        proof {
                            noted = noted.push(note@);
                        }
                        self.unhandled.push(note);
                        proof {
                            lemma_push_deep_view(before, self.unhandled, note);
                            assert(self.reports() =~= old(self).reports() + noted);
                        }
                    }
                    self.tokenizer.next_token();
                },
            }
        }
    }
}

} // verus!
