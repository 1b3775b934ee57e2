//! The grammar of the record file, as functions from a token stream and a
//! position to what is read there and where reading stops.
//!
//! A block is a line and the deeper lines below it. Every block ends before
//! the first level token that is no deeper than the block's own line; that
//! token is left for whoever reads on. Inside a block only the tags of its
//! grammar may stand: anything else ends the parse.

use crate::error::{Block, Expected, ParseErrorView, UnhandledView};
use crate::keyword::Keyword;
use crate::tokenizer::{glance, line_at, token_at, Peek, TokenView};
use crate::tree::GedcomDataView;
use crate::types::{
    gender_of, pedigree_of, with_family, AddressView, EventType, EventView, FamilyLinkType,
    FamilyLinkView, FamilyView, Gender, IndividualView, NameView, Pedigree, RepoCitationView,
    RepositoryView, SourceCitationView, SourceDataView, SourceView, SubmitterView,
};
use vstd::prelude::*;

verus! {

/// What reading yields: the value read and the position of the next token,
/// or the error that ends the parse.
pub type Step<T> = Result<(T, int), ParseErrorView>;

/// The error for finding the token at `pos` where `expected` was due.
pub open spec fn error_at(ts: Seq<TokenView>, pos: int, expected: Expected) -> ParseErrorView {
    ParseErrorView { position: pos, line: line_at(ts, pos), expected, found: token_at(ts, pos) }
}

/// The value of the line whose tag stands at `pos`.
pub open spec fn line_value(ts: Seq<TokenView>, pos: int) -> Step<Seq<char>> {
    match token_at(ts, pos + 1) {
        Some(TokenView::LineValue(value)) => Ok((value, pos + 2)),
        _ => Err(error_at(ts, pos + 1, Expected::LineValue)),
    }
}

/// The gender on the line whose tag stands at `pos`.
pub open spec fn gender(ts: Seq<TokenView>, pos: int) -> Step<Gender> {
    match token_at(ts, pos + 1) {
        Some(TokenView::LineValue(value)) => match gender_of(value) {
            Some(gender) => Ok((gender, pos + 2)),
            None => Err(error_at(ts, pos + 1, Expected::Gender)),
        },
        _ => Err(error_at(ts, pos + 1, Expected::LineValue)),
    }
}

/// The pedigree on the line whose tag stands at `pos`.
pub open spec fn pedigree(ts: Seq<TokenView>, pos: int) -> Step<Pedigree> {
    match token_at(ts, pos + 1) {
        Some(TokenView::LineValue(value)) => match pedigree_of(value) {
            Some(pedigree) => Ok((pedigree, pos + 2)),
            None => Err(error_at(ts, pos + 1, Expected::Pedigree)),
        },
        _ => Err(error_at(ts, pos + 1, Expected::LineValue)),
    }
}

/// No token from `from` up to `to` is a level token of depth `level` or less.
pub open spec fn deeper_within(ts: Seq<TokenView>, from: int, to: int, level: int) -> bool {
    forall|i: int|
        from <= i < to ==> !(#[trigger] glance(ts, i) matches Peek::Level(n) && n <= level)
}

/// A block that was read from `from` stops at `to`: on a level token no
/// deeper than the block, with only deeper ones on the way.
pub open spec fn ends_block(ts: Seq<TokenView>, from: int, to: int, level: int) -> bool {
    &&& from <= to
    &&& glance(ts, to) matches Peek::Level(n) && n <= level
    &&& deeper_within(ts, from, to, level)
}

/// The lines below a source citation, read into `citation`.
pub open spec fn citation_fields(
    ts: Seq<TokenView>,
    pos: int,
    level: int,
    citation: SourceCitationView,
) -> Step<SourceCitationView>
    decreases ts.len() - pos,
{
    match glance(ts, pos) {
        Peek::Level(n) => if n <= level {
            Ok((citation, pos))
        } else {
            citation_fields(ts, pos + 1, level, citation)
        },
        Peek::Tag(Keyword::Page) => match line_value(ts, pos) {
            Ok((page, next)) => citation_fields(
                ts,
                next,
                level,
                SourceCitationView { page: Some(page), ..citation },
            ),
            Err(e) => Err(e),
        },
        _ => Err(error_at(ts, pos, Expected::Field(Block::SourceCitation))),
    }
}

/// The source citation whose tag stands at `pos`: the id of the source on
/// the tag's line, the page below it.
pub open spec fn citation(ts: Seq<TokenView>, pos: int, level: int) -> Step<SourceCitationView> {
    match line_value(ts, pos) {
        Ok((xref, next)) => citation_fields(
            ts,
            next,
            level,
            SourceCitationView { xref, page: None },
        ),
        Err(e) => Err(e),
    }
}

/// Reading the lines below a source citation stops where its block ends.
pub proof fn lemma_citation_fields_end(
    ts: Seq<TokenView>,
    pos: int,
    level: int,
    citation: SourceCitationView,
)
    ensures
        citation_fields(ts, pos, level, citation) matches Ok((_, to)) ==> ends_block(
            ts,
            pos,
            to,
            level,
        ),
    decreases ts.len() - pos,
{
    match glance(ts, pos) {
        Peek::Level(n) => if n > level {
            lemma_citation_fields_end(ts, pos + 1, level, citation);
        },
        Peek::Tag(Keyword::Page) => match line_value(ts, pos) {
            Ok((page, next)) => {
                lemma_citation_fields_end(
                    ts,
                    next,
                    level,
                    SourceCitationView { page: Some(page), ..citation },
                );
            },
            Err(e) => {},
        },
        _ => {},
    }
}

/// Reading a source citation goes past its tag and stops where its block ends.
pub proof fn lemma_citation_end(ts: Seq<TokenView>, pos: int, level: int)
    ensures
        citation(ts, pos, level) matches Ok((_, to)) ==> pos < to && ends_block(
            ts,
            pos + 1,
            to,
            level,
        ),
{
    match line_value(ts, pos) {
        Ok((xref, next)) => {
            lemma_citation_fields_end(ts, next, level, SourceCitationView { xref, page: None });
        },
        Err(e) => {},
    }
}

/// The lines below an event, read into `event`.
pub open spec fn event_fields(ts: Seq<TokenView>, pos: int, level: int, event: EventView) -> Step<
    EventView,
>
    decreases ts.len() - pos,
{
    match glance(ts, pos) {
        Peek::Level(n) => if n <= level {
            Ok((event, pos))
        } else {
            event_fields(ts, pos + 1, level, event)
        },
        Peek::Tag(Keyword::Date) => match line_value(ts, pos) {
            Ok((date, next)) => event_fields(ts, next, level, EventView { date: Some(date), ..event }),
            Err(e) => Err(e),
        },
        Peek::Tag(Keyword::Plac) => match line_value(ts, pos) {
            Ok((place, next)) => event_fields(
                ts,
                next,
                level,
                EventView { place: Some(place), ..event },
            ),
            Err(e) => Err(e),
        },
        Peek::Tag(Keyword::Sour) => match citation(ts, pos, level + 1) {
            Ok((cited, next)) => {
                proof {
                    lemma_citation_end(ts, pos, level + 1);
                }
                event_fields(
                    ts,
                    next,
                    level,
                    EventView { citations: event.citations.push(cited), ..event },
                )
            },
            Err(e) => Err(e),
        },
        _ => Err(error_at(ts, pos, Expected::Field(Block::Event))),
    }
}

/// Reading the lines below an event stops where its block ends.
pub proof fn lemma_event_fields_end(ts: Seq<TokenView>, pos: int, level: int, event: EventView)
    ensures
        event_fields(ts, pos, level, event) matches Ok((_, to)) ==> ends_block(ts, pos, to, level),
    decreases ts.len() - pos,
{
    match glance(ts, pos) {
        Peek::Level(n) => if n > level {
            lemma_event_fields_end(ts, pos + 1, level, event);
        },
        Peek::Tag(Keyword::Date) => match line_value(ts, pos) {
            Ok((date, next)) => {
                lemma_event_fields_end(ts, next, level, EventView { date: Some(date), ..event });
            },
            Err(e) => {},
        },
        Peek::Tag(Keyword::Plac) => match line_value(ts, pos) {
            Ok((place, next)) => {
                lemma_event_fields_end(ts, next, level, EventView { place: Some(place), ..event });
            },
            Err(e) => {},
        },
        Peek::Tag(Keyword::Sour) => match citation(ts, pos, level + 1) {
            Ok((cited, next)) => {
                lemma_citation_end(ts, pos, level + 1);
                lemma_event_fields_end(
                    ts,
                    next,
                    level,
                    EventView { citations: event.citations.push(cited), ..event },
                );
            },
            Err(e) => {},
        },
        _ => {},
    }
}

/// The event of the given kind whose tag stands at `pos`.
pub open spec fn event(ts: Seq<TokenView>, pos: int, level: int, kind: EventType) -> Step<
    EventView,
> {
    event_fields(ts, pos + 1, level, EventView::new(kind))
}

/// Reading an event goes past its tag and stops where its block ends.
pub proof fn lemma_event_end(ts: Seq<TokenView>, pos: int, level: int, kind: EventType)
    ensures
        event(ts, pos, level, kind) matches Ok((_, to)) ==> pos < to && ends_block(
            ts,
            pos + 1,
            to,
            level,
        ),
{
    lemma_event_fields_end(ts, pos + 1, level, EventView::new(kind));
}

/// The lines below a repository citation, read into `citation`.
pub open spec fn repo_citation_fields(
    ts: Seq<TokenView>,
    pos: int,
    level: int,
    citation: RepoCitationView,
) -> Step<RepoCitationView>
    decreases ts.len() - pos,
{
    match glance(ts, pos) {
        Peek::Level(n) => if n <= level {
            Ok((citation, pos))
        } else {
            repo_citation_fields(ts, pos + 1, level, citation)
        },
        Peek::Tag(Keyword::Caln) => match line_value(ts, pos) {
            Ok((number, next)) => repo_citation_fields(
                ts,
                next,
                level,
                RepoCitationView { call_number: Some(number), ..citation },
            ),
            Err(e) => Err(e),
        },
        _ => Err(error_at(ts, pos, Expected::Field(Block::RepoCitation))),
    }
}

/// The repository citation whose tag stands at `pos`: the id of the
/// repository on the tag's line, the call number below it.
pub open spec fn repo_citation(ts: Seq<TokenView>, pos: int, level: int) -> Step<
    RepoCitationView,
> {
    match line_value(ts, pos) {
        Ok((xref, next)) => repo_citation_fields(
            ts,
            next,
            level,
            RepoCitationView { xref, call_number: None },
        ),
        Err(e) => Err(e),
    }
}

/// Reading the lines below a repository citation stops where its block ends.
pub proof fn lemma_repo_citation_fields_end(
    ts: Seq<TokenView>,
    pos: int,
    level: int,
    citation: RepoCitationView,
)
    ensures
        repo_citation_fields(ts, pos, level, citation) matches Ok((_, to)) ==> ends_block(
            ts,
            pos,
            to,
            level,
        ),
    decreases ts.len() - pos,
{
    match glance(ts, pos) {
        Peek::Level(n) => if n > level {
            lemma_repo_citation_fields_end(ts, pos + 1, level, citation);
        },
        Peek::Tag(Keyword::Caln) => match line_value(ts, pos) {
            Ok((number, next)) => {
                lemma_repo_citation_fields_end(
                    ts,
                    next,
                    level,
                    RepoCitationView { call_number: Some(number), ..citation },
                );
            },
            Err(e) => {},
        },
        _ => {},
    }
}

/// Reading a repository citation goes past its tag and stops where its block ends.
pub proof fn lemma_repo_citation_end(ts: Seq<TokenView>, pos: int, level: int)
    ensures
        repo_citation(ts, pos, level) matches Ok((_, to)) ==> pos < to && ends_block(
            ts,
            pos + 1,
            to,
            level,
        ),
{
    match line_value(ts, pos) {
        Ok((xref, next)) => {
            lemma_repo_citation_fields_end(
                ts,
                next,
                level,
                RepoCitationView { xref, call_number: None },
            );
        },
        Err(e) => {},
    }
}

/// The lines below a family link, read into `link`. Of several pedigree
/// lines the last one counts.
pub open spec fn family_link_fields(
    ts: Seq<TokenView>,
    pos: int,
    level: int,
    link: FamilyLinkView,
) -> Step<FamilyLinkView>
    decreases ts.len() - pos,
{
    match glance(ts, pos) {
        Peek::Level(n) => if n <= level {
            Ok((link, pos))
        } else {
            family_link_fields(ts, pos + 1, level, link)
        },
        Peek::Tag(Keyword::Pedi) => match pedigree(ts, pos) {
            Ok((given, next)) => family_link_fields(
                ts,
                next,
                level,
                FamilyLinkView { pedigree: Some(given), ..link },
            ),
            Err(e) => Err(e),
        },
        _ => Err(error_at(ts, pos, Expected::Field(Block::FamilyLink))),
    }
}

/// The family link whose tag stands at `pos`: the id of the family on the
/// tag's line, the pedigree below it.
pub open spec fn family_link(
    ts: Seq<TokenView>,
    pos: int,
    level: int,
    link_type: FamilyLinkType,
) -> Step<FamilyLinkView> {
    match line_value(ts, pos) {
        Ok((xref, next)) => family_link_fields(
            ts,
            next,
            level,
            FamilyLinkView { xref, link_type, pedigree: None },
        ),
        Err(e) => Err(e),
    }
}

/// Reading the lines below a family link stops where its block ends.
pub proof fn lemma_family_link_fields_end(
    ts: Seq<TokenView>,
    pos: int,
    level: int,
    link: FamilyLinkView,
)
    ensures
        family_link_fields(ts, pos, level, link) matches Ok((_, to)) ==> ends_block(
            ts,
            pos,
            to,
            level,
        ),
    decreases ts.len() - pos,
{
    match glance(ts, pos) {
        Peek::Level(n) => if n > level {
            lemma_family_link_fields_end(ts, pos + 1, level, link);
        },
        Peek::Tag(Keyword::Pedi) => match pedigree(ts, pos) {
            Ok((given, next)) => {
                lemma_family_link_fields_end(
                    ts,
                    next,
                    level,
                    FamilyLinkView { pedigree: Some(given), ..link },
                );
            },
            Err(e) => {},
        },
        _ => {},
    }
}

/// Reading a family link goes past its tag and stops where its block ends.
pub proof fn lemma_family_link_end(
    ts: Seq<TokenView>,
    pos: int,
    level: int,
    link_type: FamilyLinkType,
)
    ensures
        family_link(ts, pos, level, link_type) matches Ok((_, to)) ==> pos < to && ends_block(
            ts,
            pos + 1,
            to,
            level,
        ),
{
    match line_value(ts, pos) {
        Ok((xref, next)) => {
            lemma_family_link_fields_end(
                ts,
                next,
                level,
                FamilyLinkView { xref, link_type, pedigree: None },
            );
        },
        Err(e) => {},
    }
}

/// The lines below a name, read into `name`.
pub open spec fn name_fields(ts: Seq<TokenView>, pos: int, level: int, name: NameView) -> Step<
    NameView,
>
    decreases ts.len() - pos,
{
    match glance(ts, pos) {
        Peek::Level(n) => if n <= level {
            Ok((name, pos))
        } else {
            name_fields(ts, pos + 1, level, name)
        },
        Peek::Tag(Keyword::Givn) => match line_value(ts, pos) {
            Ok((given, next)) => name_fields(ts, next, level, NameView { given: Some(given), ..name }),
            Err(e) => Err(e),
        },
        Peek::Tag(Keyword::Surn) => match line_value(ts, pos) {
            Ok((surname, next)) => name_fields(
                ts,
                next,
                level,
                NameView { surname: Some(surname), ..name },
            ),
            Err(e) => Err(e),
        },
        _ => Err(error_at(ts, pos, Expected::Field(Block::Name))),
    }
}

/// The name whose tag stands at `pos`: the name as written on the tag's
/// line, its parts below it.
pub open spec fn name(ts: Seq<TokenView>, pos: int, level: int) -> Step<NameView> {
    match line_value(ts, pos) {
        Ok((value, next)) => name_fields(
            ts,
            next,
            level,
            NameView { value: Some(value), given: None, surname: None },
        ),
        Err(e) => Err(e),
    }
}

/// Reading the lines below a name stops where its block ends.
pub proof fn lemma_name_fields_end(ts: Seq<TokenView>, pos: int, level: int, name: NameView)
    ensures
        name_fields(ts, pos, level, name) matches Ok((_, to)) ==> ends_block(ts, pos, to, level),
    decreases ts.len() - pos,
{
    match glance(ts, pos) {
        Peek::Level(n) => if n > level {
            lemma_name_fields_end(ts, pos + 1, level, name);
        },
        Peek::Tag(Keyword::Givn) => match line_value(ts, pos) {
            Ok((given, next)) => {
                lemma_name_fields_end(ts, next, level, NameView { given: Some(given), ..name });
            },
            Err(e) => {},
        },
        Peek::Tag(Keyword::Surn) => match line_value(ts, pos) {
            Ok((surname, next)) => {
                lemma_name_fields_end(ts, next, level, NameView { surname: Some(surname), ..name });
            },
            Err(e) => {},
        },
        _ => {},
    }
}

/// Reading a name goes past its tag and stops where its block ends.
pub proof fn lemma_name_end(ts: Seq<TokenView>, pos: int, level: int)
    ensures
        name(ts, pos, level) matches Ok((_, to)) ==> pos < to && ends_block(
            ts,
            pos + 1,
            to,
            level,
        ),
{
    match line_value(ts, pos) {
        Ok((value, next)) => {
            lemma_name_fields_end(
                ts,
                next,
                level,
                NameView { value: Some(value), given: None, surname: None },
            );
        },
        Err(e) => {},
    }
}

/// `text` with a line break and `line` after it.
pub open spec fn continued(text: Seq<char>, line: Seq<char>) -> Seq<char> {
    text.push('\n') + line
}

/// `text` with a space and `piece` after it.
pub open spec fn concatenated(text: Seq<char>, piece: Seq<char>) -> Seq<char> {
    text.push(' ') + piece
}

/// The continuation lines below a text, joined to `text`.
pub open spec fn continued_lines(ts: Seq<TokenView>, pos: int, level: int, text: Seq<char>) -> Step<
    Seq<char>,
>
    decreases ts.len() - pos,
{
    match glance(ts, pos) {
        Peek::Level(n) => if n <= level {
            Ok((text, pos))
        } else {
            continued_lines(ts, pos + 1, level, text)
        },
        Peek::Tag(Keyword::Cont) => match line_value(ts, pos) {
            Ok((line, next)) => continued_lines(ts, next, level, continued(text, line)),
            Err(e) => Err(e),
        },
        Peek::Tag(Keyword::Conc) => match line_value(ts, pos) {
            Ok((piece, next)) => continued_lines(ts, next, level, concatenated(text, piece)),
            Err(e) => Err(e),
        },
        _ => Err(error_at(ts, pos, Expected::Field(Block::ContinuedText))),
    }
}

/// The text whose tag stands at `pos`: the value of the tag's line with its
/// continuation lines.
pub open spec fn continued_text(ts: Seq<TokenView>, pos: int, level: int) -> Step<Seq<char>> {
    match line_value(ts, pos) {
        Ok((text, next)) => continued_lines(ts, next, level, text),
        Err(e) => Err(e),
    }
}

/// Reading the continuation lines of a text stops where its block ends.
pub proof fn lemma_continued_lines_end(ts: Seq<TokenView>, pos: int, level: int, text: Seq<char>)
    ensures
        continued_lines(ts, pos, level, text) matches Ok((_, to)) ==> ends_block(
            ts,
            pos,
            to,
            level,
        ),
    decreases ts.len() - pos,
{
    match glance(ts, pos) {
        Peek::Level(n) => if n > level {
            lemma_continued_lines_end(ts, pos + 1, level, text);
        },
        Peek::Tag(Keyword::Cont) => match line_value(ts, pos) {
            Ok((line, next)) => {
                lemma_continued_lines_end(ts, next, level, continued(text, line));
            },
            Err(e) => {},
        },
        Peek::Tag(Keyword::Conc) => match line_value(ts, pos) {
            Ok((piece, next)) => {
                lemma_continued_lines_end(ts, next, level, concatenated(text, piece));
            },
            Err(e) => {},
        },
        _ => {},
    }
}

/// Reading a continued text goes past its tag and stops where its block ends.
pub proof fn lemma_continued_text_end(ts: Seq<TokenView>, pos: int, level: int)
    ensures
        continued_text(ts, pos, level) matches Ok((_, to)) ==> pos < to && ends_block(
            ts,
            pos + 1,
            to,
            level,
        ),
{
    match line_value(ts, pos) {
        Ok((text, next)) => {
            lemma_continued_lines_end(ts, next, level, text);
        },
        Err(e) => {},
    }
}

/// The address `address` with `raw` as its free-form value; without one
/// where `raw` is empty.
pub open spec fn with_raw_value(address: AddressView, raw: Seq<char>) -> AddressView {
    AddressView {
        value: if raw.len() == 0 {
            None
        } else {
            Some(raw)
        },
        ..address
    }
}

/// The lines below an address, read into `address`; `raw` gathers the
/// free-form lines.
pub open spec fn address_fields(
    ts: Seq<TokenView>,
    pos: int,
    level: int,
    address: AddressView,
    raw: Seq<char>,
) -> Step<AddressView>
    decreases ts.len() - pos,
{
    match glance(ts, pos) {
        Peek::Level(n) => if n <= level {
            Ok((with_raw_value(address, raw), pos))
        } else {
            address_fields(ts, pos + 1, level, address, raw)
        },
        Peek::Tag(Keyword::Cont) => match line_value(ts, pos) {
            Ok((line, next)) => address_fields(ts, next, level, address, continued(raw, line)),
            Err(e) => Err(e),
        },
        Peek::Tag(Keyword::Adr1) => match line_value(ts, pos) {
            Ok((v, next)) => address_fields(
                ts,
                next,
                level,
                AddressView { adr1: Some(v), ..address },
                raw,
            ),
            Err(e) => Err(e),
        },
        Peek::Tag(Keyword::Adr2) => match line_value(ts, pos) {
            Ok((v, next)) => address_fields(
                ts,
                next,
                level,
                AddressView { adr2: Some(v), ..address },
                raw,
            ),
            Err(e) => Err(e),
        },
        Peek::Tag(Keyword::Adr3) => match line_value(ts, pos) {
            Ok((v, next)) => address_fields(
                ts,
                next,
                level,
                AddressView { adr3: Some(v), ..address },
                raw,
            ),
            Err(e) => Err(e),
        },
        Peek::Tag(Keyword::City) => match line_value(ts, pos) {
            Ok((v, next)) => address_fields(
                ts,
                next,
                level,
                AddressView { city: Some(v), ..address },
                raw,
            ),
            Err(e) => Err(e),
        },
        Peek::Tag(Keyword::Stae) => match line_value(ts, pos) {
            Ok((v, next)) => address_fields(
                ts,
                next,
                level,
                AddressView { state: Some(v), ..address },
                raw,
            ),
            Err(e) => Err(e),
        },
        Peek::Tag(Keyword::Post) => match line_value(ts, pos) {
            Ok((v, next)) => address_fields(
                ts,
                next,
                level,
                AddressView { post: Some(v), ..address },
                raw,
            ),
            Err(e) => Err(e),
        },
        Peek::Tag(Keyword::Ctry) => match line_value(ts, pos) {
            Ok((v, next)) => address_fields(
                ts,
                next,
                level,
                AddressView { country: Some(v), ..address },
                raw,
            ),
            Err(e) => Err(e),
        },
        _ => Err(error_at(ts, pos, Expected::Field(Block::Address))),
    }
}

/// The address whose tag stands at `pos`. A value on the tag's line opens
/// the free-form text; the line may also be bare.
pub open spec fn address(ts: Seq<TokenView>, pos: int, level: int) -> Step<AddressView> {
    match token_at(ts, pos + 1) {
        Some(TokenView::LineValue(first)) => address_fields(
            ts,
            pos + 2,
            level,
            AddressView::empty(),
            first,
        ),
        _ => address_fields(ts, pos + 1, level, AddressView::empty(), Seq::empty()),
    }
}

/// Reading the lines below an address stops where its block ends.
pub proof fn lemma_address_fields_end(
    ts: Seq<TokenView>,
    pos: int,
    level: int,
    address: AddressView,
    raw: Seq<char>,
)
    ensures
        address_fields(ts, pos, level, address, raw) matches Ok((_, to)) ==> ends_block(
            ts,
            pos,
            to,
            level,
        ),
    decreases ts.len() - pos,
{
    match glance(ts, pos) {
        Peek::Level(n) => if n > level {
            lemma_address_fields_end(ts, pos + 1, level, address, raw);
        },
        Peek::Tag(keyword) => match line_value(ts, pos) {
            Ok((v, next)) => {
                let fed = match keyword {
                    Keyword::Adr1 => AddressView { adr1: Some(v), ..address },
                    Keyword::Adr2 => AddressView { adr2: Some(v), ..address },
                    Keyword::Adr3 => AddressView { adr3: Some(v), ..address },
                    Keyword::City => AddressView { city: Some(v), ..address },
                    Keyword::Stae => AddressView { state: Some(v), ..address },
                    Keyword::Post => AddressView { post: Some(v), ..address },
                    Keyword::Ctry => AddressView { country: Some(v), ..address },
                    _ => address,
                };
                let gathered = if keyword == Keyword::Cont {
                    continued(raw, v)
                } else {
                    raw
                };
                lemma_address_fields_end(ts, next, level, fed, gathered);
            },
            Err(e) => {},
        },
        _ => {},
    }
}

/// Reading an address goes past its tag and stops where its block ends.
pub proof fn lemma_address_end(ts: Seq<TokenView>, pos: int, level: int)
    ensures
        address(ts, pos, level) matches Ok((_, to)) ==> pos < to && ends_block(
            ts,
            pos + 1,
            to,
            level,
        ),
{
    match token_at(ts, pos + 1) {
        Some(TokenView::LineValue(first)) => {
            lemma_address_fields_end(ts, pos + 2, level, AddressView::empty(), first);
        },
        _ => {
            lemma_address_fields_end(ts, pos + 1, level, AddressView::empty(), Seq::empty());
        },
    }
}

/// The lines below a submitter record, read into `submitter`.
pub open spec fn submitter_fields(
    ts: Seq<TokenView>,
    pos: int,
    level: int,
    submitter: SubmitterView,
) -> Step<SubmitterView>
    decreases ts.len() - pos,
{
    match glance(ts, pos) {
        Peek::Level(n) => if n <= level {
            Ok((submitter, pos))
        } else {
            submitter_fields(ts, pos + 1, level, submitter)
        },
        Peek::Tag(Keyword::Name) => match line_value(ts, pos) {
            Ok((v, next)) => submitter_fields(
                ts,
                next,
                level,
                SubmitterView { name: Some(v), ..submitter },
            ),
            Err(e) => Err(e),
        },
        Peek::Tag(Keyword::Addr) => match address(ts, pos, level + 1) {
            Ok((v, next)) => {
                proof {
                    lemma_address_end(ts, pos, level + 1);
                }
                submitter_fields(ts, next, level, SubmitterView { address: Some(v), ..submitter })
            },
            Err(e) => Err(e),
        },
        Peek::Tag(Keyword::Phon) => match line_value(ts, pos) {
            Ok((v, next)) => submitter_fields(
                ts,
                next,
                level,
                SubmitterView { phone: Some(v), ..submitter },
            ),
            Err(e) => Err(e),
        },
        _ => Err(error_at(ts, pos, Expected::Field(Block::Submitter))),
    }
}

/// The submitter record whose tag stands at `pos`.
pub open spec fn submitter(
    ts: Seq<TokenView>,
    pos: int,
    level: int,
    xref: Option<Seq<char>>,
) -> Step<SubmitterView> {
    submitter_fields(ts, pos + 1, level, SubmitterView::new(xref))
}

/// Reading the lines below a submitter record stops where its block ends.
pub proof fn lemma_submitter_fields_end(
    ts: Seq<TokenView>,
    pos: int,
    level: int,
    submitter: SubmitterView,
)
    ensures
        submitter_fields(ts, pos, level, submitter) matches Ok((_, to)) ==> ends_block(
            ts,
            pos,
            to,
            level,
        ),
    decreases ts.len() - pos,
{
    match glance(ts, pos) {
        Peek::Level(n) => if n > level {
            lemma_submitter_fields_end(ts, pos + 1, level, submitter);
        },
        Peek::Tag(Keyword::Name) => match line_value(ts, pos) {
            Ok((v, next)) => {
                lemma_submitter_fields_end(
                    ts,
                    next,
                    level,
                    SubmitterView { name: Some(v), ..submitter },
                );
            },
            Err(e) => {},
        },
        Peek::Tag(Keyword::Addr) => match address(ts, pos, level + 1) {
            Ok((v, next)) => {
                lemma_address_end(ts, pos, level + 1);
                lemma_submitter_fields_end(
                    ts,
                    next,
                    level,
                    SubmitterView { address: Some(v), ..submitter },
                );
            },
            Err(e) => {},
        },
        Peek::Tag(Keyword::Phon) => match line_value(ts, pos) {
            Ok((v, next)) => {
                lemma_submitter_fields_end(
                    ts,
                    next,
                    level,
                    SubmitterView { phone: Some(v), ..submitter },
                );
            },
            Err(e) => {},
        },
        _ => {},
    }
}

/// The lines below a repository record, read into `repository`.
pub open spec fn repository_fields(
    ts: Seq<TokenView>,
    pos: int,
    level: int,
    repository: RepositoryView,
) -> Step<RepositoryView>
    decreases ts.len() - pos,
{
    match glance(ts, pos) {
        Peek::Level(n) => if n <= level {
            Ok((repository, pos))
        } else {
            repository_fields(ts, pos + 1, level, repository)
        },
        Peek::Tag(Keyword::Name) => match line_value(ts, pos) {
            Ok((v, next)) => repository_fields(
                ts,
                next,
                level,
                RepositoryView { name: Some(v), ..repository },
            ),
            Err(e) => Err(e),
        },
        Peek::Tag(Keyword::Addr) => match address(ts, pos, level + 1) {
            Ok((v, next)) => {
                proof {
                    lemma_address_end(ts, pos, level + 1);
                }
                repository_fields(ts, next, level, RepositoryView { address: Some(v), ..repository })
            },
            Err(e) => Err(e),
        },
        _ => Err(error_at(ts, pos, Expected::Field(Block::Repository))),
    }
}

/// The repository record whose tag stands at `pos`.
pub open spec fn repository(
    ts: Seq<TokenView>,
    pos: int,
    level: int,
    xref: Option<Seq<char>>,
) -> Step<RepositoryView> {
    repository_fields(ts, pos + 1, level, RepositoryView::new(xref))
}

/// Reading the lines below a repository record stops where its block ends.
pub proof fn lemma_repository_fields_end(
    ts: Seq<TokenView>,
    pos: int,
    level: int,
    repository: RepositoryView,
)
    ensures
        repository_fields(ts, pos, level, repository) matches Ok((_, to)) ==> ends_block(
            ts,
            pos,
            to,
            level,
        ),
    decreases ts.len() - pos,
{
    match glance(ts, pos) {
        Peek::Level(n) => if n > level {
            lemma_repository_fields_end(ts, pos + 1, level, repository);
        },
        Peek::Tag(Keyword::Name) => match line_value(ts, pos) {
            Ok((v, next)) => {
                lemma_repository_fields_end(
                    ts,
                    next,
                    level,
                    RepositoryView { name: Some(v), ..repository },
                );
            },
            Err(e) => {},
        },
        Peek::Tag(Keyword::Addr) => match address(ts, pos, level + 1) {
            Ok((v, next)) => {
                lemma_address_end(ts, pos, level + 1);
                lemma_repository_fields_end(
                    ts,
                    next,
                    level,
                    RepositoryView { address: Some(v), ..repository },
                );
            },
            Err(e) => {},
        },
        _ => {},
    }
}

/// The lines below a family record, read into `family`.
pub open spec fn family_fields(ts: Seq<TokenView>, pos: int, level: int, family: FamilyView) -> Step<
    FamilyView,
>
    decreases ts.len() - pos,
{
    match glance(ts, pos) {
        Peek::Level(n) => if n <= level {
            Ok((family, pos))
        } else {
            family_fields(ts, pos + 1, level, family)
        },
        Peek::Tag(Keyword::Marr) => match event(ts, pos, level + 1, EventType::Marriage) {
            Ok((v, next)) => {
                proof {
                    lemma_event_end(ts, pos, level + 1, EventType::Marriage);
                }
                family_fields(ts, next, level, FamilyView { events: family.events.push(v), ..family })
            },
            Err(e) => Err(e),
        },
        Peek::Tag(Keyword::Husb) => match line_value(ts, pos) {
            Ok((v, next)) => family_fields(
                ts,
                next,
                level,
                FamilyView { individual1: Some(v), ..family },
            ),
            Err(e) => Err(e),
        },
        Peek::Tag(Keyword::Wife) => match line_value(ts, pos) {
            Ok((v, next)) => family_fields(
                ts,
                next,
                level,
                FamilyView { individual2: Some(v), ..family },
            ),
            Err(e) => Err(e),
        },
        Peek::Tag(Keyword::Chil) => match line_value(ts, pos) {
            Ok((v, next)) => family_fields(
                ts,
                next,
                level,
                FamilyView { children: family.children.push(v), ..family },
            ),
            Err(e) => Err(e),
        },
        _ => Err(error_at(ts, pos, Expected::Field(Block::Family))),
    }
}

/// The family record whose tag stands at `pos`.
pub open spec fn family(ts: Seq<TokenView>, pos: int, level: int, xref: Option<Seq<char>>) -> Step<
    FamilyView,
> {
    family_fields(ts, pos + 1, level, FamilyView::new(xref))
}

/// Reading the lines below a family record stops where its block ends.
pub proof fn lemma_family_fields_end(ts: Seq<TokenView>, pos: int, level: int, family: FamilyView)
    ensures
        family_fields(ts, pos, level, family) matches Ok((_, to)) ==> ends_block(
            ts,
            pos,
            to,
            level,
        ),
    decreases ts.len() - pos,
{
    match glance(ts, pos) {
        Peek::Level(n) => if n > level {
            lemma_family_fields_end(ts, pos + 1, level, family);
        },
        Peek::Tag(Keyword::Marr) => match event(ts, pos, level + 1, EventType::Marriage) {
            Ok((v, next)) => {
                lemma_event_end(ts, pos, level + 1, EventType::Marriage);
                lemma_family_fields_end(
                    ts,
                    next,
                    level,
                    FamilyView { events: family.events.push(v), ..family },
                );
            },
            Err(e) => {},
        },
        Peek::Tag(Keyword::Husb) => match line_value(ts, pos) {
            Ok((v, next)) => {
                lemma_family_fields_end(
                    ts,
                    next,
                    level,
                    FamilyView { individual1: Some(v), ..family },
                );
            },
            Err(e) => {},
        },
        Peek::Tag(Keyword::Wife) => match line_value(ts, pos) {
            Ok((v, next)) => {
                lemma_family_fields_end(
                    ts,
                    next,
                    level,
                    FamilyView { individual2: Some(v), ..family },
                );
            },
            Err(e) => {},
        },
        Peek::Tag(Keyword::Chil) => match line_value(ts, pos) {
            Ok((v, next)) => {
                lemma_family_fields_end(
                    ts,
                    next,
                    level,
                    FamilyView { children: family.children.push(v), ..family },
                );
            },
            Err(e) => {},
        },
        _ => {},
    }
}

/// The kind of event that a tag of an individual's record introduces.
pub open spec fn life_event(keyword: Keyword) -> Option<EventType> {
    match keyword {
        Keyword::Adop => Some(EventType::Adoption),
        Keyword::Birt => Some(EventType::Birth),
        Keyword::Buri => Some(EventType::Burial),
        Keyword::Deat => Some(EventType::Death),
        Keyword::Resi => Some(EventType::Residence),
        _ => None,
    }
}

/// The lines below an individual's record, read into `individual`. A link
/// to a family that the individual is linked to already is read and dropped.
pub open spec fn individual_fields(
    ts: Seq<TokenView>,
    pos: int,
    level: int,
    individual: IndividualView,
) -> Step<IndividualView>
    decreases ts.len() - pos,
{
    match glance(ts, pos) {
        Peek::Level(n) => if n <= level {
            Ok((individual, pos))
        } else {
            individual_fields(ts, pos + 1, level, individual)
        },
        Peek::Tag(Keyword::Name) => match name(ts, pos, level + 1) {
            Ok((v, next)) => {
                proof {
                    lemma_name_end(ts, pos, level + 1);
                }
                individual_fields(ts, next, level, IndividualView { name: Some(v), ..individual })
            },
            Err(e) => Err(e),
        },
        Peek::Tag(Keyword::Sex) => match gender(ts, pos) {
            Ok((v, next)) => individual_fields(
                ts,
                next,
                level,
                IndividualView { sex: v, ..individual },
            ),
            Err(e) => Err(e),
        },
        Peek::Tag(Keyword::Famc) => match family_link(ts, pos, level + 1, FamilyLinkType::Child) {
            Ok((v, next)) => {
                proof {
                    lemma_family_link_end(ts, pos, level + 1, FamilyLinkType::Child);
                }
                individual_fields(
                    ts,
                    next,
                    level,
                    IndividualView { families: with_family(individual.families, v), ..individual },
                )
            },
            Err(e) => Err(e),
        },
        Peek::Tag(Keyword::Fams) => match family_link(ts, pos, level + 1, FamilyLinkType::Spouse) {
            Ok((v, next)) => {
                proof {
                    lemma_family_link_end(ts, pos, level + 1, FamilyLinkType::Spouse);
                }
                individual_fields(
                    ts,
                    next,
                    level,
                    IndividualView { families: with_family(individual.families, v), ..individual },
                )
            },
            Err(e) => Err(e),
        },
        Peek::Tag(keyword) => match life_event(keyword) {
            Some(kind) => match event(ts, pos, level + 1, kind) {
                Ok((v, next)) => {
                    proof {
                        lemma_event_end(ts, pos, level + 1, kind);
                    }
                    individual_fields(
                        ts,
                        next,
                        level,
                        IndividualView { events: individual.events.push(v), ..individual },
                    )
                },
                Err(e) => Err(e),
            },
            None => Err(error_at(ts, pos, Expected::Field(Block::Individual))),
        },
        _ => Err(error_at(ts, pos, Expected::Field(Block::Individual))),
    }
}

/// The individual's record whose tag stands at `pos`.
pub open spec fn individual(
    ts: Seq<TokenView>,
    pos: int,
    level: int,
    xref: Option<Seq<char>>,
) -> Step<IndividualView> {
    individual_fields(ts, pos + 1, level, IndividualView::new(xref))
}

/// Reading the lines below an individual's record stops where its block ends.
pub proof fn lemma_individual_fields_end(
    ts: Seq<TokenView>,
    pos: int,
    level: int,
    individual: IndividualView,
)
    ensures
        individual_fields(ts, pos, level, individual) matches Ok((_, to)) ==> ends_block(
            ts,
            pos,
            to,
            level,
        ),
    decreases ts.len() - pos,
{
    match glance(ts, pos) {
        Peek::Level(n) => if n > level {
            lemma_individual_fields_end(ts, pos + 1, level, individual);
        },
        Peek::Tag(Keyword::Name) => match name(ts, pos, level + 1) {
            Ok((v, next)) => {
                lemma_name_end(ts, pos, level + 1);
                lemma_individual_fields_end(
                    ts,
                    next,
                    level,
                    IndividualView { name: Some(v), ..individual },
                );
            },
            Err(e) => {},
        },
        Peek::Tag(Keyword::Sex) => match gender(ts, pos) {
            Ok((v, next)) => {
                lemma_individual_fields_end(ts, next, level, IndividualView { sex: v, ..individual });
            },
            Err(e) => {},
        },
        Peek::Tag(Keyword::Famc) => match family_link(ts, pos, level + 1, FamilyLinkType::Child) {
            Ok((v, next)) => {
                lemma_family_link_end(ts, pos, level + 1, FamilyLinkType::Child);
                lemma_individual_fields_end(
                    ts,
                    next,
                    level,
                    IndividualView { families: with_family(individual.families, v), ..individual },
                );
            },
            Err(e) => {},
        },
        Peek::Tag(Keyword::Fams) => match family_link(ts, pos, level + 1, FamilyLinkType::Spouse) {
            Ok((v, next)) => {
                lemma_family_link_end(ts, pos, level + 1, FamilyLinkType::Spouse);
                lemma_individual_fields_end(
                    ts,
                    next,
                    level,
                    IndividualView { families: with_family(individual.families, v), ..individual },
                );
            },
            Err(e) => {},
        },
        Peek::Tag(keyword) => match life_event(keyword) {
            Some(kind) => match event(ts, pos, level + 1, kind) {
                Ok((v, next)) => {
                    lemma_event_end(ts, pos, level + 1, kind);
                    lemma_individual_fields_end(
                        ts,
                        next,
                        level,
                        IndividualView { events: individual.events.push(v), ..individual },
                    );
                },
                Err(e) => {},
            },
            None => {},
        },
        _ => {},
    }
}

/// `source` with one more event among those that it covers.
pub open spec fn with_covered_event(source: SourceView, event: EventView) -> SourceView {
    SourceView {
        data: SourceDataView { events: source.data.events.push(event), ..source.data },
        ..source
    }
}

/// The lines below a source record, read into `source`. The line that opens
/// the source's data has no value and no effect. An event line gives, on the
/// line itself, the kinds of event that the source covers; where and when
/// stand below it, two levels deeper than the record.
pub open spec fn source_fields(ts: Seq<TokenView>, pos: int, level: int, source: SourceView) -> Step<
    SourceView,
>
    decreases ts.len() - pos,
{
    match glance(ts, pos) {
        Peek::Level(n) => if n <= level {
            Ok((source, pos))
        } else {
            source_fields(ts, pos + 1, level, source)
        },
        Peek::Tag(Keyword::Data) => source_fields(ts, pos + 1, level, source),
        Peek::Tag(Keyword::Even) => match line_value(ts, pos) {
            Ok((covered, below)) => match event_fields(
                ts,
                below,
                level + 2,
                EventView::new(EventType::Other),
            ) {
                Ok((v, next)) => {
                    proof {
                        lemma_event_fields_end(
                            ts,
                            below,
                            level + 2,
                            EventView::new(EventType::Other),
                        );
                    }
                    source_fields(
                        ts,
                        next,
                        level,
                        with_covered_event(source, EventView { source_data: Some(covered), ..v }),
                    )
                },
                Err(e) => Err(e),
            },
            Err(e) => Err(e),
        },
        Peek::Tag(Keyword::Agnc) => match line_value(ts, pos) {
            Ok((v, next)) => source_fields(
                ts,
                next,
                level,
                SourceView { data: SourceDataView { agency: Some(v), ..source.data }, ..source },
            ),
            Err(e) => Err(e),
        },
        Peek::Tag(Keyword::Abbr) => match continued_text(ts, pos, level + 1) {
            Ok((v, next)) => {
                proof {
                    lemma_continued_text_end(ts, pos, level + 1);
                }
                source_fields(ts, next, level, SourceView { abbreviation: Some(v), ..source })
            },
            Err(e) => Err(e),
        },
        Peek::Tag(Keyword::Titl) => match continued_text(ts, pos, level + 1) {
            Ok((v, next)) => {
                proof {
                    lemma_continued_text_end(ts, pos, level + 1);
                }
                source_fields(ts, next, level, SourceView { title: Some(v), ..source })
            },
            Err(e) => Err(e),
        },
        Peek::Tag(Keyword::Repo) => match repo_citation(ts, pos, level + 1) {
            Ok((v, next)) => {
                proof {
                    lemma_repo_citation_end(ts, pos, level + 1);
                }
                source_fields(
                    ts,
                    next,
                    level,
                    SourceView { repo_citations: source.repo_citations.push(v), ..source },
                )
            },
            Err(e) => Err(e),
        },
        _ => Err(error_at(ts, pos, Expected::Field(Block::Source))),
    }
}

/// The source record whose tag stands at `pos`.
pub open spec fn source(ts: Seq<TokenView>, pos: int, level: int, xref: Option<Seq<char>>) -> Step<
    SourceView,
> {
    source_fields(ts, pos + 1, level, SourceView::new(xref))
}

/// Reading the lines below a source record stops where its block ends.
pub proof fn lemma_source_fields_end(ts: Seq<TokenView>, pos: int, level: int, source: SourceView)
    ensures
        source_fields(ts, pos, level, source) matches Ok((_, to)) ==> ends_block(
            ts,
            pos,
            to,
            level,
        ),
    decreases ts.len() - pos,
{
    match glance(ts, pos) {
        Peek::Level(n) => if n > level {
            lemma_source_fields_end(ts, pos + 1, level, source);
        },
        Peek::Tag(Keyword::Data) => {
            lemma_source_fields_end(ts, pos + 1, level, source);
        },
        Peek::Tag(Keyword::Even) => match line_value(ts, pos) {
            Ok((covered, below)) => match event_fields(
                ts,
                below,
                level + 2,
                EventView::new(EventType::Other),
            ) {
                Ok((v, next)) => {
                    lemma_event_fields_end(ts, below, level + 2, EventView::new(EventType::Other));
                    lemma_source_fields_end(
                        ts,
                        next,
                        level,
                        with_covered_event(source, EventView { source_data: Some(covered), ..v }),
                    );
                },
                Err(e) => {},
            },
            Err(e) => {},
        },
        Peek::Tag(Keyword::Agnc) => match line_value(ts, pos) {
            Ok((v, next)) => {
                lemma_source_fields_end(
                    ts,
                    next,
                    level,
                    SourceView { data: SourceDataView { agency: Some(v), ..source.data }, ..source },
                );
            },
            Err(e) => {},
        },
        Peek::Tag(Keyword::Abbr) => match continued_text(ts, pos, level + 1) {
            Ok((v, next)) => {
                lemma_continued_text_end(ts, pos, level + 1);
                lemma_source_fields_end(
                    ts,
                    next,
                    level,
                    SourceView { abbreviation: Some(v), ..source },
                );
            },
            Err(e) => {},
        },
        Peek::Tag(Keyword::Titl) => match continued_text(ts, pos, level + 1) {
            Ok((v, next)) => {
                lemma_continued_text_end(ts, pos, level + 1);
                lemma_source_fields_end(ts, next, level, SourceView { title: Some(v), ..source });
            },
            Err(e) => {},
        },
        Peek::Tag(Keyword::Repo) => match repo_citation(ts, pos, level + 1) {
            Ok((v, next)) => {
                lemma_repo_citation_end(ts, pos, level + 1);
                lemma_source_fields_end(
                    ts,
                    next,
                    level,
                    SourceView { repo_citations: source.repo_citations.push(v), ..source },
                );
            },
            Err(e) => {},
        },
        _ => {},
    }
}

/// Where the block of a header ends: the first position from `pos` on that
/// holds a level token of depth zero, or the end of the stream.
pub open spec fn header_end(ts: Seq<TokenView>, pos: int) -> int
    decreases ts.len() - pos,
{
    if pos >= ts.len() || glance(ts, pos) == Peek::Level(0) {
        pos
    } else {
        header_end(ts, pos + 1)
    }
}

/// The end of a header lies behind it and within the stream, on a level
/// token of depth zero unless the stream ends first, with none on the way.
pub proof fn lemma_header_end(ts: Seq<TokenView>, pos: int)
    ensures
        pos <= header_end(ts, pos),
        pos <= ts.len() ==> header_end(ts, pos) <= ts.len(),
        deeper_within(ts, pos, header_end(ts, pos), 0),
        header_end(ts, pos) < ts.len() ==> glance(ts, header_end(ts, pos)) == Peek::Level(0),
    decreases ts.len() - pos,
{
    if !(pos >= ts.len() || glance(ts, pos) == Peek::Level(0)) {
        lemma_header_end(ts, pos + 1);
    }
}

/// What a finished parse has made of its input.
pub struct Outcome {
    /// The records, each kind in the order of the input.
    pub tree: GedcomDataView,
    /// The tokens that were passed over where a record's tag was due.
    pub unhandled: Seq<UnhandledView>,
    /// The position of the terminator's tag, where reading stopped.
    pub end: int,
}

/// What a parse that failed leaves behind.
pub struct Failure {
    /// The error that ended the parse.
    pub error: ParseErrorView,
    /// The tokens that were passed over before the error.
    pub unhandled: Seq<UnhandledView>,
}

/// The id that the record's line at `pos` gives to its record, if any.
pub open spec fn record_xref(ts: Seq<TokenView>, pos: int) -> Option<Seq<char>> {
    match token_at(ts, pos + 1) {
        Some(TokenView::Pointer(xref)) => Some(xref),
        _ => None,
    }
}

/// Where the tag of the record stands whose level token is at `pos`: behind
/// the record's id where it has one.
pub open spec fn record_tag_at(ts: Seq<TokenView>, pos: int) -> int {
    match token_at(ts, pos + 1) {
        Some(TokenView::Pointer(_)) => pos + 2,
        _ => pos + 1,
    }
}

/// The note that the token at `pos` was passed over.
pub open spec fn unhandled_at(ts: Seq<TokenView>, pos: int) -> UnhandledView {
    UnhandledView { line: line_at(ts, pos), token: ts[pos] }
}

/// What stands at the top level of a file.
pub enum Entry {
    Family(FamilyView),
    Individual(IndividualView),
    Repository(RepositoryView),
    Source(SourceView),
    Submitter(SubmitterView),
    /// A header; nothing of it is kept.
    Header,
    /// A token that stood where the tag of a record was due.
    Unhandled(UnhandledView),
    /// The terminator, which ends the file.
    Terminator,
}

/// What opens at `pos` at the top level, and where reading goes on.
///
/// Every record opens with a level token of depth zero, then its id, if it
/// has one, then the tag that says what it is. A header reaches up to the
/// next level token of depth zero. Any other token in the tag's place is
/// passed over, alone: reading goes on with the token after it. On the tag
/// of the terminator reading stops.
pub open spec fn entry(ts: Seq<TokenView>, pos: int) -> Step<Entry> {
    if glance(ts, pos) != Peek::Level(0) {
        Err(error_at(ts, pos, Expected::RecordLevel))
    } else {
        let xref = record_xref(ts, pos);
        let at = record_tag_at(ts, pos);
        match glance(ts, at) {
            Peek::Tag(Keyword::Fam) => match family(ts, at, 0, xref) {
                Ok((v, next)) => Ok((Entry::Family(v), next)),
                Err(e) => Err(e),
            },
            Peek::Tag(Keyword::Head) => Ok((Entry::Header, header_end(ts, at))),
            Peek::Tag(Keyword::Indi) => match individual(ts, at, 0, xref) {
                Ok((v, next)) => Ok((Entry::Individual(v), next)),
                Err(e) => Err(e),
            },
            Peek::Tag(Keyword::Repo) => match repository(ts, at, 0, xref) {
                Ok((v, next)) => Ok((Entry::Repository(v), next)),
                Err(e) => Err(e),
            },
            Peek::Tag(Keyword::Sour) => match source(ts, at, 0, xref) {
                Ok((v, next)) => Ok((Entry::Source(v), next)),
                Err(e) => Err(e),
            },
            Peek::Tag(Keyword::Subm) => match submitter(ts, at, 0, xref) {
                Ok((v, next)) => Ok((Entry::Submitter(v), next)),
                Err(e) => Err(e),
            },
            Peek::Tag(Keyword::Trlr) => Ok((Entry::Terminator, at)),
            Peek::End => Err(error_at(ts, at, Expected::RecordTag)),
            _ => Ok((Entry::Unhandled(unhandled_at(ts, at)), at + 1)),
        }
    }
}

/// An entry begins with a level token of depth zero and ends behind it,
/// within the stream. But
/// for a token that was passed over, what it spans holds no second level
/// token of depth zero.
pub proof fn lemma_entry_end(ts: Seq<TokenView>, pos: int)
    ensures
        entry(ts, pos) matches Ok((found, next)) ==> {
            &&& glance(ts, pos) == Peek::Level(0)
            &&& pos < next <= ts.len()
            &&& found is Unhandled ==> next == record_tag_at(ts, pos) + 1
            &&& !(found is Unhandled) ==> deeper_within(ts, pos + 1, next, 0)
        },
{
    if glance(ts, pos) == Peek::Level(0) {
        let xref = record_xref(ts, pos);
        let at = record_tag_at(ts, pos);
        assert(deeper_within(ts, pos + 1, at, 0));
        match glance(ts, at) {
            Peek::Tag(Keyword::Fam) => {
                lemma_family_fields_end(ts, at + 1, 0, FamilyView::new(xref));
            },
            Peek::Tag(Keyword::Head) => {
                lemma_header_end(ts, at);
            },
            Peek::Tag(Keyword::Indi) => {
                lemma_individual_fields_end(ts, at + 1, 0, IndividualView::new(xref));
            },
            Peek::Tag(Keyword::Repo) => {
                lemma_repository_fields_end(ts, at + 1, 0, RepositoryView::new(xref));
            },
            Peek::Tag(Keyword::Sour) => {
                lemma_source_fields_end(ts, at + 1, 0, SourceView::new(xref));
            },
            Peek::Tag(Keyword::Subm) => {
                lemma_submitter_fields_end(ts, at + 1, 0, SubmitterView::new(xref));
            },
            _ => {},
        }
    }
}

/// The tree with the record of `found` appended; the tree as it was where
/// `found` is no record.
pub open spec fn with_entry(tree: GedcomDataView, found: Entry) -> GedcomDataView {
    match found {
        Entry::Family(v) => GedcomDataView { families: tree.families.push(v), ..tree },
        Entry::Individual(v) => GedcomDataView { individuals: tree.individuals.push(v), ..tree },
        Entry::Repository(v) => GedcomDataView { repositories: tree.repositories.push(v), ..tree },
        Entry::Source(v) => GedcomDataView { sources: tree.sources.push(v), ..tree },
        Entry::Submitter(v) => GedcomDataView { submitters: tree.submitters.push(v), ..tree },
        _ => tree,
    }
}

/// The notes with that of `found` appended, where `found` is a token that
/// was passed over.
pub open spec fn with_note(unhandled: Seq<UnhandledView>, found: Entry) -> Seq<UnhandledView> {
    match found {
        Entry::Unhandled(note) => unhandled.push(note),
        _ => unhandled,
    }
}

/// The entries from `pos` on, up to the terminator: the records added to
/// `tree`, the notes to `unhandled`. The first error ends the parse.
pub open spec fn records(
    ts: Seq<TokenView>,
    pos: int,
    tree: GedcomDataView,
    unhandled: Seq<UnhandledView>,
) -> Result<Outcome, Failure>
    decreases ts.len() - pos,
{
    match entry(ts, pos) {
        Err(error) => Err(Failure { error, unhandled }),
        Ok((found, next)) => if found is Terminator {
            Ok(Outcome { tree, unhandled, end: next })
        } else {
            proof {
                lemma_entry_end(ts, pos);
            }
            records(ts, next, with_entry(tree, found), with_note(unhandled, found))
        },
    }
}

/// The parse of a whole token stream.
pub open spec fn parse(ts: Seq<TokenView>) -> Result<Outcome, Failure> {
    records(ts, 0, GedcomDataView::empty(), Seq::empty())
}

} // verus!

