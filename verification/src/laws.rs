//! What holds of every parse, proved from the grammar.

use crate::error::{ParseErrorView, UnhandledView};
use crate::grammar::{
    concatenated, continued, continued_lines, continued_text, deeper_within, entry, event,
    family_link, gender, header_end, individual, individual_fields, lemma_entry_end,
    lemma_event_end, lemma_family_link_end, lemma_individual_fields_end, lemma_name_end,
    life_event, name, parse, record_tag_at, record_xref, records, unhandled_at, with_entry,
    with_note, Entry, Failure, Outcome,
};
use crate::keyword::Keyword;
use crate::tokenizer::{glance, token_at, Peek, TokenView};
use crate::tree::GedcomDataView;
use crate::types::individual::lemma_with_family_distinct;
use crate::types::{
    gender_of, knows_family, with_family, FamilyLinkType, FamilyLinkView, Gender, IndividualView,
};
use vstd::prelude::*;

verus! {

/// Whether a record of the kind `keyword` opens at `i`: a level token of
/// depth zero, then the record's id, if it has one, then the kind's tag.
pub open spec fn opens_record(ts: Seq<TokenView>, i: int, keyword: Keyword) -> bool {
    glance(ts, i) == Peek::Level(0) && glance(ts, record_tag_at(ts, i)) == Peek::Tag(keyword)
}

/// How many records of the kind `keyword` open from `from` up to `to`.
pub open spec fn records_opened(ts: Seq<TokenView>, from: int, to: int, keyword: Keyword) -> nat
    decreases to - from,
{
    if to <= from {
        0
    } else {
        records_opened(ts, from, to - 1, keyword) + if opens_record(ts, to - 1, keyword) {
            1nat
        } else {
            0nat
        }
    }
}

/// The kinds of record that the tree keeps.
pub open spec fn is_record_kind(keyword: Keyword) -> bool {
    keyword == Keyword::Fam || keyword == Keyword::Indi || keyword == Keyword::Repo || keyword
        == Keyword::Sour || keyword == Keyword::Subm
}

/// How many records of the kind `keyword` the tree holds.
pub open spec fn records_kept(tree: GedcomDataView, keyword: Keyword) -> nat {
    match keyword {
        Keyword::Fam => tree.families.len(),
        Keyword::Indi => tree.individuals.len(),
        Keyword::Repo => tree.repositories.len(),
        Keyword::Sour => tree.sources.len(),
        Keyword::Subm => tree.submitters.len(),
        _ => 0,
    }
}

/// The records that open in a stretch are those of its two parts.
pub proof fn lemma_opened_split(ts: Seq<TokenView>, from: int, mid: int, to: int, keyword: Keyword)
    requires
        from <= mid <= to,
    ensures
        records_opened(ts, from, to, keyword) == records_opened(ts, from, mid, keyword)
            + records_opened(ts, mid, to, keyword),
    decreases to - mid,
{
    if mid < to {
        lemma_opened_split(ts, from, mid, to - 1, keyword);
    }
}

/// No record opens in a stretch without a level token of depth zero.
pub proof fn lemma_none_opened(ts: Seq<TokenView>, from: int, to: int, keyword: Keyword)
    requires
        deeper_within(ts, from, to, 0),
    ensures
        records_opened(ts, from, to, keyword) == 0,
    decreases to - from,
{
    if from < to {
        assert(!(glance(ts, to - 1) matches Peek::Level(n) && n <= 0));
        lemma_none_opened(ts, from, to - 1, keyword);
    }
}

/// Where a stretch opens with the level token of a record and holds no
/// other of depth zero up to `next`, that one record is all that opens in it.
proof fn lemma_one_opened(ts: Seq<TokenView>, pos: int, next: int, end: int, keyword: Keyword)
    requires
        pos < next <= end,
        deeper_within(ts, pos + 1, next, 0),
    ensures
        records_opened(ts, pos, end, keyword) == records_opened(ts, next, end, keyword)
            + if opens_record(ts, pos, keyword) {
            1nat
        } else {
            0nat
        },
{
    lemma_opened_split(ts, pos, next, end, keyword);
    lemma_opened_split(ts, pos, pos + 1, next, keyword);
    lemma_none_opened(ts, pos + 1, next, keyword);
    assert(records_opened(ts, pos, pos, keyword) == 0);
    assert(records_opened(ts, pos, pos + 1, keyword) == if opens_record(ts, pos, keyword) {
        1nat
    } else {
        0nat
    });
}

/// An entry adds one record of a kind to the tree exactly where a record
/// of that kind opens.
pub proof fn lemma_entry_kept(
    ts: Seq<TokenView>,
    pos: int,
    tree: GedcomDataView,
    keyword: Keyword,
)
    requires
        is_record_kind(keyword),
        entry(ts, pos) is Ok,
    ensures
        records_kept(with_entry(tree, entry(ts, pos)->Ok_0.0), keyword) == records_kept(
            tree,
            keyword,
        ) + if opens_record(ts, pos, keyword) {
            1nat
        } else {
            0nat
        },
{
}

/// From any state of a parse on: where it succeeds, the tree has grown, for
/// each kind, by the records of that kind that open in what was read.
pub proof fn lemma_records_counted(
    ts: Seq<TokenView>,
    pos: int,
    tree: GedcomDataView,
    unhandled: Seq<UnhandledView>,
    keyword: Keyword,
)
    requires
        is_record_kind(keyword),
        records(ts, pos, tree, unhandled) is Ok,
    ensures
        ({
            let outcome = records(ts, pos, tree, unhandled)->Ok_0;
            &&& pos < outcome.end
            &&& records_kept(outcome.tree, keyword) == records_kept(tree, keyword) + records_opened(
                ts,
                pos,
                outcome.end,
                keyword,
            )
        }),
    decreases ts.len() - pos,
{
    let end = records(ts, pos, tree, unhandled)->Ok_0.end;
    let (found, next) = entry(ts, pos)->Ok_0;
    lemma_entry_end(ts, pos);
    lemma_entry_kept(ts, pos, tree, keyword);
    if found is Terminator {
        lemma_one_opened(ts, pos, next, next, keyword);
    } else {
        lemma_records_counted(
            ts,
            next,
            with_entry(tree, found),
            with_note(unhandled, found),
            keyword,
        );
        if found is Unhandled {
            let at = record_tag_at(ts, pos);
            if glance(ts, at) == Peek::Level(0) {
                // The token that was passed over looks like the start of a
                // record, but another level token follows it: it opens none.
                lemma_entry_end(ts, next);
                assert(!opens_record(ts, at, keyword));
                assert(deeper_within(ts, pos + 1, at, 0));
                lemma_one_opened(ts, pos, at, end, keyword);
                lemma_one_opened(ts, at, next, end, keyword);
            } else {
                assert(deeper_within(ts, pos + 1, next, 0));
                lemma_one_opened(ts, pos, next, end, keyword);
            }
        } else {
            lemma_one_opened(ts, pos, next, end, keyword);
        }
    }
}

/// A parse that succeeds stops on the tag of a terminator.
pub proof fn lemma_ends_on_terminator(
    ts: Seq<TokenView>,
    pos: int,
    tree: GedcomDataView,
    unhandled: Seq<UnhandledView>,
)
    requires
        records(ts, pos, tree, unhandled) is Ok,
    ensures
        glance(ts, records(ts, pos, tree, unhandled)->Ok_0.end) == Peek::Tag(Keyword::Trlr),
    decreases ts.len() - pos,
{
    let (found, next) = entry(ts, pos)->Ok_0;
    lemma_entry_end(ts, pos);
    if !(found is Terminator) {
        lemma_ends_on_terminator(ts, next, with_entry(tree, found), with_note(unhandled, found));
    }
}

/// A parse that succeeds has read up to the tag of a terminator, and its
/// tree holds, of each kind, as many records as open in the input before
/// that tag.
pub proof fn lemma_record_counts(ts: Seq<TokenView>)
    requires
        parse(ts) is Ok,
    ensures
        ({
            let outcome = parse(ts)->Ok_0;
            &&& glance(ts, outcome.end) == Peek::Tag(Keyword::Trlr)
            &&& outcome.tree.families.len() == records_opened(ts, 0, outcome.end, Keyword::Fam)
            &&& outcome.tree.individuals.len() == records_opened(
                ts,
                0,
                outcome.end,
                Keyword::Indi,
            )
            &&& outcome.tree.repositories.len() == records_opened(
                ts,
                0,
                outcome.end,
                Keyword::Repo,
            )
            &&& outcome.tree.sources.len() == records_opened(ts, 0, outcome.end, Keyword::Sour)
            &&& outcome.tree.submitters.len() == records_opened(ts, 0, outcome.end, Keyword::Subm)
        }),
{
    let none = Seq::<UnhandledView>::empty();
    lemma_records_counted(ts, 0, GedcomDataView::empty(), none, Keyword::Fam);
    lemma_records_counted(ts, 0, GedcomDataView::empty(), none, Keyword::Indi);
    lemma_records_counted(ts, 0, GedcomDataView::empty(), none, Keyword::Repo);
    lemma_records_counted(ts, 0, GedcomDataView::empty(), none, Keyword::Sour);
    lemma_records_counted(ts, 0, GedcomDataView::empty(), none, Keyword::Subm);
    lemma_ends_on_terminator(ts, 0, GedcomDataView::empty(), none);
}

/// A parse only ever appends: where it succeeds from some state on, the
/// records that the tree held then are still there, in their places.
pub proof fn lemma_records_only_append(
    ts: Seq<TokenView>,
    pos: int,
    tree: GedcomDataView,
    unhandled: Seq<UnhandledView>,
)
    requires
        records(ts, pos, tree, unhandled) is Ok,
    ensures
        ({
            let outcome = records(ts, pos, tree, unhandled)->Ok_0;
            &&& tree.families.is_prefix_of(outcome.tree.families)
            &&& tree.individuals.is_prefix_of(outcome.tree.individuals)
            &&& tree.repositories.is_prefix_of(outcome.tree.repositories)
            &&& tree.sources.is_prefix_of(outcome.tree.sources)
            &&& tree.submitters.is_prefix_of(outcome.tree.submitters)
            &&& unhandled.is_prefix_of(outcome.unhandled)
        }),
    decreases ts.len() - pos,
{
    let (found, next) = entry(ts, pos)->Ok_0;
    lemma_entry_end(ts, pos);
    if !(found is Terminator) {
        lemma_records_only_append(ts, next, with_entry(tree, found), with_note(unhandled, found));
    }
}

/// A tag that names no record does not end the parse where a record's tag
/// is due: it is noted, and the parse is that of what follows the tag.
pub proof fn lemma_unknown_tag_passed_over(
    ts: Seq<TokenView>,
    pos: int,
    tree: GedcomDataView,
    unhandled: Seq<UnhandledView>,
)
    requires
        glance(ts, pos) == Peek::Level(0),
        glance(ts, record_tag_at(ts, pos)) matches Peek::Tag(keyword) && !is_record_kind(keyword)
            && keyword != Keyword::Head && keyword != Keyword::Trlr,
    ensures
        records(ts, pos, tree, unhandled) == records(
            ts,
            record_tag_at(ts, pos) + 1,
            tree,
            unhandled.push(unhandled_at(ts, record_tag_at(ts, pos))),
        ),
{
}

/// The end of a header is the first level token of depth zero behind it.
pub proof fn lemma_header_end_is_next_record(ts: Seq<TokenView>, from: int, next: int)
    requires
        from <= next,
        glance(ts, next) == Peek::Level(0),
        deeper_within(ts, from, next, 0),
    ensures
        header_end(ts, from) == next,
    decreases next - from,
{
    if from < next {
        assert(!(glance(ts, from) matches Peek::Level(n) && n <= 0));
        lemma_header_end_is_next_record(ts, from + 1, next);
    }
}

/// Whatever a header holds, the parse is that of what follows it: of the
/// tokens from the next level token of depth zero on.
pub proof fn lemma_header_skipped(
    ts: Seq<TokenView>,
    pos: int,
    next: int,
    tree: GedcomDataView,
    unhandled: Seq<UnhandledView>,
)
    requires
        glance(ts, pos) == Peek::Level(0),
        glance(ts, record_tag_at(ts, pos)) == Peek::Tag(Keyword::Head),
        record_tag_at(ts, pos) < next,
        glance(ts, next) == Peek::Level(0),
        deeper_within(ts, record_tag_at(ts, pos), next, 0),
    ensures
        records(ts, pos, tree, unhandled) == records(ts, next, tree, unhandled),
{
    lemma_header_end_is_next_record(ts, record_tag_at(ts, pos), next);
}

/// Reading the lines of an individual keeps the families distinct.
pub proof fn lemma_individual_fields_linked_once(
    ts: Seq<TokenView>,
    pos: int,
    level: int,
    individual: IndividualView,
)
    requires
        individual.wf(),
    ensures
        individual_fields(ts, pos, level, individual) matches Ok((read, _)) ==> read.wf(),
    decreases ts.len() - pos,
{
    match glance(ts, pos) {
        Peek::Level(n) => if n > level {
            lemma_individual_fields_linked_once(ts, pos + 1, level, individual);
        },
        Peek::Tag(Keyword::Name) => match name(ts, pos, level + 1) {
            Ok((v, next)) => {
                lemma_name_end(ts, pos, level + 1);
                lemma_individual_fields_linked_once(
                    ts,
                    next,
                    level,
                    IndividualView { name: Some(v), ..individual },
                );
            },
            Err(e) => {},
        },
        Peek::Tag(Keyword::Sex) => match gender(ts, pos) {
            Ok((v, next)) => {
                lemma_individual_fields_linked_once(
                    ts,
                    next,
                    level,
                    IndividualView { sex: v, ..individual },
                );
            },
            Err(e) => {},
        },
        Peek::Tag(Keyword::Famc) => match family_link(ts, pos, level + 1, FamilyLinkType::Child) {
            Ok((v, next)) => {
                lemma_family_link_end(ts, pos, level + 1, FamilyLinkType::Child);
                lemma_with_family_distinct(individual.families, v);
                lemma_individual_fields_linked_once(
                    ts,
                    next,
                    level,
                    IndividualView { families: with_family(individual.families, v), ..individual },
                );
            },
            Err(e) => {},
        },
        Peek::Tag(Keyword::Fams) => match family_link(ts, pos, level + 1, FamilyLinkType::Spouse) {
            Ok((v, next)) => {
                lemma_family_link_end(ts, pos, level + 1, FamilyLinkType::Spouse);
                lemma_with_family_distinct(individual.families, v);
                lemma_individual_fields_linked_once(
                    ts,
                    next,
                    level,
                    IndividualView { families: with_family(individual.families, v), ..individual },
                );
            },
            Err(e) => {},
        },
        Peek::Tag(keyword) => match life_event(keyword) {
            Some(kind) => match event(ts, pos, level + 1, kind) {
                Ok((v, next)) => {
                    lemma_event_end(ts, pos, level + 1, kind);
                    lemma_individual_fields_linked_once(
                        ts,
                        next,
                        level,
                        IndividualView { events: individual.events.push(v), ..individual },
                    );
                },
                Err(e) => {},
            },
            None => {},
        },
        _ => {},
    }
}

/// Of two links to the same family the first one stays: adding the second
/// changes nothing, whatever its kind and its pedigree.
pub proof fn lemma_first_link_wins(
    links: Seq<FamilyLinkView>,
    first: FamilyLinkView,
    second: FamilyLinkView,
)
    requires
        first.xref == second.xref,
    ensures
        with_family(with_family(links, first), second) == with_family(links, first),
{
    let kept = with_family(links, first);
    if knows_family(links, first.xref) {
        assert(kept == links);
    } else {
        assert(kept[links.len() as int].xref == second.xref);
    }
}

/// No individual in `tree` is linked to one family twice.
pub open spec fn all_linked_once(tree: GedcomDataView) -> bool {
    forall|i: int| 0 <= i < tree.individuals.len() ==> (#[trigger] tree.individuals[i]).wf()
}

/// From any state of a parse on: the individuals stay linked to each family
/// at most once.
pub proof fn lemma_records_linked_once(
    ts: Seq<TokenView>,
    pos: int,
    tree: GedcomDataView,
    unhandled: Seq<UnhandledView>,
)
    requires
        all_linked_once(tree),
        records(ts, pos, tree, unhandled) is Ok,
    ensures
        all_linked_once(records(ts, pos, tree, unhandled)->Ok_0.tree),
    decreases ts.len() - pos,
{
    let (found, next) = entry(ts, pos)->Ok_0;
    lemma_entry_end(ts, pos);
    if !(found is Terminator) {
        let grown = with_entry(tree, found);
        if let Entry::Individual(read) = found {
            let at = record_tag_at(ts, pos);
            lemma_individual_fields_linked_once(
                ts,
                at + 1,
                0,
                IndividualView::new(record_xref(ts, pos)),
            );
            assert forall|i: int| 0 <= i < grown.individuals.len() implies (
            #[trigger] grown.individuals[i]).wf() by {
                if i < tree.individuals.len() {
                    assert(tree.individuals[i].wf());
                }
            }
        }
        lemma_records_linked_once(ts, next, grown, with_note(unhandled, found));
    }
}

/// No individual that a parse yields is linked to one family twice.
pub proof fn lemma_individuals_linked_once(ts: Seq<TokenView>)
    requires
        parse(ts) is Ok,
    ensures
        all_linked_once(parse(ts)->Ok_0.tree),
{
    lemma_records_linked_once(ts, 0, GedcomDataView::empty(), Seq::empty());
}

/// No token from `from` up to `to` is a tag that links to a family.
pub open spec fn no_link_lines(ts: Seq<TokenView>, from: int, to: int) -> bool {
    forall|i: int|
        from <= i < to ==> #[trigger] glance(ts, i) != Peek::Tag(Keyword::Famc) && glance(ts, i)
            != Peek::Tag(Keyword::Fams)
}

/// Lines that link to no family leave the families of an individual as
/// they were.
pub proof fn lemma_individual_fields_without_links(
    ts: Seq<TokenView>,
    pos: int,
    level: int,
    individual: IndividualView,
)
    ensures
        individual_fields(ts, pos, level, individual) matches Ok((read, to)) ==> (no_link_lines(
            ts,
            pos,
            to,
        ) ==> read.families == individual.families),
    decreases ts.len() - pos,
{
    if let Ok((read, to)) = individual_fields(ts, pos, level, individual) {
        lemma_individual_fields_end(ts, pos, level, individual);
        if no_link_lines(ts, pos, to) {
            match glance(ts, pos) {
                Peek::Level(n) => if n > level {
                    lemma_individual_fields_without_links(ts, pos + 1, level, individual);
                },
                Peek::Tag(Keyword::Name) => match name(ts, pos, level + 1) {
                    Ok((v, next)) => {
                        lemma_name_end(ts, pos, level + 1);
                        let fed = IndividualView { name: Some(v), ..individual };
                        lemma_individual_fields_end(ts, next, level, fed);
                        lemma_individual_fields_without_links(ts, next, level, fed);
                    },
                    Err(e) => {},
                },
                Peek::Tag(Keyword::Sex) => match gender(ts, pos) {
                    Ok((v, next)) => {
                        let fed = IndividualView { sex: v, ..individual };
                        lemma_individual_fields_end(ts, next, level, fed);
                        lemma_individual_fields_without_links(ts, next, level, fed);
                    },
                    Err(e) => {},
                },
                Peek::Tag(Keyword::Famc) => {
                    assert(glance(ts, pos) == Peek::Tag(Keyword::Famc));
                    assert(pos < to) by {
                        lemma_family_link_end(ts, pos, level + 1, FamilyLinkType::Child);
                        if let Ok((v, next)) = family_link(
                            ts,
                            pos,
                            level + 1,
                            FamilyLinkType::Child,
                        ) {
                            lemma_individual_fields_end(
                                ts,
                                next,
                                level,
                                IndividualView {
                                    families: with_family(individual.families, v),
                                    ..individual
                                },
                            );
                        }
                    }
                },
                Peek::Tag(Keyword::Fams) => {
                    assert(glance(ts, pos) == Peek::Tag(Keyword::Fams));
                    assert(pos < to) by {
                        lemma_family_link_end(ts, pos, level + 1, FamilyLinkType::Spouse);
                        if let Ok((v, next)) = family_link(
                            ts,
                            pos,
                            level + 1,
                            FamilyLinkType::Spouse,
                        ) {
                            lemma_individual_fields_end(
                                ts,
                                next,
                                level,
                                IndividualView {
                                    families: with_family(individual.families, v),
                                    ..individual
                                },
                            );
                        }
                    }
                },
                Peek::Tag(keyword) => match life_event(keyword) {
                    Some(kind) => match event(ts, pos, level + 1, kind) {
                        Ok((v, next)) => {
                            lemma_event_end(ts, pos, level + 1, kind);
                            let fed = IndividualView {
                                events: individual.events.push(v),
                                ..individual
                            };
                            lemma_individual_fields_end(ts, next, level, fed);
                            lemma_individual_fields_without_links(ts, next, level, fed);
                        },
                        Err(e) => {},
                    },
                    None => {},
                },
                _ => {},
            }
        }
    }
}

/// An individual whose record holds no line that links to a family has no
/// family links.
pub proof fn lemma_no_link_lines_no_links(
    ts: Seq<TokenView>,
    pos: int,
    level: int,
    xref: Option<Seq<char>>,
)
    requires
        individual(ts, pos, level, xref) matches Ok((_, to)) && no_link_lines(ts, pos + 1, to),
    ensures
        individual(ts, pos, level, xref)->Ok_0.0.families == Seq::<FamilyLinkView>::empty(),
{
    lemma_individual_fields_without_links(ts, pos + 1, level, IndividualView::new(xref));
}

/// The four gender values are single capital letters, each its own gender;
/// no other text names a gender.
pub proof fn lemma_gender_letters(text: Seq<char>)
    ensures
        gender_of(text) == Some(Gender::Male) <==> text == seq!['M'],
        gender_of(text) == Some(Gender::Female) <==> text == seq!['F'],
        gender_of(text) == Some(Gender::Nonbinary) <==> text == seq!['N'],
        gender_of(text) == Some(Gender::Unknown) <==> text == seq!['U'],
        gender_of(text) is None <==> text != seq!['M'] && text != seq!['F'] && text != seq!['N']
            && text != seq!['U'],
{
    reveal_strlit("M");
    reveal_strlit("F");
    reveal_strlit("N");
    reveal_strlit("U");
    assert("M"@ =~= seq!['M']);
    assert("F"@ =~= seq!['F']);
    assert("N"@ =~= seq!['N']);
    assert("U"@ =~= seq!['U']);
    assert(seq!['M'][0] != seq!['F'][0]);
    assert(seq!['M'][0] != seq!['N'][0]);
    assert(seq!['M'][0] != seq!['U'][0]);
    assert(seq!['F'][0] != seq!['N'][0]);
    assert(seq!['F'][0] != seq!['U'][0]);
    assert(seq!['N'][0] != seq!['U'][0]);
}

/// An error inside a record ends the whole parse: nothing after it is read,
/// and no tree comes out.
pub proof fn lemma_record_error_is_fatal(
    ts: Seq<TokenView>,
    pos: int,
    tree: GedcomDataView,
    unhandled: Seq<UnhandledView>,
)
    requires
        entry(ts, pos) is Err,
    ensures
        records(ts, pos, tree, unhandled) == Err::<Outcome, Failure>(
            Failure { error: entry(ts, pos)->Err_0, unhandled },
        ),
{
}

/// A concatenation line adds a space and its value to the text, and
/// nothing else.
pub proof fn lemma_concatenation_line(
    ts: Seq<TokenView>,
    pos: int,
    level: int,
    text: Seq<char>,
    piece: Seq<char>,
)
    requires
        glance(ts, pos) == Peek::Tag(Keyword::Conc),
        token_at(ts, pos + 1) == Some(TokenView::LineValue(piece)),
    ensures
        continued_lines(ts, pos, level, text) == continued_lines(
            ts,
            pos + 2,
            level,
            text + seq![' '] + piece,
        ),
{
    assert(concatenated(text, piece) =~= text + seq![' '] + piece);
}

/// A continuation line adds a line break and its value to the text, and
/// nothing else.
pub proof fn lemma_continuation_line(
    ts: Seq<TokenView>,
    pos: int,
    level: int,
    text: Seq<char>,
    line: Seq<char>,
)
    requires
        glance(ts, pos) == Peek::Tag(Keyword::Cont),
        token_at(ts, pos + 1) == Some(TokenView::LineValue(line)),
    ensures
        continued_lines(ts, pos, level, text) == continued_lines(
            ts,
            pos + 2,
            level,
            text + seq!['\n'] + line,
        ),
{
    assert(continued(text, line) =~= text + seq!['\n'] + line);
}

/// A text with a concatenation line and a continuation line below it reads
/// as its own value, a space, the second value, a line break, the third.
pub proof fn lemma_continuation_joins(
    ts: Seq<TokenView>,
    pos: int,
    level: int,
    first: Seq<char>,
    second: Seq<char>,
    third: Seq<char>,
)
    requires
        token_at(ts, pos + 1) == Some(TokenView::LineValue(first)),
        glance(ts, pos + 2) matches Peek::Level(n) && n > level,
        glance(ts, pos + 3) == Peek::Tag(Keyword::Conc),
        token_at(ts, pos + 4) == Some(TokenView::LineValue(second)),
        glance(ts, pos + 5) matches Peek::Level(n) && n > level,
        glance(ts, pos + 6) == Peek::Tag(Keyword::Cont),
        token_at(ts, pos + 7) == Some(TokenView::LineValue(third)),
        glance(ts, pos + 8) matches Peek::Level(n) && n <= level,
    ensures
        continued_text(ts, pos, level) == Ok::<(Seq<char>, int), ParseErrorView>(
            (first + seq![' '] + second + seq!['\n'] + third, pos + 8),
        ),
{
    lemma_concatenation_line(ts, pos + 3, level, first, second);
    lemma_continuation_line(ts, pos + 6, level, first + seq![' '] + second, third);
    let whole = first + seq![' '] + second + seq!['\n'] + third;
    assert(continued_lines(ts, pos + 8, level, whole) == Ok::<
        (Seq<char>, int),
        ParseErrorView,
    >((whole, pos + 8)));
    assert(continued_lines(ts, pos + 5, level, first + seq![' '] + second) == continued_lines(
        ts,
        pos + 6,
        level,
        first + seq![' '] + second,
    ));
    assert(continued_lines(ts, pos + 2, level, first) == continued_lines(
        ts,
        pos + 3,
        level,
        first,
    ));
}

} // verus!
