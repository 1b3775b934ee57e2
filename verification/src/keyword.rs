//! The tags that the record grammars know, as an enumeration.

use crate::text::str_eq;
use vstd::prelude::*;

verus! {

/// A tag of the record grammars; `Unknown` stands for every other spelling.
#[derive(Debug, Clone, Copy, PartialEq, Eq, Structural)]
pub enum Keyword {
    Abbr,
    Addr,
    Adop,
    Adr1,
    Adr2,
    Adr3,
    Agnc,
    Birt,
    Buri,
    Caln,
    Chil,
    City,
    Conc,
    Cont,
    Ctry,
    Data,
    Date,
    Deat,
    Even,
    Fam,
    Famc,
    Fams,
    Givn,
    Head,
    Husb,
    Indi,
    Marr,
    Name,
    Page,
    Pedi,
    Phon,
    Plac,
    Post,
    Repo,
    Resi,
    Sex,
    Sour,
    Stae,
    Subm,
    Surn,
    Titl,
    Trlr,
    Wife,
    Unknown,
}

/// The keyword that a tag spells. Tags are matched exactly, capitals included.
pub open spec fn keyword_of(tag: Seq<char>) -> Keyword {
    if tag == "ABBR"@ {
        Keyword::Abbr
    } else if tag == "ADDR"@ {
        Keyword::Addr
    } else if tag == "ADOP"@ {
        Keyword::Adop
    } else if tag == "ADR1"@ {
        Keyword::Adr1
    } else if tag == "ADR2"@ {
        Keyword::Adr2
    } else if tag == "ADR3"@ {
        Keyword::Adr3
    } else if tag == "AGNC"@ {
        Keyword::Agnc
    } else if tag == "BIRT"@ {
        Keyword::Birt
    } else if tag == "BURI"@ {
        Keyword::Buri
    } else if tag == "CALN"@ {
        Keyword::Caln
    } else if tag == "CHIL"@ {
        Keyword::Chil
    } else if tag == "CITY"@ {
        Keyword::City
    } else if tag == "CONC"@ {
        Keyword::Conc
    } else if tag == "CONT"@ {
        Keyword::Cont
    } else if tag == "CTRY"@ {
        Keyword::Ctry
    } else if tag == "DATA"@ {
        Keyword::Data
    } else if tag == "DATE"@ {
        Keyword::Date
    } else if tag == "DEAT"@ {
        Keyword::Deat
    } else if tag == "EVEN"@ {
        Keyword::Even
    } else if tag == "FAM"@ {
        Keyword::Fam
    } else if tag == "FAMC"@ {
        Keyword::Famc
    } else if tag == "FAMS"@ {
        Keyword::Fams
    } else if tag == "GIVN"@ {
        Keyword::Givn
    } else if tag == "HEAD"@ {
        Keyword::Head
    } else if tag == "HUSB"@ {
        Keyword::Husb
    } else if tag == "INDI"@ {
        Keyword::Indi
    } else if tag == "MARR"@ {
        Keyword::Marr
    } else if tag == "NAME"@ {
        Keyword::Name
    } else if tag == "PAGE"@ {
        Keyword::Page
    } else if tag == "PEDI"@ {
        Keyword::Pedi
    } else if tag == "PHON"@ {
        Keyword::Phon
    } else if tag == "PLAC"@ {
        Keyword::Plac
    } else if tag == "POST"@ {
        Keyword::Post
    } else if tag == "REPO"@ {
        Keyword::Repo
    } else if tag == "RESI"@ {
        Keyword::Resi
    } else if tag == "SEX"@ {
        Keyword::Sex
    } else if tag == "SOUR"@ {
        Keyword::Sour
    } else if tag == "STAE"@ {
        Keyword::Stae
    } else if tag == "SUBM"@ {
        Keyword::Subm
    } else if tag == "SURN"@ {
        Keyword::Surn
    } else if tag == "TITL"@ {
        Keyword::Titl
    } else if tag == "TRLR"@ {
        Keyword::Trlr
    } else if tag == "WIFE"@ {
        Keyword::Wife
    } else {
        Keyword::Unknown
    }
}

/// Reads a tag as a keyword.
pub fn classify(tag: &str) -> (keyword: Keyword)
    ensures
        keyword == keyword_of(tag@),
{
    if str_eq(tag, "ABBR") {
        Keyword::Abbr
    } else if str_eq(tag, "ADDR") {
        Keyword::Addr
    } else if str_eq(tag, "ADOP") {
        Keyword::Adop
    } else if str_eq(tag, "ADR1") {
        Keyword::Adr1
    } else if str_eq(tag, "ADR2") {
        Keyword::Adr2
    } else if str_eq(tag, "ADR3") {
        Keyword::Adr3
    } else if str_eq(tag, "AGNC") {
        Keyword::Agnc
    } else if str_eq(tag, "BIRT") {
        Keyword::Birt
    } else if str_eq(tag, "BURI") {
        Keyword::Buri
    } else if str_eq(tag, "CALN") {
        Keyword::Caln
    } else if str_eq(tag, "CHIL") {
        Keyword::Chil
    } else if str_eq(tag, "CITY") {
        Keyword::City
    } else if str_eq(tag, "CONC") {
        Keyword::Conc
    } else if str_eq(tag, "CONT") {
        Keyword::Cont
    } else if str_eq(tag, "CTRY") {
        Keyword::Ctry
    } else if str_eq(tag, "DATA") {
        Keyword::Data
    } else if str_eq(tag, "DATE") {
        Keyword::Date
    } else if str_eq(tag, "DEAT") {
        Keyword::Deat
    } else if str_eq(tag, "EVEN") {
        Keyword::Even
    } else if str_eq(tag, "FAM") {
        Keyword::Fam
    } else if str_eq(tag, "FAMC") {
        Keyword::Famc
    } else if str_eq(tag, "FAMS") {
        Keyword::Fams
    } else if str_eq(tag, "GIVN") {
        Keyword::Givn
    } else if str_eq(tag, "HEAD") {
        Keyword::Head
    } else if str_eq(tag, "HUSB") {
        Keyword::Husb
    } else if str_eq(tag, "INDI") {
        Keyword::Indi
    } else if str_eq(tag, "MARR") {
        Keyword::Marr
    } else if str_eq(tag, "NAME") {
        Keyword::Name
    } else if str_eq(tag, "PAGE") {
        Keyword::Page
    } else if str_eq(tag, "PEDI") {
        Keyword::Pedi
    } else if str_eq(tag, "PHON") {
        Keyword::Phon
    } else if str_eq(tag, "PLAC") {
        Keyword::Plac
    } else if str_eq(tag, "POST") {
        Keyword::Post
    } else if str_eq(tag, "REPO") {
        Keyword::Repo
    } else if str_eq(tag, "RESI") {
        Keyword::Resi
    } else if str_eq(tag, "SEX") {
        Keyword::Sex
    } else if str_eq(tag, "SOUR") {
        Keyword::Sour
    } else if str_eq(tag, "STAE") {
        Keyword::Stae
    } else if str_eq(tag, "SUBM") {
        Keyword::Subm
    } else if str_eq(tag, "SURN") {
        Keyword::Surn
    } else if str_eq(tag, "TITL") {
        Keyword::Titl
    } else if str_eq(tag, "TRLR") {
        Keyword::Trlr
    } else if str_eq(tag, "WIFE") {
        Keyword::Wife
    } else {
        Keyword::Unknown
    }
}

} // verus!
