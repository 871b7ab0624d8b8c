//! Abbreviations defined together with a law citation number:
//! "（平成二十八年法律第十三号。以下イにおいて「平成二十八年地方税法等改正法」という。）".

use vstd::prelude::*;
use crate::article::{Article, PositionModel};
use crate::pattern::{
    capture_groups, captures_of, captures_view, definition_at, definition_of, ends_in_law,
    pattern_compiles, CaptureModel, GroupCapture,
};

verus! {

/// The pattern of a definition that cites a law by its era, year and number.
pub const CITATION_PATTERN: &'static str = r#"（(?P<num>(明治|大正|昭和|平成|令和)(一|二|三|四|五|六|七|八|九|十|〇)+年[^（）、。あ-ん]+第(一|二|三|四|五|六|七|八|九|十|百|千|〇)+号)。?(以下)?((?P<note>[^」）]+)において)?、?「(?P<name>[^」]*(法|令))」という。"#;

/// An abbreviation of a law name, with the citation number it stands for.
#[derive(Debug, Clone, PartialEq, Eq)]
pub struct Abbreviation {
    /// The law number cited.
    pub num: String,
    /// The abbreviation.
    pub name: String,
    /// The scope qualifier ("本項", "イ"), unparsed.
    pub note: Option<String>,
    /// Where the definition stands.
    pub article: Article,
    /// The number of the law in whose text the definition stands.
    pub law_num: String,
}

/// The mathematical value of an `Abbreviation`.
pub struct AbbreviationModel {
    pub num: Seq<char>,
    pub name: Seq<char>,
    pub note: Option<Seq<char>>,
    pub article: PositionModel,
    pub law_num: Seq<char>,
}

impl View for Abbreviation {
    type V = AbbreviationModel;

    open spec fn view(&self) -> AbbreviationModel {
        AbbreviationModel {
            num: self.num@,
            name: self.name@,
            note: match self.note {
                Some(n) => Some(n@),
                None => None,
            },
            article: self.article@,
            law_num: self.law_num@,
        }
    }
}

/// The named groups that a citation match is read through.
pub open spec fn citation_groups() -> Seq<Seq<char>> {
    seq!["num"@, "note"@, "name"@]
}

/// The records that the matches `ms` define, in order, each stamped with
/// `article` and `law_num`.
pub open spec fn citation_records(
    ms: Seq<Seq<Option<CaptureModel>>>,
    law_num: Seq<char>,
    article: PositionModel,
) -> Seq<AbbreviationModel>
    decreases ms.len(),
{
    if ms.len() == 0 {
        Seq::empty()
    } else {
        let rest = citation_records(ms.drop_last(), law_num, article);
        match definition_of(ms.last()) {
            Some(d) => rest.push(
                AbbreviationModel {
                    num: d.num,
                    name: d.name.text,
                    note: d.note,
                    article,
                    law_num,
                },
            ),
            None => rest,
        }
    }
}

/// What the extraction of citation abbreviations yields for `text`.
pub open spec fn extracted(law_num: Seq<char>, article: PositionModel, text: Seq<char>) -> Seq<
    AbbreviationModel,
> {
    if pattern_compiles(CITATION_PATTERN@) {
        citation_records(captures_of(CITATION_PATTERN@, citation_groups(), text), law_num, article)
    } else {
        Seq::empty()
    }
}

/// The records that the captured matches `caps` define, in order, each
/// stamped with `article` and `law_num`.
pub fn citation_records_of(
    caps: &Vec<Vec<Option<GroupCapture>>>,
    law_num: &str,
    article: &Article,
) -> (r: Vec<Abbreviation>)
    ensures
        r@.map_values(|a: Abbreviation| a@) == citation_records(
            captures_view(caps@),
            law_num@,
            article@,
        ),
        forall|i: int| 0 <= i < r@.len() ==> ends_in_law(#[trigger] r@[i].name@),
{
    let mut lst: Vec<Abbreviation> = Vec::new();
    let ghost ms = captures_view(caps@);
    let mut i: usize = 0;
    while i < caps.len()
        invariant
            i <= caps@.len(),
            ms == captures_view(caps@),
            lst@.map_values(|a: Abbreviation| a@) == citation_records(
                ms.subrange(0, i as int),
                law_num@,
                article@,
            ),
            forall|j: int| 0 <= j < lst@.len() ==> ends_in_law(#[trigger] lst@[j].name@),
        decreases caps@.len() - i,
    {
        assert(ms.subrange(0, i + 1).drop_last() =~= ms.subrange(0, i as int));
        assert(ms.subrange(0, i + 1).last() == ms[i as int]);
        let ghost before = lst@.map_values(|a: Abbreviation| a@);
        if let Some(d) = definition_at(&caps[i]) {
            let rec = Abbreviation {
                num: d.num,
                name: d.name.text,
                note: d.note,
                article: article.snapshot(),
                law_num: law_num.to_owned(),
            };
            lst.push(rec);
            assert(lst@.map_values(|a: Abbreviation| a@) =~= before.push(rec@));
        }
        i = i + 1;
    }
    assert(ms.subrange(0, i as int) =~= ms);
    lst
}

/// Extracts the abbreviations that `text` defines with a citation number, in
/// textual order.
pub fn get_law_abbreviation(law_num: &str, article: &Article, text: &str) -> (r: Vec<
    Abbreviation,
>)
    ensures
        r@.map_values(|a: Abbreviation| a@) == extracted(law_num@, article@, text@),
        pattern_compiles(CITATION_PATTERN@) ==> r@.map_values(|a: Abbreviation| a@)
            == citation_records(captures_of(CITATION_PATTERN@, citation_groups(), text@), law_num@, article@),
        !pattern_compiles(CITATION_PATTERN@) ==> r@.len() == 0,
        forall|i: int| 0 <= i < r@.len() ==> ends_in_law(#[trigger] r@[i].name@),
{
    match capture_groups(CITATION_PATTERN, "num", "note", "name", text) {
        Some(caps) => {
            assert(seq!["num"@, "note"@, "name"@] =~= citation_groups());
            citation_records_of(&caps, law_num, article)
        },
        None => Vec::new(),
    }
}

/// A match whose name does not end in 法 or 令 adds no record to those of
/// the matches before it.
pub proof fn lemma_name_ending_required(
    ms: Seq<Seq<Option<CaptureModel>>>,
    m: Seq<Option<CaptureModel>>,
    law_num: Seq<char>,
    article: PositionModel,
)
    requires
        m.len() == 3,
        m[2] is Some,
        !ends_in_law(m[2]->0.text),
    ensures
        citation_records(ms.push(m), law_num, article) == citation_records(ms, law_num, article),
{
    assert(ms.push(m).drop_last() =~= ms);
}

/// What a fragment of a statute holds.
#[derive(Debug, Clone, PartialEq, Eq)]
pub enum LawContents {
    /// Running text.
    Text(String),
    /// A table, whose content plays no part here.
    Table,
}

/// A fragment of a statute with the position where it stands.
#[derive(Debug, Clone, PartialEq, Eq)]
pub struct LawText {
    pub article_info: Article,
    pub contents: LawContents,
}

/// The records that the fragments `ts` define, in document order; tables
/// define none.
pub open spec fn all_records(law_num: Seq<char>, ts: Seq<LawText>) -> Seq<AbbreviationModel>
    decreases ts.len(),
{
    if ts.len() == 0 {
        Seq::empty()
    } else {
        all_records(law_num, ts.drop_last()) + match ts.last().contents {
            LawContents::Text(t) => extracted(law_num, ts.last().article_info@, t@),
            LawContents::Table => Seq::empty(),
        }
    }
}

/// Extracts the abbreviations that the fragments of a statute define, in
/// document order, skipping tables.
pub fn get_law_all_abbreviation(law_num: &str, text_lst: &Vec<LawText>) -> (r: Vec<Abbreviation>)
    ensures
        r@.map_values(|a: Abbreviation| a@) == all_records(law_num@, text_lst@),
{
    let mut lst: Vec<Abbreviation> = Vec::new();
    let mut i: usize = 0;
    while i < text_lst.len()
        invariant
            i <= text_lst@.len(),
            lst@.map_values(|a: Abbreviation| a@) == all_records(
                law_num@,
                text_lst@.subrange(0, i as int),
            ),
        decreases text_lst@.len() - i,
    {
        let ghost ts = text_lst@.subrange(0, i + 1);
        assert(ts.drop_last() =~= text_lst@.subrange(0, i as int));
        assert(ts.last() == text_lst@[i as int]);
        let law_text = &text_lst[i];
        match &law_text.contents {
            LawContents::Text(text) => {
                let mut l = get_law_abbreviation(law_num, &law_text.article_info, text.as_str());
                let ghost before = lst@.map_values(|a: Abbreviation| a@);
                let ghost added = l@.map_values(|a: Abbreviation| a@);
                lst.append(&mut l);
                assert(lst@.map_values(|a: Abbreviation| a@) =~= before + added);
            },
            LawContents::Table => {
                assert(all_records(law_num@, ts) =~= all_records(law_num@, ts.drop_last()));
            },
        }
        i = i + 1;
    }
    assert(text_lst@.subrange(0, i as int) =~= text_lst@);
    lst
}

/// A table fragment adds nothing to what the fragments before it define,
/// whatever position it carries.
pub proof fn lemma_table_adds_nothing(law_num: Seq<char>, ts: Seq<LawText>, article: Article)
    ensures
        all_records(law_num, ts.push(LawText { article_info: article, contents: LawContents::Table }))
            == all_records(law_num, ts),
{
    let t = LawText { article_info: article, contents: LawContents::Table };
    assert(ts.push(t).drop_last() =~= ts);
    assert(all_records(law_num, ts.push(t)) =~= all_records(law_num, ts));
}

/// The text fragments of `ts`, in order, with every table left out.
pub open spec fn without_tables(ts: Seq<LawText>) -> Seq<LawText>
    decreases ts.len(),
{
    if ts.len() == 0 {
        Seq::empty()
    } else {
        let rest = without_tables(ts.drop_last());
        match ts.last().contents {
            LawContents::Text(_) => rest.push(ts.last()),
            LawContents::Table => rest,
        }
    }
}

proof fn lemma_records_ignore_tables(law_num: Seq<char>, ts: Seq<LawText>)
    ensures
        all_records(law_num, ts) == all_records(law_num, without_tables(ts)),
    decreases ts.len(),
{
    if ts.len() > 0 {
        lemma_records_ignore_tables(law_num, ts.drop_last());
        let rest = without_tables(ts.drop_last());
        match ts.last().contents {
            LawContents::Text(_) => {
                assert(rest.push(ts.last()).drop_last() =~= rest);
            },
            LawContents::Table => {
                assert(all_records(law_num, ts) =~= all_records(law_num, ts.drop_last()));
            },
        }
    }
}

/// Tables never contribute: two fragment lists that agree once every table is
/// removed (tables may differ in number, place and position) define the same
/// records.
pub proof fn lemma_tables_never_contribute(law_num: Seq<char>, ts1: Seq<LawText>, ts2: Seq<LawText>)
    requires
        without_tables(ts1) == without_tables(ts2),
    ensures
        all_records(law_num, ts1) == all_records(law_num, ts2),
{
    lemma_records_ignore_tables(law_num, ts1);
    lemma_records_ignore_tables(law_num, ts2);
}

} // verus!
