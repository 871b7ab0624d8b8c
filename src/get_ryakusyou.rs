//! Abbreviations defined after any sentence that ends in 。:
//! "…法律。以下この条において「新法」という。".

use vstd::prelude::*;
use crate::pattern::{
    capture_groups, captures_of, captures_view, definition_at, definition_of, ends_in_law,
    pattern_compiles, CaptureModel, GroupCapture,
};

verus! {

/// The pattern of a definition that follows a sentence ending in 。.
pub const SENTENCE_PATTERN: &'static str = r#"(?P<num>[^。）]+)。(以下)?((?P<note>[^」）]+)において)?、?「(?P<name>[^」]*(法|令))」という。"#;

/// An abbreviation with the sentence it follows.
#[derive(Debug, Clone, PartialEq, Eq)]
pub struct Ryakusyou {
    /// The sentence before the definition.
    pub num: String,
    /// The abbreviation.
    pub name: String,
    /// The scope qualifier ("本項"), unparsed.
    pub note: Option<String>,
}

/// The mathematical value of a `Ryakusyou`.
pub struct RyakusyouModel {
    pub num: Seq<char>,
    pub name: Seq<char>,
    pub note: Option<Seq<char>>,
}

impl View for Ryakusyou {
    type V = RyakusyouModel;

    open spec fn view(&self) -> RyakusyouModel {
        RyakusyouModel {
            num: self.num@,
            name: self.name@,
            note: match self.note {
                Some(n) => Some(n@),
                None => None,
            },
        }
    }
}

/// The named groups that a match is read through.
pub open spec fn sentence_groups() -> Seq<Seq<char>> {
    seq!["num"@, "note"@, "name"@]
}

/// The records that the matches `ms` define, in order.
pub open spec fn sentence_records(ms: Seq<Seq<Option<CaptureModel>>>) -> Seq<RyakusyouModel>
    decreases ms.len(),
{
    if ms.len() == 0 {
        Seq::empty()
    } else {
        let rest = sentence_records(ms.drop_last());
        match definition_of(ms.last()) {
            Some(d) => rest.push(RyakusyouModel { num: d.num, name: d.name.text, note: d.note }),
            None => rest,
        }
    }
}

/// The records that the captured matches `caps` define, in order.
pub fn sentence_records_of(caps: &Vec<Vec<Option<GroupCapture>>>) -> (r: Vec<Ryakusyou>)
    ensures
        r@.map_values(|a: Ryakusyou| a@) == sentence_records(captures_view(caps@)),
        forall|i: int| 0 <= i < r@.len() ==> ends_in_law(#[trigger] r@[i].name@),
{
    let mut lst: Vec<Ryakusyou> = Vec::new();
    let ghost ms = captures_view(caps@);
    let mut i: usize = 0;
    while i < caps.len()
        invariant
            i <= caps@.len(),
            ms == captures_view(caps@),
            lst@.map_values(|a: Ryakusyou| a@) == sentence_records(ms.subrange(0, i as int)),
            forall|j: int| 0 <= j < lst@.len() ==> ends_in_law(#[trigger] lst@[j].name@),
        decreases caps@.len() - i,
    {
        assert(ms.subrange(0, i + 1).drop_last() =~= ms.subrange(0, i as int));
        assert(ms.subrange(0, i + 1).last() == ms[i as int]);
        let ghost before = lst@.map_values(|a: Ryakusyou| a@);
        if let Some(d) = definition_at(&caps[i]) {
            let rec = Ryakusyou { num: d.num, name: d.name.text, note: d.note };
            lst.push(rec);
            assert(lst@.map_values(|a: Ryakusyou| a@) =~= before.push(rec@));
        }
        i = i + 1;
    }
    assert(ms.subrange(0, i as int) =~= ms);
    lst
}

/// Extracts the abbreviations that `text` defines after a sentence, in
/// textual order.
pub fn get_law_ryakusyou(text: &str) -> (r: Vec<Ryakusyou>)
    ensures
        pattern_compiles(SENTENCE_PATTERN@) ==> r@.map_values(|a: Ryakusyou| a@)
            == sentence_records(captures_of(SENTENCE_PATTERN@, sentence_groups(), text@)),
        !pattern_compiles(SENTENCE_PATTERN@) ==> r@.len() == 0,
        forall|i: int| 0 <= i < r@.len() ==> ends_in_law(#[trigger] r@[i].name@),
{
    match capture_groups(SENTENCE_PATTERN, "num", "note", "name", text) {
        Some(caps) => {
            assert(seq!["num"@, "note"@, "name"@] =~= sentence_groups());
            sentence_records_of(&caps)
        },
        None => Vec::new(),
    }
}

} // verus!
