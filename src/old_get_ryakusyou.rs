//! Scope notes ("この条において", "第五条から第七条までにおいて", ...) and the
//! generic abbreviation extractor that attaches them to each abbreviation.

use vstd::prelude::*;
use vstd::utf8::encode_utf8;
use crate::pattern::{
    capture_groups, captures_of, captures_view, definition_at, definition_of, ends_in_law,
    pattern_compiles, CaptureModel, GroupCapture, captures_ordered, capture_view,
    captures_located,
};
use crate::range::{match_to_range, Range};
use crate::text::{chars_of, ends_with, occurs_at, occurs_at_exec};

verus! {

/// The level of a structural unit that a scope note refers to.
#[derive(Debug, Clone, Copy, PartialEq, Eq, Structural)]
pub enum JoukouType {
    /// 記載要領
    KisaiYouryou,
    /// 条
    Article,
    /// 項
    Paragraph,
    /// 号
    Item,
    /// 節
    SubItem,
}

/// One reference inside a scope note.
#[derive(Debug, Clone, PartialEq, Eq)]
pub enum RyakusyouNoteType {
    /// "この条", "本項": the current unit of a level.
    This(JoukouType),
    /// "次条", "次項": the next unit of a level.
    Next(JoukouType),
    /// "附則第三条": a locator inside the supplementary provisions.
    HusokuLink(String),
    /// "第七条の二": an ordinary locator.
    Link(String),
}

/// A scope note: one reference, or an inclusive range of references.
#[derive(Debug, Clone, PartialEq, Eq)]
pub enum RyakusyouNote {
    Single { note: RyakusyouNoteType },
    Range { start: RyakusyouNoteType, end: RyakusyouNoteType },
}

/// A scope-note segment matches none of the recognised shapes.
#[derive(Debug, Clone, Copy, PartialEq, Eq, Structural)]
pub struct UnrecognizedScopeError;

/// The mathematical value of a `RyakusyouNoteType`.
pub enum NoteTypeModel {
    This(JoukouType),
    Next(JoukouType),
    HusokuLink(Seq<char>),
    Link(Seq<char>),
}

/// The mathematical value of a `RyakusyouNote`.
pub enum NoteModel {
    Single(NoteTypeModel),
    Range(NoteTypeModel, NoteTypeModel),
}

impl View for RyakusyouNoteType {
    type V = NoteTypeModel;

    open spec fn view(&self) -> NoteTypeModel {
        match self {
            RyakusyouNoteType::This(l) => NoteTypeModel::This(*l),
            RyakusyouNoteType::Next(l) => NoteTypeModel::Next(*l),
            RyakusyouNoteType::HusokuLink(s) => NoteTypeModel::HusokuLink(s@),
            RyakusyouNoteType::Link(s) => NoteTypeModel::Link(s@),
        }
    }
}

impl View for RyakusyouNote {
    type V = NoteModel;

    open spec fn view(&self) -> NoteModel {
        match self {
            RyakusyouNote::Single { note } => NoteModel::Single(note@),
            RyakusyouNote::Range { start, end } => NoteModel::Range(start@, end@),
        }
    }
}

/// The length of the list delimiter (、, 及び or 並びに) at index `i`, or 0.
pub open spec fn delimiter_len(s: Seq<char>, i: int) -> nat {
    if occurs_at(s, seq!['、'], i) {
        1
    } else if occurs_at(s, seq!['及', 'び'], i) {
        2
    } else if occurs_at(s, seq!['並', 'び', 'に'], i) {
        3
    } else {
        0
    }
}

/// The pieces of `s` between list delimiters, scanning from `i` with the
/// current piece begun at `start`.
pub open spec fn split_segments(s: Seq<char>, start: int, i: int) -> Seq<Seq<char>>
    decreases s.len() - i,
{
    if i >= s.len() {
        seq![s.subrange(start, s.len() as int)]
    } else if delimiter_len(s, i) > 0 {
        seq![s.subrange(start, i)] + split_segments(
            s,
            i + delimiter_len(s, i),
            i + delimiter_len(s, i),
        )
    } else {
        split_segments(s, start, i + 1)
    }
}

/// The level keyword at index `i`, if any.
pub open spec fn level_at(s: Seq<char>, i: int) -> Option<JoukouType> {
    if occurs_at(s, seq!['記', '載', '要', '領'], i) {
        Some(JoukouType::KisaiYouryou)
    } else if occurs_at(s, seq!['条'], i) {
        Some(JoukouType::Article)
    } else if occurs_at(s, seq!['項'], i) {
        Some(JoukouType::Paragraph)
    } else if occurs_at(s, seq!['号'], i) {
        Some(JoukouType::Item)
    } else if occurs_at(s, seq!['節'], i) {
        Some(JoukouType::SubItem)
    } else {
        None
    }
}

/// The reference that one segment denotes: this or next unit of a level, a
/// locator in the supplementary provisions (what follows 附則, possibly
/// nothing), or any other non-empty locator; `None` for an empty segment.
pub open spec fn scope_reference(seg: Seq<char>) -> Option<NoteTypeModel> {
    if occurs_at(seg, seq!['こ', 'の'], 0) && level_at(seg, 2) is Some {
        Some(NoteTypeModel::This(level_at(seg, 2)->0))
    } else if occurs_at(seg, seq!['本'], 0) && level_at(seg, 1) is Some {
        Some(NoteTypeModel::This(level_at(seg, 1)->0))
    } else if occurs_at(seg, seq!['次'], 0) && level_at(seg, 1) is Some {
        Some(NoteTypeModel::Next(level_at(seg, 1)->0))
    } else if occurs_at(seg, seq!['附', '則'], 0) {
        Some(NoteTypeModel::HusokuLink(seg.subrange(2, seg.len() as int)))
    } else if seg.len() > 0 {
        Some(NoteTypeModel::Link(seg))
    } else {
        None
    }
}

/// The first index at or after `i` where から occurs, or -1.
pub open spec fn first_kara(seg: Seq<char>, i: int) -> int
    decreases seg.len() - i,
{
    if i < 0 || i >= seg.len() {
        -1
    } else if occurs_at(seg, seq!['か', 'ら'], i) {
        i
    } else {
        first_kara(seg, i + 1)
    }
}

/// Whether `seg` reads "A から B まで", with から at index `k`.
pub open spec fn is_range_at(seg: Seq<char>, k: int) -> bool {
    &&& ends_with(seg, seq!['ま', 'で'])
    &&& occurs_at(seg, seq!['か', 'ら'], k)
    &&& 0 <= k && k + 4 <= seg.len()
}

/// The scope note that one segment denotes.
pub open spec fn scope_note(seg: Seq<char>) -> Option<NoteModel> {
    let k = first_kara(seg, 0);
    if is_range_at(seg, k) {
        match (
            scope_reference(seg.subrange(0, k)),
            scope_reference(seg.subrange(k + 2, seg.len() - 2)),
        ) {
            (Some(a), Some(b)) => Some(NoteModel::Range(a, b)),
            _ => None,
        }
    } else {
        match scope_reference(seg) {
            Some(a) => Some(NoteModel::Single(a)),
            None => None,
        }
    }
}

/// The scope notes of a list of segments, in order; `None` where one segment
/// is not recognised.
pub open spec fn scope_notes_of(segs: Seq<Seq<char>>) -> Option<Seq<NoteModel>>
    decreases segs.len(),
{
    if segs.len() == 0 {
        Some(Seq::empty())
    } else {
        match (scope_notes_of(segs.drop_last()), scope_note(segs.last())) {
            (Some(a), Some(b)) => Some(a.push(b)),
            _ => None,
        }
    }
}

/// The scope notes that a qualifier such as "第五条から第七条まで及び次条"
/// denotes, in reading order.
pub open spec fn parse_scope(s: Seq<char>) -> Option<Seq<NoteModel>> {
    scope_notes_of(split_segments(s, 0, 0))
}

fn delimiter_len_exec(s: &[char], i: usize) -> (r: usize)
    ensures
        r == delimiter_len(s@, i as int),
{
    let comma = ['、'];
    let oyobi = ['及', 'び'];
    let narabini = ['並', 'び', 'に'];
    assert(comma@ =~= seq!['、']);
    assert(oyobi@ =~= seq!['及', 'び']);
    assert(narabini@ =~= seq!['並', 'び', 'に']);
    if occurs_at_exec(s, comma.as_slice(), i) {
        1
    } else if occurs_at_exec(s, oyobi.as_slice(), i) {
        2
    } else if occurs_at_exec(s, narabini.as_slice(), i) {
        3
    } else {
        0
    }
}

fn split_segments_exec(text: &str, s: &[char]) -> (r: Vec<String>)
    requires
        s@ == text@,
    ensures
        r@.map_values(|v: String| v@) == split_segments(s@, 0, 0),
{
    let mut out: Vec<String> = Vec::new();
    let mut start: usize = 0;
    let mut i: usize = 0;
    while i < s.len()
        invariant
            s@ == text@,
            start <= i <= s@.len(),
            split_segments(s@, 0, 0) == out@.map_values(|v: String| v@) + split_segments(
                s@,
                start as int,
                i as int,
            ),
        decreases s@.len() - i,
    {
        let d = delimiter_len_exec(s, i);
        if d > 0 {
            let seg = text.substring_char(start, i).to_owned();
            let ghost before = out@.map_values(|v: String| v@);
            out.push(seg);
            assert(out@.map_values(|v: String| v@) =~= before.push(seg@));
            assert(split_segments(s@, 0, 0) =~= out@.map_values(|v: String| v@)
                + split_segments(s@, (i + d) as int, (i + d) as int));
            start = i + d;
            i = i + d;
        } else {
            i = i + 1;
        }
    }
    let seg = text.substring_char(start, s.len()).to_owned();
    let ghost before = out@.map_values(|v: String| v@);
    out.push(seg);
    assert(out@.map_values(|v: String| v@) =~= before.push(seg@));
    assert(split_segments(s@, 0, 0) =~= out@.map_values(|v: String| v@));
    out
}

fn level_at_exec(s: &[char], i: usize) -> (r: Option<JoukouType>)
    ensures
        r == level_at(s@, i as int),
{
    let kisai = ['記', '載', '要', '領'];
    let jou = ['条'];
    let kou = ['項'];
    let gou = ['号'];
    let setsu = ['節'];
    assert(kisai@ =~= seq!['記', '載', '要', '領']);
    assert(jou@ =~= seq!['条']);
    assert(kou@ =~= seq!['項']);
    assert(gou@ =~= seq!['号']);
    assert(setsu@ =~= seq!['節']);
    if occurs_at_exec(s, kisai.as_slice(), i) {
        Some(JoukouType::KisaiYouryou)
    } else if occurs_at_exec(s, jou.as_slice(), i) {
        Some(JoukouType::Article)
    } else if occurs_at_exec(s, kou.as_slice(), i) {
        Some(JoukouType::Paragraph)
    } else if occurs_at_exec(s, gou.as_slice(), i) {
        Some(JoukouType::Item)
    } else if occurs_at_exec(s, setsu.as_slice(), i) {
        Some(JoukouType::SubItem)
    } else {
        None
    }
}

/// Parses one reference of a scope note.
pub fn string_to_ryakusyou_note_type(text: &str) -> (r: Result<
    RyakusyouNoteType,
    UnrecognizedScopeError,
>)
    ensures
        r is Ok <==> scope_reference(text@) is Some,
        r matches Ok(n) ==> scope_reference(text@) == Some(n@),
{
    let cs = chars_of(text);
    let seg = cs.as_slice();
    let kono = ['こ', 'の'];
    let hon = ['本'];
    let tsugi = ['次'];
    let fusoku = ['附', '則'];
    assert(kono@ =~= seq!['こ', 'の']);
    assert(hon@ =~= seq!['本']);
    assert(tsugi@ =~= seq!['次']);
    assert(fusoku@ =~= seq!['附', '則']);
    if occurs_at_exec(seg, kono.as_slice(), 0) {
        if let Some(l) = level_at_exec(seg, 2) {
            return Ok(RyakusyouNoteType::This(l));
        }
    }
    if occurs_at_exec(seg, hon.as_slice(), 0) {
        if let Some(l) = level_at_exec(seg, 1) {
            return Ok(RyakusyouNoteType::This(l));
        }
    }
    if occurs_at_exec(seg, tsugi.as_slice(), 0) {
        if let Some(l) = level_at_exec(seg, 1) {
            return Ok(RyakusyouNoteType::Next(l));
        }
    }
    if occurs_at_exec(seg, fusoku.as_slice(), 0) {
        let rest = text.substring_char(2, seg.len()).to_owned();
        return Ok(RyakusyouNoteType::HusokuLink(rest));
    }
    if seg.len() > 0 {
        return Ok(RyakusyouNoteType::Link(text.to_owned()));
    }
    Err(UnrecognizedScopeError)
}

fn first_kara_exec(seg: &[char]) -> (r: Option<usize>)
    ensures
        match r {
            Some(k) => first_kara(seg@, 0) == k as int,
            None => first_kara(seg@, 0) == -1,
        },
{
    let kara = ['か', 'ら'];
    assert(kara@ =~= seq!['か', 'ら']);
    let mut i: usize = 0;
    while i < seg.len()
        invariant
            kara@ == seq!['か', 'ら'],
            i <= seg@.len(),
            first_kara(seg@, 0) == first_kara(seg@, i as int),
        decreases seg@.len() - i,
    {
        if occurs_at_exec(seg, kara.as_slice(), i) {
            return Some(i);
        }
        i = i + 1;
    }
    None
}

/// Parses one segment of a scope note: a range "A から B まで" or a single
/// reference.
fn scope_note_exec(text: &str) -> (r: Result<RyakusyouNote, UnrecognizedScopeError>)
    ensures
        r is Ok <==> scope_note(text@) is Some,
        r matches Ok(n) ==> scope_note(text@) == Some(n@),
{
    let cs = chars_of(text);
    let seg = cs.as_slice();
    let made = ['ま', 'で'];
    let kara_chars = ['か', 'ら'];
    assert(made@ =~= seq!['ま', 'で']);
    assert(kara_chars@ =~= seq!['か', 'ら']);
    let kara = first_kara_exec(seg);
    let is_range = match kara {
        Some(k) => seg.len() >= 4 && k <= seg.len() - 4 && occurs_at_exec(
            seg,
            made.as_slice(),
            seg.len() - 2,
        ) && occurs_at_exec(seg, kara_chars.as_slice(), k),
        None => false,
    };
    if is_range {
        let k = kara.unwrap();
        let a = text.substring_char(0, k);
        let b = text.substring_char(k + 2, seg.len() - 2);
        let start = string_to_ryakusyou_note_type(a)?;
        let end = string_to_ryakusyou_note_type(b)?;
        Ok(RyakusyouNote::Range { start, end })
    } else {
        let note = string_to_ryakusyou_note_type(text)?;
        Ok(RyakusyouNote::Single { note })
    }
}

/// Parses a scope qualifier into its scope notes, in reading order.
pub fn parse_ryakusyou_notes(text: &str) -> (r: Result<Vec<RyakusyouNote>, UnrecognizedScopeError>)
    ensures
        r is Ok <==> parse_scope(text@) is Some,
        r matches Ok(v) ==> parse_scope(text@) == Some(v@.map_values(|n: RyakusyouNote| n@)),
{
    let cs = chars_of(text);
    let segs = split_segments_exec(text, cs.as_slice());
    let ghost ss = segs@.map_values(|v: String| v@);
    let mut out: Vec<RyakusyouNote> = Vec::new();
    let mut k: usize = 0;
    while k < segs.len()
        invariant
            k <= segs@.len(),
            ss == segs@.map_values(|v: String| v@),
            ss == split_segments(text@, 0, 0),
            scope_notes_of(ss.subrange(0, k as int)) == Some(
                out@.map_values(|n: RyakusyouNote| n@),
            ),
        decreases segs@.len() - k,
    {
        assert(ss.subrange(0, k + 1).drop_last() =~= ss.subrange(0, k as int));
        let n = match scope_note_exec(segs[k].as_str()) {
            Ok(n) => n,
            Err(e) => {
                proof {
                    lemma_notes_fail_extends(ss, k as int + 1);
                }
                return Err(e);
            },
        };
        let ghost before = out@.map_values(|n: RyakusyouNote| n@);
        out.push(n);
        assert(out@.map_values(|n: RyakusyouNote| n@) =~= before.push(n@));
        k = k + 1;
    }
    assert(ss.subrange(0, k as int) =~= ss);
    Ok(out)
}

proof fn lemma_notes_fail_extends(segs: Seq<Seq<char>>, k: int)
    requires
        0 <= k <= segs.len(),
        scope_notes_of(segs.subrange(0, k)) is None,
    ensures
        scope_notes_of(segs) is None,
    decreases segs.len() - k,
{
    if k < segs.len() {
        assert(segs.subrange(0, k + 1).drop_last() =~= segs.subrange(0, k));
        lemma_notes_fail_extends(segs, k + 1);
    } else {
        assert(segs.subrange(0, k) =~= segs);
    }
}

/// The pattern of a definition that follows a sentence ending in 。, with an
/// optional scope qualifier.
pub const SCOPED_PATTERN: &'static str = r#"(?P<law_name>[^。）]+)。(以下)?((?P<note>[^」）]+)において)?「(?P<name>[^」]*(法|令))」という。"#;

/// An abbreviation with its parsed scope notes and where its name stands.
#[derive(Debug, Clone, PartialEq, Eq)]
pub struct Ryakusyou {
    /// The abbreviation.
    pub name: String,
    /// The scope notes, in reading order; empty where there is no qualifier.
    pub note_lst: Vec<RyakusyouNote>,
    /// Where the abbreviation stands in the text.
    pub range: Range,
    /// The label of the article that holds the definition.
    pub law_article: Option<String>,
}

/// The mathematical value of a `Ryakusyou`.
pub struct RyakusyouModel {
    pub name: Seq<char>,
    pub note_lst: Seq<NoteModel>,
    pub range: Range,
    pub law_article: Option<Seq<char>>,
}

pub open spec fn opt_string_view(s: Option<String>) -> Option<Seq<char>> {
    match s {
        Some(t) => Some(t@),
        None => None,
    }
}

impl View for Ryakusyou {
    type V = RyakusyouModel;

    open spec fn view(&self) -> RyakusyouModel {
        RyakusyouModel {
            name: self.name@,
            note_lst: self.note_lst@.map_values(|n: RyakusyouNote| n@),
            range: self.range,
            law_article: opt_string_view(self.law_article),
        }
    }
}

/// The named groups that a match is read through.
pub open spec fn scoped_groups() -> Seq<Seq<char>> {
    seq!["law_name"@, "note"@, "name"@]
}

/// The scope notes of an optional qualifier: none without one.
pub open spec fn notes_of(note: Option<Seq<char>>) -> Option<Seq<NoteModel>> {
    match note {
        Some(n) => parse_scope(n),
        None => Some(Seq::empty()),
    }
}

/// The records that the matches `ms` define, in order; `None` where a
/// qualifier holds an unrecognised scope note.
pub open spec fn scoped_records(
    ms: Seq<Seq<Option<CaptureModel>>>,
    law_article: Option<Seq<char>>,
) -> Option<Seq<RyakusyouModel>>
    decreases ms.len(),
{
    if ms.len() == 0 {
        Some(Seq::empty())
    } else {
        match scoped_records(ms.drop_last(), law_article) {
            None => None,
            Some(rest) => match definition_of(ms.last()) {
                None => Some(rest),
                Some(d) => match notes_of(d.note) {
                    None => None,
                    Some(notes) => Some(
                        rest.push(
                            RyakusyouModel {
                                name: d.name.text,
                                note_lst: notes,
                                range: Range { start: d.name.start as usize, end: d.name.end as usize },
                                law_article,
                            },
                        ),
                    ),
                },
            },
        }
    }
}

/// What the extraction of scoped abbreviations yields for `text`.
pub open spec fn scoped_extracted(law_article: Option<Seq<char>>, text: Seq<char>) -> Option<
    Seq<RyakusyouModel>,
> {
    if pattern_compiles(SCOPED_PATTERN@) {
        scoped_records(captures_of(SCOPED_PATTERN@, scoped_groups(), text), law_article)
    } else {
        Some(Seq::empty())
    }
}

fn copy_opt_string(s: &Option<String>) -> (r: Option<String>)
    ensures
        opt_string_view(r) == opt_string_view(*s),
{
    match s {
        Some(t) => Some(t.clone()),
        None => None,
    }
}

proof fn lemma_scoped_fail_extends(
    ms: Seq<Seq<Option<CaptureModel>>>,
    law_article: Option<Seq<char>>,
    k: int,
)
    requires
        0 <= k <= ms.len(),
        scoped_records(ms.subrange(0, k), law_article) is None,
    ensures
        scoped_records(ms, law_article) is None,
    decreases ms.len() - k,
{
    if k < ms.len() {
        assert(ms.subrange(0, k + 1).drop_last() =~= ms.subrange(0, k));
        lemma_scoped_fail_extends(ms, law_article, k + 1);
    } else {
        assert(ms.subrange(0, k) =~= ms);
    }
}

/// The records that the captured matches `caps` define, in order, each with
/// its scope notes parsed; fails where a qualifier holds a scope note of no
/// recognised shape.
pub fn scoped_records_of(caps: &Vec<Vec<Option<GroupCapture>>>, law_article: &Option<String>) -> (r:
    Result<Vec<Ryakusyou>, UnrecognizedScopeError>)
    ensures
        r is Ok <==> scoped_records(captures_view(caps@), opt_string_view(*law_article)) is Some,
        r matches Ok(v) ==> scoped_records(captures_view(caps@), opt_string_view(*law_article))
            == Some(v@.map_values(|a: Ryakusyou| a@)),
        r matches Ok(v) ==> forall|i: int|
            0 <= i < v@.len() ==> ends_in_law(#[trigger] v@[i].name@),
        r matches Ok(v) ==> captures_ordered(caps@) ==> forall|i: int|
            0 <= i < v@.len() ==> (#[trigger] v@[i]).range.start <= v@[i].range.end,
{
    let ghost la = opt_string_view(*law_article);
    let mut lst: Vec<Ryakusyou> = Vec::new();
    let ghost ms = captures_view(caps@);
    let mut i: usize = 0;
    while i < caps.len()
        invariant
            i <= caps@.len(),
            ms == captures_view(caps@),
            la == opt_string_view(*law_article),
            scoped_records(ms.subrange(0, i as int), la) == Some(
                lst@.map_values(|a: Ryakusyou| a@),
            ),
            forall|j: int| 0 <= j < lst@.len() ==> ends_in_law(#[trigger] lst@[j].name@),
            captures_ordered(caps@) ==> forall|j: int|
                0 <= j < lst@.len() ==> (#[trigger] lst@[j]).range.start <= lst@[j].range.end,
        decreases caps@.len() - i,
    {
        assert(ms.subrange(0, i + 1).drop_last() =~= ms.subrange(0, i as int));
        assert(ms.subrange(0, i + 1).last() == ms[i as int]);
        let ghost before = lst@.map_values(|a: Ryakusyou| a@);
        if let Some(d) = definition_at(&caps[i]) {
            let note_lst = match &d.note {
                Some(n) => match parse_ryakusyou_notes(n.as_str()) {
                    Ok(v) => v,
                    Err(e) => {
                        proof {
                            assert(d@.note == Some(n@));
                            assert(notes_of(d@.note) is None);
                            assert(scoped_records(ms.subrange(0, i + 1), la) is None);
                            lemma_scoped_fail_extends(ms, la, i + 1);
                        }
                        return Err(e);
                    },
                },
                None => Vec::new(),
            };
            proof {
                let mv = caps@[i as int]@.map_values(|c: Option<GroupCapture>| capture_view(c));
                assert(mv[2] == capture_view(caps@[i as int]@[2]));
                if captures_ordered(caps@) {
                    assert(caps@[i as int]@[2] is Some);
                    assert(d.name.start <= d.name.end);
                }
            }
            let range = match_to_range(&d.name);
            let rec = Ryakusyou {
                name: d.name.text,
                note_lst,
                range,
                law_article: copy_opt_string(law_article),
            };
            assert(rec@.note_lst =~= notes_of(d@.note)->0);
            lst.push(rec);
            assert(lst@.map_values(|a: Ryakusyou| a@) =~= before.push(rec@));
        }
        i = i + 1;
    }
    assert(ms.subrange(0, i as int) =~= ms);
    Ok(lst)
}

/// Where every capture lies in `t` where it says, every record's range
/// covers, in the UTF-8 bytes of `t`, exactly the bytes of its name.
pub proof fn lemma_ranges_locate_names(
    ms: Seq<Seq<Option<CaptureModel>>>,
    la: Option<Seq<char>>,
    t: Seq<char>,
)
    requires
        captures_located(ms, t),
        scoped_records(ms, la) is Some,
    ensures
        forall|k: int|
            0 <= k < scoped_records(ms, la)->0.len() ==> encode_utf8(t).subrange(
                (#[trigger] scoped_records(ms, la)->0[k]).range.start as int,
                scoped_records(ms, la)->0[k].range.end as int,
            ) == encode_utf8(scoped_records(ms, la)->0[k].name),
    decreases ms.len(),
{
    if ms.len() > 0 {
        let prev = ms.drop_last();
        assert forall|i: int, j: int|
            0 <= i < prev.len() && 0 <= j < prev[i].len() && (#[trigger] prev[i][j]) is Some
                implies crate::pattern::capture_located(prev[i][j]->0, t) by {
            assert(prev[i][j] == ms[i][j]);
        }
        lemma_ranges_locate_names(prev, la, t);
        let last = ms.last();
        if definition_of(last) is Some {
            assert(last == ms[ms.len() - 1]);
            assert(last[2] is Some);
            assert(crate::pattern::capture_located(last[2]->0, t));
        }
    }
}

/// Extracts the abbreviations that `text` defines after a sentence, in
/// textual order, each with its scope notes parsed; fails where a qualifier
/// holds a scope note of no recognised shape.
pub fn get_law_ryakusyou(law_article: Option<String>, text: &str) -> (r: Result<
    Vec<Ryakusyou>,
    UnrecognizedScopeError,
>)
    ensures
        r is Ok <==> scoped_extracted(opt_string_view(law_article), text@) is Some,
        r matches Ok(v) ==> scoped_extracted(opt_string_view(law_article), text@) == Some(
            v@.map_values(|a: Ryakusyou| a@),
        ),
        r matches Ok(v) ==> forall|i: int|
            0 <= i < v@.len() ==> ends_in_law(#[trigger] v@[i].name@),
        r matches Ok(v) ==> forall|i: int|
            0 <= i < v@.len() ==> (#[trigger] v@[i]).range.start <= v@[i].range.end,
        r matches Ok(v) ==> forall|i: int|
            0 <= i < v@.len() ==> encode_utf8(text@).subrange(
                (#[trigger] v@[i]).range.start as int,
                v@[i].range.end as int,
            ) == encode_utf8(v@[i].name@),
{
    match capture_groups(SCOPED_PATTERN, "law_name", "note", "name", text) {
        Some(caps) => {
            assert(seq!["law_name"@, "note"@, "name"@] =~= scoped_groups());
            let r = scoped_records_of(&caps, &law_article);
            proof {
                if r is Ok {
                    let v = r->Ok_0;
                    let la = opt_string_view(law_article);
                    lemma_ranges_locate_names(captures_view(caps@), la, text@);
                    let rs = scoped_records(captures_view(caps@), la)->0;
                    assert forall|i: int| 0 <= i < v@.len() implies encode_utf8(text@).subrange(
                        (#[trigger] v@[i]).range.start as int,
                        v@[i].range.end as int,
                    ) == encode_utf8(v@[i].name@) by {
                        assert(rs[i] == v@[i]@);
                    }
                }
            }
            r
        },
        None => Ok(Vec::new()),
    }
}

} // verus!
