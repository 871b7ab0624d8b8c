//! Matching of the definition patterns against statute text, and the parts of
//! a match that an abbreviation definition is made of.

use vstd::prelude::*;
use vstd::utf8::encode_utf8;

verus! {

/// A named group captured by one match: its byte offsets in the text and the
/// captured text.
#[derive(Debug, Clone, PartialEq, Eq)]
pub struct GroupCapture {
    pub start: usize,
    pub end: usize,
    pub text: String,
}

/// The mathematical value of a `GroupCapture`.
pub struct CaptureModel {
    pub start: nat,
    pub end: nat,
    pub text: Seq<char>,
}

impl View for GroupCapture {
    type V = CaptureModel;

    open spec fn view(&self) -> CaptureModel {
        CaptureModel { start: self.start as nat, end: self.end as nat, text: self.text@ }
    }
}

pub open spec fn capture_view(c: Option<GroupCapture>) -> Option<CaptureModel> {
    match c {
        Some(g) => Some(g@),
        None => None,
    }
}

/// The captured groups of each match, as values.
pub open spec fn captures_view(v: Seq<Vec<Option<GroupCapture>>>) -> Seq<
    Seq<Option<CaptureModel>>,
> {
    v.map_values(|m: Vec<Option<GroupCapture>>| m@.map_values(|c: Option<GroupCapture>| capture_view(c)))
}

/// Whether every captured group ends no earlier than it starts.
pub open spec fn captures_ordered(v: Seq<Vec<Option<GroupCapture>>>) -> bool {
    forall|i: int, j: int|
        0 <= i < v.len() && 0 <= j < v[i]@.len() && (#[trigger] v[i]@[j]) is Some ==> v[i]@[j]->0.start
            <= v[i]@[j]->0.end
}

/// Whether a capture covers, in the UTF-8 bytes of `t`, exactly the bytes of
/// its own text.
pub open spec fn capture_located(c: CaptureModel, t: Seq<char>) -> bool {
    &&& c.start <= c.end <= encode_utf8(t).len()
    &&& c.end <= usize::MAX
    &&& encode_utf8(t).subrange(c.start as int, c.end as int) == encode_utf8(c.text)
}

/// Whether every captured group of `ms` is located in `t`.
pub open spec fn captures_located(ms: Seq<Seq<Option<CaptureModel>>>, t: Seq<char>) -> bool {
    forall|i: int, j: int|
        0 <= i < ms.len() && 0 <= j < ms[i].len() && (#[trigger] ms[i][j]) is Some
            ==> capture_located(ms[i][j]->0, t)
}

/// Whether `pattern` is a regular expression that the regex engine accepts.
pub uninterp spec fn pattern_compiles(pattern: Seq<char>) -> bool;

/// For each successive non-overlapping match of `pattern` in `text`, what each
/// of the named `groups` captured.
pub uninterp spec fn captures_of(
    pattern: Seq<char>,
    groups: Seq<Seq<char>>,
    text: Seq<char>,
) -> Seq<Seq<Option<CaptureModel>>>;

/// Relies on `regex::Regex::new` (which fails on an invalid pattern),
/// `Regex::captures_iter` (successive non-overlapping matches, leftmost first)
/// and `Captures::name` with `Match::start`, `Match::end`, `Match::as_str`
/// (what a named group captured, if it took part in the match; a match's
/// start is never after its end, and its text is the haystack between them).
#[verifier::external_body]
pub(crate) fn capture_groups(pattern: &str, g0: &str, g1: &str, g2: &str, text: &str) -> (r:
    Option<Vec<Vec<Option<GroupCapture>>>>)
    ensures
        r is Some <==> pattern_compiles(pattern@),
        r matches Some(v) ==> captures_view(v@) == captures_of(pattern@, seq![g0@, g1@, g2@], text@),
        r matches Some(v) ==> forall|i: int| 0 <= i < v@.len() ==> (#[trigger] v@[i])@.len() == 3,
        r matches Some(v) ==> captures_ordered(v@),
        r matches Some(v) ==> captures_located(captures_view(v@), text@),
{
    let re = match regex::Regex::new(pattern) {
        Ok(re) => re,
        Err(_) => return None,
    };
    let names = [g0, g1, g2];
    Some(re.captures_iter(text).map(|c| names.iter().map(|g| c.name(g).map(|m| GroupCapture {
        start: m.start(),
        end: m.end(),
        text: m.as_str().to_string(),
    })).collect()).collect())
}

/// Whether an abbreviation name has one of the recognised endings, 法 or 令.
pub open spec fn ends_in_law(name: Seq<char>) -> bool {
    name.len() > 0 && (name.last() == '法' || name.last() == '令')
}

/// The parts of one abbreviation definition.
pub struct DefinitionModel {
    /// What precedes the definition: a citation number or a law name.
    pub num: Seq<char>,
    /// The scope qualifier, where there is one.
    pub note: Option<Seq<char>>,
    /// The abbreviation.
    pub name: CaptureModel,
}

/// The definition that one match makes, from its three groups (the cited
/// text, the scope qualifier and the name): present only where the first and
/// the last group took part and the name ends in 法 or 令.
pub open spec fn definition_of(m: Seq<Option<CaptureModel>>) -> Option<DefinitionModel> {
    if m.len() == 3 && m[0] is Some && m[2] is Some && ends_in_law(m[2]->0.text) {
        Some(
            DefinitionModel {
                num: m[0]->0.text,
                note: match m[1] {
                    Some(c) => Some(c.text),
                    None => None,
                },
                name: m[2]->0,
            },
        )
    } else {
        None
    }
}

/// The parts of one abbreviation definition, as values.
pub struct Definition {
    pub num: String,
    pub note: Option<String>,
    pub name: GroupCapture,
}

impl View for Definition {
    type V = DefinitionModel;

    open spec fn view(&self) -> DefinitionModel {
        DefinitionModel {
            num: self.num@,
            note: match self.note {
                Some(n) => Some(n@),
                None => None,
            },
            name: self.name@,
        }
    }
}

fn copy_capture(c: &GroupCapture) -> (r: GroupCapture)
    ensures
        r@ == c@,
{
    GroupCapture { start: c.start, end: c.end, text: c.text.clone() }
}

fn ends_in_law_exec(s: &str) -> (r: bool)
    ensures
        r == ends_in_law(s@),
{
    let cs = crate::text::chars_of(s);
    if cs.len() == 0 {
        return false;
    }
    let c = cs[cs.len() - 1];
    c == '法' || c == '令'
}

/// The definition that one match makes (see `definition_of`).
pub fn definition_at(m: &Vec<Option<GroupCapture>>) -> (r: Option<Definition>)
    ensures
        match r {
            Some(d) => definition_of(m@.map_values(|c: Option<GroupCapture>| capture_view(c)))
                == Some(d@),
            None => definition_of(m@.map_values(|c: Option<GroupCapture>| capture_view(c))) is None,
        },
{
    let ghost mv = m@.map_values(|c: Option<GroupCapture>| capture_view(c));
    if m.len() != 3 {
        return None;
    }
    assert(mv[0] == capture_view(m@[0]) && mv[1] == capture_view(m@[1]) && mv[2] == capture_view(
        m@[2],
    ));
    let num = match &m[0] {
        Some(c) => c.text.clone(),
        None => return None,
    };
    let name = match &m[2] {
        Some(c) => copy_capture(c),
        None => return None,
    };
    if !ends_in_law_exec(name.text.as_str()) {
        return None;
    }
    let note = match &m[1] {
        Some(c) => Some(c.text.clone()),
        None => None,
    };
    let d = Definition { num, note, name };
    assert(definition_of(mv) == Some(d@));
    Some(d)
}

} // verus!
