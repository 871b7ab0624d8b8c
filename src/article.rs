//! The structural position (article, paragraph, item, sub-item and
//! supplementary-provision block) reached while walking through a statute.

use vstd::prelude::*;
use crate::text::chars_of;

verus! {

/// A numbering component is not a non-negative integer that fits in `usize`.
#[derive(Debug, Clone, Copy, PartialEq, Eq, Structural)]
pub struct MalformedNumberError;

pub open spec fn is_digit(c: char) -> bool {
    '0' <= c && c <= '9'
}

/// The value of a string of decimal digits.
pub open spec fn decimal_value(s: Seq<char>) -> nat
    decreases s.len(),
{
    if s.len() == 0 {
        0
    } else {
        decimal_value(s.drop_last()) * 10 + ((s.last() as u32) - ('0' as u32)) as nat
    }
}

/// A component without its optional leading `+` sign.
pub open spec fn digits_of(s: Seq<char>) -> Seq<char> {
    if s.len() > 0 && s[0] == '+' {
        s.subrange(1, s.len() as int)
    } else {
        s
    }
}

/// An optional `+` sign followed by a non-empty run of decimal digits whose
/// value fits in `usize`.
pub open spec fn valid_component(s: Seq<char>) -> bool {
    let d = digits_of(s);
    &&& d.len() > 0
    &&& forall|j: int| 0 <= j < d.len() ==> is_digit(#[trigger] d[j])
    &&& decimal_value(d) <= usize::MAX
}

/// The number that a valid component denotes.
pub open spec fn component_value(s: Seq<char>) -> usize {
    decimal_value(digits_of(s)) as usize
}

/// The pieces of `s` between underscores, scanning from `i` with the current
/// piece begun at `start`.
pub open spec fn split_parts(s: Seq<char>, start: int, i: int) -> Seq<Seq<char>>
    decreases s.len() - i,
{
    if i >= s.len() {
        seq![s.subrange(start, s.len() as int)]
    } else if s[i] == '_' {
        seq![s.subrange(start, i)] + split_parts(s, i + 1, i + 1)
    } else {
        split_parts(s, start, i + 1)
    }
}

/// The underscore-separated components of a raw numbering such as `3_2`.
pub open spec fn numbering_parts(s: Seq<char>) -> Seq<Seq<char>> {
    split_parts(s, 0, 0)
}

/// The numbers that a raw numbering denotes, or `None` where a component is
/// not a non-negative integer fitting in `usize`.
pub open spec fn parse_numbering(s: Seq<char>) -> Option<Seq<usize>> {
    let parts = numbering_parts(s);
    if forall|k: int| 0 <= k < parts.len() ==> valid_component(#[trigger] parts[k]) {
        Some(parts.map_values(|p: Seq<char>| component_value(p)))
    } else {
        None
    }
}

proof fn lemma_split_first(s: Seq<char>, start: int, i: int)
    requires
        0 <= start <= i <= s.len(),
    ensures
        split_parts(s, start, i).len() >= 1,
        exists|e: int|
            #![trigger s.subrange(start, e)]
            i <= e <= s.len() && split_parts(s, start, i)[0] == s.subrange(start, e) && (i
                < s.len() && s[i] != '_' ==> e > i),
    decreases s.len() - i,
{
    if i >= s.len() {
        assert(split_parts(s, start, i)[0] == s.subrange(start, s.len() as int));
    } else if s[i] == '_' {
        assert(split_parts(s, start, i)[0] == s.subrange(start, i));
    } else {
        lemma_split_first(s, start, i + 1);
    }
}

proof fn lemma_value_monotone(t: Seq<char>, k: int)
    requires
        0 <= k <= t.len(),
    ensures
        decimal_value(t) >= decimal_value(t.subrange(0, k)),
    decreases t.len(),
{
    if k < t.len() {
        lemma_value_monotone(t.drop_last(), k);
        assert(t.drop_last().subrange(0, k) =~= t.subrange(0, k));
    } else {
        assert(t.subrange(0, k) =~= t);
    }
}

/// Parses a raw numbering such as `3_2` into `[3, 2]`; each component may
/// carry a leading `+`.
pub fn parse_number_list(num: &str) -> (r: Result<Vec<usize>, MalformedNumberError>)
    ensures
        r is Ok <==> parse_numbering(num@) is Some,
        r matches Ok(v) ==> parse_numbering(num@) == Some(v@),
{
    let cs = chars_of(num);
    let ghost s = cs@;
    let mut out: Vec<usize> = Vec::new();
    let ghost mut done: Seq<Seq<char>> = Seq::empty();
    let mut start: usize = 0;
    let mut dstart: usize = 0;
    let mut cur: usize = 0;
    let mut i: usize = 0;
    while i < cs.len()
        invariant
            s == cs@,
            s == num@,
            start <= dstart <= i <= cs.len(),
            dstart == start || (dstart == start + 1 && s[start as int] == '+'),
            dstart == start ==> start == i || is_digit(s[start as int]),
            numbering_parts(s) == done + split_parts(s, start as int, i as int),
            done.len() == out@.len(),
            forall|k: int| 0 <= k < done.len() ==> valid_component(#[trigger] done[k]),
            forall|k: int| 0 <= k < done.len() ==> out@[k] == component_value(#[trigger] done[k]),
            forall|j: int| dstart <= j < i ==> is_digit(#[trigger] s[j]),
            cur == decimal_value(s.subrange(dstart as int, i as int)),
        decreases cs.len() - i,
    {
        let c = cs[i];
        proof {
            lemma_split_first(s, start as int, i as int);
        }
        let ghost part = split_parts(s, start as int, i as int)[0];
        assert(numbering_parts(s)[done.len() as int] == part);
        if c == '_' {
            assert(part == s.subrange(start as int, i as int));
            if i == dstart {
                assert(digits_of(part).len() == 0);
                assert(!valid_component(numbering_parts(s)[done.len() as int]));
                return Err(MalformedNumberError);
            }
            assert(digits_of(part) =~= s.subrange(dstart as int, i as int));
            out.push(cur);
            proof {
                done = done.push(part);
                assert(split_parts(s, start as int, i as int) == seq![part] + split_parts(
                    s,
                    i + 1,
                    i + 1,
                ));
                assert(numbering_parts(s) =~= done + split_parts(s, i + 1, i + 1));
                assert(s.subrange(i + 1, i + 1) =~= Seq::<char>::empty());
            }
            start = i + 1;
            dstart = i + 1;
            cur = 0;
        } else if c == '+' && i == start {
            dstart = i + 1;
            assert(s.subrange(i + 1, i + 1) =~= Seq::<char>::empty());
            assert(split_parts(s, start as int, i as int) == split_parts(
                s,
                start as int,
                i + 1,
            ));
        } else if '0' <= c && c <= '9' {
            let d: usize = ((c as u32) - ('0' as u32)) as usize;
            let ghost e = choose|e: int|
                #![trigger s.subrange(start as int, e)]
                i <= e <= s.len() && part == s.subrange(start as int, e) && e > i;
            let ghost dg = s.subrange(dstart as int, e);
            assert(digits_of(part) =~= dg);
            let ghost pre = s.subrange(dstart as int, i + 1);
            assert(pre.drop_last() =~= s.subrange(dstart as int, i as int));
            assert(dg.subrange(0, i + 1 - dstart) =~= pre);
            assert(decimal_value(pre) == cur * 10 + d);
            let next = match cur.checked_mul(10) {
                Some(m) => m.checked_add(d),
                None => None,
            };
            match next {
                Some(n) => {
                    cur = n;
                },
                None => {
                    proof {
                        lemma_value_monotone(dg, i + 1 - dstart);
                    }
                    assert(!valid_component(numbering_parts(s)[done.len() as int]));
                    return Err(MalformedNumberError);
                },
            }
            assert(split_parts(s, start as int, i as int) == split_parts(
                s,
                start as int,
                i + 1,
            ));
        } else {
            let ghost e = choose|e: int|
                #![trigger s.subrange(start as int, e)]
                i <= e <= s.len() && part == s.subrange(start as int, e) && e > i;
            let ghost dg = s.subrange(dstart as int, e);
            assert(digits_of(part) =~= dg);
            assert(!is_digit(dg[i - dstart]));
            assert(!valid_component(numbering_parts(s)[done.len() as int]));
            return Err(MalformedNumberError);
        }
        i = i + 1;
    }
    let ghost last = s.subrange(start as int, s.len() as int);
    assert(split_parts(s, start as int, i as int) == seq![last]);
    assert(numbering_parts(s)[done.len() as int] == last);
    if i == dstart {
        assert(digits_of(last).len() == 0);
        assert(!valid_component(numbering_parts(s)[done.len() as int]));
        return Err(MalformedNumberError);
    }
    assert(digits_of(last) =~= s.subrange(dstart as int, i as int));
    out.push(cur);
    proof {
        done = done.push(last);
        assert(numbering_parts(s) =~= done);
        assert forall|k: int| 0 <= k < numbering_parts(s).len() implies valid_component(
            #[trigger] numbering_parts(s)[k],
        ) by {
            assert(numbering_parts(s)[k] == done[k]);
        }
        assert(out@ =~= numbering_parts(s).map_values(|p: Seq<char>| component_value(p)));
    }
    Ok(out)
}

/// Where a text fragment stands in the numbering hierarchy of a statute.
#[derive(Debug, Clone, PartialEq, Eq)]
pub struct Article {
    /// Article number, with branch numbers (`3_2` is `[3, 2]`).
    pub article: Vec<usize>,
    /// Paragraph number; empty before the first paragraph.
    pub paragraph: Vec<usize>,
    /// Item number.
    pub item: Vec<usize>,
    /// Sub-item number together with its nesting depth.
    pub sub_item: Option<(usize, Vec<usize>)>,
    /// Title of the supplementary-provision block, inside one.
    pub suppl_provision_title: Option<String>,
}

/// The mathematical value of an `Article`.
pub struct PositionModel {
    pub article: Seq<usize>,
    pub paragraph: Seq<usize>,
    pub item: Seq<usize>,
    pub sub_item: Option<(usize, Seq<usize>)>,
    pub suppl_provision_title: Option<Seq<char>>,
}

impl View for Article {
    type V = PositionModel;

    open spec fn view(&self) -> PositionModel {
        PositionModel {
            article: self.article@,
            paragraph: self.paragraph@,
            item: self.item@,
            sub_item: match self.sub_item {
                Some((d, v)) => Some((d, v@)),
                None => None,
            },
            suppl_provision_title: match self.suppl_provision_title {
                Some(t) => Some(t@),
                None => None,
            },
        }
    }
}

/// The position at the start of a document: nothing set.
pub open spec fn empty_position() -> PositionModel {
    PositionModel {
        article: Seq::empty(),
        paragraph: Seq::empty(),
        item: Seq::empty(),
        sub_item: None,
        suppl_provision_title: None,
    }
}

/// The position after entering the article numbered `raw`; unchanged where
/// `raw` is malformed.
pub open spec fn with_article(p: PositionModel, raw: Seq<char>) -> PositionModel {
    match parse_numbering(raw) {
        Some(v) => PositionModel {
            article: v,
            paragraph: Seq::empty(),
            item: Seq::empty(),
            sub_item: None,
            ..p
        },
        None => p,
    }
}

/// The position after entering the paragraph numbered `raw`; unchanged where
/// `raw` is malformed.
pub open spec fn with_paragraph(p: PositionModel, raw: Seq<char>) -> PositionModel {
    match parse_numbering(raw) {
        Some(v) => PositionModel { paragraph: v, item: Seq::empty(), sub_item: None, ..p },
        None => p,
    }
}

/// The position after entering the item numbered `raw`; unchanged where `raw`
/// is malformed.
pub open spec fn with_item(p: PositionModel, raw: Seq<char>) -> PositionModel {
    match parse_numbering(raw) {
        Some(v) => PositionModel { item: v, sub_item: None, ..p },
        None => p,
    }
}

/// The position after entering the sub-item numbered `raw` at nesting depth
/// `depth`; unchanged where `raw` is malformed.
pub open spec fn with_sub_item(p: PositionModel, depth: usize, raw: Seq<char>) -> PositionModel {
    match parse_numbering(raw) {
        Some(v) => PositionModel { sub_item: Some((depth, v)), ..p },
        None => p,
    }
}

/// The position after entering the supplementary-provision block `title`:
/// numbering starts afresh, whatever `p` was.
pub open spec fn with_suppl_provision(p: PositionModel, title: Seq<char>) -> PositionModel {
    PositionModel { suppl_provision_title: Some(title), ..empty_position() }
}

impl Article {
    pub fn new() -> (r: Self)
        ensures
            r@ == empty_position(),
    {
        let r = Article {
            article: Vec::new(),
            paragraph: Vec::new(),
            item: Vec::new(),
            sub_item: None,
            suppl_provision_title: None,
        };
        assert(r@ =~= empty_position());
        r
    }

    /// A copy of this position.
    pub fn snapshot(&self) -> (r: Self)
        ensures
            r@ == self@,
    {
        let sub_item = match &self.sub_item {
            Some((d, v)) => {
                let c = v.clone();
                assert(c@ =~= v@);
                Some((*d, c))
            },
            None => None,
        };
        let suppl_provision_title = match &self.suppl_provision_title {
            Some(t) => Some(t.clone()),
            None => None,
        };
        let r = Article {
            article: self.article.clone(),
            paragraph: self.paragraph.clone(),
            item: self.item.clone(),
            sub_item,
            suppl_provision_title,
        };
        assert(r.article@ =~= self.article@);
        assert(r.paragraph@ =~= self.paragraph@);
        assert(r.item@ =~= self.item@);
        assert(r@ =~= self@);
        r
    }

    /// Enters the article numbered `num`, clearing paragraph, item and
    /// sub-item. On a malformed number the position is left as it was.
    pub fn update_article(&mut self, num: &str) -> (r: Result<(), MalformedNumberError>)
        ensures
            final(self)@ == with_article(old(self)@, num@),
            r is Ok <==> parse_numbering(num@) is Some,
            r is Ok ==> {
                &&& Some(final(self)@.article) == parse_numbering(num@)
                &&& final(self)@.paragraph.len() == 0
                &&& final(self)@.item.len() == 0
                &&& final(self)@.sub_item is None
            },
    {
        let v = parse_number_list(num)?;
        self.article = v;
        self.paragraph = Vec::new();
        self.item = Vec::new();
        self.sub_item = None;
        assert(self@ =~= with_article(old(self)@, num@));
        Ok(())
    }

    /// Enters the paragraph numbered `num`, clearing item and sub-item. On a
    /// malformed number the position is left as it was.
    pub fn update_paragraph(&mut self, num: &str) -> (r: Result<(), MalformedNumberError>)
        ensures
            final(self)@ == with_paragraph(old(self)@, num@),
            r is Ok <==> parse_numbering(num@) is Some,
    {
        let v = parse_number_list(num)?;
        self.paragraph = v;
        self.item = Vec::new();
        self.sub_item = None;
        assert(self@ =~= with_paragraph(old(self)@, num@));
        Ok(())
    }

    /// Enters the item numbered `num`, clearing the sub-item. On a malformed
    /// number the position is left as it was.
    pub fn update_item(&mut self, num: &str) -> (r: Result<(), MalformedNumberError>)
        ensures
            final(self)@ == with_item(old(self)@, num@),
            r is Ok <==> parse_numbering(num@) is Some,
    {
        let v = parse_number_list(num)?;
        self.item = v;
        self.sub_item = None;
        assert(self@ =~= with_item(old(self)@, num@));
        Ok(())
    }

    /// Enters the sub-item numbered `num` at nesting depth `n`. On a malformed
    /// number the position is left as it was.
    pub fn update_sub_item(&mut self, n: usize, num: &str) -> (r: Result<(), MalformedNumberError>)
        ensures
            final(self)@ == with_sub_item(old(self)@, n, num@),
            r is Ok <==> parse_numbering(num@) is Some,
    {
        let v = parse_number_list(num)?;
        self.sub_item = Some((n, v));
        assert(self@ =~= with_sub_item(old(self)@, n, num@));
        Ok(())
    }

    /// Enters the supplementary-provision block `title`, resetting all numbering.
    pub fn update_suppl_provision(&mut self, title: &str)
        ensures
            final(self)@ == with_suppl_provision(old(self)@, title@),
    {
        *self = Article {
            article: Vec::new(),
            paragraph: Vec::new(),
            item: Vec::new(),
            sub_item: None,
            suppl_provision_title: Some(title.to_owned()),
        };
        assert(self@ =~= with_suppl_provision(old(self)@, title@));
    }
}

impl Default for Article {
    fn default() -> (r: Self)
        ensures
            r@ == empty_position(),
    {
        Article::new()
    }
}

/// Entering a paragraph leaves no item and no sub-item; entering an item
/// leaves no sub-item; entering a supplementary-provision block leaves no
/// article, paragraph, item or sub-item, and the given title.
pub proof fn lemma_cascade(p: PositionModel, raw: Seq<char>, title: Seq<char>)
    requires
        parse_numbering(raw) is Some,
    ensures
        with_paragraph(p, raw).item.len() == 0,
        with_paragraph(p, raw).sub_item is None,
        with_item(p, raw).sub_item is None,
        with_suppl_provision(p, title).article.len() == 0,
        with_suppl_provision(p, title).paragraph.len() == 0,
        with_suppl_provision(p, title).item.len() == 0,
        with_suppl_provision(p, title).sub_item is None,
        with_suppl_provision(p, title).suppl_provision_title == Some(title),
{
}

/// Applying a position update twice with the same input gives the same
/// position as applying it once.
pub proof fn lemma_updates_idempotent(
    p: PositionModel,
    depth: usize,
    raw: Seq<char>,
    title: Seq<char>,
)
    ensures
        with_article(with_article(p, raw), raw) == with_article(p, raw),
        with_paragraph(with_paragraph(p, raw), raw) == with_paragraph(p, raw),
        with_item(with_item(p, raw), raw) == with_item(p, raw),
        with_sub_item(with_sub_item(p, depth, raw), depth, raw) == with_sub_item(p, depth, raw),
        with_suppl_provision(with_suppl_provision(p, title), title) == with_suppl_provision(
            p,
            title,
        ),
{
}

} // verus!
