use law_abbreviation::old_get_ryakusyou::{
    parse_ryakusyou_notes, string_to_ryakusyou_note_type, JoukouType, RyakusyouNote,
    RyakusyouNoteType, UnrecognizedScopeError,
};

fn one(s: &str) -> Result<RyakusyouNoteType, UnrecognizedScopeError> {
    string_to_ryakusyou_note_type(s)
}

fn single(note: RyakusyouNoteType) -> RyakusyouNote {
    RyakusyouNote::Single { note }
}

#[test]
fn range_of_articles() {
    assert_eq!(
        parse_ryakusyou_notes("第五条から第七条まで"),
        Ok(vec![RyakusyouNote::Range {
            start: RyakusyouNoteType::Link("第五条".to_string()),
            end: RyakusyouNoteType::Link("第七条".to_string()),
        }])
    );
}

#[test]
fn this_and_next_levels() {
    assert_eq!(
        parse_ryakusyou_notes("この条"),
        Ok(vec![single(RyakusyouNoteType::This(JoukouType::Article))])
    );
    assert_eq!(
        parse_ryakusyou_notes("次項"),
        Ok(vec![single(RyakusyouNoteType::Next(JoukouType::Paragraph))])
    );
    assert_eq!(one("本号"), Ok(RyakusyouNoteType::This(JoukouType::Item)));
    assert_eq!(one("この節"), Ok(RyakusyouNoteType::This(JoukouType::SubItem)));
    assert_eq!(one("この記載要領"), Ok(RyakusyouNoteType::This(JoukouType::KisaiYouryou)));
    assert_eq!(one("次条"), Ok(RyakusyouNoteType::Next(JoukouType::Article)));
}

#[test]
fn supplementary_and_plain_links() {
    assert_eq!(one("附則第三条"), Ok(RyakusyouNoteType::HusokuLink("第三条".to_string())));
    assert_eq!(one("第七条の二"), Ok(RyakusyouNoteType::Link("第七条の二".to_string())));
    assert_eq!(one("イ"), Ok(RyakusyouNoteType::Link("イ".to_string())));
    assert_eq!(
        parse_ryakusyou_notes("附則の第三条から第五条まで"),
        Ok(vec![RyakusyouNote::Range {
            start: RyakusyouNoteType::HusokuLink("の第三条".to_string()),
            end: RyakusyouNoteType::Link("第五条".to_string()),
        }])
    );
}

#[test]
fn list_of_notes_keeps_order() {
    assert_eq!(
        parse_ryakusyou_notes("この条及び次条"),
        Ok(vec![
            single(RyakusyouNoteType::This(JoukouType::Article)),
            single(RyakusyouNoteType::Next(JoukouType::Article)),
        ])
    );
    assert_eq!(
        parse_ryakusyou_notes("第一条、第二条から第四条まで並びに第九条"),
        Ok(vec![
            single(RyakusyouNoteType::Link("第一条".to_string())),
            RyakusyouNote::Range {
                start: RyakusyouNoteType::Link("第二条".to_string()),
                end: RyakusyouNoteType::Link("第四条".to_string()),
            },
            single(RyakusyouNoteType::Link("第九条".to_string())),
        ])
    );
}

#[test]
fn unrecognized_scope_is_reported() {
    assert_eq!(parse_ryakusyou_notes(""), Err(UnrecognizedScopeError));
    assert_eq!(parse_ryakusyou_notes("この条及び"), Err(UnrecognizedScopeError));
    assert_eq!(parse_ryakusyou_notes("第一条からまで"), Err(UnrecognizedScopeError));
    assert_eq!(one(""), Err(UnrecognizedScopeError));
    assert_eq!(parse_ryakusyou_notes("、この条"), Err(UnrecognizedScopeError));
}

#[test]
fn any_other_segment_is_a_plain_link() {
    assert_eq!(
        parse_ryakusyou_notes("前項"),
        Ok(vec![single(RyakusyouNoteType::Link("前項".to_string()))])
    );
    assert_eq!(one("同条"), Ok(RyakusyouNoteType::Link("同条".to_string())));
    assert_eq!(one("前条第二項"), Ok(RyakusyouNoteType::Link("前条第二項".to_string())));
    assert_eq!(one("この"), Ok(RyakusyouNoteType::Link("この".to_string())));
    assert_eq!(one("附則"), Ok(RyakusyouNoteType::HusokuLink(String::new())));
    assert_eq!(
        parse_ryakusyou_notes("附則"),
        Ok(vec![single(RyakusyouNoteType::HusokuLink(String::new()))])
    );
    assert_eq!(one("附則別表"), Ok(RyakusyouNoteType::HusokuLink("別表".to_string())));
    assert_eq!(
        parse_ryakusyou_notes("前条から次条まで"),
        Ok(vec![RyakusyouNote::Range {
            start: RyakusyouNoteType::Link("前条".to_string()),
            end: RyakusyouNoteType::Next(JoukouType::Article),
        }])
    );
}
