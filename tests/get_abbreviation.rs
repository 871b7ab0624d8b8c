use law_abbreviation::article::Article;
use law_abbreviation::get_abbreviation::{
    get_law_abbreviation, get_law_all_abbreviation, Abbreviation, LawContents, LawText,
};

const CORPUS: &str = "附則第七条の二及び第七条の三の規定の適用がないものとした場合における地方交付税法等の一部を改正する法律（平成三十一年法律第五号）第三条の規定による改正前の地方特例交付金等の地方財政の特別措置に関する法律（平成十一年法律第十七号）第八条第一項及び地方税法等の一部を改正する等の法律（平成二十八年法律第十三号。以下イにおいて「平成二十八年地方税法等改正法」という。）第九条の規定による廃止前の地方法人特別税等に関する暫定措置法（平成二十年法律第二十五号）第三十九条の規定により読み替えられた平成二十八年地方税法等改正法附則第三十七条の規定による改正前の地方交付税法第十四条（以下この条において「読替え後の地方交付税法第十四条」という。）";

#[test]
fn check_get_law_abbreviation_1() {
    let a = Article::new();
    let v = get_law_abbreviation("", &a, CORPUS);
    assert_eq!(
        v,
        vec![Abbreviation {
            num: "平成二十八年法律第十三号".to_string(),
            name: "平成二十八年地方税法等改正法".to_string(),
            note: Some("イ".to_string()),
            article: a,
            law_num: "".to_string(),
        },]
    )
}

#[test]
fn citation_without_scope_stamps_position_and_law() {
    let mut a = Article::new();
    a.update_article("2").unwrap();
    a.update_paragraph("1").unwrap();
    let v = get_law_abbreviation(
        "昭和二十二年法律第一号",
        &a,
        "所得税法（昭和四十年法律第三十三号）及び地方税法（昭和二十五年法律第二百二十六号。以下「法」という。）",
    );
    assert_eq!(
        v,
        vec![Abbreviation {
            num: "昭和二十五年法律第二百二十六号".to_string(),
            name: "法".to_string(),
            note: None,
            article: a,
            law_num: "昭和二十二年法律第一号".to_string(),
        }]
    );
}

#[test]
fn name_must_end_in_law_or_ordinance() {
    let a = Article::new();
    let v = get_law_abbreviation("", &a, "規則（平成二十八年法律第十三号。以下「新規則」という。）");
    assert!(v.is_empty());
    let v = get_law_abbreviation("", &a, "政令（平成二十八年政令第十三号。以下「新令」という。）");
    assert_eq!(v.len(), 1);
    assert_eq!(v[0].name, "新令");
}

#[test]
fn text_without_definition_yields_nothing() {
    let a = Article::new();
    assert!(get_law_abbreviation("", &a, "この法律は、公布の日から施行する。").is_empty());
    assert!(get_law_abbreviation("", &a, "").is_empty());
}

#[test]
fn tables_never_contribute() {
    let mut a1 = Article::new();
    a1.update_article("1").unwrap();
    let mut a2 = Article::new();
    a2.update_article("2").unwrap();
    let fragments = vec![
        LawText { article_info: a1.clone(), contents: LawContents::Table },
        LawText { article_info: a2.clone(), contents: LawContents::Text(CORPUS.to_string()) },
        LawText { article_info: a1.clone(), contents: LawContents::Table },
    ];
    let v = get_law_all_abbreviation("平成三十年法律第一号", &fragments);
    assert_eq!(v.len(), 1);
    assert_eq!(v[0].name, "平成二十八年地方税法等改正法");
    assert_eq!(v[0].article, a2);
    assert_eq!(v[0].law_num, "平成三十年法律第一号");
    let only_tables = vec![LawText { article_info: a1, contents: LawContents::Table }];
    assert!(get_law_all_abbreviation("", &only_tables).is_empty());
}

#[test]
fn fragments_are_read_in_order() {
    let mut a1 = Article::new();
    a1.update_article("1").unwrap();
    let mut a2 = Article::new();
    a2.update_article("2").unwrap();
    let fragments = vec![
        LawText {
            article_info: a1.clone(),
            contents: LawContents::Text("（平成二年法律第一号。以下「甲法」という。）".to_string()),
        },
        LawText {
            article_info: a2.clone(),
            contents: LawContents::Text("（令和二年法律第三号。以下「乙令」という。）".to_string()),
        },
    ];
    let v = get_law_all_abbreviation("", &fragments);
    assert_eq!(v.len(), 2);
    assert_eq!(v[0].name, "甲法");
    assert_eq!(v[0].num, "平成二年法律第一号");
    assert_eq!(v[0].article, a1);
    assert_eq!(v[1].name, "乙令");
    assert_eq!(v[1].article, a2);
}
