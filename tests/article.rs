use law_abbreviation::article::{parse_number_list, Article, MalformedNumberError};

#[test]
fn new_position_is_empty() {
    let a = Article::new();
    assert!(a.article.is_empty());
    assert!(a.paragraph.is_empty());
    assert!(a.item.is_empty());
    assert_eq!(a.sub_item, None);
    assert_eq!(a.suppl_provision_title, None);
    assert_eq!(Article::default(), a);
}

#[test]
fn parse_branch_number() {
    assert_eq!(parse_number_list("3_2"), Ok(vec![3, 2]));
    assert_eq!(parse_number_list("12"), Ok(vec![12]));
    assert_eq!(parse_number_list("0_0_7"), Ok(vec![0, 0, 7]));
    assert_eq!(parse_number_list("+3"), Ok(vec![3]));
    assert_eq!(parse_number_list("+3_+2"), Ok(vec![3, 2]));
    assert_eq!(parse_number_list("007"), Ok(vec![7]));
}

#[test]
fn parse_malformed_numbers() {
    assert_eq!(parse_number_list(""), Err(MalformedNumberError));
    assert_eq!(parse_number_list("3_"), Err(MalformedNumberError));
    assert_eq!(parse_number_list("_3"), Err(MalformedNumberError));
    assert_eq!(parse_number_list("3__2"), Err(MalformedNumberError));
    assert_eq!(parse_number_list("a"), Err(MalformedNumberError));
    assert_eq!(parse_number_list("-1"), Err(MalformedNumberError));
    assert_eq!(parse_number_list("+"), Err(MalformedNumberError));
    assert_eq!(parse_number_list("++3"), Err(MalformedNumberError));
    assert_eq!(parse_number_list("3+"), Err(MalformedNumberError));
    assert_eq!(parse_number_list("3_+"), Err(MalformedNumberError));
    assert_eq!(parse_number_list("99999999999999999999999"), Err(MalformedNumberError));
}

#[test]
fn parse_largest_number() {
    let max = format!("{}", usize::MAX);
    assert_eq!(parse_number_list(&max), Ok(vec![usize::MAX]));
}

#[test]
fn update_article_clears_finer_levels() {
    let mut a = Article::new();
    a.update_article("1").unwrap();
    a.update_paragraph("2").unwrap();
    a.update_item("3").unwrap();
    a.update_sub_item(1, "4").unwrap();
    assert_eq!(a.update_article("3_2"), Ok(()));
    assert_eq!(a.article, vec![3, 2]);
    assert!(a.paragraph.is_empty());
    assert!(a.item.is_empty());
    assert_eq!(a.sub_item, None);
}

#[test]
fn update_article_keeps_supplementary_title() {
    let mut a = Article::new();
    a.update_suppl_provision("附則");
    a.update_article("5").unwrap();
    assert_eq!(a.article, vec![5]);
    assert_eq!(a.suppl_provision_title, Some("附則".to_string()));
}

#[test]
fn update_paragraph_clears_item_and_sub_item() {
    let mut a = Article::new();
    a.update_article("1").unwrap();
    a.update_item("3").unwrap();
    a.update_sub_item(2, "1").unwrap();
    assert_eq!(a.update_paragraph("2"), Ok(()));
    assert_eq!(a.article, vec![1]);
    assert_eq!(a.paragraph, vec![2]);
    assert!(a.item.is_empty());
    assert_eq!(a.sub_item, None);
}

#[test]
fn update_item_clears_sub_item() {
    let mut a = Article::new();
    a.update_article("1").unwrap();
    a.update_paragraph("2").unwrap();
    a.update_sub_item(1, "1").unwrap();
    assert_eq!(a.update_item("4_2"), Ok(()));
    assert_eq!(a.paragraph, vec![2]);
    assert_eq!(a.item, vec![4, 2]);
    assert_eq!(a.sub_item, None);
}

#[test]
fn update_sub_item_records_depth() {
    let mut a = Article::new();
    a.update_item("1").unwrap();
    assert_eq!(a.update_sub_item(2, "3"), Ok(()));
    assert_eq!(a.item, vec![1]);
    assert_eq!(a.sub_item, Some((2, vec![3])));
}

#[test]
fn update_suppl_provision_resets_everything() {
    let mut a = Article::new();
    a.update_article("7").unwrap();
    a.update_paragraph("2").unwrap();
    a.update_item("1").unwrap();
    a.update_sub_item(1, "1").unwrap();
    a.update_suppl_provision("附則（平成二十年法律第一号）");
    assert!(a.article.is_empty());
    assert!(a.paragraph.is_empty());
    assert!(a.item.is_empty());
    assert_eq!(a.sub_item, None);
    assert_eq!(a.suppl_provision_title, Some("附則（平成二十年法律第一号）".to_string()));
}

#[test]
fn malformed_update_leaves_position_unchanged() {
    let mut a = Article::new();
    a.update_article("1").unwrap();
    a.update_paragraph("2").unwrap();
    a.update_item("3").unwrap();
    let before = a.clone();
    assert_eq!(a.update_article("x"), Err(MalformedNumberError));
    assert_eq!(a.update_paragraph("2_"), Err(MalformedNumberError));
    assert_eq!(a.update_item(""), Err(MalformedNumberError));
    assert_eq!(a.update_sub_item(1, "イ"), Err(MalformedNumberError));
    assert_eq!(a, before);
}

#[test]
fn updates_are_idempotent() {
    let mut once = Article::new();
    once.update_article("2").unwrap();
    once.update_paragraph("3").unwrap();
    let mut twice = once.clone();
    once.update_item("4_1").unwrap();
    twice.update_item("4_1").unwrap();
    twice.update_item("4_1").unwrap();
    assert_eq!(once, twice);
    once.update_article("9").unwrap();
    twice.update_article("9").unwrap();
    twice.update_article("9").unwrap();
    assert_eq!(once, twice);
    once.update_suppl_provision("附則");
    twice.update_suppl_provision("附則");
    twice.update_suppl_provision("附則");
    assert_eq!(once, twice);
}

#[test]
fn snapshot_copies_position() {
    let mut a = Article::new();
    a.update_article("3").unwrap();
    a.update_sub_item(1, "2").unwrap();
    a.update_suppl_provision("附則");
    a.update_article("1").unwrap();
    assert_eq!(a.snapshot(), a);
}

#[test]
fn signed_number_updates_and_cascades() {
    let mut a = Article::new();
    a.update_article("1").unwrap();
    a.update_paragraph("2").unwrap();
    a.update_item("3").unwrap();
    a.update_sub_item(1, "1").unwrap();
    assert_eq!(a.update_paragraph("+4"), Ok(()));
    assert_eq!(a.paragraph, vec![4]);
    assert!(a.item.is_empty());
    assert_eq!(a.sub_item, None);
    assert_eq!(a.update_article("+3_2"), Ok(()));
    assert_eq!(a.article, vec![3, 2]);
    assert!(a.paragraph.is_empty());
}
