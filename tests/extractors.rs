use articlehistory::extractors::dyk::DykExtractor;
use articlehistory::extractors::itn::ItnExtractor;
use articlehistory::extractors::oldpr::{edit_count_url, OldPrExtractor};
use articlehistory::extractors::ExtractContext;
use articlehistory::names::template_name;
use articlehistory::{ArticleHistory, CountLookup, DateLookup, DecisionLookup, Halt, HistoryError, Lookups, Param, Query};

fn p(k: &str, v: &str) -> Param {
    Param { key: k.to_string(), value: v.to_string() }
}

fn cx(interactive: bool) -> ExtractContext {
    ExtractContext { title: "Talk:Some page".to_string(), allow_interactive: interactive, review_threshold: 7 }
}

fn facts(dates: &[(&str, Option<i64>)]) -> Lookups {
    let mut f = Lookups::new();
    for (t, i) in dates {
        f.dates.push(DateLookup { text: t.to_string(), instant: *i });
    }
    f
}

#[test]
fn names_and_aliases() {
    assert_eq!(template_name("Template:Template:ITN talk"), "ITN talk");
    assert_eq!(template_name("ITN talk"), "ITN talk");
    assert!(ItnExtractor.is_extractable("Template:ITN talk"));
    assert!(ItnExtractor.is_extractable("Template:itntalk"));
    assert!(!ItnExtractor.is_extractable("Template:ITN"));
    assert!(DykExtractor.is_extractable("Template:DYK talk"));
}

#[test]
fn dyk_year_and_entry_forms() {
    let f = facts(&[("5 May 2011", Some(1)), ("5 May", Some(2))]);
    let mut ah = ArticleHistory::empty();
    let v = DykExtractor.extract(&vec![p("1", "5 May"), p("2", "2011"), p("3", "... that?")]).unwrap();
    DykExtractor.merge_value_into(&cx(false), v, &mut ah, &f).unwrap();
    assert_eq!(ah.dyks[0].date.orig, "5 May 2011");
    assert_eq!(ah.dyks[0].entry.as_deref(), Some("... that?"));
    let v = DykExtractor.extract(&vec![p("1", "5 May"), p("2", "... this?"), p("nompage", "N")]).unwrap();
    DykExtractor.merge_value_into(&cx(false), v, &mut ah, &f).unwrap();
    assert_eq!(ah.dyks[1].date.orig, "5 May");
    assert_eq!(ah.dyks[1].entry.as_deref(), Some("... this?"));
    assert_eq!(ah.dyks[1].nom.as_deref(), Some("N"));
    assert_eq!(
        DykExtractor.extract(&vec![p("2", "2011")]).unwrap_err(),
        Halt::Fail(HistoryError::MissingRequiredField("1".to_string()))
    );
}

#[test]
fn itn_links() {
    let v = ItnExtractor
        .extract(&vec![p("1", "January"), p("2", "5"), p("alt", "yes"), p("date2", "2020-01-06")], &Lookups::new())
        .unwrap_err();
    assert_eq!(v, Halt::Ask(Query::Date("January 5".to_string())));
    let f = facts(&[("January 5", Some(1578182400)), ("2020-01-06", Some(1578268800))]);
    let v = ItnExtractor.extract(&vec![p("1", "January"), p("2", "5 ")], &f);
    assert_eq!(v.unwrap_err(), Halt::Ask(Query::Date("January 5 ".to_string())));
    let v = ItnExtractor.extract(&vec![p("1", "January"), p("2", "5"), p("alt", "yes"), p("date2", "2020-01-06")], &f).unwrap();
    let mut ah = ArticleHistory::empty();
    ItnExtractor.merge_value_into(&cx(false), v, &mut ah).unwrap();
    assert_eq!(ah.itns.len(), 2);
    assert_eq!(ah.itns[0].link.as_deref(), Some("Portal:Current events/2020 January 05"));
    assert_eq!(ah.itns[1].link.as_deref(), Some("Portal:Current events/2020 January 06"));
    let v = ItnExtractor.extract(&vec![p("date", "2020-01-06"), p("oldid", "77"), p("date2", "January 5"), p("oldid2", " ")], &f).unwrap();
    let mut ah = ArticleHistory::empty();
    ItnExtractor.merge_value_into(&cx(false), v, &mut ah).unwrap();
    assert_eq!(ah.itns[0].link.as_deref(), Some("Special:PermanentLink/77"));
    assert_eq!(ah.itns[1].link, None);
    assert_eq!(
        ItnExtractor.extract(&vec![p("date", "2020-01-06"), p("2", "x")], &f).unwrap_err(),
        Halt::Fail(HistoryError::UnrecognizedParameter("2".to_string()))
    );
}

#[test]
fn peer_review_needs_count_then_verdict() {
    let f = facts(&[("3 March 2009", Some(1236038400))]);
    let ps = vec![p("date", "3 March 2009"), p("archive", "2")];
    let v = OldPrExtractor.extract(&ps, &f).unwrap();
    let mut ah = ArticleHistory::empty();
    let link = "Wikipedia:Peer review/Some page/archive2".to_string();
    assert_eq!(OldPrExtractor.merge_value_into(&cx(false), v.clone(), &mut ah, &f), Err(Halt::Ask(Query::EditCount(link.clone()))));
    let mut f2 = f.clone();
    f2.edit_counts.push(CountLookup { link: link.clone(), count: 3 });
    assert_eq!(OldPrExtractor.merge_value_into(&cx(false), v.clone(), &mut ah, &f2), Err(Halt::Fail(HistoryError::ReviewUndecided)));
    assert_eq!(OldPrExtractor.merge_value_into(&cx(true), v.clone(), &mut ah, &f2), Err(Halt::Ask(Query::Decision(link.clone()))));
    f2.decisions.push(DecisionLookup { link: link.clone(), reviewed: false });
    OldPrExtractor.merge_value_into(&cx(true), v.clone(), &mut ah, &f2).unwrap();
    assert_eq!(ah.actions[0].result.as_deref(), Some("Not reviewed"));
    assert_eq!(ah.actions[0].link.as_deref(), Some(link.as_str()));
    let mut f3 = f.clone();
    f3.edit_counts.push(CountLookup { link: link.clone(), count: 7 });
    let mut ah = ArticleHistory::empty();
    OldPrExtractor.merge_value_into(&cx(false), v, &mut ah, &f3).unwrap();
    assert_eq!(ah.actions[0].result.as_deref(), Some("Reviewed"));
    assert_eq!(ah.actions[0].kind, articlehistory::ActionKind::Pr);
}

#[test]
fn peer_review_without_date_fails() {
    let f = facts(&[]);
    let v = OldPrExtractor.extract(&vec![p("archivelink", "Wikipedia:Peer review/X")], &f).unwrap();
    let mut f2 = f.clone();
    f2.edit_counts.push(CountLookup { link: "Wikipedia:Peer review/X".to_string(), count: 30 });
    let mut ah = ArticleHistory::empty();
    assert_eq!(
        OldPrExtractor.merge_value_into(&cx(false), v, &mut ah, &f2),
        Err(Halt::Fail(HistoryError::MissingRequiredField("date".to_string())))
    );
    assert!(ah.actions.is_empty());
}

#[test]
fn edit_count_address_is_encoded() {
    assert_eq!(
        edit_count_url("Wikipedia:Peer review/Foo bar/archive1"),
        "https://en.wikipedia.org/w/rest.php/v1/page/Wikipedia%3APeer_review%2FFoo_bar%2Farchive1/history/counts/edits"
    );
}
