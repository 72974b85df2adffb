use articlehistory::extractors::otd::OtdExtractor;
use articlehistory::extractors::ExtractContext;
use articlehistory::page::{check_nobots, collapse_newlines, merge_page, Block, DocEdit};
use articlehistory::extract::extract_info;
use articlehistory::{ArticleHistory, ArticleHistoryExtractor, DateLookup, Halt, HistoryError, Lookups, Param, Query};

const NL: &str = "{{subst:User:0xDeadbeef/newline}}";
const NUL: &str = "{{subst:null}}";

fn p(k: &str, v: &str) -> Param {
    Param { key: k.to_string(), value: v.to_string() }
}

fn block(name: &str, ps: Vec<Param>) -> Block {
    Block { name: name.to_string(), params: ps }
}

fn cx() -> ExtractContext {
    ExtractContext { title: "Talk:Example".to_string(), allow_interactive: false, review_threshold: 7 }
}

fn facts(dates: &[(&str, Option<i64>)]) -> Lookups {
    let mut f = Lookups::new();
    for (t, i) in dates {
        f.dates.push(DateLookup { text: t.to_string(), instant: *i });
    }
    f
}

fn pairs(ps: &[Param]) -> Vec<(String, String)> {
    ps.iter().map(|p| (p.key.clone(), p.value.clone())).collect()
}

fn kv(k: &str, v: &str) -> (String, String) {
    (format!("{k}{NUL}"), v.to_string())
}

#[test]
fn on_this_day_end_to_end() {
    let blocks = vec![
        block("Template:Article history", vec![]),
        block("Template:On this day", vec![p("date1", "January 1, 2020"), p("oldid1", "12345")]),
    ];
    let asked = merge_page(&blocks, &cx(), &Lookups::new());
    assert_eq!(asked.unwrap_err(), Halt::Ask(Query::Date("January 1, 2020".to_string())));
    let edits = merge_page(&blocks, &cx(), &facts(&[("January 1, 2020", Some(1577836800))])).unwrap();
    assert_eq!(edits.len(), 3);
    assert!(matches!(edits[0], DocEdit::Remove { block: 1 }));
    match &edits[1] {
        DocEdit::Rename { block, name } => {
            assert_eq!(*block, 0);
            assert_eq!(name, &format!("Article history{NL}"));
        },
        other => panic!("unexpected edit {other:?}"),
    }
    match &edits[2] {
        DocEdit::SetParams { block, params } => {
            assert_eq!(*block, 0);
            assert_eq!(
                pairs(params),
                vec![kv("otddate", "January 1, 2020"), kv("otdoldid", &format!("12345{NL}"))]
            );
        },
        other => panic!("unexpected edit {other:?}"),
    }
}

#[test]
fn on_this_day_record_in_aggregate() {
    let f = facts(&[("January 1, 2020", Some(1577836800))]);
    let v = OtdExtractor.extract(&vec![p("date1", "January 1, 2020"), p("oldid1", "12345")], &f).unwrap();
    let mut ah = ArticleHistory::empty();
    OtdExtractor.merge_value_into(&cx(), v, &mut ah).unwrap();
    assert_eq!(ah.otds.len(), 1);
    assert_eq!(ah.otds[0].date.orig, "January 1, 2020");
    assert_eq!(ah.otds[0].date.instant, 1577836800);
    assert_eq!(ah.otds[0].oldid.as_deref(), Some("12345"));
    assert_eq!(ah.otds[0].link, None);
}

#[test]
fn unknown_parameter_aborts_page() {
    let blocks = vec![
        block("Template:Article history", vec![]),
        block("Template:GA", vec![p("date", "5 May 2010"), p("page", "1"), p("colour", "red")]),
    ];
    let r = merge_page(&blocks, &cx(), &facts(&[("5 May 2010", Some(1273017600))]));
    assert_eq!(r.unwrap_err(), Halt::Fail(HistoryError::UnrecognizedParameter("colour".to_string())));
}

#[test]
fn bot_exclusion_stops_page() {
    let blocks = vec![
        block("Template:Article history", vec![]),
        block("Template:On this day", vec![p("date1", "January 1, 2020"), p("oldid1", "12345")]),
        block("Template:Bots", vec![p("deny", "SomeBot,DeadbeefBot")]),
    ];
    let r = merge_page(&blocks, &cx(), &facts(&[("January 1, 2020", Some(1577836800))]));
    assert_eq!(r.unwrap_err(), Halt::Fail(HistoryError::BotExcluded));
    let blocks = vec![block("Template:Nobots", vec![]), block("Template:Article history", vec![])];
    assert_eq!(merge_page(&blocks, &cx(), &Lookups::new()).unwrap_err(), Halt::Fail(HistoryError::BotExcluded));
}

#[test]
fn nobots_conventions() {
    assert!(check_nobots(&block("Template:NOBOTS", vec![])));
    assert!(check_nobots(&block("Template:Bots", vec![p("allow", "none")])));
    assert!(check_nobots(&block("Template:Bots", vec![p("optout", "all")])));
    assert!(check_nobots(&block("Template:Bots", vec![p("deny", "all")])));
    assert!(!check_nobots(&block("Template:Bots", vec![p("deny", "OtherBot")])));
    assert!(!check_nobots(&block("Template:Bots", vec![p("allow", "all")])));
    assert!(!check_nobots(&block("Template:Talk header", vec![])));
}

#[test]
fn new_aggregate_goes_before_anchor() {
    let blocks = vec![
        block("Template:Talk header", vec![]),
        block("Template:WikiProject banner shell", vec![]),
        block("Template:DYK talk", vec![p("1", "5 May"), p("2", "2011"), p("entry", "... that x?")]),
    ];
    let edits = merge_page(&blocks, &cx(), &facts(&[("5 May 2011", Some(1304553600))])).unwrap();
    assert_eq!(edits.len(), 3);
    assert!(matches!(edits[0], DocEdit::Remove { block: 2 }));
    match &edits[1] {
        DocEdit::InsertBefore { block, name, params } => {
            assert_eq!(*block, 1);
            assert_eq!(name, &format!("Article history{NL}"));
            assert_eq!(
                pairs(params),
                vec![kv("dykdate", "5 May 2011"), kv("dykentry", &format!("... that x?{NL}"))]
            );
        },
        other => panic!("unexpected edit {other:?}"),
    }
    match &edits[2] {
        DocEdit::InsertBefore { block, name, params } => {
            assert_eq!(*block, 1);
            assert_eq!(name, "subst:User:0xDeadbeef/newline");
            assert!(params.is_empty());
        },
        other => panic!("unexpected edit {other:?}"),
    }
}

#[test]
fn no_anchor_and_ambiguous_aggregate() {
    let blocks = vec![block("Template:Talk header", vec![])];
    assert_eq!(merge_page(&blocks, &cx(), &Lookups::new()).unwrap_err(), Halt::Fail(HistoryError::NoAnchor));
    let blocks = vec![block("Template:Article history", vec![]), block("Template:ArticleHistory", vec![])];
    assert_eq!(
        merge_page(&blocks, &cx(), &Lookups::new()).unwrap_err(),
        Halt::Fail(HistoryError::AmbiguousTemplateInstance)
    );
}

#[test]
fn good_article_merge_and_topic_conflict() {
    let blocks = vec![
        block("Template:Article history", vec![p("topic", "History")]),
        block("Template:GA", vec![p("1", "5 May 2010"), p("page", "2"), p("topic", "history"), p("oldid", "42")]),
    ];
    let edits = merge_page(&blocks, &cx(), &facts(&[("5 May 2010", Some(1273017600))])).unwrap();
    match &edits[2] {
        DocEdit::SetParams { params, .. } => {
            assert_eq!(
                pairs(params),
                vec![
                    kv("action1", &format!("GAN{NL}")),
                    kv("action1date", &format!("5 May 2010{NL}")),
                    kv("action1link", &format!("Talk:Example/GA2{NL}")),
                    kv("action1result", &format!("listed{NL}")),
                    kv("action1oldid", &format!("42{NL}{NL}")),
                    kv("currentstatus", &format!("GA{NL}")),
                    kv("topic", &format!("history{NL}")),
                ]
            );
        },
        other => panic!("unexpected edit {other:?}"),
    }
    let blocks = vec![
        block("Template:Article history", vec![p("topic", "History")]),
        block("Template:FailedGA", vec![p("date", "5 May 2010"), p("page", "1"), p("subtopic", "Geography")]),
    ];
    let r = merge_page(&blocks, &cx(), &facts(&[("5 May 2010", Some(1273017600))]));
    assert_eq!(r.unwrap_err(), Halt::Fail(HistoryError::TopicConflict));
}

#[test]
fn nomination_needs_page_and_single_date() {
    let f = facts(&[("5 May 2010", Some(1273017600))]);
    let blocks = vec![block("Template:Article history", vec![]), block("Template:GA", vec![p("date", "5 May 2010")])];
    assert_eq!(
        merge_page(&blocks, &cx(), &f).unwrap_err(),
        Halt::Fail(HistoryError::MissingRequiredField("page".to_string()))
    );
    let blocks = vec![
        block("Template:Article history", vec![]),
        block("Template:GA", vec![p("date", "5 May 2010"), p("1", "5 May 2010"), p("page", "1")]),
    ];
    assert_eq!(
        merge_page(&blocks, &cx(), &f).unwrap_err(),
        Halt::Fail(HistoryError::DuplicateParameter("1".to_string()))
    );
}

#[test]
fn rejected_date_fails_page() {
    let blocks = vec![
        block("Template:Article history", vec![]),
        block("Template:On this day", vec![p("date1", "someday"), p("oldid1", "1")]),
    ];
    assert_eq!(
        merge_page(&blocks, &cx(), &facts(&[("someday", None)])).unwrap_err(),
        Halt::Fail(HistoryError::DateParse("someday".to_string()))
    );
}

#[test]
fn aggregate_decoding_rules() {
    let f = facts(&[("1 May 2001", Some(988675200)), ("2 June 2002", Some(1022976000))]);
    let ps = vec![
        p("action1", "gan"),
        p("action1date", "1 May 2001"),
        p("action1result", "listed"),
        p("action2", "FAC"),
        p("action2date", "2 June 2002"),
        p("action2result", "failed"),
        p("currentstatus", "GA"),
        p("dykdate", "2 June 2002"),
        p("dyk2date", "1 May 2001"),
        p("dyk2ignoreerror", "yes"),
        p("ftname", "Topic"),
        p("four", "yes"),
        p("collapse", " "),
    ];
    let h = ArticleHistoryExtractor.extract(&ps, &f).unwrap();
    assert_eq!(h.actions.len(), 2);
    assert_eq!(h.actions[1].kind, articlehistory::ActionKind::Fac);
    assert_eq!(h.dyks.len(), 2);
    assert_eq!(h.dyks[0].date.orig, "2 June 2002");
    assert!(h.dyks[1].ignoreerror);
    assert!(h.four);
    assert!(!h.collapse);
    assert_eq!(h.featured_topics[0].name, "Topic");
    assert!(!h.featured_topics[0].main);
    assert_eq!(h.currentstatus.as_deref(), Some("GA"));

    let gap = vec![p("action1", "gan"), p("action1date", "1 May 2001"), p("action3", "gan")];
    assert_eq!(
        ArticleHistoryExtractor.extract(&gap, &f).unwrap_err(),
        Halt::Fail(HistoryError::UnrecognizedParameter("action3".to_string()))
    );
    let missing = vec![p("action1", "gan"), p("action1result", "listed")];
    assert_eq!(
        ArticleHistoryExtractor.extract(&missing, &f).unwrap_err(),
        Halt::Fail(HistoryError::MissingRequiredField("action1date".to_string()))
    );
    let unknown_kind = vec![p("action1", "xyz"), p("action1date", "1 May 2001")];
    assert_eq!(
        ArticleHistoryExtractor.extract(&unknown_kind, &f).unwrap_err(),
        Halt::Fail(HistoryError::UnknownActionKind("xyz".to_string()))
    );
    let dup = vec![p("topic", "a"), p("topic", "b")];
    assert_eq!(
        ArticleHistoryExtractor.extract(&dup, &f).unwrap_err(),
        Halt::Fail(HistoryError::DuplicateParameter("topic".to_string()))
    );
    let stray = vec![p("action1foo", "x")];
    assert_eq!(
        ArticleHistoryExtractor.extract(&stray, &f).unwrap_err(),
        Halt::Fail(HistoryError::UnrecognizedParameter("action1foo".to_string()))
    );
}

#[test]
fn merge_is_a_fixed_point_without_secondary_blocks() {
    let f = facts(&[("1 May 2001", Some(988675200))]);
    let ps = vec![p("action1", "GAN"), p("action1date", "1 May 2001"), p("action1result", "listed"), p("currentstatus", "GA")];
    let blocks = vec![block("Template:Article history", ps)];
    let edits = merge_page(&blocks, &cx(), &f).unwrap();
    let out = match &edits[1] {
        DocEdit::SetParams { params, .. } => params.clone(),
        other => panic!("unexpected edit {other:?}"),
    };
    let plain: Vec<Param> = out
        .iter()
        .map(|q| p(&q.key.replace(NUL, ""), &q.value.replace(NL, "")))
        .collect();
    let again = merge_page(&vec![block("Template:Article history", plain)], &cx(), &f).unwrap();
    match &again[1] {
        DocEdit::SetParams { params, .. } => assert_eq!(pairs(params), pairs(&out)),
        other => panic!("unexpected edit {other:?}"),
    }
}

#[test]
fn blank_lines_around_removed_block() {
    assert_eq!(collapse_newlines(Some("\n\n"), Some("\n")), (Some("\n".to_string()), Some(String::new())));
    assert_eq!(collapse_newlines(Some("\n"), Some("\n\n")), (None, Some(String::new())));
    assert_eq!(collapse_newlines(None, Some("\n\n\n")), (None, Some("\n".to_string())));
    assert_eq!(collapse_newlines(Some("text\n"), Some("\n")), (None, None));
    assert_eq!(collapse_newlines(Some(""), Some("\n\n")), (None, Some("\n".to_string())));
}

#[test]
fn failed_nomination_and_lenient_extract() {
    let f = facts(&[("5 May 2010", Some(1273017600))]);
    let blocks = vec![
        block("Template:Article history", vec![]),
        block("Template:Failed GA", vec![p("date", "5 May 2010"), p("page", "1")]),
    ];
    let edits = merge_page(&blocks, &cx(), &f).unwrap();
    match &edits[2] {
        DocEdit::SetParams { params, .. } => {
            assert_eq!(params[2].value, format!("Talk:Example/GA1{NL}"));
            assert_eq!(params[3].value, format!("failed{NL}{NL}"));
            assert_eq!(params[4].value, format!("FGAN{NL}"));
        },
        other => panic!("unexpected edit {other:?}"),
    }
    assert!(extract_info(&vec![p("bogus", "1")], &f).unwrap().is_none());
    assert!(extract_info(&vec![p("topic", "x")], &f).unwrap().is_some());
    assert_eq!(
        extract_info(&vec![p("maindate", "tomorrow")], &f).unwrap_err(),
        Halt::Ask(Query::Date("tomorrow".to_string()))
    );
}

#[test]
fn record_numbers_count_by_value() {
    let f = facts(&[("1 May 2001", Some(988675200)), ("2 June 2002", Some(1022976000))]);
    let dup = vec![p("action1", "GAN"), p("action01", "FAC"), p("action1date", "1 May 2001")];
    assert_eq!(
        ArticleHistoryExtractor.extract(&dup, &f).unwrap_err(),
        Halt::Fail(HistoryError::DuplicateParameter("action01".to_string()))
    );
    let zeros = vec![p("action01", "gan"), p("action001date", "1 May 2001"), p("action1result", "listed")];
    let h = ArticleHistoryExtractor.extract(&zeros, &f).unwrap();
    assert_eq!(h.actions.len(), 1);
    assert_eq!(h.actions[0].date.orig, "1 May 2001");
    assert_eq!(h.actions[0].result.as_deref(), Some("listed"));
    let bare_and_one = vec![p("dykdate", "1 May 2001"), p("dyk1date", "2 June 2002")];
    assert_eq!(
        ArticleHistoryExtractor.extract(&bare_and_one, &f).unwrap_err(),
        Halt::Fail(HistoryError::DuplicateParameter("dyk1date".to_string()))
    );
    let one = vec![p("otd1date", "1 May 2001"), p("otd2date", "2 June 2002")];
    let h = ArticleHistoryExtractor.extract(&one, &f).unwrap();
    assert_eq!(h.otds.len(), 2);
    let bare_action = vec![p("actiondate", "1 May 2001")];
    assert_eq!(
        ArticleHistoryExtractor.extract(&bare_action, &f).unwrap_err(),
        Halt::Fail(HistoryError::UnrecognizedParameter("actiondate".to_string()))
    );
    let huge = vec![p("action99999999999999999999999999", "GAN")];
    assert_eq!(
        ArticleHistoryExtractor.extract(&huge, &f).unwrap_err(),
        Halt::Fail(HistoryError::UnrecognizedParameter("action99999999999999999999999999".to_string()))
    );
}
