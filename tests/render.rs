use articlehistory::{Action, ActionKind, ArticleHistory, Dyk, FeaturedTopic, Itn, Otd, Param, ParamBuilder, PreserveDate};

const NL: &str = "{{subst:User:0xDeadbeef/newline}}";
const NUL: &str = "{{subst:null}}";

fn date(ts: i64, text: &str) -> PreserveDate {
    PreserveDate { instant: ts, orig: text.to_string() }
}

fn pairs(ps: &[Param]) -> Vec<(String, String)> {
    ps.iter().map(|p| (p.key.clone(), p.value.clone())).collect()
}

fn kv(k: &str, v: &str) -> (String, String) {
    (format!("{k}{NUL}"), v.to_string())
}

#[test]
fn builder_marks_keys_and_lines() {
    let mut b = ParamBuilder::new();
    b.add("a", "1");
    b.addnl("b", "2");
    b.add_opt("c", &None);
    b.addnl_opt("d", &Some("4".to_string()));
    b.add_flag("e", false);
    b.addnl_flag("f", true);
    b.add_flag("g", true);
    b.newline();
    assert_eq!(
        pairs(&b.params),
        vec![kv("a", "1"), kv("b", &format!("2{NL}")), kv("d", &format!("4{NL}")), kv("f", &format!("yes{NL}")), kv("g", &format!("yes{NL}"))]
    );
}

#[test]
fn aggregate_renders_in_fixed_order() {
    let mut h = ArticleHistory::empty();
    h.actions.push(Action {
        kind: ActionKind::Gan,
        date: date(20, "2 March 2010"),
        link: Some("Talk:X/GA1".to_string()),
        result: Some("listed".to_string()),
        oldid: None,
    });
    h.actions.push(Action { kind: ActionKind::Pr, date: date(10, "1 March 2010"), link: None, result: None, oldid: Some("7".to_string()) });
    h.dyks.push(Dyk { date: date(30, "5 May 2011"), entry: None, nom: Some("N".to_string()), ignoreerror: true });
    h.dyks.push(Dyk { date: date(40, "6 May 2011"), entry: None, nom: None, ignoreerror: false });
    h.itns.push(Itn { date: date(50, "7 May 2012"), link: None });
    h.otds.push(Otd { date: date(60, "8 May 2013"), oldid: Some("99".to_string()), link: None });
    h.featured_topics.push(FeaturedTopic { name: "Topic".to_string(), main: true });
    h.topic = Some("history".to_string());
    h.four = true;
    h.small = true;
    let ps = h.into_template().unwrap();
    assert_eq!(
        pairs(&ps),
        vec![
            kv("action1", &format!("PR{NL}")),
            kv("action1date", &format!("1 March 2010{NL}")),
            kv("action1oldid", &format!("7{NL}{NL}")),
            kv("action2", &format!("GAN{NL}")),
            kv("action2date", &format!("2 March 2010{NL}")),
            kv("action2link", &format!("Talk:X/GA1{NL}")),
            kv("action2result", &format!("listed{NL}{NL}")),
            kv("currentstatus", &format!("GA{NL}")),
            kv("itndate", &format!("7 May 2012{NL}")),
            kv("dykdate", "5 May 2011"),
            kv("dyknom", "N"),
            kv("dykignoreerror", &format!("yes{NL}")),
            kv("dyk2date", &format!("6 May 2011{NL}")),
            kv("otddate", "8 May 2013"),
            kv("otdoldid", &format!("99{NL}")),
            kv("four", &format!("yes{NL}")),
            kv("ftname", &format!("Topic{NL}")),
            kv("ftmain", &format!("yes{NL}")),
            kv("topic", &format!("history{NL}")),
            kv("small", &format!("yes{NL}")),
        ]
    );
}

#[test]
fn dates_are_written_verbatim() {
    let mut h = ArticleHistory::empty();
    h.maindate = Some(date(5, "  the 3rd of June, 2008 "));
    h.actions.push(Action { kind: ActionKind::Afd, date: date(1, "2008-06-03T10:00Z"), link: None, result: None, oldid: None });
    let ps = h.to_params();
    assert_eq!(ps[1].value, format!("2008-06-03T10:00Z{NL}{NL}"));
    assert_eq!(ps[2].value, format!("  the 3rd of June, 2008 {NL}"));
}

#[test]
fn numbered_keys_use_bare_first_record() {
    assert_eq!(articlehistory::builder::numbered("dyk", 1, true, "date"), "dykdate");
    assert_eq!(articlehistory::builder::numbered("dyk", 12, true, "date"), "dyk12date");
    assert_eq!(articlehistory::builder::numbered("action", 1, false, ""), "action1");
    assert_eq!(articlehistory::text::to_decimal(1203), "1203");
    assert_eq!(articlehistory::text::to_decimal(0), "0");
}
