use articlehistory::{Action, ActionKind, ArticleHistory, HistoryError, PreserveDate, StatusToken};

fn date(ts: i64, text: &str) -> PreserveDate {
    PreserveDate { instant: ts, orig: text.to_string() }
}

fn action(kind: ActionKind, ts: i64, result: Option<&str>) -> Action {
    Action {
        kind,
        date: date(ts, &format!("day {ts}")),
        link: None,
        result: result.map(|r| r.to_string()),
        oldid: None,
    }
}

fn history(actions: Vec<Action>, status: Option<&str>) -> ArticleHistory {
    let mut h = ArticleHistory::empty();
    h.actions = actions;
    h.currentstatus = status.map(|s| s.to_string());
    h
}

#[test]
fn kind_codes_round_trip() {
    assert_eq!(ActionKind::Fproc.as_str(), "FPROC");
    assert_eq!(ActionKind::Drv.as_str(), "DRV");
    assert_eq!(ActionKind::parse("fac"), Some(ActionKind::Fac));
    assert_eq!(ActionKind::parse("GaR"), Some(ActionKind::Gar));
    assert_eq!(ActionKind::parse("prod"), Some(ActionKind::Prod));
    assert_eq!(ActionKind::parse("xyz"), None);
    assert_eq!(ActionKind::parse(""), None);
}

#[test]
fn rule_table_examples() {
    assert_eq!(action(ActionKind::Fac, 1, Some("Promoted")).opt_to_current_status(), Ok(Some(StatusToken::Fa)));
    assert_eq!(action(ActionKind::Fac, 1, Some("not promoted")).opt_to_current_status(), Ok(Some(StatusToken::Ffac)));
    assert_eq!(action(ActionKind::Far, 1, Some("REMOVED")).opt_to_current_status(), Ok(Some(StatusToken::Ffa)));
    assert_eq!(action(ActionKind::Gan, 1, Some("listed")).opt_to_current_status(), Ok(Some(StatusToken::Ga)));
    assert_eq!(action(ActionKind::Gan, 1, Some("not listed")).opt_to_current_status(), Ok(Some(StatusToken::Fgan)));
    assert_eq!(action(ActionKind::Gar, 1, Some("delisted")).opt_to_current_status(), Ok(Some(StatusToken::Dga)));
    assert_eq!(action(ActionKind::Flr, 1, Some("keep")).opt_to_current_status(), Ok(Some(StatusToken::Fl)));
    assert_eq!(action(ActionKind::Fpor, 1, Some("demoted")).opt_to_current_status(), Ok(Some(StatusToken::Ffpo)));
    assert_eq!(action(ActionKind::Pr, 1, Some("anything")).opt_to_current_status(), Ok(None));
    assert_eq!(action(ActionKind::Afd, 1, None).opt_to_current_status(), Ok(None));
}

#[test]
fn unknown_result_is_refused() {
    assert_eq!(action(ActionKind::Fac, 1, Some("maybe")).opt_to_current_status(), Err(HistoryError::UnknownActionResult));
    assert_eq!(action(ActionKind::Gan, 1, None).opt_to_current_status(), Err(HistoryError::UnknownActionResult));
    assert_eq!(action(ActionKind::Rbp, 1, Some("pass")).opt_to_current_status(), Err(HistoryError::UnknownActionResult));
    let mut h = history(vec![action(ActionKind::Gar, 5, Some("unsure"))], None);
    assert_eq!(h.sort_and_update_status(), Err(HistoryError::UnknownActionResult));
    assert_eq!(h.currentstatus, None);
}

#[test]
fn declared_ga_against_ffa_is_a_mismatch() {
    let mut h = history(
        vec![action(ActionKind::Fac, 10, Some("promoted")), action(ActionKind::Far, 20, Some("demoted"))],
        Some("GA"),
    );
    assert_eq!(h.sort_and_update_status(), Err(HistoryError::StatusMismatch));
    assert_eq!(h.currentstatus.as_deref(), Some("GA"));
}

#[test]
fn failed_candidacy_over_ga_is_allowed() {
    let mut h = history(
        vec![action(ActionKind::Gan, 10, Some("listed")), action(ActionKind::Fac, 20, Some("not promoted"))],
        None,
    );
    assert_eq!(h.sort_and_update_status(), Ok(()));
    assert_eq!(h.currentstatus.as_deref(), Some("FFAC/GA"));
}

#[test]
fn former_fa_supersedes_older_ga() {
    let mut h = history(
        vec![
            action(ActionKind::Gan, 10, Some("listed")),
            action(ActionKind::Fac, 20, Some("promoted")),
            action(ActionKind::Far, 30, Some("removed")),
        ],
        None,
    );
    assert_eq!(h.sort_and_update_status(), Ok(()));
    assert_eq!(h.currentstatus.as_deref(), Some("FFA"));
}

#[test]
fn ga_over_former_fa_is_ambiguous() {
    let mut h = history(
        vec![action(ActionKind::Far, 10, Some("removed")), action(ActionKind::Gan, 30, Some("listed"))],
        None,
    );
    assert_eq!(h.sort_and_update_status(), Err(HistoryError::AmbiguousStatus));
}

#[test]
fn failed_nomination_over_former_fa_is_ambiguous() {
    let mut h = history(
        vec![action(ActionKind::Far, 10, Some("removed")), action(ActionKind::Gan, 30, Some("failed"))],
        None,
    );
    assert_eq!(h.sort_and_update_status(), Err(HistoryError::AmbiguousStatus));
}

#[test]
fn declared_component_of_multi_status_is_accepted() {
    for declared in ["GA", "FFAC", "FFAC/GA"] {
        let mut h = history(
            vec![action(ActionKind::Gan, 10, Some("listed")), action(ActionKind::Fac, 30, Some("failed"))],
            Some(declared),
        );
        assert_eq!(h.sort_and_update_status(), Ok(()));
        assert_eq!(h.currentstatus.as_deref(), Some("FFAC/GA"));
    }
    for declared in ["A", "FAC", "GA/FFAC"] {
        let mut h = history(
            vec![action(ActionKind::Gan, 10, Some("listed")), action(ActionKind::Fac, 30, Some("failed"))],
            Some(declared),
        );
        assert_eq!(h.sort_and_update_status(), Err(HistoryError::StatusMismatch));
    }
}

#[test]
fn actions_are_sorted_stably_by_date() {
    let mut h = history(
        vec![
            action(ActionKind::Pr, 30, None),
            action(ActionKind::Gan, 10, Some("listed")),
            action(ActionKind::Afd, 30, None),
            action(ActionKind::Gar, 20, Some("kept")),
        ],
        None,
    );
    assert_eq!(h.sort_and_update_status(), Ok(()));
    let kinds: Vec<ActionKind> = h.actions.iter().map(|a| a.kind).collect();
    assert_eq!(kinds, vec![ActionKind::Gan, ActionKind::Gar, ActionKind::Pr, ActionKind::Afd]);
    assert_eq!(h.currentstatus.as_deref(), Some("GA"));
}

#[test]
fn order_of_input_does_not_matter() {
    let a = vec![
        action(ActionKind::Gan, 10, Some("listed")),
        action(ActionKind::Gar, 20, Some("delisted")),
        action(ActionKind::Fac, 30, Some("failed")),
    ];
    let b = vec![
        action(ActionKind::Fac, 30, Some("failed")),
        action(ActionKind::Gan, 10, Some("listed")),
        action(ActionKind::Gar, 20, Some("delisted")),
    ];
    let mut ha = history(a, None);
    let mut hb = history(b, None);
    assert_eq!(ha.sort_and_update_status(), Err(HistoryError::AmbiguousStatus));
    assert_eq!(hb.sort_and_update_status(), Err(HistoryError::AmbiguousStatus));
    let mut hc = history(vec![action(ActionKind::Gar, 20, Some("delisted")), action(ActionKind::Gan, 10, Some("listed"))], None);
    let mut hd = history(vec![action(ActionKind::Gan, 10, Some("listed")), action(ActionKind::Gar, 20, Some("delisted"))], None);
    assert_eq!(hc.sort_and_update_status(), Ok(()));
    assert_eq!(hd.sort_and_update_status(), Ok(()));
    assert_eq!(hc.currentstatus, hd.currentstatus);
    assert_eq!(hc.currentstatus.as_deref(), Some("DGA"));
}

#[test]
fn no_status_actions_leave_status_unset() {
    let mut h = history(vec![action(ActionKind::Pr, 10, None)], None);
    assert_eq!(h.sort_and_update_status(), Ok(()));
    assert_eq!(h.currentstatus, None);
    let mut h = history(vec![], None);
    assert_eq!(h.sort_and_update_status(), Ok(()));
    assert_eq!(h.currentstatus, None);
    let mut h = history(vec![action(ActionKind::Pr, 10, None)], Some("GA"));
    assert_eq!(h.sort_and_update_status(), Err(HistoryError::StatusMismatch));
}

#[test]
fn resolution_is_idempotent() {
    let mut h = history(
        vec![action(ActionKind::Fac, 30, Some("failed")), action(ActionKind::Gan, 10, Some("listed"))],
        None,
    );
    assert_eq!(h.sort_and_update_status(), Ok(()));
    let first = h.currentstatus.clone();
    assert_eq!(h.sort_and_update_status(), Ok(()));
    assert_eq!(h.currentstatus, first);
    assert_eq!(h.actions[0].date.instant, 10);
}

#[test]
fn same_date_same_token_actions_in_any_order() {
    let a = vec![
        action(ActionKind::Gan, 10, Some("listed")),
        action(ActionKind::Pr, 20, None),
        action(ActionKind::Afd, 20, Some("keep")),
        action(ActionKind::Fac, 30, Some("failed")),
    ];
    let b = vec![
        action(ActionKind::Afd, 20, Some("keep")),
        action(ActionKind::Fac, 30, Some("failed")),
        action(ActionKind::Pr, 20, None),
        action(ActionKind::Gan, 10, Some("listed")),
    ];
    let mut ha = history(a, None);
    let mut hb = history(b, None);
    assert_eq!(ha.sort_and_update_status(), Ok(()));
    assert_eq!(hb.sort_and_update_status(), Ok(()));
    assert_eq!(ha.currentstatus, hb.currentstatus);
    assert_eq!(ha.currentstatus.as_deref(), Some("FFAC/GA"));
}
