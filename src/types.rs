//! The canonical aggregate and the records it holds.
use vstd::prelude::*;
use crate::kind::ActionKind;
use crate::text::opt_view;

verus! {

/// A date that keeps the text it was written as.
///
/// `instant` (seconds since the epoch) orders dates; `orig` is what is written
/// back, never a reformatted date.
#[derive(Clone, Debug)]
pub struct PreserveDate {
    pub instant: i64,
    pub orig: String,
}

/// One dated historical event.
#[derive(Clone, Debug)]
pub struct Action {
    pub kind: ActionKind,
    pub date: PreserveDate,
    pub link: Option<String>,
    pub result: Option<String>,
    pub oldid: Option<String>,
}

/// A "did you know" appearance.
#[derive(Clone, Debug)]
pub struct Dyk {
    pub date: PreserveDate,
    pub entry: Option<String>,
    pub nom: Option<String>,
    pub ignoreerror: bool,
}

/// An "in the news" appearance.
#[derive(Clone, Debug)]
pub struct Itn {
    pub date: PreserveDate,
    pub link: Option<String>,
}

/// An "on this day" appearance.
#[derive(Clone, Debug)]
pub struct Otd {
    pub date: PreserveDate,
    pub oldid: Option<String>,
    pub link: Option<String>,
}

/// Membership of a featured topic.
#[derive(Clone, Debug)]
pub struct FeaturedTopic {
    pub name: String,
    pub main: bool,
}

/// The canonical aggregate of one page's history.
#[derive(Clone, Debug)]
pub struct ArticleHistory {
    pub actions: Vec<Action>,
    pub currentstatus: Option<String>,
    pub maindate: Option<PreserveDate>,
    pub maindate2: Option<PreserveDate>,
    pub itns: Vec<Itn>,
    pub dyks: Vec<Dyk>,
    pub otds: Vec<Otd>,
    pub four: bool,
    pub featured_topics: Vec<FeaturedTopic>,
    pub topic: Option<String>,
    pub collapse: bool,
    pub small: bool,
}

/// The view of a date: its instant and its text.
pub struct DateModel {
    pub instant: i64,
    pub text: Seq<char>,
}

pub struct ActionModel {
    pub kind: ActionKind,
    pub date: DateModel,
    pub link: Option<Seq<char>>,
    pub result: Option<Seq<char>>,
    pub oldid: Option<Seq<char>>,
}

pub struct DykModel {
    pub date: DateModel,
    pub entry: Option<Seq<char>>,
    pub nom: Option<Seq<char>>,
    pub ignoreerror: bool,
}

pub struct ItnModel {
    pub date: DateModel,
    pub link: Option<Seq<char>>,
}

pub struct OtdModel {
    pub date: DateModel,
    pub oldid: Option<Seq<char>>,
    pub link: Option<Seq<char>>,
}

pub struct TopicModel {
    pub name: Seq<char>,
    pub main: bool,
}

/// The view of the aggregate, over sequences.
pub struct HistoryModel {
    pub actions: Seq<ActionModel>,
    pub currentstatus: Option<Seq<char>>,
    pub maindate: Option<DateModel>,
    pub maindate2: Option<DateModel>,
    pub itns: Seq<ItnModel>,
    pub dyks: Seq<DykModel>,
    pub otds: Seq<OtdModel>,
    pub four: bool,
    pub featured_topics: Seq<TopicModel>,
    pub topic: Option<Seq<char>>,
    pub collapse: bool,
    pub small: bool,
}

pub open spec fn action_models(s: Seq<Action>) -> Seq<ActionModel> {
    s.map_values(|a: Action| a@)
}

pub open spec fn itn_models(s: Seq<Itn>) -> Seq<ItnModel> {
    s.map_values(|a: Itn| a@)
}

pub open spec fn dyk_models(s: Seq<Dyk>) -> Seq<DykModel> {
    s.map_values(|a: Dyk| a@)
}

pub open spec fn otd_models(s: Seq<Otd>) -> Seq<OtdModel> {
    s.map_values(|a: Otd| a@)
}

pub open spec fn topic_models(s: Seq<FeaturedTopic>) -> Seq<TopicModel> {
    s.map_values(|a: FeaturedTopic| a@)
}

pub open spec fn opt_date(o: Option<PreserveDate>) -> Option<DateModel> {
    match o {
        Some(d) => Some(d@),
        None => None,
    }
}

impl View for PreserveDate {
    type V = DateModel;

    open spec fn view(&self) -> DateModel {
        DateModel { instant: self.instant, text: self.orig@ }
    }
}

impl View for Action {
    type V = ActionModel;

    open spec fn view(&self) -> ActionModel {
        ActionModel {
            kind: self.kind,
            date: self.date@,
            link: opt_view(self.link),
            result: opt_view(self.result),
            oldid: opt_view(self.oldid),
        }
    }
}

impl View for Dyk {
    type V = DykModel;

    open spec fn view(&self) -> DykModel {
        DykModel {
            date: self.date@,
            entry: opt_view(self.entry),
            nom: opt_view(self.nom),
            ignoreerror: self.ignoreerror,
        }
    }
}

impl View for Itn {
    type V = ItnModel;

    open spec fn view(&self) -> ItnModel {
        ItnModel { date: self.date@, link: opt_view(self.link) }
    }
}

impl View for Otd {
    type V = OtdModel;

    open spec fn view(&self) -> OtdModel {
        OtdModel { date: self.date@, oldid: opt_view(self.oldid), link: opt_view(self.link) }
    }
}

impl View for FeaturedTopic {
    type V = TopicModel;

    open spec fn view(&self) -> TopicModel {
        TopicModel { name: self.name@, main: self.main }
    }
}

impl View for ArticleHistory {
    type V = HistoryModel;

    open spec fn view(&self) -> HistoryModel {
        HistoryModel {
            actions: action_models(self.actions@),
            currentstatus: opt_view(self.currentstatus),
            maindate: opt_date(self.maindate),
            maindate2: opt_date(self.maindate2),
            itns: itn_models(self.itns@),
            dyks: dyk_models(self.dyks@),
            otds: otd_models(self.otds@),
            four: self.four,
            featured_topics: topic_models(self.featured_topics@),
            topic: opt_view(self.topic),
            collapse: self.collapse,
            small: self.small,
        }
    }
}


/// The model with an action appended and the topic set.
pub open spec fn with_action(m: HistoryModel, topic: Option<Seq<char>>, a: ActionModel) -> HistoryModel {
    HistoryModel {
        actions: m.actions.push(a),
        currentstatus: m.currentstatus,
        maindate: m.maindate,
        maindate2: m.maindate2,
        itns: m.itns,
        dyks: m.dyks,
        otds: m.otds,
        four: m.four,
        featured_topics: m.featured_topics,
        topic: topic,
        collapse: m.collapse,
        small: m.small,
    }
}

/// The model with a "did you know" record appended.
pub open spec fn with_dyk(m: HistoryModel, d: DykModel) -> HistoryModel {
    HistoryModel {
        actions: m.actions,
        currentstatus: m.currentstatus,
        maindate: m.maindate,
        maindate2: m.maindate2,
        itns: m.itns,
        dyks: m.dyks.push(d),
        otds: m.otds,
        four: m.four,
        featured_topics: m.featured_topics,
        topic: m.topic,
        collapse: m.collapse,
        small: m.small,
    }
}

/// The model with "on this day" records appended.
pub open spec fn with_otds(m: HistoryModel, o: Seq<OtdModel>) -> HistoryModel {
    HistoryModel {
        actions: m.actions,
        currentstatus: m.currentstatus,
        maindate: m.maindate,
        maindate2: m.maindate2,
        itns: m.itns,
        dyks: m.dyks,
        otds: m.otds + o,
        four: m.four,
        featured_topics: m.featured_topics,
        topic: m.topic,
        collapse: m.collapse,
        small: m.small,
    }
}

/// The model with "in the news" records appended.
pub open spec fn with_itns(m: HistoryModel, o: Seq<ItnModel>) -> HistoryModel {
    HistoryModel {
        actions: m.actions,
        currentstatus: m.currentstatus,
        maindate: m.maindate,
        maindate2: m.maindate2,
        itns: m.itns + o,
        dyks: m.dyks,
        otds: m.otds,
        four: m.four,
        featured_topics: m.featured_topics,
        topic: m.topic,
        collapse: m.collapse,
        small: m.small,
    }
}

impl PreserveDate {
    pub fn duplicate(&self) -> (r: PreserveDate)
        ensures
            r == *self,
    {
        PreserveDate { instant: self.instant, orig: self.orig.clone() }
    }
}

impl ArticleHistory {
    /// An aggregate with nothing in it.
    pub fn empty() -> (r: ArticleHistory)
        ensures
            r.actions@.len() == 0,
            r.currentstatus is None,
            r.maindate is None,
            r.maindate2 is None,
            r.itns@.len() == 0,
            r.dyks@.len() == 0,
            r.otds@.len() == 0,
            !r.four,
            r.featured_topics@.len() == 0,
            r.topic is None,
            !r.collapse,
            !r.small,
    {
        ArticleHistory {
            actions: Vec::new(),
            currentstatus: None,
            maindate: None,
            maindate2: None,
            itns: Vec::new(),
            dyks: Vec::new(),
            otds: Vec::new(),
            four: false,
            featured_topics: Vec::new(),
            topic: None,
            collapse: false,
            small: false,
        }
    }
}

} // verus!
