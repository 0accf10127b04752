//! Published works and incidents: one record per message of the upstream
//! feed, optionally tied to an affected station of the schedule.
use vstd::prelude::*;

verus! {

use vstd::string::StringExecFns;
use crate::stop::{DelayMapStop, DelayMapStopModel};

/// One link published with a works record.
#[derive(Debug)]
pub struct DelayMapURL {
    pub url: String,
    pub label: String,
}

/// Abstract value of a `DelayMapURL`.
#[verifier::ext_equal]
pub struct UrlModel {
    pub url: Seq<char>,
    pub label: Seq<char>,
}

impl View for DelayMapURL {
    type V = UrlModel;

    open spec fn view(&self) -> UrlModel {
        UrlModel { url: self.url@, label: self.label@ }
    }
}

impl DeepView for DelayMapURL {
    type V = UrlModel;

    open spec fn deep_view(&self) -> UrlModel {
        self.view()
    }
}

impl Clone for DelayMapURL {
    fn clone(&self) -> (r: DelayMapURL)
        ensures
            r@ == self@,
    {
        DelayMapURL { url: self.url.clone(), label: self.label.clone() }
    }
}

/// One published incident or works message: identity, caption, body,
/// the affected station when it could be resolved, its publication
/// window, and its links.
#[derive(Debug, Clone)]
pub struct DelayMapWorks {
    pub id: String,
    pub name: String,
    pub message: String,
    pub impacted_station: Option<DelayMapStop>,
    pub start_date: String,
    pub end_date: String,
    pub start_time: String,
    pub end_time: String,
    pub urls: Vec<DelayMapURL>,
}

/// Abstract value of a `DelayMapWorks`.
#[verifier::ext_equal]
pub struct WorksModel {
    pub id: Seq<char>,
    pub name: Seq<char>,
    pub message: Seq<char>,
    pub impacted_station: Option<DelayMapStopModel>,
    pub start_date: Seq<char>,
    pub end_date: Seq<char>,
    pub start_time: Seq<char>,
    pub end_time: Seq<char>,
    pub urls: Seq<UrlModel>,
}

impl View for DelayMapWorks {
    type V = WorksModel;

    open spec fn view(&self) -> WorksModel {
        WorksModel {
            id: self.id@,
            name: self.name@,
            message: self.message@,
            impacted_station: self.impacted_station.deep_view(),
            start_date: self.start_date@,
            end_date: self.end_date@,
            start_time: self.start_time@,
            end_time: self.end_time@,
            urls: self.urls.deep_view(),
        }
    }
}

impl DeepView for DelayMapWorks {
    type V = WorksModel;

    open spec fn deep_view(&self) -> WorksModel {
        self.view()
    }
}

/// The record every parse starts from: placeholder texts, no station,
/// no links.
pub open spec fn empty_works() -> WorksModel {
    WorksModel {
        id: "Unknown id"@,
        name: "Unknown name"@,
        message: "No message given"@,
        impacted_station: None,
        start_date: "Unknown start date"@,
        end_date: "Unknown end date"@,
        start_time: "Unknown start time"@,
        end_time: "Unknown end time"@,
        urls: Seq::empty(),
    }
}

impl DelayMapWorks {
    /// A record with every field at its placeholder.
    pub fn empty() -> (r: DelayMapWorks)
        ensures
            r@ == empty_works(),
    {
        let r = DelayMapWorks {
            id: String::from_str("Unknown id"),
            name: String::from_str("Unknown name"),
            message: String::from_str("No message given"),
            impacted_station: None,
            start_date: String::from_str("Unknown start date"),
            end_date: String::from_str("Unknown end date"),
            start_time: String::from_str("Unknown start time"),
            end_time: String::from_str("Unknown end time"),
            urls: Vec::new(),
        };
        proof {
            assert(r.urls.deep_view() =~= Seq::<UrlModel>::empty());
        }
        r
    }
}

} // verus!
