//! What the platform's application-information tool reports of running
//! applications.

use vstd::prelude::*;

verus! {

/// A running application.
#[derive(Debug, Clone, PartialEq, Eq)]
pub struct AppInfo {
    pub pid: i32,
    pub bundle_id: String,
    pub name: String,
}

/// An application over plain values.
pub struct AppInfoView {
    pub pid: i32,
    pub bundle_id: Seq<char>,
    pub name: Seq<char>,
}

impl View for AppInfo {
    type V = AppInfoView;

    open spec fn view(&self) -> AppInfoView {
        AppInfoView { pid: self.pid, bundle_id: self.bundle_id@, name: self.name@ }
    }
}

/// The view of an optional application.
pub open spec fn opt_app_view(o: Option<AppInfo>) -> Option<AppInfoView> {
    match o {
        Some(a) => Some(a@),
        None => None,
    }
}

} // verus!
