//! What the library answers with.
use crate::version::CyreneVersion;
use vstd::prelude::*;

verus! {

/// One version of one app.
#[derive(Debug, PartialEq, Eq)]
pub struct CyreneAppItem {
    pub name: String,
    pub version: String,
}

impl DeepView for CyreneAppItem {
    type V = (Seq<char>, Seq<char>);

    open spec fn deep_view(&self) -> (Seq<char>, Seq<char>) {
        (self.name@, self.version@)
    }
}

/// One version of one app, the version read.
pub struct CyreneAppVersions {
    pub name: String,
    pub version: CyreneVersion,
}

impl CyreneAppVersions {
    /// Reads the version of an item.
    pub fn from_item(item: &CyreneAppItem) -> (r: Self)
        ensures
            r.name@ == item.name@,
            r.version.wf(),
            r.version.spec_text() == item.version@,
    {
        CyreneAppVersions {
            name: item.name.clone(),
            version: CyreneVersion::parse(item.version.as_str()),
        }
    }
}

} // verus!
