//! The file a workspace is saved to: the stored form of each page.

use vstd::prelude::*;
use crate::page_get::{ArchivePageGet, GetEntry};
use crate::page_put::{ArchivePagePut, PutEntry};
use crate::page_session::ArchivePageSession;
use crate::page_sub::ArchivePageSub;

verus! {

/// The stored form of every page.
pub struct ArchiveApp {
    pub page_session: ArchivePageSession,
    pub page_sub: ArchivePageSub,
    pub page_put: ArchivePagePut,
    pub page_get: ArchivePageGet,
}

/// What a workspace file stores of each page.
pub type AppEntries = (Seq<(Seq<char>, Seq<char>)>, Seq<(Seq<char>, Seq<char>)>, Seq<PutEntry>, Seq<GetEntry>);

impl ArchiveApp {
    /// What is stored of each page: the session files, subscriptions, puts
    /// and queries.
    pub open spec fn entries(&self) -> AppEntries {
        (self.page_session.entries(), self.page_sub.entries(), self.page_put.entries(), self.page_get.entries())
    }
}

impl Default for ArchiveApp {
    fn default() -> (a: ArchiveApp)
        ensures
            a.page_session.config_files@.len() == 0,
            a.page_sub.subs@.len() == 0,
            a.page_put.puts@.len() == 0,
            a.page_get.gets@.len() == 0,
    {
        ArchiveApp {
            page_session: ArchivePageSession::default(),
            page_sub: ArchivePageSub::default(),
            page_put: ArchivePagePut::default(),
            page_get: ArchivePageGet::default(),
        }
    }
}

} // verus!
