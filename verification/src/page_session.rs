//! The session page: named configuration files, the one the session was
//! opened with, and the requests to open or close the session.

use vstd::prelude::*;
use std::collections::VecDeque;
use crate::id_list::{IdList, lemma_wf_after_update};
use crate::outside::{file_stem, json5_parse, json5_pretty_text, json5_reading, path_file_stem};
use crate::text::opt_str_view;

verus! {

/// What the session page asks of the session: to open it with a
/// configuration file, given by its id and path, or to close it.
pub enum Event {
    Connect(Box<(u64, String)>),
    Disconnect,
}

/// A configuration file as a file stores it.
pub struct ArchiveConfigFileData {
    pub name: String,
    pub path: String,
}

/// The configuration files of the page as a file stores them, in list
/// order.
pub struct ArchivePageSession {
    pub config_files: Vec<ArchiveConfigFileData>,
}

impl ArchivePageSession {
    /// The name and path of each stored file, in list order.
    pub open spec fn entries(&self) -> Seq<(Seq<char>, Seq<char>)> {
        archive_file_entries(self.config_files@)
    }
}

/// The name and path of each stored file of `files`.
pub open spec fn archive_file_entries(files: Seq<ArchiveConfigFileData>) -> Seq<(Seq<char>, Seq<char>)> {
    Seq::new(files.len(), |i: int| (files[i].name@, files[i].path@))
}

impl Default for ArchivePageSession {
    fn default() -> (a: ArchivePageSession)
        ensures
            a.config_files@.len() == 0,
    {
        ArchivePageSession { config_files: Vec::new() }
    }
}

impl Default for ArchiveConfigFileData {
    fn default() -> (a: ArchiveConfigFileData)
        ensures
            a.name@.len() == 0,
            a.path@.len() == 0,
    {
        ArchiveConfigFileData { name: String::new(), path: String::new() }
    }
}

/// The tab of a configuration file shown: its text, its pretty-printed
/// JSON, or its JSON tree.
#[derive(Copy, Clone, Debug, PartialEq, Eq, Structural)]
pub enum FilePage {
    Source,
    Format,
    Tree,
}

/// The message when a configuration file could not be read.
pub open spec fn load_failed_text() -> Seq<char> {
    "failed to load config file"@
}

/// One configuration file: its id, name and path, the error of the last
/// action on it, the tab shown, and its text, pretty-printed JSON and
/// JSON value once loaded.
pub struct ConfigFileData {
    pub id: u64,
    pub name: String,
    pub path: Option<String>,
    pub path_str: String,
    pub err_str: Option<String>,
    pub selected_page: FilePage,
    pub source: String,
    pub format: String,
    pub serde_json_value: Option<serde_json::Value>,
}

impl ConfigFileData {
    /// A file with this name and path, not loaded yet.
    pub fn new(name: String, path: String) -> (c: ConfigFileData)
        ensures
            c.id == 0,
            c.name == name,
            c.path == Some(path),
            c.path_str@.len() == 0,
            c.err_str is None,
            c.selected_page == FilePage::Source,
            c.source@.len() == 0,
            c.format@.len() == 0,
            c.serde_json_value is None,
    {
        ConfigFileData {
            id: 0,
            name,
            path: Some(path),
            path_str: String::new(),
            err_str: None,
            selected_page: FilePage::Source,
            source: String::new(),
            format: String::new(),
            serde_json_value: None,
        }
    }

    /// What a file stores: the name, and the path or nothing.
    pub open spec fn entry(&self) -> (Seq<char>, Seq<char>) {
        (self.name@, match self.path {
            Some(p) => p@,
            None => Seq::empty(),
        })
    }

    /// The stored form of the file.
    pub fn to_archive(&self) -> (a: ArchiveConfigFileData)
        ensures
            (a.name@, a.path@) == self.entry(),
    {
        let path = match &self.path {
            None => String::new(),
            Some(o) => o.clone(),
        };
        ArchiveConfigFileData { name: self.name.clone(), path }
    }

    /// A file from its stored form, not loaded yet; the stored path is
    /// taken as the path even when it is empty. This never fails.
    pub fn from_archive(value: ArchiveConfigFileData) -> (r: Result<ConfigFileData, String>)
        ensures
            r matches Ok(c) && c.id == 0 && c.name == value.name && c.path == Some(value.path) && c.err_str is None
                && c.source@.len() == 0 && c.format@.len() == 0 && c.serde_json_value is None,
    {
        Ok(ConfigFileData::new(value.name, value.path))
    }

    /// Reads the file's text: `read` is what reading the file gave. The
    /// text must be JSON5; then it is kept with its pretty-printed form,
    /// otherwise the error says that the file could not be loaded.
    pub fn load_from_file(&mut self, read: Result<String, String>)
        ensures
            final(self).id == old(self).id,
            final(self).name == old(self).name,
            final(self).path == old(self).path,
            final(self).path_str == old(self).path_str,
            final(self).selected_page == old(self).selected_page,
            match read {
                Ok(text) => if json5_reading(text@) is Ok {
                    &&& final(self).err_str is None
                    &&& final(self).source == text
                    &&& final(self).format@ == json5_pretty_text(text@)
                    &&& final(self).serde_json_value is Some
                } else {
                    &&& final(self).err_str matches Some(e) && e@ == load_failed_text()
                    &&& final(self).source@.len() == 0
                    &&& final(self).format@.len() == 0
                    &&& final(self).serde_json_value is None
                },
                Err(_) => {
                    &&& final(self).err_str matches Some(e) && e@ == load_failed_text()
                    &&& final(self).source@.len() == 0
                    &&& final(self).format@.len() == 0
                    &&& final(self).serde_json_value is None
                },
            },
    {
        self.source = String::new();
        self.format = String::new();
        self.serde_json_value = None;
        self.err_str = None;
        let source = match read {
            Ok(o) => o,
            Err(_) => {
                self.err_str = Some("failed to load config file".to_owned());
                return;
            },
        };
        let (value, format) = match json5_parse(source.as_str()) {
            Ok(o) => o,
            Err(_) => {
                self.err_str = Some("failed to load config file".to_owned());
                return;
            },
        };
        self.format = format;
        self.source = source;
        self.serde_json_value = Some(value);
    }

    /// The path shown follows the path of the file, when there is one.
    pub fn sync_path_str(&mut self)
        ensures
            final(self).path_str@ == (match old(self).path {
                Some(p) => p@,
                None => old(self).path_str@,
            }),
            *final(self) == (ConfigFileData { path_str: final(self).path_str, ..*old(self) }),
    {
        if let Some(p) = &self.path {
            self.path_str = p.clone();
        }
    }

    /// The tabs of the file.
    pub fn select_page(&mut self, page: FilePage)
        ensures
            *final(self) == (ConfigFileData { selected_page: page, ..*old(self) }),
    {
        self.selected_page = page;
    }
}

/// The configuration files once the session reported whether it opened:
/// the error of the file it opened with is cleared, or that of the file it
/// failed with is set.
pub open spec fn connect_answered(m: Map<u64, ConfigFileData>, r: Result<u64, (u64, String)>) -> Map<u64, ConfigFileData> {
    match r {
        Ok(id) => if m.contains_key(id) {
            m.insert(id, ConfigFileData { err_str: None, ..m[id] })
        } else {
            m
        },
        Err((id, s)) => if m.contains_key(id) {
            m.insert(id, ConfigFileData { err_str: Some(s), ..m[id] })
        } else {
            m
        },
    }
}

/// The session page.
pub struct PageSession {
    pub events: VecDeque<Event>,
    pub connected_config_file_id: Option<u64>,
    pub config_files: IdList<ConfigFileData>,
}

impl PageSession {
    /// Each file is listed once under its own id.
    pub open spec fn wf(&self) -> bool {
        &&& self.config_files.wf()
        &&& forall|id: u64| #[trigger] self.config_files.map().contains_key(id) ==> self.config_files.map()[id].id == id
    }

    /// What a file stores of the page, in list order.
    pub open spec fn archive(&self) -> Seq<(Seq<char>, Seq<char>)> {
        Seq::new(self.config_files.values().len(), |i: int| self.config_files.values()[i].entry())
    }

    /// The selected file, if there is one.
    pub open spec fn selected(&self) -> Option<ConfigFileData> {
        if self.config_files.map().contains_key(self.config_files.selected_id) {
            Some(self.config_files.map()[self.config_files.selected_id])
        } else {
            None
        }
    }

    /// The page changed only in the file `id`, which now is `c`.
    pub open spec fn changed_file(&self, old: PageSession, id: u64, c: ConfigFileData) -> bool {
        &&& self.events@ == old.events@
        &&& self.connected_config_file_id == old.connected_config_file_id
        &&& self.config_files.ids() == old.config_files.ids()
        &&& self.config_files.id_count == old.config_files.id_count
        &&& self.config_files.selected_id == old.config_files.selected_id
        &&& self.config_files.map() == old.config_files.map().insert(id, c)
    }

    /// Adds a file under the next id, lists it last and selects it.
    pub fn add_config_file(&mut self, config_file_data: ConfigFileData)
        requires
            old(self).wf(),
            old(self).config_files.id_count < u64::MAX,
        ensures
            final(self).wf(),
            final(self).events@ == old(self).events@,
            final(self).connected_config_file_id == old(self).connected_config_file_id,
            final(self).config_files.id_count == old(self).config_files.id_count + 1,
            final(self).config_files.selected_id == final(self).config_files.id_count,
            final(self).config_files.ids() == old(self).config_files.ids().push(final(self).config_files.id_count),
            final(self).config_files.map() == old(self).config_files.map().insert(final(self).config_files.id_count,
                ConfigFileData { id: final(self).config_files.id_count, ..config_file_data }),
            final(self).archive() == old(self).archive().push(config_file_data.entry()),
    {
        let mut data = config_file_data;
        data.id = self.config_files.id_count + 1;
        let id = self.config_files.add(data);
        proof {
            assert forall|id2: u64| #[trigger] self.config_files.map().contains_key(id2) implies self.config_files.map()[id2].id == id2 by {
                if id2 != id {
                    assert(old(self).config_files.map().contains_key(id2));
                }
            }
            assert(self.archive() =~= old(self).archive().push(config_file_data.entry()));
        }
    }

    /// A file picked in the file dialog, at `path`: it is named after the
    /// last part of its path without extension, or "new file".
    pub fn add_config_file_from_path(&mut self, path: String)
        requires
            old(self).wf(),
            old(self).config_files.id_count < u64::MAX,
        ensures
            final(self).wf(),
            final(self).config_files.ids() == old(self).config_files.ids().push(final(self).config_files.id_count),
            final(self).archive() == old(self).archive().push((
                match path_file_stem(path@) {
                    Some(s) => s,
                    None => "new file"@,
                },
                path@)),
    {
        let name = match file_stem(path.as_str()) {
            None => "new file".to_owned(),
            Some(o) => o,
        };
        self.add_config_file(ConfigFileData::new(name, path));
    }

    /// The "-" button: removes the selected file, unless fewer than two
    /// are left or the session was opened with it.
    pub fn del_config_file(&mut self)
        requires
            old(self).wf(),
        ensures
            final(self).wf(),
            final(self).events@ == old(self).events@,
            final(self).connected_config_file_id == old(self).connected_config_file_id,
            final(self).config_files.id_count == old(self).config_files.id_count,
            final(self).config_files.selected_id == old(self).config_files.selected_id,
            ({
                let id = old(self).config_files.selected_id;
                if old(self).config_files.map().len() >= 2 && old(self).connected_config_file_id != Some(id)
                    && old(self).config_files.map().contains_key(id) {
                    &&& final(self).config_files.map() == old(self).config_files.map().remove(id)
                    &&& final(self).config_files.ids() == old(self).config_files.ids().remove(old(self).config_files.ids().index_of(id))
                } else {
                    &&& final(self).config_files.map() == old(self).config_files.map()
                    &&& final(self).config_files.ids() == old(self).config_files.ids()
                }
            }),
    {
        if self.config_files.len() < 2 {
            proof {
                self.config_files.lemma_len();
            }
            return;
        }
        let remove_id = self.config_files.selected_id;
        if let Some(id) = self.connected_config_file_id {
            if id == remove_id {
                return;
            }
        }
        proof {
            self.config_files.lemma_len();
        }
        self.config_files.del(remove_id);
        proof {
            assert forall|id2: u64| #[trigger] self.config_files.map().contains_key(id2) implies self.config_files.map()[id2].id == id2 by {
                assert(old(self).config_files.map().contains_key(id2));
            }
        }
    }

    /// Drops every file; the ids already handed out stay used.
    pub fn clean_all_config_file_data(&mut self)
        requires
            old(self).wf(),
        ensures
            final(self).wf(),
            final(self).events@ == old(self).events@,
            final(self).connected_config_file_id == old(self).connected_config_file_id,
            final(self).config_files.id_count == old(self).config_files.id_count,
            final(self).config_files.selected_id == 0,
            final(self).config_files.ids() == Seq::<u64>::empty(),
            final(self).archive() == Seq::<(Seq<char>, Seq<char>)>::empty(),
    {
        self.config_files.clear();
        assert(self.archive() =~= Seq::<(Seq<char>, Seq<char>)>::empty());
    }

    /// The stored form of the page.
    pub fn to_archive(&self) -> (a: ArchivePageSession)
        requires
            self.wf(),
        ensures
            a.entries() == self.archive(),
    {
        let refs = self.config_files.value_refs();
        let mut config_files: Vec<ArchiveConfigFileData> = Vec::new();
        let mut i: usize = 0;
        while i < refs.len()
            invariant
                i <= refs@.len(),
                refs@.len() == self.config_files.values().len(),
                forall|j: int| 0 <= j < refs@.len() ==> *refs@[j] == self.config_files.values()[j],
                config_files@.len() == i,
                forall|j: int| 0 <= j < i ==> ((#[trigger] config_files@[j]).name@, config_files@[j].path@)
                    == self.config_files.values()[j].entry(),
            decreases refs@.len() - i,
        {
            config_files.push(refs[i].to_archive());
            i += 1;
        }
        let a = ArchivePageSession { config_files };
        assert(a.entries() =~= self.archive());
        a
    }

    /// Replaces every file by those of `archive`, in its order, under new
    /// ids; this never fails.
    pub fn load(&mut self, archive: ArchivePageSession) -> (r: Result<(), String>)
        requires
            old(self).wf(),
            old(self).config_files.id_count + archive.config_files@.len() < u64::MAX,
        ensures
            r is Ok,
            final(self).wf(),
            final(self).events@ == old(self).events@,
            final(self).connected_config_file_id == old(self).connected_config_file_id,
            final(self).archive() == archive.entries(),
            final(self).config_files.id_count == old(self).config_files.id_count + archive.config_files@.len(),
            final(self).config_files.ids() == Seq::new(archive.config_files@.len(),
                |j: int| (old(self).config_files.id_count + 1 + j) as u64),
            final(self).config_files.selected_id == (if archive.config_files@.len() == 0 { 0 } else { final(self).config_files.id_count }),
            forall|id: u64| #[trigger] final(self).config_files.map().contains_key(id) ==>
                final(self).config_files.map()[id].path is Some,
    {
        let ghost entries = archive.entries();
        let ghost files0 = archive.config_files@;
        let mut data: Vec<ConfigFileData> = Vec::new();
        for d in it: archive.config_files.into_iter()
            invariant
                it.seq() == files0,
                data@.len() == it.index(),
                forall|j: int| 0 <= j < data@.len() ==> (#[trigger] data@[j]).entry() == (files0[j].name@, files0[j].path@)
                    && data@[j].path is Some,
        {
            let config_file_data = match ConfigFileData::from_archive(d) {
                Ok(o) => o,
                Err(e) => {
                    return Err(e);
                },
            };
            data.push(config_file_data);
        }
        let ghost base = self.config_files.id_count;
        self.clean_all_config_file_data();
        let ghost all = data@;
        for d in it: data.into_iter()
            invariant
                it.seq() == all,
                all.len() == files0.len(),
                entries == archive_file_entries(files0),
                forall|j: int| 0 <= j < all.len() ==> (#[trigger] all[j]).entry() == (files0[j].name@, files0[j].path@)
                    && all[j].path is Some,
                base + files0.len() < u64::MAX,
                self.wf(),
                self.config_files.id_count == base + it.index(),
                self.config_files.ids() == Seq::new(it.index() as nat, |j: int| (base + 1 + j) as u64),
                forall|id: u64| #[trigger] self.config_files.map().contains_key(id) ==> self.config_files.map()[id].path is Some,
                self.archive() == entries.take(it.index() as int),
                self.events@ == old(self).events@,
                self.connected_config_file_id == old(self).connected_config_file_id,
                self.config_files.selected_id == (if it.index() == 0 { 0 } else { self.config_files.id_count }),
        {
            let ghost k = it.index();
            let ghost m0 = self.config_files.map();
            proof {
                assert(all[k] == d);
            }
            self.add_config_file(d);
            proof {
                assert(self.config_files.ids() =~= Seq::new((k + 1) as nat, |j: int| (base + 1 + j) as u64));
                assert forall|id: u64| #[trigger] self.config_files.map().contains_key(id) implies
                    self.config_files.map()[id].path is Some by {
                    if id != self.config_files.id_count {
                        assert(m0.contains_key(id));
                    }
                }
                assert(entries[k] == d.entry());
                assert(entries.take(k + 1) =~= entries.take(k).push(entries[k]));
            }
        }
        assert(entries.take(files0.len() as int) == entries);
        Ok(())
    }

    /// Whether the session is open.
    pub fn connected(&self) -> (b: bool)
        ensures
            b == self.connected_config_file_id is Some,
    {
        self.connected_config_file_id.is_some()
    }

    /// Records the file the session is open with, or that it is closed.
    pub fn set_connected(&mut self, connected_id: Option<u64>)
        ensures
            *final(self) == (PageSession { connected_config_file_id: connected_id, ..*old(self) }),
    {
        self.connected_config_file_id = connected_id;
    }

    /// Records the outcome of opening the session: the file it is open
    /// with, whose error is cleared, or the error on the file it failed
    /// with.
    pub fn set_connect_result(&mut self, r: Result<u64, (u64, String)>)
        requires
            old(self).wf(),
        ensures
            final(self).wf(),
            final(self).events@ == old(self).events@,
            final(self).config_files.ids() == old(self).config_files.ids(),
            final(self).config_files.id_count == old(self).config_files.id_count,
            final(self).config_files.selected_id == old(self).config_files.selected_id,
            final(self).archive() == old(self).archive(),
            final(self).connected_config_file_id == (match r {
                Ok(id) => Some(id),
                Err(_) => None::<u64>,
            }),
            final(self).config_files.map() == connect_answered(old(self).config_files.map(), r),
    {
        let ghost l0 = self.config_files;
        let ghost target: u64 = match r {
            Ok(id) => id,
            Err((id, _)) => id,
        };
        match r {
            Ok(id) => {
                self.connected_config_file_id = Some(id);
                if let Some(cf) = self.config_files.get_mut(id) {
                    cf.err_str = None;
                }
            },
            Err((id, s)) => {
                self.connected_config_file_id = None;
                if let Some(cf) = self.config_files.get_mut(id) {
                    cf.err_str = Some(s);
                }
            },
        }
        proof {
            if l0.map().contains_key(target) {
                lemma_wf_after_update(l0, self.config_files, target, self.config_files.map()[target]);
                assert forall|id2: u64| #[trigger] self.config_files.map().contains_key(id2) implies self.config_files.map()[id2].id == id2 by {
                    assert(l0.map().contains_key(id2));
                }
                assert(self.archive() =~= old(self).archive());
            }
        }
    }

    /// The "open session" / "close session" button of the selected file.
    /// While the session is open with that file it asks to close it; while
    /// it is open with another file the button does nothing; while it is
    /// closed it asks to open it with the file's path, or notes that the
    /// file has no path.
    pub fn session_button(&mut self)
        requires
            old(self).wf(),
        ensures
            final(self).wf(),
            final(self).archive() == old(self).archive(),
            final(self).connected_config_file_id == old(self).connected_config_file_id,
            final(self).config_files.ids() == old(self).config_files.ids(),
            final(self).config_files.id_count == old(self).config_files.id_count,
            final(self).config_files.selected_id == old(self).config_files.selected_id,
            ({
                let id = old(self).config_files.selected_id;
                match old(self).selected() {
                    None => final(self).events@ == old(self).events@ && final(self).config_files.map() == old(self).config_files.map(),
                    Some(c) => match old(self).connected_config_file_id {
                        Some(cid) => {
                            &&& final(self).config_files.map() == old(self).config_files.map()
                            &&& if cid == id {
                                final(self).events@ == old(self).events@.push(Event::Disconnect)
                            } else {
                                final(self).events@ == old(self).events@
                            }
                        },
                        None => match c.path {
                            Some(p) => {
                                &&& final(self).config_files.map() == old(self).config_files.map().insert(id,
                                    ConfigFileData { err_str: None, ..c })
                                &&& final(self).events@.len() == old(self).events@.len() + 1
                                &&& final(self).events@.drop_last() == old(self).events@
                                &&& final(self).events@.last() matches Event::Connect(b) && b.0 == id && b.1 == p
                            },
                            None => {
                                &&& final(self).events@ == old(self).events@
                                &&& final(self).config_files.map()[id].err_str matches Some(e) && e@ == "no file path"@
                                &&& final(self).config_files.map() == old(self).config_files.map().insert(id,
                                    ConfigFileData { err_str: final(self).config_files.map()[id].err_str, ..c })
                            },
                        },
                    },
                }
            }),
    {
        let id = self.config_files.selected_id;
        let ghost l0 = self.config_files;
        let connected = self.connected_config_file_id;
        if let Some(cf) = self.config_files.get_mut(id) {
            match connected {
                Some(cid) => {
                    if cid == cf.id {
                        self.events.push_back(Event::Disconnect);
                    }
                },
                None => {
                    cf.err_str = None;
                    match &cf.path {
                        Some(p) => {
                            let event = Event::Connect(Box::new((cf.id, p.clone())));
                            self.events.push_back(event);
                        },
                        None => {
                            cf.err_str = Some("no file path".to_owned());
                        },
                    }
                },
            }
        }
        proof {
            if l0.map().contains_key(id) {
                lemma_wf_after_update(l0, self.config_files, id, self.config_files.map()[id]);
                assert forall|id2: u64| #[trigger] self.config_files.map().contains_key(id2) implies self.config_files.map()[id2].id == id2 by {
                    assert(l0.map().contains_key(id2));
                }
                assert(self.archive() =~= old(self).archive());
                if connected is Some {
                    assert(self.config_files.map() =~= l0.map());
                }
            }
        }
    }

    /// The "load" button of the selected file, which does nothing while
    /// the session is open with that file; `read` is what reading the
    /// file's text at its path gave. A file with no path is noted as such.
    pub fn load_selected(&mut self, read: Result<String, String>)
        requires
            old(self).wf(),
        ensures
            final(self).wf(),
            final(self).events@ == old(self).events@,
            final(self).archive() == old(self).archive(),
            final(self).connected_config_file_id == old(self).connected_config_file_id,
            final(self).config_files.ids() == old(self).config_files.ids(),
            final(self).config_files.selected_id == old(self).config_files.selected_id,
            ({
                let id = old(self).config_files.selected_id;
                match old(self).selected() {
                    None => final(self).config_files.map() == old(self).config_files.map(),
                    Some(c) => if old(self).connected_config_file_id == Some(id) {
                        final(self).config_files.map() == old(self).config_files.map()
                    } else if c.path is None {
                        final(self).config_files.map()[id].err_str matches Some(e) && e@ == "no file path"@
                    } else {
                        match read {
                            Ok(text) => if json5_reading(text@) is Ok {
                                final(self).config_files.map()[id].err_str is None
                                    && final(self).config_files.map()[id].source == text
                                    && final(self).config_files.map()[id].format@ == json5_pretty_text(text@)
                            } else {
                                final(self).config_files.map()[id].err_str matches Some(e) && e@ == load_failed_text()
                            },
                            Err(_) => final(self).config_files.map()[id].err_str matches Some(e) && e@ == load_failed_text(),
                        }
                    },
                }
            }),
    {
        let id = self.config_files.selected_id;
        let ghost l0 = self.config_files;
        if self.connected_config_file_id == Some(id) {
            return;
        }
        if let Some(cf) = self.config_files.get_mut(id) {
            cf.err_str = None;
            if cf.path.is_some() {
                cf.load_from_file(read);
            } else {
                cf.err_str = Some("no file path".to_owned());
            }
        }
        proof {
            if l0.map().contains_key(id) {
                lemma_wf_after_update(l0, self.config_files, id, self.config_files.map()[id]);
                assert forall|id2: u64| #[trigger] self.config_files.map().contains_key(id2) implies self.config_files.map()[id2].id == id2 by {
                    assert(l0.map().contains_key(id2));
                }
                assert(self.archive() =~= old(self).archive());
            }
        }
    }
}

impl Default for PageSession {
    fn default() -> (p: PageSession)
        ensures
            p.wf(),
            p.events@.len() == 0,
            p.connected_config_file_id is None,
            p.config_files.id_count == 0,
            p.config_files.selected_id == 0,
            p.config_files.ids() == Seq::<u64>::empty(),
            p.archive() == Seq::<(Seq<char>, Seq<char>)>::empty(),
    {
        let p = PageSession { events: VecDeque::new(), connected_config_file_id: None, config_files: IdList::new(0) };
        assert(p.archive() =~= Seq::<(Seq<char>, Seq<char>)>::empty());
        p
    }
}

} // verus!
