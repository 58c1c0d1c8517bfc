//! The state of the front end and what each action of the user does to it.
//!
//! The front end draws the state and reports what was clicked as an
//! [`Event`]; [`AppState::update`] changes the state and answers with the
//! [`Action`] that the front end has to carry out.

use crate::arc::{Archive, Record};
use crate::util::{
    after_add, after_delete, after_edit, after_toggle, Entry, EntryView, ManagerView,
    PasswordManager,
};
use vstd::prelude::*;
use vstd::string::StringExecFns;

verus! {

/// What the front end holds between two frames.
pub struct AppState {
    pub username_input: String,
    pub service_input: String,
    pub password_input: String,
    pub password_manager: PasswordManager,
    pub file_path: String,
    pub passphrase: String,
    pub editing_entry_id: Option<u32>,
}

/// What an [`AppState`] holds, as mathematical values.
pub struct AppStateView {
    pub username_input: Seq<char>,
    pub service_input: Seq<char>,
    pub password_input: Seq<char>,
    pub password_manager: ManagerView,
    pub file_path: Seq<char>,
    pub passphrase: Seq<char>,
    pub editing_entry_id: Option<u32>,
}

impl View for AppState {
    type V = AppStateView;

    open spec fn view(&self) -> AppStateView {
        AppStateView {
            username_input: self.username_input@,
            service_input: self.service_input@,
            password_input: self.password_input@,
            password_manager: self.password_manager@,
            file_path: self.file_path@,
            passphrase: self.passphrase@,
            editing_entry_id: self.editing_entry_id,
        }
    }
}

/// What the user did in a frame.
pub enum Event {
    /// The button below the inputs was clicked: it adds an entry, or saves
    /// the changes to the entry that is being edited.
    Submit,
    /// The visibility button of the entry with this identifier was clicked.
    Toggle(u32),
    /// The clipboard button of this entry, as it was drawn, was clicked.
    Copy(Entry),
    /// The edit button of this entry, as it was drawn, was clicked.
    Edit(Entry),
    /// The delete button of the entry with this identifier was clicked.
    Delete(u32),
}

/// What an [`Event`] holds, as mathematical values.
pub enum EventView {
    Submit,
    Toggle(u32),
    Copy(EntryView),
    Edit(EntryView),
    Delete(u32),
}

impl View for Event {
    type V = EventView;

    open spec fn view(&self) -> EventView {
        match self {
            Event::Submit => EventView::Submit,
            Event::Toggle(id) => EventView::Toggle(*id),
            Event::Copy(e) => EventView::Copy(e@),
            Event::Edit(e) => EventView::Edit(e@),
            Event::Delete(id) => EventView::Delete(*id),
        }
    }
}

/// What the front end has to do after an event.
pub enum Action {
    /// Nothing.
    Nothing,
    /// Write the entries to the file.
    Save,
    /// Put this text on the clipboard.
    Copy(String),
}

/// What an [`Action`] holds, as mathematical values.
pub enum ActionView {
    Nothing,
    Save,
    Copy(Seq<char>),
}

impl View for Action {
    type V = ActionView;

    open spec fn view(&self) -> ActionView {
        match self {
            Action::Nothing => ActionView::Nothing,
            Action::Save => ActionView::Save,
            Action::Copy(text) => ActionView::Copy(text@),
        }
    }
}

/// The path of the archive below the directory of the user.
pub open spec fn archive_path(user_dir: Seq<char>) -> Seq<char> {
    user_dir + "/arc/passwords.arc"@
}

/// The store that holds `records` after a start: each record gets a new
/// identifier, counted from `first_id` in the order of the archive, and a
/// hidden password. The identifiers in the archive are not used.
pub open spec fn restored(records: Seq<Record>, first_id: u32) -> Seq<EntryView> {
    Seq::new(
        records.len(),
        |i: int|
            EntryView {
                id: (first_id + i) as u32,
                username: records[i].username,
                service: records[i].service,
                password: records[i].password,
                show_password: false,
            },
    )
}

/// The records that are written for the entries of the store: all but the
/// visibility of each entry, in order.
pub open spec fn snapshot(entries: Seq<EntryView>) -> Seq<Record> {
    Seq::new(
        entries.len(),
        |i: int|
            Record {
                id: entries[i].id,
                username: entries[i].username,
                service: entries[i].service,
                password: entries[i].password,
            },
    )
}

/// The state after `event`.
pub open spec fn next_state(s: AppStateView, event: EventView) -> AppStateView {
    match event {
        EventView::Submit => {
            let entries = match s.editing_entry_id {
                Some(id) => after_edit(
                    s.password_manager.entries,
                    id,
                    s.username_input,
                    s.service_input,
                    s.password_input,
                ),
                None => after_add(
                    s.password_manager.entries,
                    s.password_manager.next_id,
                    s.username_input,
                    s.service_input,
                    s.password_input,
                ),
            };
            let next_id = match s.editing_entry_id {
                Some(_) => s.password_manager.next_id,
                None => (s.password_manager.next_id + 1) as u32,
            };
            AppStateView {
                username_input: Seq::empty(),
                service_input: Seq::empty(),
                password_input: Seq::empty(),
                password_manager: ManagerView { entries, next_id },
                editing_entry_id: None,
                ..s
            }
        },
        EventView::Toggle(id) => AppStateView {
            password_manager: ManagerView {
                entries: after_toggle(s.password_manager.entries, id),
                ..s.password_manager
            },
            ..s
        },
        EventView::Copy(_) => s,
        EventView::Edit(e) => AppStateView {
            username_input: e.username,
            service_input: e.service,
            editing_entry_id: Some(e.id),
            ..s
        },
        EventView::Delete(id) => AppStateView {
            password_manager: ManagerView {
                entries: after_delete(s.password_manager.entries, id),
                ..s.password_manager
            },
            ..s
        },
    }
}

/// What the front end has to do after `event`: a change of the stored
/// texts is written to the file, and a password goes to the clipboard only
/// while it is shown.
pub open spec fn action_for(event: EventView) -> ActionView {
    match event {
        EventView::Submit => ActionView::Save,
        EventView::Toggle(_) => ActionView::Nothing,
        EventView::Copy(e) => if e.show_password {
            ActionView::Copy(e.password)
        } else {
            ActionView::Nothing
        },
        EventView::Edit(_) => ActionView::Nothing,
        EventView::Delete(_) => ActionView::Save,
    }
}

impl AppState {
    /// The state at the start. The archive lies below `user_dir`, which is
    /// also the passphrase; `loaded` is the archive that was read from
    /// there, if reading it succeeded.
    pub fn new(user_dir: &str, loaded: Option<Archive>) -> (r: AppState)
        requires
            loaded is Some ==> loaded->Some_0@.len() < u32::MAX,
        ensures
            r@.username_input == Seq::<char>::empty(),
            r@.service_input == Seq::<char>::empty(),
            r@.password_input == Seq::<char>::empty(),
            r@.file_path == archive_path(user_dir@),
            r@.passphrase == user_dir@,
            r@.editing_entry_id is None,
            r@.password_manager.entries == match loaded {
                Some(archive) => restored(archive@, 1),
                None => Seq::<EntryView>::empty(),
            },
            r@.password_manager.next_id == match loaded {
                Some(archive) => 1 + archive@.len(),
                None => 1,
            },
            r@.password_manager.wf(),
    {
        let file_path = String::from_str(user_dir).concat("/arc/passwords.arc");
        let passphrase = String::from_str(user_dir);
        let mut password_manager = PasswordManager::new();
        match loaded {
            Some(archive) => {
                let entries = archive.entries();
                let n: usize = entries.len();
                let mut i: usize = 0;
                while i < n
                    invariant
                        n == entries.len(),
                        n < u32::MAX,
                        i <= n,
                        password_manager@.next_id == 1 + i,
                        password_manager@.wf(),
                        password_manager@.entries == restored(
                            crate::arc::records(entries@).subrange(0, i as int),
                            1,
                        ),
                    decreases n - i,
                {
                    password_manager.add_entry(
                        entries[i].username.clone(),
                        entries[i].service.clone(),
                        entries[i].password.clone(),
                    );
                    i += 1;
                    assert(password_manager@.entries =~= restored(
                        crate::arc::records(entries@).subrange(0, i as int),
                        1,
                    ));
                }
                assert(crate::arc::records(entries@).subrange(0, n as int) =~= archive@);
            },
            None => {},
        }
        AppState {
            username_input: String::new(),
            service_input: String::new(),
            password_input: String::new(),
            password_manager,
            file_path,
            passphrase,
            editing_entry_id: None,
        }
    }

    /// The archive that is written for the present entries.
    pub fn save_entries(&self) -> (archive: Archive)
        ensures
            archive.wf(),
            archive@ == snapshot(self@.password_manager.entries),
    {
        let mut archive = Archive::new();
        let entries = self.password_manager.list_entries();
        let n: usize = entries.len();
        let mut i: usize = 0;
        while i < n
            invariant
                n == entries.len(),
                i <= n,
                archive.wf(),
                crate::util::entry_views(entries@) == self@.password_manager.entries,
                archive@ == snapshot(self@.password_manager.entries.subrange(0, i as int)),
            decreases n - i,
        {
            archive.add_entry(
                crate::arc::Entry {
                    id: entries[i].id,
                    username: entries[i].username.clone(),
                    service: entries[i].service.clone(),
                    password: entries[i].password.clone(),
                },
            );
            assert(crate::util::entry_views(entries@)[i as int] == entries[i as int]@);
            i += 1;
            assert(archive@ =~= snapshot(self@.password_manager.entries.subrange(0, i as int)));
        }
        assert(self@.password_manager.entries.subrange(0, n as int)
            =~= self@.password_manager.entries);
        archive
    }

    /// Changes the state as `event` asks and says what the front end has to
    /// do next.
    pub fn update(&mut self, event: Event) -> (action: Action)
        requires
            event is Submit && old(self).editing_entry_id is None
                ==> old(self).password_manager.next_id < u32::MAX,
        ensures
            final(self)@ == next_state(old(self)@, event@),
            action@ == action_for(event@),
            old(self)@.password_manager.wf() ==> final(self)@.password_manager.wf(),
    {
        match event {
            Event::Submit => {
                let username = self.username_input.clone();
                let service = self.service_input.clone();
                let password = self.password_input.clone();
                match self.editing_entry_id {
                    Some(id) => {
                        self.password_manager.edit_entry(id, username, service, password);
                        self.editing_entry_id = None;
                    },
                    None => {
                        self.password_manager.add_entry(username, service, password);
                    },
                }
                self.username_input = String::new();
                self.service_input = String::new();
                self.password_input = String::new();
                Action::Save
            },
            Event::Toggle(id) => {
                self.password_manager.toggle_show_password(id);
                Action::Nothing
            },
            Event::Copy(entry) => {
                if entry.show_password {
                    Action::Copy(entry.password)
                } else {
                    Action::Nothing
                }
            },
            Event::Edit(entry) => {
                self.username_input = entry.username;
                self.service_input = entry.service;
                self.editing_entry_id = Some(entry.id);
                Action::Nothing
            },
            Event::Delete(id) => {
                self.password_manager.delete_entry(id);
                Action::Save
            },
        }
    }
}

} // verus!
