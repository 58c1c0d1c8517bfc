//! The in-memory credential store: it hands out identifiers and supports
//! adding, editing, deleting and revealing entries.

use vstd::prelude::*;

verus! {

/// One credential held by the store.
#[derive(Debug)]
pub struct Entry {
    pub id: u32,
    pub username: String,
    pub service: String,
    pub password: String,
    pub show_password: bool,
}

/// What an [`Entry`] holds, as mathematical values.
pub struct EntryView {
    pub id: u32,
    pub username: Seq<char>,
    pub service: Seq<char>,
    pub password: Seq<char>,
    pub show_password: bool,
}

impl View for Entry {
    type V = EntryView;

    open spec fn view(&self) -> EntryView {
        EntryView {
            id: self.id,
            username: self.username@,
            service: self.service@,
            password: self.password@,
            show_password: self.show_password,
        }
    }
}

impl Clone for Entry {
    fn clone(&self) -> (r: Self)
        ensures
            r@ == self@,
    {
        Entry {
            id: self.id,
            username: self.username.clone(),
            service: self.service.clone(),
            password: self.password.clone(),
            show_password: self.show_password,
        }
    }
}

/// The views of a sequence of entries, in order.
pub open spec fn entry_views(entries: Seq<Entry>) -> Seq<EntryView> {
    entries.map_values(|e: Entry| e@)
}

/// `i` is the position of the first entry of `entries` whose identifier is `id`.
pub open spec fn is_first_with_id(entries: Seq<EntryView>, id: u32, i: int) -> bool {
    &&& 0 <= i < entries.len()
    &&& entries[i].id == id
    &&& forall|j: int| 0 <= j < i ==> (#[trigger] entries[j]).id != id
}

/// `e` with its password shown if it was hidden, and hidden if it was shown.
pub open spec fn toggled(e: EntryView) -> EntryView {
    EntryView { show_password: !e.show_password, ..e }
}

/// `e` with new texts; the identifier and the visibility stay.
pub open spec fn edited(
    e: EntryView,
    username: Seq<char>,
    service: Seq<char>,
    password: Seq<char>,
) -> EntryView {
    EntryView { username, service, password, ..e }
}

/// The entries after [`PasswordManager::toggle_show_password`]: the first
/// one with the identifier `id`, if there is one, is toggled.
pub open spec fn after_toggle(entries: Seq<EntryView>, id: u32) -> Seq<EntryView> {
    Seq::new(
        entries.len(),
        |i: int|
            if is_first_with_id(entries, id, i) {
                toggled(entries[i])
            } else {
                entries[i]
            },
    )
}

/// The entries after [`PasswordManager::edit_entry`]: the first one with the
/// identifier `id`, if there is one, has the new texts.
pub open spec fn after_edit(
    entries: Seq<EntryView>,
    id: u32,
    username: Seq<char>,
    service: Seq<char>,
    password: Seq<char>,
) -> Seq<EntryView> {
    Seq::new(
        entries.len(),
        |i: int|
            if is_first_with_id(entries, id, i) {
                edited(entries[i], username, service, password)
            } else {
                entries[i]
            },
    )
}

/// The entries after [`PasswordManager::add_entry`]: one more, hidden, with
/// the identifier `id`.
pub open spec fn after_add(
    entries: Seq<EntryView>,
    id: u32,
    username: Seq<char>,
    service: Seq<char>,
    password: Seq<char>,
) -> Seq<EntryView> {
    entries.push(EntryView { id, username, service, password, show_password: false })
}

/// The entries after [`PasswordManager::delete_entry`]: those whose
/// identifier is not `id`, in their order.
pub open spec fn after_delete(entries: Seq<EntryView>, id: u32) -> Seq<EntryView> {
    entries.filter(has_other_id(id))
}

/// The entries that [`PasswordManager::delete_entry`] keeps: those whose
/// identifier is not `id`.
pub open spec fn has_other_id(id: u32) -> spec_fn(EntryView) -> bool {
    |e: EntryView| e.id != id
}

/// The store: its entries in the order they were added, and the identifier
/// that the next entry will get.
pub struct PasswordManager {
    pub entries: Vec<Entry>,
    pub next_id: u32,
}

/// What a [`PasswordManager`] holds, as mathematical values.
pub struct ManagerView {
    pub entries: Seq<EntryView>,
    pub next_id: u32,
}

impl View for PasswordManager {
    type V = ManagerView;

    open spec fn view(&self) -> ManagerView {
        ManagerView { entries: entry_views(self.entries@), next_id: self.next_id }
    }
}

impl ManagerView {
    /// Identifiers grow strictly along the entries and stay below `next_id`,
    /// so no identifier occurs twice and none will be handed out again.
    pub open spec fn wf(self) -> bool {
        &&& forall|i: int, j: int|
            0 <= i < j < self.entries.len() ==> (#[trigger] self.entries[i]).id < (
            #[trigger] self.entries[j]).id
        &&& forall|i: int|
            0 <= i < self.entries.len() ==> (#[trigger] self.entries[i]).id < self.next_id
    }
}

/// A store that keeps its identifiers, in place, keeps its invariant.
proof fn lemma_same_ids_keep_wf(a: ManagerView, b: ManagerView)
    requires
        a.next_id == b.next_id,
        a.entries.len() == b.entries.len(),
        forall|i: int| 0 <= i < a.entries.len() ==> (#[trigger] b.entries[i]).id == a.entries[i].id,
    ensures
        a.wf() ==> b.wf(),
{
    if a.wf() {
        assert forall|i: int, j: int| 0 <= i < j < b.entries.len() implies (
        #[trigger] b.entries[i]).id < (#[trigger] b.entries[j]).id by {
            assert(a.entries[i].id < a.entries[j].id);
        }
        assert forall|i: int| 0 <= i < b.entries.len() implies (#[trigger] b.entries[i]).id
            < b.next_id by {
            assert(a.entries[i].id < a.next_id);
        }
    }
}

/// Filtering one element more either appends it or changes nothing.
proof fn lemma_filter_next(s: Seq<EntryView>, k: int, keep: spec_fn(EntryView) -> bool)
    requires
        0 <= k < s.len(),
    ensures
        s.subrange(0, k + 1).filter(keep) == if keep(s[k]) {
            s.subrange(0, k).filter(keep).push(s[k])
        } else {
            s.subrange(0, k).filter(keep)
        },
{
    reveal(Seq::filter);
    assert(s.subrange(0, k + 1).drop_last() =~= s.subrange(0, k));
}

impl PasswordManager {
    /// An empty store whose first entry will get the identifier 1.
    pub fn new() -> (r: PasswordManager)
        ensures
            r@.entries == Seq::<EntryView>::empty(),
            r@.next_id == 1,
            r@.wf(),
    {
        let r = PasswordManager { entries: Vec::new(), next_id: 1 };
        assert(r@.entries =~= Seq::<EntryView>::empty());
        r
    }

    /// Appends an entry with the next identifier and a hidden password.
    pub fn add_entry(&mut self, username: String, service: String, password: String)
        requires
            old(self).next_id < u32::MAX,
        ensures
            final(self)@.entries == after_add(
                old(self)@.entries,
                old(self)@.next_id,
                username@,
                service@,
                password@,
            ),
            final(self)@.next_id == old(self)@.next_id + 1,
            old(self)@.wf() ==> final(self)@.wf(),
    {
        let entry = Entry { id: self.next_id, username, service, password, show_password: false };
        self.entries.push(entry);
        self.next_id += 1;
        assert(self@.entries =~= old(self)@.entries.push(entry@));
    }

    /// A copy of the entries, in order.
    pub fn list_entries(&self) -> (r: Vec<Entry>)
        ensures
            entry_views(r@) == self@.entries,
    {
        let mut out: Vec<Entry> = Vec::new();
        let n: usize = self.entries.len();
        let mut i: usize = 0;
        while i < n
            invariant
                n == self.entries.len(),
                i <= n,
                out.len() == i,
                forall|k: int| 0 <= k < i ==> (#[trigger] out[k])@ == self.entries[k]@,
            decreases n - i,
        {
            out.push(self.entries[i].clone());
            i += 1;
        }
        assert(entry_views(out@) =~= self@.entries);
        out
    }

    /// The position of the first entry with the identifier `id`, or the
    /// number of entries where there is none.
    fn find(&self, id: u32) -> (i: usize)
        ensures
            i <= self.entries.len(),
            i < self.entries.len() ==> is_first_with_id(self@.entries, id, i as int),
            i == self.entries.len() ==> forall|j: int|
                0 <= j < self@.entries.len() ==> (#[trigger] self@.entries[j]).id != id,
    {
        let n: usize = self.entries.len();
        let mut i: usize = 0;
        while i < n
            invariant
                n == self.entries.len(),
                i <= n,
                forall|j: int| 0 <= j < i ==> (#[trigger] self@.entries[j]).id != id,
            decreases n - i,
        {
            if self.entries[i].id == id {
                return i;
            }
            i += 1;
        }
        n
    }

    /// Shows the password of the first entry with the identifier `id` if it
    /// was hidden, and hides it if it was shown. Without such an entry
    /// nothing changes.
    pub fn toggle_show_password(&mut self, id: u32)
        ensures
            final(self)@.next_id == old(self)@.next_id,
            final(self)@.entries == after_toggle(old(self)@.entries, id),
            old(self)@.wf() ==> final(self)@.wf(),
    {
        let i = self.find(id);
        if i < self.entries.len() {
            let shown = self.entries[i].show_password;
            self.entries[i].show_password = !shown;
        }
        proof {
            assert(self@.entries =~= after_toggle(old(self)@.entries, id));
            lemma_same_ids_keep_wf(old(self)@, self@);
        }
    }

    /// Replaces the three texts of the first entry with the identifier `id`.
    /// Its identifier and visibility stay; without such an entry nothing
    /// changes.
    pub fn edit_entry(&mut self, id: u32, username: String, service: String, password: String)
        ensures
            final(self)@.next_id == old(self)@.next_id,
            final(self)@.entries == after_edit(
                old(self)@.entries,
                id,
                username@,
                service@,
                password@,
            ),
            old(self)@.wf() ==> final(self)@.wf(),
    {
        let i = self.find(id);
        if i < self.entries.len() {
            self.entries[i].username = username;
            self.entries[i].service = service;
            self.entries[i].password = password;
        }
        proof {
            assert(self@.entries =~= after_edit(
                old(self)@.entries,
                id,
                username@,
                service@,
                password@,
            ));
            lemma_same_ids_keep_wf(old(self)@, self@);
        }
    }

    /// Removes every entry with the identifier `id`; the others keep their
    /// order.
    pub fn delete_entry(&mut self, id: u32)
        ensures
            final(self)@.next_id == old(self)@.next_id,
            final(self)@.entries == after_delete(old(self)@.entries, id),
            old(self)@.wf() ==> final(self)@.wf(),
    {
        let ghost before = self@.entries;
        let ghost n = before.len() as int;
        let mut rest: Vec<Entry> = Vec::new();
        while self.entries.len() > 0
            invariant
                self.next_id == old(self).next_id,
                self.entries.len() + rest.len() == n,
                forall|j: int|
                    0 <= j < self.entries.len() ==> (#[trigger] self.entries[j])@ == before[j],
                forall|j: int| 0 <= j < rest.len() ==> (#[trigger] rest[j])@ == before[n - 1 - j],
            decreases self.entries.len(),
        {
            let e = self.entries.pop().unwrap();
            rest.push(e);
        }
        let ghost mut k: int = 0;
        let ghost mut origin: Seq<int> = Seq::empty();
        assert(self@.entries =~= before.subrange(0, 0).filter(has_other_id(id))) by {
            reveal(Seq::filter);
        }
        while rest.len() > 0
            invariant
                self.next_id == old(self).next_id,
                0 <= k <= n,
                n == before.len(),
                rest.len() == n - k,
                forall|j: int| 0 <= j < rest.len() ==> (#[trigger] rest[j])@ == before[n - 1 - j],
                self@.entries == before.subrange(0, k).filter(has_other_id(id)),
                origin.len() == self.entries.len(),
                forall|j: int|
                    0 <= j < origin.len() ==> 0 <= #[trigger] origin[j] < k && self@.entries[j]
                        == before[origin[j]],
                forall|i: int, j: int|
                    0 <= i < j < origin.len() ==> #[trigger] origin[i] < #[trigger] origin[j],
            decreases rest.len(),
        {
            let ghost kept = self@.entries;
            let e = rest.pop().unwrap();
            proof {
                lemma_filter_next(before, k, has_other_id(id));
            }
            if e.id != id {
                self.entries.push(e);
                proof {
                    assert(self@.entries =~= kept.push(before[k]));
                    origin = origin.push(k);
                }
            }
            proof {
                k = k + 1;
            }
        }
        proof {
            assert(before.subrange(0, n) =~= before);
            if old(self)@.wf() {
                assert forall|i: int, j: int| 0 <= i < j < self@.entries.len() implies (
                #[trigger] self@.entries[i]).id < (#[trigger] self@.entries[j]).id by {
                    assert(origin[i] < origin[j]);
                    assert(before[origin[i]].id < before[origin[j]].id);
                }
                assert forall|i: int| 0 <= i < self@.entries.len() implies (
                #[trigger] self@.entries[i]).id < self.next_id by {
                    assert(before[origin[i]].id < old(self).next_id);
                }
            }
        }
    }
}

} // verus!
