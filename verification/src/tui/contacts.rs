//! The list of contacts and groups shown on the left, with a lookup of users
//! by their identity, and which row of the list is selected.
use vstd::prelude::*;

use crate::backends::{Contact, ContactId, ContactIdView, ContactView};
use crate::text::{is_prefix, starts_with, str_eq};

verus! {

/// Which row of a table is selected and the first row shown. The selection
/// is not bounded by the number of rows: drawing the table clamps it.
#[derive(Debug, Clone, Copy, PartialEq, Eq, Structural)]
pub struct TableState {
    offset: usize,
    selected: Option<usize>,
}

impl TableState {
    /// A state with the given offset and selection.
    pub fn new(offset: usize, selected: Option<usize>) -> (res: Self)
        ensures
            res.offset_spec() == offset,
            res.selected_spec() == selected,
    {
        TableState { offset, selected }
    }

    /// The selected row.
    pub closed spec fn selected_spec(&self) -> Option<usize> {
        self.selected
    }

    /// The first row shown.
    pub closed spec fn offset_spec(&self) -> usize {
        self.offset
    }

    /// The selected row.
    pub fn selected(&self) -> (res: Option<usize>)
        ensures
            res == self.selected_spec(),
    {
        self.selected
    }

    /// The first row shown.
    pub fn offset(&self) -> (res: usize)
        ensures
            res == self.offset_spec(),
    {
        self.offset
    }

    /// Selects a row; selecting none also scrolls back to the top.
    pub fn select(&mut self, index: Option<usize>)
        ensures
            final(self).selected_spec() == index,
            final(self).offset_spec() == if index is None {
                0
            } else {
                old(self).offset_spec()
            },
    {
        self.selected = index;
        if index.is_none() {
            self.offset = 0;
        }
    }

    /// Selects the next row, or the first when none is selected; the index
    /// stops at the largest `usize`.
    pub fn select_next(&mut self)
        ensures
            final(self).offset_spec() == old(self).offset_spec(),
            final(self).selected_spec() == Some(
                match old(self).selected_spec() {
                    Some(i) => if i == usize::MAX {
                        i
                    } else {
                        (i + 1) as usize
                    },
                    None => 0usize,
                },
            ),
    {
        let next = match self.selected {
            Some(i) => i.saturating_add(1),
            None => 0,
        };
        self.select(Some(next));
    }

    /// Selects the previous row, or the last possible one when none is
    /// selected (drawing brings it back to the last row).
    pub fn select_previous(&mut self)
        ensures
            final(self).offset_spec() == old(self).offset_spec(),
            final(self).selected_spec() == Some(
                match old(self).selected_spec() {
                    Some(i) => if i == 0 {
                        0usize
                    } else {
                        (i - 1) as usize
                    },
                    None => usize::MAX,
                },
            ),
    {
        let previous = match self.selected {
            Some(i) => i.saturating_sub(1),
            None => usize::MAX,
        };
        self.select(Some(previous));
    }
}

impl Default for TableState {
    fn default() -> (res: Self)
        ensures
            res.offset_spec() == 0,
            res.selected_spec() is None,
    {
        TableState { offset: 0, selected: None }
    }
}

/// The values of a list of contacts.
pub open spec fn contact_views(v: Seq<Contact>) -> Seq<ContactView> {
    v.map_values(|c: Contact| c@)
}

/// The contacts of a list that are users, in order.
pub open spec fn users(v: Seq<ContactView>) -> Seq<ContactView>
    decreases v.len(),
{
    if v.len() == 0 {
        seq![]
    } else {
        let rest = users(v.drop_last());
        match v.last().id {
            ContactIdView::User(_) => rest.push(v.last()),
            ContactIdView::Group(_) => rest,
        }
    }
}

/// The last entry of the list for the user with the given identity: the one
/// a map keyed by identity keeps when the list is inserted in order.
pub open spec fn latest_user(v: Seq<ContactView>, id: Seq<u8>) -> Option<ContactView>
    decreases v.len(),
{
    if v.len() == 0 {
        None
    } else if v.last().id == ContactIdView::User(id) {
        Some(v.last())
    } else {
        latest_user(v.drop_last(), id)
    }
}

/// The index of the first entry satisfying a test, if any.
pub open spec fn first_index(v: Seq<ContactView>, p: spec_fn(ContactView) -> bool) -> Option<int> {
    if exists|i: int| 0 <= i < v.len() && p(v[i]) {
        Some(choose|i: int| 0 <= i < v.len() && p(v[i]) && forall|j: int| 0 <= j < i ==> !p(v[j]))
    } else {
        None
    }
}

/// The test that a contact has exactly the name.
pub open spec fn has_name(name: Seq<char>) -> spec_fn(ContactView) -> bool {
    |c: ContactView| c.name == name
}

/// The test that a contact's name starts with the prefix.
pub open spec fn name_starts_with(prefix: Seq<char>) -> spec_fn(ContactView) -> bool {
    |c: ContactView| is_prefix(prefix, c.name)
}

/// The test that a contact has the identity.
pub open spec fn has_id(id: ContactIdView) -> spec_fn(ContactView) -> bool {
    |c: ContactView| c.id == id
}

/// The contacts and groups, in the order shown, and the users by identity.
#[derive(Debug)]
pub struct Contacts {
    contacts_and_groups: Vec<Contact>,
    contacts_by_id: Vec<Contact>,
    pub state: TableState,
}

impl Contacts {
    /// The contacts and groups in the order shown.
    pub closed spec fn view_seq(&self) -> Seq<ContactView> {
        contact_views(self.contacts_and_groups@)
    }

    /// The users entered into the lookup by identity, in order.
    pub closed spec fn user_entries(&self) -> Seq<ContactView> {
        contact_views(self.contacts_by_id@)
    }

    /// Which row is selected, and the first row shown.
    pub closed spec fn table_state(&self) -> TableState {
        self.state
    }

    /// The contacts of the list, the users among them entered for lookup.
    pub fn new(contacts_and_groups: Vec<Contact>) -> (res: Self)
        ensures
            res.view_seq() == contact_views(contacts_and_groups@),
            res.user_entries() == users(contact_views(contacts_and_groups@)),
            res.table_state().selected_spec() is None,
            res.table_state().offset_spec() == 0,
    {
        let mut res = Contacts {
            contacts_and_groups: Vec::new(),
            contacts_by_id: Vec::new(),
            state: TableState::default(),
        };
        assert(contact_views(contacts_and_groups@.take(0)) =~= seq![]);
        res.extend(contacts_and_groups);
        res
    }

    /// Adds contacts at the end; the users among them are entered for lookup.
    pub fn extend(&mut self, contacts: Vec<Contact>)
        ensures
            final(self).view_seq() == old(self).view_seq() + contact_views(contacts@),
            final(self).user_entries() == old(self).user_entries() + users(contact_views(contacts@)),
            final(self).table_state() == old(self).table_state(),
    {
        let ghost all = contact_views(contacts@);
        let mut i: usize = 0;
        while i < contacts.len()
            invariant
                i <= contacts.len(),
                all == contact_views(contacts@),
                self.view_seq() == old(self).view_seq() + all.take(i as int),
                self.user_entries() == old(self).user_entries() + users(all.take(i as int)),
                self.state == old(self).state,
            decreases contacts.len() - i,
        {
            let c = &contacts[i];
            assert(all[i as int] == c@);
            assert(all.take(i + 1).drop_last() =~= all.take(i as int));
            let ghost before = self.contacts_by_id@;
            if let ContactId::User(_) = &c.id {
                self.contacts_by_id.push(c.duplicate());
                assert(contact_views(self.contacts_by_id@) =~= contact_views(before).push(c@));
            }
            let ghost shown = self.contacts_and_groups@;
            self.contacts_and_groups.push(c.duplicate());
            assert(contact_views(self.contacts_and_groups@) =~= contact_views(shown).push(c@));
            i = i + 1;
            assert(self.view_seq() =~= old(self).view_seq() + all.take(i as int));
            assert(self.user_entries() =~= old(self).user_entries() + users(all.take(i as int)));
        }
        assert(all.take(contacts.len() as int) =~= all);
    }

    /// The contact or group at a row.
    pub fn contact_or_group_by_index(&self, index: usize) -> (res: Option<&Contact>)
        ensures
            match res {
                Some(c) => index < self.view_seq().len() && c@ == self.view_seq()[index as int],
                None => index >= self.view_seq().len(),
            },
    {
        if index < self.contacts_and_groups.len() {
            Some(&self.contacts_and_groups[index])
        } else {
            None
        }
    }

    /// The user with the identity, as it was last entered for lookup.
    pub fn contact_by_id(&self, id: &Vec<u8>) -> (res: Option<&Contact>)
        ensures
            match res {
                Some(c) => latest_user(self.user_entries(), id@) == Some(c@),
                None => latest_user(self.user_entries(), id@) is None,
            },
    {
        let ghost v = self.user_entries();
        let mut i: usize = self.contacts_by_id.len();
        assert(v.take(i as int) =~= v);
        while i > 0
            invariant
                i <= self.contacts_by_id.len(),
                v == self.user_entries(),
                latest_user(v, id@) == latest_user(v.take(i as int), id@),
            decreases i,
        {
            let c = &self.contacts_by_id[i - 1];
            assert(v.take(i as int).last() == c@);
            assert(v.take(i as int).drop_last() =~= v.take(i - 1));
            let is_match = match &c.id {
                ContactId::User(u) => crate::backends::bytes_eq(u, id),
                ContactId::Group(_) => false,
            };
            if is_match {
                return Some(c);
            }
            i = i - 1;
        }
        assert(v.take(0) =~= seq![]);
        None
    }

    /// The contacts and groups in the order shown.
    pub fn iter_contacts_and_groups(&self) -> (res: &[Contact])
        ensures
            contact_views(res@) == self.view_seq(),
    {
        self.contacts_and_groups.as_slice()
    }

    /// There are no contacts or groups.
    pub fn is_empty(&self) -> (res: bool)
        ensures
            res == (self.view_seq().len() == 0),
    {
        self.contacts_and_groups.len() == 0
    }

    /// The number of contacts and groups.
    pub fn len(&self) -> (res: usize)
        ensures
            res == self.view_seq().len(),
    {
        self.contacts_and_groups.len()
    }

    /// Forgets all contacts and groups; the selection stays.
    pub fn clear(&mut self)
        ensures
            final(self).view_seq().len() == 0,
            final(self).user_entries().len() == 0,
            final(self).table_state() == old(self).table_state(),
    {
        self.contacts_and_groups.clear();
        self.contacts_by_id.clear();
    }

    /// Moves the contact at row `from` to row `to`, the others keeping their order.
    pub fn move_by_index(&mut self, from: usize, to: usize)
        requires
            from < old(self).view_seq().len(),
            to < old(self).view_seq().len(),
        ensures
            final(self).view_seq() == old(self).view_seq().remove(from as int).insert(
                to as int,
                old(self).view_seq()[from as int],
            ),
            final(self).user_entries() == old(self).user_entries(),
            final(self).table_state() == old(self).table_state(),
    {
        let ghost v = self.view_seq();
        let c = self.contacts_and_groups.remove(from);
        assert(contact_views(self.contacts_and_groups@) =~= v.remove(from as int));
        self.contacts_and_groups.insert(to, c);
        assert(contact_views(self.contacts_and_groups@) =~= v.remove(from as int).insert(to as int, v[from as int]));
    }

    /// The contact or group at the selected row, if the row exists.
    pub fn selected(&self) -> (res: Option<&Contact>)
        ensures
            match self.table_state().selected_spec() {
                Some(i) => match res {
                    Some(c) => i < self.view_seq().len() && c@ == self.view_seq()[i as int],
                    None => i >= self.view_seq().len(),
                },
                None => res is None,
            },
    {
        match self.state.selected() {
            Some(i) => self.contact_or_group_by_index(i),
            None => None,
        }
    }

    /// The first contact or group with exactly the given name.
    pub fn contact_or_group_by_name(&self, name: &str) -> (res: Option<&Contact>)
        ensures
            match first_index(self.view_seq(), has_name(name@)) {
                Some(i) => res is Some && res.unwrap()@ == self.view_seq()[i],
                None => res is None,
            },
    {
        let ghost v = self.view_seq();
        let ghost p = has_name(name@);
        let mut i: usize = 0;
        while i < self.contacts_and_groups.len()
            invariant
                i <= self.contacts_and_groups.len(),
                v == self.view_seq(),
                v.len() == self.contacts_and_groups.len(),
                p == has_name(name@),
                forall|j: int| 0 <= j < i ==> v[j].name != name@,
            decreases self.contacts_and_groups.len() - i,
        {
            assert(v[i as int] == self.contacts_and_groups@[i as int]@);
            if str_eq(self.contacts_and_groups[i].name.as_str(), name) {
                proof {
                    lemma_first_index_is(v, p, i as int);
                }
                return Some(&self.contacts_and_groups[i]);
            }
            i = i + 1;
        }
        proof {
            lemma_first_index_none(v, p);
        }
        None
    }

    /// The row of the first contact or group whose name starts with `prefix`.
    pub fn position_by_name_prefix(&self, prefix: &str) -> (res: Option<usize>)
        ensures
            match first_index(self.view_seq(), name_starts_with(prefix@)) {
                Some(i) => res == Some(i as usize),
                None => res is None,
            },
    {
        let ghost v = self.view_seq();
        let ghost p = name_starts_with(prefix@);
        let mut i: usize = 0;
        while i < self.contacts_and_groups.len()
            invariant
                i <= self.contacts_and_groups.len(),
                v == self.view_seq(),
                v.len() == self.contacts_and_groups.len(),
                p == name_starts_with(prefix@),
                forall|j: int| 0 <= j < i ==> !is_prefix(prefix@, #[trigger] v[j].name),
            decreases self.contacts_and_groups.len() - i,
        {
            assert(v[i as int] == self.contacts_and_groups@[i as int]@);
            if starts_with(self.contacts_and_groups[i].name.as_str(), prefix) {
                proof {
                    lemma_first_index_is(v, p, i as int);
                }
                return Some(i);
            }
            i = i + 1;
        }
        proof {
            lemma_first_index_none(v, p);
        }
        None
    }

    /// The row of the first contact or group with the identity.
    pub fn index_by_id(&self, id: &ContactId) -> (res: Option<usize>)
        ensures
            match first_index(self.view_seq(), has_id(id@)) {
                Some(i) => res == Some(i as usize),
                None => res is None,
            },
    {
        let ghost v = self.view_seq();
        let ghost p = has_id(id@);
        let mut i: usize = 0;
        while i < self.contacts_and_groups.len()
            invariant
                i <= self.contacts_and_groups.len(),
                v == self.view_seq(),
                v.len() == self.contacts_and_groups.len(),
                p == has_id(id@),
                forall|j: int| 0 <= j < i ==> v[j].id != id@,
            decreases self.contacts_and_groups.len() - i,
        {
            assert(v[i as int] == self.contacts_and_groups@[i as int]@);
            if self.contacts_and_groups[i].id.same_as(id) {
                proof {
                    lemma_first_index_is(v, p, i as int);
                }
                return Some(i);
            }
            i = i + 1;
        }
        proof {
            lemma_first_index_none(v, p);
        }
        None
    }

    /// The selected row.
    pub fn table_state_selected(&self) -> (res: Option<usize>)
        ensures
            res == self.table_state().selected_spec(),
    {
        self.state.selected()
    }

    /// Selects a row, or none (see [`TableState::select`]).
    pub fn select(&mut self, index: Option<usize>)
        ensures
            final(self).view_seq() == old(self).view_seq(),
            final(self).user_entries() == old(self).user_entries(),
            final(self).table_state().selected_spec() == index,
            final(self).table_state().offset_spec() == if index is None {
                0
            } else {
                old(self).table_state().offset_spec()
            },
    {
        self.state.select(index);
    }

    /// Selects the next row (see [`TableState::select_next`]).
    pub fn select_next(&mut self)
        ensures
            final(self).view_seq() == old(self).view_seq(),
            final(self).user_entries() == old(self).user_entries(),
            final(self).table_state().offset_spec() == old(self).table_state().offset_spec(),
            final(self).table_state().selected_spec() == Some(
                match old(self).table_state().selected_spec() {
                    Some(i) => if i == usize::MAX {
                        i
                    } else {
                        (i + 1) as usize
                    },
                    None => 0usize,
                },
            ),
    {
        self.state.select_next();
    }

    /// Selects the previous row (see [`TableState::select_previous`]).
    pub fn select_previous(&mut self)
        ensures
            final(self).view_seq() == old(self).view_seq(),
            final(self).user_entries() == old(self).user_entries(),
            final(self).table_state().offset_spec() == old(self).table_state().offset_spec(),
            final(self).table_state().selected_spec() == Some(
                match old(self).table_state().selected_spec() {
                    Some(i) => if i == 0 {
                        0usize
                    } else {
                        (i - 1) as usize
                    },
                    None => usize::MAX,
                },
            ),
    {
        self.state.select_previous();
    }

    /// Replaces the selection and the offset (as drawing the table leaves them).
    pub fn set_table_state(&mut self, state: TableState)
        ensures
            final(self).view_seq() == old(self).view_seq(),
            final(self).user_entries() == old(self).user_entries(),
            final(self).table_state() == state,
    {
        self.state = state;
    }

    /// Records the time of the last message of the contact or group at a row.
    pub fn set_last_message_timestamp(&mut self, index: usize, timestamp: u64)
        requires
            index < old(self).view_seq().len(),
        ensures
            final(self).view_seq() == old(self).view_seq().update(
                index as int,
                ContactView { last_message_timestamp: Some(timestamp), ..old(self).view_seq()[index as int] },
            ),
            final(self).user_entries() == old(self).user_entries(),
            final(self).table_state() == old(self).table_state(),
    {
        let ghost v = self.view_seq();
        let mut c = self.contacts_and_groups.remove(index);
        c.last_message_timestamp = Some(timestamp);
        self.contacts_and_groups.insert(index, c);
        assert(contact_views(self.contacts_and_groups@) =~= v.update(
            index as int,
            ContactView { last_message_timestamp: Some(timestamp), ..v[index as int] },
        ));
    }
}

impl Default for Contacts {
    fn default() -> (res: Self)
        ensures
            res.view_seq().len() == 0,
            res.user_entries().len() == 0,
            res.table_state().selected_spec() is None,
            res.table_state().offset_spec() == 0,
    {
        Contacts { contacts_and_groups: Vec::new(), contacts_by_id: Vec::new(), state: TableState::default() }
    }
}

/// When no entry passes the test, [`first_index`] names none.
pub proof fn lemma_first_index_none(v: Seq<ContactView>, p: spec_fn(ContactView) -> bool)
    requires
        forall|j: int| 0 <= j < v.len() ==> !p(v[j]),
    ensures
        first_index(v, p) is None,
{
}

/// When some entry passes the test, one of them is the first to pass it.
proof fn lemma_first_passing_exists(v: Seq<ContactView>, p: spec_fn(ContactView) -> bool)
    requires
        exists|i: int| 0 <= i < v.len() && p(v[i]),
    ensures
        exists|i: int| 0 <= i < v.len() && p(v[i]) && forall|j: int| 0 <= j < i ==> !p(v[j]),
    decreases v.len(),
{
    if p(v[0]) {
        assert(0 <= 0 < v.len() && p(v[0]) && forall|j: int| 0 <= j < 0 ==> !p(v[j]));
    } else {
        let k = choose|i: int| 0 <= i < v.len() && p(v[i]);
        assert(v.drop_first()[k - 1] == v[k]);
        lemma_first_passing_exists(v.drop_first(), p);
        let m = choose|i: int|
            0 <= i < v.drop_first().len() && p(v.drop_first()[i]) && forall|j: int|
                0 <= j < i ==> !p(v.drop_first()[j]);
        assert(v[m + 1] == v.drop_first()[m]);
        assert forall|j: int| 0 <= j < m + 1 implies !p(v[j]) by {
            if j > 0 {
                assert(v[j] == v.drop_first()[j - 1]);
            }
        }
    }
}

/// The entry that [`first_index`] names passes the test, and none before it does.
pub proof fn lemma_first_index_some(v: Seq<ContactView>, p: spec_fn(ContactView) -> bool)
    ensures
        match first_index(v, p) {
            Some(i) => 0 <= i < v.len() && p(v[i]) && forall|j: int| 0 <= j < i ==> !p(v[j]),
            None => forall|j: int| 0 <= j < v.len() ==> !p(v[j]),
        },
{
    if exists|i: int| 0 <= i < v.len() && p(v[i]) {
        lemma_first_passing_exists(v, p);
    }
}

/// When entry `i` is the first to pass the test, [`first_index`] names it.
pub proof fn lemma_first_index_is(v: Seq<ContactView>, p: spec_fn(ContactView) -> bool, i: int)
    requires
        0 <= i < v.len(),
        p(v[i]),
        forall|j: int| 0 <= j < i ==> !p(v[j]),
    ensures
        first_index(v, p) == Some(i),
{
    let k = choose|k: int| 0 <= k < v.len() && p(v[k]) && forall|j: int| 0 <= j < k ==> !p(v[j]);
    if k < i {
    } else if k > i {
    }
}

/// Moving the selection of a table down and then up comes back to the same
/// row, below the largest index; from no selection it comes to the first row.
pub proof fn law_next_then_previous_row(t: TableState, next: TableState, back: TableState)
    requires
        t.selected_spec() != Some(usize::MAX),
        next.selected_spec() == Some(
            match t.selected_spec() {
                Some(i) => if i == usize::MAX {
                    i
                } else {
                    (i + 1) as usize
                },
                None => 0usize,
            },
        ),
        back.selected_spec() == Some(
            match next.selected_spec() {
                Some(i) => if i == 0 {
                    0usize
                } else {
                    (i - 1) as usize
                },
                None => usize::MAX,
            },
        ),
    ensures
        back.selected_spec() == match t.selected_spec() {
            Some(i) => Some(i),
            None => Some(0usize),
        },
{
}

} // verus!
