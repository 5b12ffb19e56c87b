//! What the backend actor decides between the interface's requests and the
//! backend's answers: the order in which contacts are listed.
use vstd::prelude::*;

use crate::backends::{Contact, ContactView};
use crate::message::FrontendMessage;
use crate::text::{chars_of, lemma_text_lt_irreflexive, lemma_text_lt_total, lemma_text_lt_transitive, text_lt, vec_text_lt};
use crate::tui::contacts::contact_views;

verus! {

/// `a` is a later last message than `b`: a contact with a last message
/// comes before one without.
pub open spec fn later_message(a: Option<u64>, b: Option<u64>) -> bool {
    match a {
        Some(x) => match b {
            Some(y) => x > y,
            None => true,
        },
        None => false,
    }
}

/// `a` is listed before `b`: the later last message first, and among equal
/// ones, the name first in the order of `String`.
pub open spec fn listed_before(a: ContactView, b: ContactView) -> bool {
    later_message(a.last_message_timestamp, b.last_message_timestamp) || (a.last_message_timestamp
        == b.last_message_timestamp && text_lt(a.name, b.name))
}

/// `a` and `b` are listed at the same rank: same last message, same name.
pub open spec fn same_rank(a: ContactView, b: ContactView) -> bool {
    a.last_message_timestamp == b.last_message_timestamp && a.name == b.name
}

/// The test that a contact is at the rank of `c`.
pub open spec fn at_rank_of(c: ContactView) -> spec_fn(ContactView) -> bool {
    |x: ContactView| same_rank(x, c)
}

/// The contacts of a list that are at the rank of `c`, in the list's order.
pub open spec fn rank_class(v: Seq<ContactView>, c: ContactView) -> Seq<ContactView> {
    v.filter(at_rank_of(c))
}

/// Filtering a list of one contact.
proof fn lemma_filter_one(x: ContactView, pred: spec_fn(ContactView) -> bool)
    ensures
        seq![x].filter(pred) == (if pred(x) { seq![x] } else { Seq::<ContactView>::empty() }),
{
    reveal_with_fuel(Seq::filter, 2);
    assert(seq![x].drop_last() =~= Seq::<ContactView>::empty());
    assert(seq![x].last() == x);
    if pred(x) {
        assert(Seq::<ContactView>::empty().push(x) =~= seq![x]);
    }
}

/// No contact of the list is listed before one ahead of it.
pub open spec fn in_listing_order(v: Seq<ContactView>) -> bool {
    forall|i: int, j: int| 0 <= i < j < v.len() ==> !listed_before(#[trigger] v[j], #[trigger] v[i])
}

/// `res` lists the contacts of `v` in listing order, contacts of the same
/// rank in the order of `v` (a stable sort by rank).
pub open spec fn is_listing_of(res: Seq<ContactView>, v: Seq<ContactView>) -> bool {
    in_listing_order(res) && forall|c: ContactView| #[trigger] rank_class(res, c) == rank_class(v, c)
}

/// Listing order is irreflexive, transitive, and orders any two contacts
/// of different ranks.
pub proof fn lemma_listing_order(a: ContactView, b: ContactView, c: ContactView)
    ensures
        !listed_before(a, a),
        listed_before(a, b) && listed_before(b, c) ==> listed_before(a, c),
        !same_rank(a, b) ==> listed_before(a, b) || listed_before(b, a),
        listed_before(a, b) ==> !same_rank(a, b) && !listed_before(b, a),
{
    lemma_text_lt_irreflexive(a.name);
    if listed_before(a, b) && listed_before(b, c) {
        if a.last_message_timestamp == b.last_message_timestamp && b.last_message_timestamp
            == c.last_message_timestamp {
            lemma_text_lt_transitive(a.name, b.name, c.name);
        }
    }
    if !same_rank(a, b) && a.last_message_timestamp == b.last_message_timestamp {
        lemma_text_lt_total(a.name, b.name);
    }
    if listed_before(a, b) && a.last_message_timestamp == b.last_message_timestamp {
        if text_lt(b.name, a.name) {
            lemma_text_lt_transitive(a.name, b.name, a.name);
        }
    }
}

/// `a` is listed before `b`.
fn listed_before_exec(a: &Contact, b: &Contact) -> (res: bool)
    ensures
        res == listed_before(a@, b@),
{
    match (a.last_message_timestamp, b.last_message_timestamp) {
        (Some(x), Some(y)) => {
            if x != y {
                return x > y;
            }
        },
        (Some(_), None) => {
            return true;
        },
        (None, Some(_)) => {
            return false;
        },
        (None, None) => {},
    }
    let an = chars_of(a.name.as_str());
    let bn = chars_of(b.name.as_str());
    vec_text_lt(&an, &bn)
}

/// Inserting `x` into a list in listing order, before the first contact
/// that `x` is listed before, keeps the order and puts `x` last of its rank.
proof fn lemma_insert_listed(s: Seq<ContactView>, x: ContactView, p: int)
    requires
        in_listing_order(s),
        0 <= p <= s.len(),
        forall|i: int| 0 <= i < p ==> !listed_before(x, #[trigger] s[i]),
        p < s.len() ==> listed_before(x, s[p]),
    ensures
        in_listing_order(s.insert(p, x)),
        forall|c: ContactView| #[trigger] rank_class(s.insert(p, x), c) == rank_class(s.push(x), c),
{
    let t = s.insert(p, x);
    assert forall|j: int| p <= j < s.len() implies listed_before(x, #[trigger] s[j]) by {
        if j > p {
            lemma_listing_order(x, s[p], s[j]);
            if !listed_before(x, s[j]) {
                lemma_listing_order(s[j], x, s[p]);
                if same_rank(x, s[j]) {
                    assert(listed_before(s[j], s[p]));
                } else {
                    lemma_listing_order(x, s[j], s[p]);
                }
            }
        }
    }
    assert forall|i: int, j: int| 0 <= i < j < t.len() implies !listed_before(#[trigger] t[j], #[trigger] t[i]) by {
        if j < p {
        } else if j == p {
            assert(t[j] == x);
            assert(t[i] == s[i]);
            if listed_before(x, s[i]) {
            }
        } else if i < p {
            assert(t[j] == s[j - 1]);
        } else if i == p {
            assert(t[i] == x);
            assert(t[j] == s[j - 1]);
            lemma_listing_order(x, s[j - 1], x);
        } else {
            assert(t[i] == s[i - 1]);
            assert(t[j] == s[j - 1]);
        }
    }
    assert forall|c: ContactView| #[trigger] rank_class(t, c) == rank_class(s.push(x), c) by {
        let pred = at_rank_of(c);
        lemma_filter_one(x, pred);
        assert(t =~= s.take(p) + (seq![x] + s.skip(p)));
        assert(s.push(x) =~= (s.take(p) + s.skip(p)) + seq![x]);
        Seq::filter_distributes_over_add(s.take(p), seq![x] + s.skip(p), pred);
        Seq::filter_distributes_over_add(seq![x], s.skip(p), pred);
        Seq::filter_distributes_over_add(s.take(p) + s.skip(p), seq![x], pred);
        Seq::filter_distributes_over_add(s.take(p), s.skip(p), pred);
        if same_rank(x, c) {
            assert(s.skip(p).all(|y: ContactView| !pred(y))) by {
                assert forall|k: int| 0 <= k < s.skip(p).len() implies !pred(#[trigger] s.skip(p)[k]) by {
                    assert(s.skip(p)[k] == s[p + k]);
                    lemma_listing_order(x, s[p + k], x);
                }
            }
            s.skip(p).lemma_all_neg_filter_empty(pred);
            assert(s.skip(p).filter(pred) =~= Seq::<ContactView>::empty());
        }
    }
}

/// The contacts in listing order (see [`is_listing_of`]): the order in which
/// the backend actor hands contacts to the interface.
pub fn sort_contacts(contacts: Vec<Contact>) -> (res: Vec<Contact>)
    ensures
        is_listing_of(contact_views(res@), contact_views(contacts@)),
{
    let ghost all = contact_views(contacts@);
    let n = contacts.len();
    assert(all.len() == n);
    let mut rest = contacts;
    let mut out: Vec<Contact> = Vec::new();
    let mut taken: usize = 0;
    assert(all.take(0) =~= Seq::<ContactView>::empty());
    assert(contact_views(out@) =~= Seq::<ContactView>::empty());
    while rest.len() > 0
        invariant
            taken + rest@.len() == all.len(),
            all.len() <= usize::MAX,
            contact_views(rest@) == all.skip(taken as int),
            is_listing_of(contact_views(out@), all.take(taken as int)),
        decreases rest@.len(),
    {
        let ghost before_rest = rest@;
        let x = rest.remove(0);
        assert(rest@ =~= before_rest.drop_first());
        assert(contact_views(rest@) =~= contact_views(before_rest).drop_first());
        assert(contact_views(rest@) =~= all.skip(taken + 1));
        assert(x@ == all[taken as int]) by {
            assert(contact_views(before_rest)[0] == before_rest[0]@);
        }
        let mut p: usize = 0;
        let ghost s = contact_views(out@);
        while p < out.len() && !listed_before_exec(&x, &out[p])
            invariant
                p <= out.len(),
                s == contact_views(out@),
                forall|i: int| 0 <= i < p ==> !listed_before(x@, #[trigger] s[i]),
            decreases out.len() - p,
        {
            p = p + 1;
        }
        proof {
            lemma_insert_listed(s, x@, p as int);
        }
        let ghost xv = x@;
        out.insert(p, x);
        assert(contact_views(out@) =~= s.insert(p as int, xv));
        assert(all.take(taken + 1) =~= all.take(taken as int).push(xv));
        taken = taken + 1;
        assert forall|c: ContactView| #[trigger] rank_class(contact_views(out@), c) == rank_class(
            all.take(taken as int),
            c,
        ) by {
            let pred = at_rank_of(c);
            Seq::filter_distributes_over_add(s, seq![xv], pred);
            Seq::filter_distributes_over_add(all.take(taken - 1), seq![xv], pred);
            assert(s.push(xv) =~= s + seq![xv]);
            assert(all.take(taken as int) =~= all.take(taken - 1) + seq![xv]);
            assert(rank_class(s, c) == rank_class(all.take(taken - 1), c));
        }
    }
    assert(all.take(taken as int) =~= all);
    out
}

/// The answer to a request for contacts: the users, then the groups, in
/// listing order.
pub fn loaded_contacts(users: Vec<Contact>, groups: Vec<Contact>) -> (res: FrontendMessage)
    ensures
        res matches FrontendMessage::LoadedContacts { contacts } && is_listing_of(
            contact_views(contacts@),
            contact_views(users@) + contact_views(groups@),
        ),
{
    let mut all = users;
    let mut groups = groups;
    let ghost u = all@;
    let ghost g = groups@;
    all.append(&mut groups);
    assert(contact_views(all@) =~= contact_views(u) + contact_views(g));
    FrontendMessage::LoadedContacts { contacts: sort_contacts(all) }
}

} // verus!

verus! {

/// Filtering a list with a first element.
proof fn lemma_filter_cons(x: ContactView, s: Seq<ContactView>, pred: spec_fn(ContactView) -> bool)
    ensures
        (seq![x] + s).filter(pred) == (if pred(x) {
            seq![x]
        } else {
            Seq::<ContactView>::empty()
        }) + s.filter(pred),
{
    Seq::filter_distributes_over_add(seq![x], s, pred);
    lemma_filter_one(x, pred);
}

/// The contacts of the same rank as `c` are those that [`rank_class`] gives.
proof fn lemma_rank_class_member(v: Seq<ContactView>, c: ContactView, k: int)
    requires
        0 <= k < rank_class(v, c).len(),
    ensures
        same_rank(rank_class(v, c)[k], c),
        v.contains(rank_class(v, c)[k]),
{
    v.lemma_filter_pred(at_rank_of(c), k);
    assert(rank_class(v, c).contains(rank_class(v, c)[k]));
    v.lemma_filter_contains_rev(at_rank_of(c), rank_class(v, c)[k]);
}

/// Two lists that list the same contacts in listing order, those of a rank
/// in the same order, are the same list: the listing of a list is unique,
/// so sorting contacts gives one answer and sorting a listing changes nothing.
pub proof fn law_listing_unique(a: Seq<ContactView>, b: Seq<ContactView>, v: Seq<ContactView>)
    requires
        is_listing_of(a, v),
        is_listing_of(b, v),
    ensures
        a == b,
    decreases a.len(),
{
    assert forall|c: ContactView| #[trigger] rank_class(a, c) == rank_class(b, c) by {
        assert(rank_class(a, c) == rank_class(v, c));
        assert(rank_class(b, c) == rank_class(v, c));
    }
    if a.len() == 0 {
        if b.len() > 0 {
            assert(b =~= seq![b[0]] + b.drop_first());
            lemma_filter_cons(b[0], b.drop_first(), at_rank_of(b[0]));
            assert(rank_class(b, b[0]).len() > 0);
            assert(a.filter(at_rank_of(b[0])) =~= Seq::<ContactView>::empty()) by {
                reveal_with_fuel(Seq::filter, 1);
            }
            assert(rank_class(a, b[0]) == rank_class(b, b[0]));
        }
        assert(a =~= b);
        return;
    }
    if b.len() == 0 {
        assert(a =~= seq![a[0]] + a.drop_first());
        lemma_filter_cons(a[0], a.drop_first(), at_rank_of(a[0]));
        assert(b.filter(at_rank_of(a[0])) =~= Seq::<ContactView>::empty()) by {
            reveal_with_fuel(Seq::filter, 1);
        }
        assert(rank_class(a, a[0]) == rank_class(b, a[0]));
        return;
    }
    let x = a[0];
    let y = b[0];
    assert(a =~= seq![x] + a.drop_first());
    assert(b =~= seq![y] + b.drop_first());
    lemma_filter_cons(x, a.drop_first(), at_rank_of(x));
    lemma_filter_cons(y, b.drop_first(), at_rank_of(y));
    lemma_filter_cons(x, a.drop_first(), at_rank_of(y));
    lemma_filter_cons(y, b.drop_first(), at_rank_of(x));
    if !same_rank(x, y) {
        lemma_listing_order(x, y, x);
        if listed_before(x, y) {
            // x's rank occurs in b, after y, although it is listed before y.
            assert(rank_class(b, x) == rank_class(a, x));
            assert(rank_class(a, x)[0] == x);
            lemma_rank_class_member(b, x, 0);
            let e = rank_class(b, x)[0];
            let j = choose|j: int| 0 <= j < b.len() && b[j] == e;
            if j == 0 {
                assert(same_rank(y, x));
            } else {
                assert(!listed_before(b[j], b[0]));
                assert(listed_before(e, y));
            }
        } else {
            assert(listed_before(y, x));
            assert(rank_class(a, y) == rank_class(b, y));
            assert(rank_class(b, y)[0] == y);
            lemma_rank_class_member(a, y, 0);
            let e = rank_class(a, y)[0];
            let j = choose|j: int| 0 <= j < a.len() && a[j] == e;
            if j == 0 {
                assert(same_rank(x, y));
            } else {
                assert(!listed_before(a[j], a[0]));
                assert(listed_before(e, x));
            }
        }
    }
    assert(same_rank(x, y));
    assert(rank_class(a, x)[0] == x);
    assert(rank_class(b, x)[0] == y);
    assert(rank_class(a, x) == rank_class(b, x));
    assert(x == y);
    let a2 = a.drop_first();
    let b2 = b.drop_first();
    assert forall|c: ContactView| #[trigger] rank_class(b2, c) == rank_class(a2, c) by {
        lemma_filter_cons(x, a2, at_rank_of(c));
        lemma_filter_cons(x, b2, at_rank_of(c));
        assert(rank_class(a, c) == rank_class(b, c));
        let head = if at_rank_of(c)(x) {
            seq![x]
        } else {
            Seq::<ContactView>::empty()
        };
        assert(head + rank_class(a2, c) == head + rank_class(b2, c));
        assert(rank_class(a2, c) =~= (head + rank_class(a2, c)).skip(head.len() as int));
        assert(rank_class(b2, c) =~= (head + rank_class(b2, c)).skip(head.len() as int));
    }
    assert(in_listing_order(a2)) by {
        assert forall|i: int, j: int| 0 <= i < j < a2.len() implies !listed_before(#[trigger] a2[j], #[trigger] a2[i]) by {
            assert(a2[i] == a[i + 1]);
            assert(a2[j] == a[j + 1]);
        }
    }
    assert(in_listing_order(b2)) by {
        assert forall|i: int, j: int| 0 <= i < j < b2.len() implies !listed_before(#[trigger] b2[j], #[trigger] b2[i]) by {
            assert(b2[i] == b[i + 1]);
            assert(b2[j] == b[j + 1]);
        }
    }
    law_listing_unique(a2, b2, a2);
    assert(a =~= b);
}

} // verus!
