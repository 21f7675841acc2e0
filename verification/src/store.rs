//! The credential store: the single point of access to persisted customer
//! rows.
//!
//! Rows live in insertion order; the store assigns each inserted row the next
//! surrogate id. Lookup returns the first row whose email matches, mirroring a
//! single-row select by the natural key; deletion removes every matching row
//! and is a no-op when none matches.

use vstd::prelude::*;
use vstd::string::StrSliceExecFns;

use crate::customers::with_id;
use crate::customers::Customer;
use crate::customers::CustomerOps;
use crate::customers::CustomerV;

verus! {

/// The mathematical value of a [`CustomerStore`]: the persisted rows in
/// insertion order and the next surrogate id to assign.
#[verifier::ext_equal]
pub struct StoreV {
    pub rows: Seq<CustomerV>,
    pub next_id: int,
}

/// The first row of `rows` whose email is `email`, if any.
pub open spec fn find_by_email(rows: Seq<CustomerV>, email: Seq<char>) -> Option<CustomerV>
    decreases rows.len(),
{
    if rows.len() == 0 {
        None
    } else if rows[0].email == email {
        Some(rows[0])
    } else {
        find_by_email(rows.drop_first(), email)
    }
}

/// How many rows of `rows` carry the email `email`.
pub open spec fn count_email(rows: Seq<CustomerV>, email: Seq<char>) -> nat
    decreases rows.len(),
{
    if rows.len() == 0 {
        0
    } else {
        (if rows[0].email == email {
            1 as nat
        } else {
            0
        }) + count_email(rows.drop_first(), email)
    }
}

/// `rows` with every row of email `email` removed.
pub open spec fn remove_email(rows: Seq<CustomerV>, email: Seq<char>) -> Seq<CustomerV> {
    rows.filter(|r: CustomerV| r.email != email)
}

/// Well-formed store: ids start at 1, and every persisted row carries an
/// assigned id below the next one.
pub open spec fn store_wf(s: StoreV) -> bool {
    &&& 1 <= s.next_id
    &&& forall|i: int|
        0 <= i < s.rows.len() ==> ((#[trigger] s.rows[i].customer_id) matches Some(id) && 1 <= id
            < s.next_id)
}

/// An in-memory credential store holding the customer table.
#[derive(Debug)]
pub struct CustomerStore {
    customers: Vec<Customer>,
    next_id: i32,
}

impl View for CustomerStore {
    type V = StoreV;

    closed spec fn view(&self) -> StoreV {
        StoreV {
            rows: self.customers@.map_values(|c: Customer| c@),
            next_id: self.next_id as int,
        }
    }
}

impl CustomerStore {
    pub open spec fn wf(&self) -> bool {
        store_wf(self@)
    }

    /// An empty store; the first assigned surrogate id will be 1.
    pub fn new() -> (r: Self)
        ensures
            r.wf(),
            r@.rows == Seq::<CustomerV>::empty(),
            r@.next_id == 1,
    {
        let r = CustomerStore { customers: Vec::new(), next_id: 1 };
        proof {
            assert(r@.rows =~= Seq::<CustomerV>::empty());
        }
        r
    }

    /// Inserts `customer` as a new row carrying the next surrogate id,
    /// whatever id the argument itself carries. No field rule is checked at
    /// this layer: validation is the caller's job.
    pub fn add_customer(&mut self, customer: &Customer)
        requires
            old(self).wf(),
            old(self)@.next_id < i32::MAX as int,
        ensures
            final(self).wf(),
            final(self)@.rows == old(self)@.rows.push(with_id(customer@, old(self)@.next_id)),
            final(self)@.next_id == old(self)@.next_id + 1,
    {
        let id = self.next_id;
        let stored = customer.with_assigned_id(id);
        self.customers.push(stored);
        self.next_id = id + 1;
        proof {
            assert(self@.rows =~= old(self)@.rows.push(with_id(customer@, old(self)@.next_id)));
        }
    }

    /// How many rows the store holds.
    pub fn len(&self) -> (r: usize)
        ensures
            r == self@.rows.len(),
    {
        self.customers.len()
    }

    /// Looks up the first row whose email is `email`; `None` when no row
    /// matches.
    pub fn get_customer(&self, email: &str) -> (r: Option<Customer>)
        ensures
            match r {
                Some(c) => find_by_email(self@.rows, email@) == Some(c@),
                None => find_by_email(self@.rows, email@) is None,
            },
    {
        let n = self.customers.len();
        let mut i: usize = 0;
        while i < n
            invariant
                i <= n,
                n == self.customers.len(),
                self@.rows == self.customers@.map_values(|c: Customer| c@),
                forall|j: int| 0 <= j < i ==> #[trigger] self@.rows[j].email != email@,
            decreases n - i,
        {
            let row = &self.customers[i];
            if str_eq(row.get_email(), email) {
                proof {
                    lemma_find_first_hit(self@.rows, email@, i as int);
                }
                return Some(row.clone());
            }
            i += 1;
        }
        proof {
            lemma_find_no_hit(self@.rows, email@);
        }
        None
    }

    /// Deletes every row whose email is `email`; a no-op when none matches.
    pub fn delete_customer(&mut self, email: &str)
        ensures
            old(self).wf() ==> final(self).wf(),
            final(self)@.rows == remove_email(old(self)@.rows, email@),
            final(self)@.next_id == old(self)@.next_id,
    {
        let ghost pred = |r: CustomerV| r.email != email@;
        let n = self.customers.len();
        let mut kept: Vec<Customer> = Vec::new();
        let mut i: usize = 0;
        while i < n
            invariant
                i <= n,
                n == self.customers.len(),
                self@.rows == self.customers@.map_values(|c: Customer| c@),
                kept@.map_values(|c: Customer| c@) == self@.rows.subrange(0, i as int).filter(
                    pred,
                ),
                pred == (|r: CustomerV| r.email != email@),
            decreases n - i,
        {
            let row = &self.customers[i];
            let ghost prefix = self@.rows.subrange(0, i as int);
            if !str_eq(row.get_email(), email) {
                kept.push(row.clone());
            }
            proof {
                assert(self@.rows.subrange(0, i as int + 1) =~= prefix.push(self@.rows[i as int]));
                lemma_filter_push(prefix, pred, self@.rows[i as int]);
                assert(kept@.map_values(|c: Customer| c@) =~= self@.rows.subrange(
                    0,
                    i as int + 1,
                ).filter(pred));
            }
            i += 1;
        }
        proof {
            assert(self@.rows.subrange(0, n as int) =~= self@.rows);
            if old(self).wf() {
                lemma_remove_email_wf(self@, email@);
            }
        }
        self.customers = kept;
        proof {
            assert(self@ =~= (StoreV {
                rows: remove_email(old(self)@.rows, email@),
                next_id: old(self)@.next_id,
            }));
        }
    }
}

/// Character-wise string equality, specified over the views.
pub fn str_eq(a: &str, b: &str) -> (r: bool)
    ensures
        r == (a@ == b@),
{
    let n = a.unicode_len();
    let m = b.unicode_len();
    if n != m {
        proof {
            assert(a@ != b@) by {
                if a@ == b@ {
                    assert(a@.len() == b@.len());
                }
            }
        }
        return false;
    }
    let mut i: usize = 0;
    while i < n
        invariant
            i <= n,
            n == a@.len(),
            n == b@.len(),
            forall|j: int| 0 <= j < i ==> a@[j] == b@[j],
        decreases n - i,
    {
        if a.get_char(i) != b.get_char(i) {
            proof {
                assert(a@ != b@) by {
                    if a@ == b@ {
                        assert(a@[i as int] == b@[i as int]);
                    }
                }
            }
            return false;
        }
        i += 1;
    }
    proof {
        assert(a@ =~= b@);
    }
    true
}

/// If nothing before `i` matches and row `i` does, the first hit is row `i`.
proof fn lemma_find_first_hit(rows: Seq<CustomerV>, email: Seq<char>, i: int)
    requires
        0 <= i < rows.len(),
        forall|j: int| 0 <= j < i ==> #[trigger] rows[j].email != email,
        rows[i].email == email,
    ensures
        find_by_email(rows, email) == Some(rows[i]),
    decreases i,
{
    if i == 0 {
    } else {
        assert(rows[0].email != email);
        let rest = rows.drop_first();
        assert forall|j: int| 0 <= j < i - 1 implies #[trigger] rest[j].email != email by {
            assert(rest[j] == rows[j + 1]);
        }
        assert(rest[i - 1] == rows[i]);
        lemma_find_first_hit(rest, email, i - 1);
    }
}

/// If no row matches, the lookup finds nothing.
proof fn lemma_find_no_hit(rows: Seq<CustomerV>, email: Seq<char>)
    requires
        forall|j: int| 0 <= j < rows.len() ==> #[trigger] rows[j].email != email,
    ensures
        find_by_email(rows, email) is None,
    decreases rows.len(),
{
    if rows.len() > 0 {
        let rest = rows.drop_first();
        assert forall|j: int| 0 <= j < rest.len() implies #[trigger] rest[j].email != email by {
            assert(rest[j] == rows[j + 1]);
        }
        lemma_find_no_hit(rest, email);
    }
}

/// The converse of the two lemmas above: a missed lookup misses every row.
pub proof fn lemma_find_none_no_row(rows: Seq<CustomerV>, email: Seq<char>)
    requires
        find_by_email(rows, email) is None,
    ensures
        forall|j: int| 0 <= j < rows.len() ==> #[trigger] rows[j].email != email,
    decreases rows.len(),
{
    if rows.len() > 0 {
        let rest = rows.drop_first();
        lemma_find_none_no_row(rest, email);
        assert forall|j: int| 0 <= j < rows.len() implies #[trigger] rows[j].email != email by {
            if j > 0 {
                assert(rows[j] == rest[j - 1]);
            }
        }
    }
}

/// Looking up after appending a row: an earlier hit wins; otherwise the new
/// row is found exactly when its email matches.
pub proof fn lemma_find_push(rows: Seq<CustomerV>, email: Seq<char>, c: CustomerV)
    ensures
        find_by_email(rows.push(c), email) == (if find_by_email(rows, email) is Some {
            find_by_email(rows, email)
        } else if c.email == email {
            Some(c)
        } else {
            None::<CustomerV>
        }),
    decreases rows.len(),
{
    if rows.len() == 0 {
        assert(rows.push(c)[0] == c);
        assert(rows.push(c).drop_first() =~= Seq::<CustomerV>::empty());
    } else {
        assert(rows.push(c)[0] == rows[0]);
        assert(rows.push(c).drop_first() =~= rows.drop_first().push(c));
        lemma_find_push(rows.drop_first(), email, c);
    }
}

/// A lookup hits exactly when at least one row carries the email.
pub proof fn lemma_find_some_iff_count_pos(rows: Seq<CustomerV>, email: Seq<char>)
    ensures
        find_by_email(rows, email) is Some <==> count_email(rows, email) >= 1,
    decreases rows.len(),
{
    if rows.len() > 0 {
        lemma_find_some_iff_count_pos(rows.drop_first(), email);
    }
}

/// Filtering distributes over appending one element.
proof fn lemma_filter_push(s: Seq<CustomerV>, pred: spec_fn(CustomerV) -> bool, c: CustomerV)
    ensures
        s.push(c).filter(pred) == if pred(c) {
            s.filter(pred).push(c)
        } else {
            s.filter(pred)
        },
{
    reveal(Seq::filter);
    assert(s.push(c).drop_last() =~= s);
    assert(s.push(c).last() == c);
}

/// Removing rows keeps well-formedness: every kept row keeps its assigned id.
proof fn lemma_remove_email_wf(s: StoreV, email: Seq<char>)
    requires
        store_wf(s),
    ensures
        store_wf(StoreV { rows: remove_email(s.rows, email), next_id: s.next_id }),
{
    let pred = |r: CustomerV| r.email != email;
    let kept = s.rows.filter(pred);
    lemma_filter_elems_of(s.rows, pred);
    assert forall|i: int| 0 <= i < kept.len() implies (#[trigger] kept[i].customer_id) matches Some(
        id,
    ) && 1 <= id < s.next_id by {
        assert(s.rows.contains(kept[i]));
        let j = choose|j: int| 0 <= j < s.rows.len() && s.rows[j] == kept[i];
        assert(s.rows[j].customer_id matches Some(id) && 1 <= id < s.next_id);
    }
}

/// Every element of a filtered sequence occurs in the sequence it came from.
proof fn lemma_filter_elems_of(s: Seq<CustomerV>, pred: spec_fn(CustomerV) -> bool)
    ensures
        forall|i: int| 0 <= i < s.filter(pred).len() ==> s.contains(#[trigger] s.filter(pred)[i]),
    decreases s.len(),
{
    reveal(Seq::filter);
    if s.len() > 0 {
        let front = s.drop_last();
        lemma_filter_elems_of(front, pred);
        assert forall|i: int|
            0 <= i < s.filter(pred).len() implies s.contains(#[trigger] s.filter(pred)[i]) by {
            if i < front.filter(pred).len() {
                assert(front.contains(front.filter(pred)[i]));
                let j = choose|j: int| 0 <= j < front.len() && front[j] == front.filter(pred)[i];
                assert(s[j] == front[j]);
            } else {
                assert(s.filter(pred)[i] == s.last());
                assert(s[s.len() - 1] == s.last());
            }
        }
    }
}

/// Deleting an email that no row carries leaves the rows unchanged.
pub proof fn lemma_delete_absent_noop(rows: Seq<CustomerV>, email: Seq<char>)
    requires
        find_by_email(rows, email) is None,
    ensures
        remove_email(rows, email) == rows,
{
    lemma_find_none_no_row(rows, email);
    lemma_filter_all_kept(rows, |r: CustomerV| r.email != email);
}

/// A filter whose predicate holds of every element keeps the sequence intact.
proof fn lemma_filter_all_kept(s: Seq<CustomerV>, pred: spec_fn(CustomerV) -> bool)
    requires
        forall|i: int| 0 <= i < s.len() ==> pred(#[trigger] s[i]),
    ensures
        s.filter(pred) == s,
    decreases s.len(),
{
    reveal(Seq::filter);
    if s.len() > 0 {
        lemma_filter_all_kept(s.drop_last(), pred);
        assert(s =~= s.drop_last().push(s.last()));
    }
}

} // verus!
