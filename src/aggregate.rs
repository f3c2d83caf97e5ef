use crate::calendar::Date;
use crate::model::{amount_ok, Account, MovView, Movimentation, MAX_AMOUNT};
use vstd::prelude::*;
use vstd::seq_lib::to_multiset_insert;

verus! {

/// Which settled state the listing keeps.
#[derive(Clone, Copy, Debug, PartialEq, Eq, Structural)]
pub enum StatusFilter {
    /// Movements not yet settled.
    FORPAY,
    /// Settled movements.
    PAID,
    ALL,
}

/// A named running total, in cents.
pub struct Total {
    pub label: String,
    pub value: i128,
}

/// The part of the movements that a running total adds up.
pub enum Bucket {
    PendingExpense,
    PendingIncome,
    SettledExpense,
    SettledIncome,
    /// Movements due before the period, settled or not.
    Before,
    /// Settled movements due within the period.
    SettledInPeriod,
}

pub open spec fn views(v: Seq<Movimentation>) -> Seq<MovView> {
    v.map_values(|m: Movimentation| m@)
}

pub open spec fn in_period(m: MovView, from: Date, to: Date) -> bool {
    from.key() <= m.deadline.key() <= to.key()
}

pub open spec fn in_bucket(m: MovView, acc: Seq<char>, from: Date, to: Date, b: Bucket) -> bool {
    m.account == acc && match b {
        Bucket::Before => m.deadline.key() < from.key(),
        Bucket::SettledInPeriod => in_period(m, from, to) && m.settled(),
        Bucket::PendingExpense => in_period(m, from, to) && !m.settled() && m.value < 0,
        Bucket::PendingIncome => in_period(m, from, to) && !m.settled() && m.value >= 0,
        Bucket::SettledExpense => in_period(m, from, to) && m.settled() && m.value < 0,
        Bucket::SettledIncome => in_period(m, from, to) && m.settled() && m.value >= 0,
    }
}

/// The sum of the values of the movements in a bucket.
pub open spec fn sum_of(s: Seq<MovView>, acc: Seq<char>, from: Date, to: Date, b: Bucket) -> int
    decreases s.len(),
{
    if s.len() == 0 {
        0
    } else {
        sum_of(s.drop_last(), acc, from, to, b) + if in_bucket(s.last(), acc, from, to, b) {
            s.last().value as int
        } else {
            0
        }
    }
}

/// A movement of the account, due within the period, whose settled state the filter keeps.
pub open spec fn listed(m: MovView, acc: Seq<char>, from: Date, to: Date, status: StatusFilter) -> bool {
    m.account == acc && in_period(m, from, to) && match status {
        StatusFilter::FORPAY => !m.settled(),
        StatusFilter::PAID => m.settled(),
        StatusFilter::ALL => true,
    }
}

/// The movements that the listing keeps, in their order.
pub open spec fn kept(s: Seq<MovView>, acc: Seq<char>, from: Date, to: Date, status: StatusFilter) -> Seq<MovView>
    decreases s.len(),
{
    if s.len() == 0 {
        s
    } else if listed(s.last(), acc, from, to, status) {
        kept(s.drop_last(), acc, from, to, status).push(s.last())
    } else {
        kept(s.drop_last(), acc, from, to, status)
    }
}

/// Where a movement due on the day with key `k` goes in a list sorted by deadline:
/// after every movement due on or before that day.
pub open spec fn slot(s: Seq<MovView>, k: int) -> int
    decreases s.len(),
{
    if s.len() == 0 {
        0
    } else if s.last().deadline.key() <= k {
        s.len() as int
    } else {
        slot(s.drop_last(), k)
    }
}

/// Stable sort by deadline: each movement is placed after those already placed
/// that are due on or before its deadline.
pub open spec fn sort_by_deadline(s: Seq<MovView>) -> Seq<MovView>
    decreases s.len(),
{
    if s.len() == 0 {
        s
    } else {
        let r = sort_by_deadline(s.drop_last());
        r.insert(slot(r, s.last().deadline.key()), s.last())
    }
}

pub open spec fn sorted_by_deadline(s: Seq<MovView>) -> bool {
    forall|i: int, j: int| 0 <= i <= j < s.len() ==> (#[trigger] s[i]).deadline.key() <= (#[trigger] s[j]).deadline.key()
}

/// What the listing returns for the movements `s`.
pub open spec fn listing(s: Seq<MovView>, acc: Seq<char>, from: Date, to: Date, status: StatusFilter) -> Seq<MovView> {
    sort_by_deadline(kept(s, acc, from, to, status))
}

/// The six running totals, in the order the aggregation returns them.
pub open spec fn total_spec(s: Seq<MovView>, acc: Seq<char>, opening: i64, from: Date, to: Date, k: int) -> int {
    if k == 0 {
        sum_of(s, acc, from, to, Bucket::PendingExpense)
    } else if k == 1 {
        sum_of(s, acc, from, to, Bucket::PendingIncome)
    } else if k == 2 {
        sum_of(s, acc, from, to, Bucket::SettledExpense)
    } else if k == 3 {
        sum_of(s, acc, from, to, Bucket::SettledIncome)
    } else if k == 4 {
        opening + sum_of(s, acc, from, to, Bucket::Before)
    } else {
        opening + sum_of(s, acc, from, to, Bucket::Before) + sum_of(s, acc, from, to, Bucket::SettledInPeriod)
    }
}

proof fn lemma_sum_bound(s: Seq<MovView>, acc: Seq<char>, from: Date, to: Date, b: Bucket)
    requires
        forall|i: int| 0 <= i < s.len() ==> amount_ok((#[trigger] s[i]).value),
    ensures
        -(s.len() * MAX_AMOUNT) <= sum_of(s, acc, from, to, b) <= s.len() * MAX_AMOUNT,
    decreases s.len(),
{
    if s.len() > 0 {
        lemma_sum_bound(s.drop_last(), acc, from, to, b);
        assert(amount_ok(s[s.len() - 1].value));
    }
}

proof fn lemma_slot(s: Seq<MovView>, k: int)
    ensures
        0 <= slot(s, k) <= s.len(),
        forall|i: int| slot(s, k) <= i < s.len() ==> (#[trigger] s[i]).deadline.key() > k,
        slot(s, k) > 0 ==> s[slot(s, k) - 1].deadline.key() <= k,
    decreases s.len(),
{
    if s.len() > 0 && s.last().deadline.key() > k {
        lemma_slot(s.drop_last(), k);
        assert forall|i: int| slot(s, k) <= i < s.len() implies (#[trigger] s[i]).deadline.key() > k by {
            if i < s.len() - 1 {
                assert(s[i] == s.drop_last()[i]);
            }
        }
    }
}

/// Sorting by deadline keeps the movements and puts them in order.
pub proof fn lemma_sort_by_deadline(s: Seq<MovView>)
    ensures
        sorted_by_deadline(sort_by_deadline(s)),
        sort_by_deadline(s).to_multiset() == s.to_multiset(),
    decreases s.len(),
{
    broadcast use vstd::seq_lib::group_to_multiset_ensures;
    if s.len() > 0 {
        let r = sort_by_deadline(s.drop_last());
        let x = s.last();
        let k = x.deadline.key();
        lemma_sort_by_deadline(s.drop_last());
        lemma_slot(r, k);
        let j = slot(r, k);
        let t = r.insert(j, x);
        assert forall|a: int, b: int| 0 <= a <= b < t.len() implies (#[trigger] t[a]).deadline.key()
            <= (#[trigger] t[b]).deadline.key() by {
            if a < j && b < j {
                assert(t[a] == r[a] && t[b] == r[b]);
            } else if a < j && b == j {
                assert(t[a] == r[a] && r[a].deadline.key() <= r[j - 1].deadline.key());
            } else if a < j {
                assert(t[a] == r[a] && t[b] == r[b - 1]);
            } else if a == j && b > j {
                assert(t[b] == r[b - 1]);
            } else if a > j {
                assert(t[a] == r[a - 1] && t[b] == r[b - 1]);
            }
        }
        to_multiset_insert(r, j, x);
        assert(s =~= s.drop_last().push(x));
    }
}

/// Every movement in the listing's selection is one that it keeps.
proof fn lemma_kept_listed(s: Seq<MovView>, acc: Seq<char>, from: Date, to: Date, status: StatusFilter)
    ensures
        forall|i: int| 0 <= i < kept(s, acc, from, to, status).len()
            ==> listed(#[trigger] kept(s, acc, from, to, status)[i], acc, from, to, status),
        forall|x: MovView| #[trigger] kept(s, acc, from, to, status).contains(x) ==> s.contains(x),
    decreases s.len(),
{
    if s.len() > 0 {
        lemma_kept_listed(s.drop_last(), acc, from, to, status);
        let p = kept(s.drop_last(), acc, from, to, status);
        if listed(s.last(), acc, from, to, status) {
            assert(kept(s, acc, from, to, status) == p.push(s.last()));
        } else {
            assert(kept(s, acc, from, to, status) == p);
        }
        assert forall|x: MovView| kept(s, acc, from, to, status).contains(x) implies s.contains(x) by {
            let i = choose|i: int| 0 <= i < kept(s, acc, from, to, status).len() && kept(s, acc, from, to, status)[i] == x;
            if i < p.len() {
                assert(kept(s, acc, from, to, status)[i] == p[i]);
                assert(p.contains(x));
                assert(s.drop_last().contains(x));
                let j = choose|j: int| 0 <= j < s.drop_last().len() && s.drop_last()[j] == x;
                assert(s[j] == x);
            } else {
                assert(s[s.len() - 1] == x);
            }
        }
        assert forall|i: int| 0 <= i < kept(s, acc, from, to, status).len() implies listed(
            #[trigger] kept(s, acc, from, to, status)[i], acc, from, to, status) by {
            if i < p.len() {
                assert(kept(s, acc, from, to, status)[i] == p[i]);
            }
        }
    }
}

/// Places a movement after those in `list` due on or before its deadline.
fn insert_by_deadline(list: &mut Vec<Movimentation>, m: Movimentation)
    requires
        forall|i: int| 0 <= i < old(list)@.len() ==> (#[trigger] old(list)@[i])@.deadline.wf(),
        m@.deadline.wf(),
    ensures
        views(final(list)@) == views(old(list)@).insert(slot(views(old(list)@), m@.deadline.key()), m@),
        forall|i: int| 0 <= i < final(list)@.len() ==> (#[trigger] final(list)@[i])@.deadline.wf(),
{
    let k = m.deadline.ordinal();
    let ghost s = views(list@);
    let mut j: usize = list.len();
    assert(s.take(j as int) =~= s);
    while j > 0 && list[j - 1].deadline.ordinal() > k
        invariant
            0 <= j <= list@.len(),
            s == views(list@),
            forall|i: int| 0 <= i < list@.len() ==> (#[trigger] list@[i])@.deadline.wf(),
            slot(s, k as int) == slot(s.take(j as int), k as int),
        decreases j,
    {
        assert(s.take(j as int).drop_last() =~= s.take(j - 1));
        j = j - 1;
    }
    assert(slot(s.take(j as int), k as int) == j) by {
        if j > 0 {
            assert(s.take(j as int).last() == s[j - 1]);
        }
    }
    let ghost old_list = list@;
    list.insert(j, m);
    assert(views(list@) =~= s.insert(j as int, m@));
    assert forall|i: int| 0 <= i < list@.len() implies (#[trigger] list@[i])@.deadline.wf() by {
        if i < j {
            assert(list@[i] == old_list[i]);
        } else if i > j {
            assert(list@[i] == old_list[i - 1]);
        }
    }
}

/// Lists the movements of an account due within `[from, to]` whose settled state
/// the filter keeps, sorted by deadline (stable), with six running totals: pending
/// expenses, pending incomes, settled expenses, settled incomes, the balance before
/// the period and the balance at its end. Both balances start at the account's
/// opening balance and add every movement due before `from`, settled or not; the
/// balance at the end adds the settled movements due within the period to that. Movements due after `to` count nowhere.
pub fn aggregate(records: &Vec<Movimentation>, account: &Account, from: Date, to: Date, status: StatusFilter) -> (r: (Vec<Movimentation>, Vec<Total>))
    requires
        forall|i: int| 0 <= i < records@.len() ==> (#[trigger] records@[i])@.in_range(),
        amount_ok(account.open_balance),
        from.wf(),
        to.wf(),
    ensures
        views(r.0@) == listing(views(records@), account.uuid@, from, to, status),
        r.1@.len() == 6,
        r.1@[0].label@ == "Expenses(payable)"@,
        r.1@[1].label@ == "Incomes(to receive)"@,
        r.1@[2].label@ == "Expenses"@,
        r.1@[3].label@ == "Incomes"@,
        r.1@[4].label@ == "Previous balance"@,
        r.1@[5].label@ == "Current balance"@,
        forall|k: int| 0 <= k < 6 ==> (#[trigger] r.1@[k]).value == total_spec(views(records@), account.uuid@, account.open_balance, from, to, k),
{
    let ghost s = views(records@);
    let ghost acc = account.uuid@;
    let fk = from.ordinal();
    let tk = to.ordinal();
    let mut list: Vec<Movimentation> = Vec::new();
    let mut pending_expense: i128 = 0;
    let mut pending_income: i128 = 0;
    let mut settled_expense: i128 = 0;
    let mut settled_income: i128 = 0;
    let mut previous: i128 = account.open_balance as i128;
    let mut current: i128 = account.open_balance as i128;
    let mut i: usize = 0;
    while i < records.len()
        invariant
            0 <= i <= records@.len(),
            s == views(records@),
            acc == account.uuid@,
            fk == from.key(),
            tk == to.key(),
            forall|q: int| 0 <= q < records@.len() ==> (#[trigger] records@[q])@.in_range(),
            amount_ok(account.open_balance),
            forall|q: int| 0 <= q < list@.len() ==> (#[trigger] list@[q])@.deadline.wf(),
            views(list@) == listing(s.take(i as int), acc, from, to, status),
            pending_expense == sum_of(s.take(i as int), acc, from, to, Bucket::PendingExpense),
            pending_income == sum_of(s.take(i as int), acc, from, to, Bucket::PendingIncome),
            settled_expense == sum_of(s.take(i as int), acc, from, to, Bucket::SettledExpense),
            settled_income == sum_of(s.take(i as int), acc, from, to, Bucket::SettledIncome),
            previous == account.open_balance + sum_of(s.take(i as int), acc, from, to, Bucket::Before),
            current == account.open_balance + sum_of(s.take(i as int), acc, from, to, Bucket::Before)
                + sum_of(s.take(i as int), acc, from, to, Bucket::SettledInPeriod),
        decreases records@.len() - i,
    {
        let ghost p = s.take(i as int);
        let ghost q = s.take(i + 1);
        assert(q.drop_last() =~= p);
        assert(q.last() == records@[i as int]@);
        assert forall|z: int| 0 <= z < p.len() implies amount_ok((#[trigger] p[z]).value) by {
            assert(p[z] == records@[z]@);
        }
        proof {
            lemma_sum_bound(p, acc, from, to, Bucket::PendingExpense);
            lemma_sum_bound(p, acc, from, to, Bucket::PendingIncome);
            lemma_sum_bound(p, acc, from, to, Bucket::SettledExpense);
            lemma_sum_bound(p, acc, from, to, Bucket::SettledIncome);
            lemma_sum_bound(p, acc, from, to, Bucket::Before);
            lemma_sum_bound(p, acc, from, to, Bucket::SettledInPeriod);
        }
        let m = &records[i];
        let v = m.value as i128;
        if m.account == account.uuid {
            let k = m.deadline.ordinal();
            if k < fk {
                previous = previous + v;
                current = current + v;
            } else if k > tk {
            } else if m.paid_in.is_some() {
                current = current + v;
                if m.value >= 0 {
                    settled_income = settled_income + v;
                } else {
                    settled_expense = settled_expense + v;
                }
                if status == StatusFilter::PAID || status == StatusFilter::ALL {
                    insert_by_deadline(&mut list, m.duplicate());
                }
            } else {
                if m.value >= 0 {
                    pending_income = pending_income + v;
                } else {
                    pending_expense = pending_expense + v;
                }
                if status == StatusFilter::FORPAY || status == StatusFilter::ALL {
                    insert_by_deadline(&mut list, m.duplicate());
                }
            }
        }
        proof {
            let x = q.last();
            let kp = kept(p, acc, from, to, status);
            if listed(x, acc, from, to, status) {
                assert(kept(q, acc, from, to, status) == kp.push(x));
                assert(kp.push(x).drop_last() =~= kp);
            } else {
                assert(kept(q, acc, from, to, status) == kp);
            }
        }
        i = i + 1;
    }
    assert(s.take(records@.len() as int) =~= s);
    let mut totals: Vec<Total> = Vec::new();
    totals.push(Total { label: "Expenses(payable)".to_string(), value: pending_expense });
    totals.push(Total { label: "Incomes(to receive)".to_string(), value: pending_income });
    totals.push(Total { label: "Expenses".to_string(), value: settled_expense });
    totals.push(Total { label: "Incomes".to_string(), value: settled_income });
    totals.push(Total { label: "Previous balance".to_string(), value: previous });
    totals.push(Total { label: "Current balance".to_string(), value: current });
    (list, totals)
}

/// The listing is in order of deadline.
pub proof fn lemma_listing_sorted(s: Seq<MovView>, acc: Seq<char>, from: Date, to: Date, status: StatusFilter)
    ensures
        sorted_by_deadline(listing(s, acc, from, to, status)),
{
    lemma_sort_by_deadline(kept(s, acc, from, to, status));
}

/// Every movement in the listing is one of the scanned movements, belongs to the
/// account, is due within the period and has a settled state that the filter keeps.
pub proof fn lemma_listing_members(s: Seq<MovView>, acc: Seq<char>, from: Date, to: Date, status: StatusFilter)
    ensures
        forall|i: int| 0 <= i < listing(s, acc, from, to, status).len() ==> {
            let y = #[trigger] listing(s, acc, from, to, status)[i];
            listed(y, acc, from, to, status) && s.contains(y)
        },
{
    broadcast use vstd::seq_lib::group_to_multiset_ensures;
    let k = kept(s, acc, from, to, status);
    let l = listing(s, acc, from, to, status);
    lemma_sort_by_deadline(k);
    lemma_kept_listed(s, acc, from, to, status);
    assert forall|i: int| 0 <= i < l.len() implies {
        let y = #[trigger] l[i];
        listed(y, acc, from, to, status) && s.contains(y)
    } by {
        let y = l[i];
        assert(l.contains(y));
        assert(l.to_multiset().count(y) > 0);
        assert(k.contains(y));
        let j = choose|j: int| 0 <= j < k.len() && k[j] == y;
        assert(listed(k[j], acc, from, to, status));
    }
}

proof fn lemma_push_sum(s: Seq<MovView>, x: MovView, acc: Seq<char>, from: Date, to: Date, b: Bucket)
    ensures
        sum_of(s.push(x), acc, from, to, b) == sum_of(s, acc, from, to, b) + if in_bucket(x, acc, from, to, b) {
            x.value as int
        } else {
            0
        },
{
    assert(s.push(x).drop_last() =~= s);
}

proof fn lemma_push_kept(s: Seq<MovView>, x: MovView, acc: Seq<char>, from: Date, to: Date, status: StatusFilter)
    requires
        !listed(x, acc, from, to, status),
    ensures
        listing(s.push(x), acc, from, to, status) == listing(s, acc, from, to, status),
{
    assert(s.push(x).drop_last() =~= s);
}

/// A movement of the account due before `from` adds its value to the balance
/// before the period, and so to the balance at its end, and to no other total,
/// whatever its settled state; it never appears in a listing for the period.
pub proof fn lemma_due_before_period(
    s: Seq<MovView>,
    x: MovView,
    acc: Seq<char>,
    opening: i64,
    from: Date,
    to: Date,
    status: StatusFilter,
)
    requires
        x.account == acc,
        x.deadline.key() < from.key(),
    ensures
        total_spec(s.push(x), acc, opening, from, to, 4) == total_spec(s, acc, opening, from, to, 4) + x.value,
        total_spec(s.push(x), acc, opening, from, to, 5) == total_spec(s, acc, opening, from, to, 5) + x.value,
        forall|k: int| 0 <= k < 4 ==> #[trigger] total_spec(s.push(x), acc, opening, from, to, k)
            == total_spec(s, acc, opening, from, to, k),
        listing(s.push(x), acc, from, to, status) == listing(s, acc, from, to, status),
        forall|t: Seq<MovView>| !(#[trigger] listing(t, acc, from, to, status)).contains(x),
{
    lemma_push_sum(s, x, acc, from, to, Bucket::PendingExpense);
    lemma_push_sum(s, x, acc, from, to, Bucket::PendingIncome);
    lemma_push_sum(s, x, acc, from, to, Bucket::SettledExpense);
    lemma_push_sum(s, x, acc, from, to, Bucket::SettledIncome);
    lemma_push_sum(s, x, acc, from, to, Bucket::Before);
    lemma_push_sum(s, x, acc, from, to, Bucket::SettledInPeriod);
    lemma_push_kept(s, x, acc, from, to, status);
    assert forall|t: Seq<MovView>| !(#[trigger] listing(t, acc, from, to, status)).contains(x) by {
        lemma_listing_members(t, acc, from, to, status);
    }
}

/// A movement due after `to` changes no total and never appears in a listing for
/// the period.
pub proof fn lemma_due_after_period(
    s: Seq<MovView>,
    x: MovView,
    acc: Seq<char>,
    opening: i64,
    from: Date,
    to: Date,
    status: StatusFilter,
)
    requires
        x.deadline.key() > to.key(),
        from.key() <= to.key(),
    ensures
        forall|k: int| 0 <= k < 6 ==> #[trigger] total_spec(s.push(x), acc, opening, from, to, k)
            == total_spec(s, acc, opening, from, to, k),
        listing(s.push(x), acc, from, to, status) == listing(s, acc, from, to, status),
        forall|t: Seq<MovView>| !(#[trigger] listing(t, acc, from, to, status)).contains(x),
{
    lemma_push_sum(s, x, acc, from, to, Bucket::PendingExpense);
    lemma_push_sum(s, x, acc, from, to, Bucket::PendingIncome);
    lemma_push_sum(s, x, acc, from, to, Bucket::SettledExpense);
    lemma_push_sum(s, x, acc, from, to, Bucket::SettledIncome);
    lemma_push_sum(s, x, acc, from, to, Bucket::Before);
    lemma_push_sum(s, x, acc, from, to, Bucket::SettledInPeriod);
    lemma_push_kept(s, x, acc, from, to, status);
    assert forall|t: Seq<MovView>| !(#[trigger] listing(t, acc, from, to, status)).contains(x) by {
        lemma_listing_members(t, acc, from, to, status);
    }
}

/// The balance at the end of the period is the balance before it plus the settled
/// movements of the account due within it.
pub proof fn lemma_current_balance(s: Seq<MovView>, acc: Seq<char>, opening: i64, from: Date, to: Date)
    ensures
        total_spec(s, acc, opening, from, to, 5) == total_spec(s, acc, opening, from, to, 4)
            + sum_of(s, acc, from, to, Bucket::SettledInPeriod),
{
}

} // verus!
