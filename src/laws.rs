//! Laws that relate the operations of the listing store.

use vstd::prelude::*;

use crate::content::{
    DateContent, InputError, all_digits, decimal_value, time_check, too_long_message, unsigned_digits};
use crate::clock::LATEST_TIME;
use crate::service::{
    added, after_delete, after_reset, delete_result, expiry, has_id, index_of, lemma_filter_ids,
    lemma_remove_places, lifetime_days, lookup, next_index, reset_result, unexpired, unique_ids,
    wrong_password_message, Date, DatingService,
};

verus! {

/// A listing that was just created is found under its identifier, with the
/// content given and an expiry that lies its lifetime after its creation.
pub proof fn lemma_get_after_create(
    before: DatingService,
    after: DatingService,
    content: DateContent,
    now: int,
    r: Result<String, InputError>,
)
    requires
        before.wf(),
        i64::MIN <= now <= LATEST_TIME,
        added(before, after, content, now, r),
        r is Ok,
    ensures
        lookup(after@, r->Ok_0@) matches Some(d) && d.content == content && d.created == now
            && d.due == expiry(now, lifetime_days(content)),
{
    assert(after@.last() == after@[after@.len() - 1]);
}

/// Two listings created one after the other get different identifiers, and
/// both are kept.
pub proof fn lemma_creates_distinct(
    s0: DatingService,
    s1: DatingService,
    s2: DatingService,
    c1: DateContent,
    c2: DateContent,
    now1: int,
    now2: int,
    r1: Result<String, InputError>,
    r2: Result<String, InputError>,
)
    requires
        s0.wf(),
        added(s0, s1, c1, now1, r1),
        added(s1, s2, c2, now2, r2),
        r1 is Ok,
        r2 is Ok,
    ensures
        r1->Ok_0@ != r2->Ok_0@,
        s2@.len() == s0@.len() + 2,
{
    assert(s1.issued().contains(r1->Ok_0@));
}

/// A deletion with a wrong password keeps the listing where it was.
pub proof fn lemma_wrong_password_keeps(ds: Seq<Date>, id: Seq<char>, password: Seq<char>)
    requires
        unique_ids(ds),
        lookup(ds, id) matches Some(d) && d.content.password@ != password,
    ensures
        after_delete(ds, id, password) == ds,
        lookup(after_delete(ds, id, password), id) == lookup(ds, id),
        delete_result(ds, id, password) == Err::<(), Seq<char>>(wrong_password_message()),
{
}

/// A deletion with the right password leaves no listing under the identifier.
pub proof fn lemma_right_password_removes(ds: Seq<Date>, id: Seq<char>, password: Seq<char>)
    requires
        unique_ids(ds),
        lookup(ds, id) matches Some(d) ==> d.content.password@ == password,
    ensures
        lookup(after_delete(ds, id, password), id) is None,
{
    if has_id(ds, id) {
        let i = index_of(ds, id);
        lemma_remove_places(ds, i);
        let rest = ds.remove(i);
        if has_id(rest, id) {
            let j = index_of(rest, id);
            let k = if j < i {
                j
            } else {
                j + 1
            };
            assert(rest[j] == ds[k]);
            assert(ds[k].id@ == ds[i].id@);
        }
    }
}

/// "0" reads as a lifetime of zero days.
proof fn lemma_zero_days()
    ensures
        time_check("0"@) == Ok::<nat, Seq<char>>(0),
{
    reveal_strlit("0");
    let s = "0"@;
    assert(unsigned_digits(s) == s);
    assert(all_digits(s));
    assert(s.drop_last() =~= Seq::<char>::empty());
    reveal_with_fuel(decimal_value, 2);
    assert(decimal_value(s) == 0);
}

/// Asking for a lifetime of "0" days does what a deletion does.
pub proof fn lemma_reset_zero_deletes(ds: Seq<Date>, id: Seq<char>, password: Seq<char>, now: int)
    ensures
        after_reset(ds, id, password, "0"@, now) == after_delete(ds, id, password),
        reset_result(ds, id, password, "0"@) == delete_result(ds, id, password),
{
    lemma_zero_days();
}

/// Asking for a lifetime of "22" days is refused and changes nothing.
pub proof fn lemma_reset_too_long_keeps(ds: Seq<Date>, id: Seq<char>, password: Seq<char>, now: int)
    ensures
        after_reset(ds, id, password, "22"@, now) == ds,
        reset_result(ds, id, password, "22"@) == Err::<(), Seq<char>>(too_long_message()),
{
    reveal_strlit("22");
    let s = "22"@;
    assert(unsigned_digits(s) == s);
    assert(all_digits(s));
    assert(s.drop_last() =~= seq!['2']);
    assert(s.drop_last().drop_last() =~= Seq::<char>::empty());
    reveal_with_fuel(decimal_value, 3);
    assert(decimal_value(s.drop_last()) == 2);
    assert(decimal_value(s) == 22);
}

/// A sweep at `now` takes out the listing under `id` exactly when it expired
/// before `now`, and otherwise leaves it as it was.
pub proof fn lemma_sweep_expired(ds: Seq<Date>, id: Seq<char>, now: int)
    requires
        unique_ids(ds),
        lookup(ds, id) is Some,
    ensures
        lookup(ds, id)->0.due < now ==> lookup(unexpired(ds, now), id) is None,
        lookup(ds, id)->0.due >= now ==> lookup(unexpired(ds, now), id) == lookup(ds, id),
{
    let d = lookup(ds, id)->0;
    let i = index_of(ds, id);
    let p = crate::service::still_live(now);
    let f = unexpired(ds, now);
    lemma_filter_ids(ds, p);
    if has_id(f, id) {
        let a = index_of(f, id);
        assert(ds.contains(f[a]));
        let j = choose|j: int| 0 <= j < ds.len() && ds[j] == f[a];
        assert(ds[j].id@ == ds[i].id@);
        assert(j == i);
        assert(p(f[a]));
    }
    if d.due >= now {
        assert(p(ds[i]));
        assert(f.contains(ds[i]));
        let b = choose|b: int| 0 <= b < f.len() && f[b] == ds[i];
        assert(f[b].id@ == id);
        assert(has_id(f, id));
    }
}

/// After the last listing the rotation starts again at the first.
pub proof fn lemma_last_wraps(ds: Seq<Date>, id: Seq<char>)
    requires
        unique_ids(ds),
        ds.len() > 0,
        ds.last().id@ == id,
    ensures
        next_index(ds, Some(id)) == 0,
{
    assert(ds[ds.len() - 1].id@ == id);
    assert(has_id(ds, id));
    let i = index_of(ds, id);
    assert(ds[i].id@ == ds[ds.len() - 1].id@);
}

} // verus!
