//! The listing store: creation, lookup, rotation, extension, deletion and
//! expiry of listings.

use vstd::prelude::*;
use vstd::string::*;

use crate::clock::{now_seconds, DAY_SECONDS, LATEST_TIME};
use crate::content::{
    check_content, is_placeholder, lifetime_text, texts, time_check, validate_time,
    validation_errors, DateContent, InputError, MAX_DAYS,
};
use crate::ids::{encode_serial, lowercase_block_id, ID_LENGTH, ID_SEED};

verus! {

/// A stored listing: its identifier, when it was made and when it expires
/// (seconds since the epoch), and what the user wrote.
#[derive(Debug)]
pub struct Date {
    pub id: String,
    pub created: i64,
    pub due: i64,
    pub content: DateContent,
}

impl Clone for Date {
    fn clone(&self) -> (r: Self)
        ensures
            r == *self,
    {
        Date {
            id: self.id.clone(),
            created: self.created,
            due: self.due,
            content: self.content.clone(),
        }
    }
}

/// The moment at which a lifetime of `days` days that starts at `start` ends.
pub open spec fn expiry(start: int, days: int) -> int {
    start + days * DAY_SECONDS
}

impl Date {
    /// A listing made now that lives `alive_in_days` days.
    pub fn new(id: String, content: DateContent, alive_in_days: i64) -> (r: Date)
        requires
            0 <= alive_in_days <= MAX_DAYS,
        ensures
            r.id == id,
            r.content == content,
            0 <= r.created <= LATEST_TIME,
            r.due == expiry(r.created as int, alive_in_days as int),
    {
        let now = now_seconds();
        Date::new_at(id, content, alive_in_days, now)
    }

    /// A listing made at `now` that lives `alive_in_days` days.
    pub fn new_at(id: String, content: DateContent, alive_in_days: i64, now: i64) -> (r: Date)
        requires
            0 <= alive_in_days <= MAX_DAYS,
            now <= LATEST_TIME,
        ensures
            r.id == id,
            r.content == content,
            r.created == now,
            r.due == expiry(now as int, alive_in_days as int),
    {
        Date { id, created: now, due: now + alive_in_days * DAY_SECONDS, content }
    }
}

/// No two listings of `ds` share an identifier.
pub open spec fn unique_ids(ds: Seq<Date>) -> bool {
    forall|i: int, j: int|
        0 <= i < ds.len() && 0 <= j < ds.len() && i != j ==> #[trigger] ds[i].id@ != #[trigger] ds[j].id@
}

/// Some listing of `ds` has the identifier `id`.
pub open spec fn has_id(ds: Seq<Date>, id: Seq<char>) -> bool {
    exists|i: int| 0 <= i < ds.len() && #[trigger] ds[i].id@ == id
}

/// The place of the listing with identifier `id` in `ds`.
pub open spec fn index_of(ds: Seq<Date>, id: Seq<char>) -> int {
    choose|i: int| 0 <= i < ds.len() && #[trigger] ds[i].id@ == id
}

/// The listing with identifier `id`, if `ds` holds one.
pub open spec fn lookup(ds: Seq<Date>, id: Seq<char>) -> Option<Date> {
    if has_id(ds, id) {
        Some(ds[index_of(ds, id)])
    } else {
        None
    }
}

pub open spec fn not_found_message() -> Seq<char> {
    "Date does not exist!"@
}

pub open spec fn wrong_password_message() -> Seq<char> {
    "Password incorrect!"@
}

pub open spec fn ids_exhausted_message() -> Seq<char> {
    "No identifier is left for a new date"@
}

/// The place of the listing `id` when `password` is its password, or why not.
pub open spec fn authorize(ds: Seq<Date>, id: Seq<char>, password: Seq<char>) -> Result<
    int,
    Seq<char>,
> {
    if !has_id(ds, id) {
        Err(not_found_message())
    } else if ds[index_of(ds, id)].content.password@ != password {
        Err(wrong_password_message())
    } else {
        Ok(index_of(ds, id))
    }
}

/// The listings after a request to delete `id` with `password`.
pub open spec fn after_delete(ds: Seq<Date>, id: Seq<char>, password: Seq<char>) -> Seq<Date> {
    match authorize(ds, id, password) {
        Ok(i) => ds.remove(i),
        Err(_) => ds,
    }
}

/// The answer to a request to delete `id` with `password`.
pub open spec fn delete_result(ds: Seq<Date>, id: Seq<char>, password: Seq<char>) -> Result<
    (),
    Seq<char>,
> {
    match authorize(ds, id, password) {
        Ok(_) => Ok(()),
        Err(m) => Err(m),
    }
}

/// `d` with its expiry moved to `due`.
pub open spec fn with_due(d: Date, due: int) -> Date {
    Date { due: due as i64, ..d }
}

/// The listings after a request at `now` to let `id` live `days` more days.
pub open spec fn after_reset(
    ds: Seq<Date>,
    id: Seq<char>,
    password: Seq<char>,
    days: Seq<char>,
    now: int,
) -> Seq<Date> {
    match time_check(days) {
        Err(_) => ds,
        Ok(d) => match authorize(ds, id, password) {
            Err(_) => ds,
            Ok(i) => if d == 0 {
                ds.remove(i)
            } else {
                ds.update(i, with_due(ds[i], expiry(now, d as int)))
            },
        },
    }
}

/// The answer to a request to let `id` live `days` more days.
pub open spec fn reset_result(
    ds: Seq<Date>,
    id: Seq<char>,
    password: Seq<char>,
    days: Seq<char>,
) -> Result<(), Seq<char>> {
    match time_check(days) {
        Err(m) => Err(m),
        Ok(_) => delete_result(ds, id, password),
    }
}

/// Whether a listing has not expired at `now`.
pub open spec fn still_live(now: int) -> spec_fn(Date) -> bool {
    |d: Date| d.due >= now
}

/// The listings of `ds` that have not expired at `now`, in their order.
pub open spec fn unexpired(ds: Seq<Date>, now: int) -> Seq<Date> {
    ds.filter(still_live(now))
}

/// The place of the listing shown after `id` in the rotation: the next one,
/// or the first where `id` is the last or unknown, or where none is given.
pub open spec fn next_index(ds: Seq<Date>, id: Option<Seq<char>>) -> int {
    match id {
        None => 0,
        Some(id) => if has_id(ds, id) && index_of(ds, id) + 1 < ds.len() {
            index_of(ds, id) + 1
        } else {
            0
        },
    }
}

/// The text of an optional identifier.
pub open spec fn optional_text(id: Option<&str>) -> Option<Seq<char>> {
    match id {
        Some(s) => Some(s@),
        None => None,
    }
}

/// The lifetime in days that `c` asks for, where it asks for a valid one.
pub open spec fn lifetime_days(c: DateContent) -> int {
    match time_check(lifetime_text(c)) {
        Ok(d) => d as int,
        Err(_) => 0,
    }
}

/// The identifier of serial number `k`.
pub open spec fn serial_id(k: u64) -> Option<Seq<char>> {
    lowercase_block_id(ID_SEED, ID_LENGTH, k)
}

/// The identifiers of the first `count` serial numbers.
pub open spec fn issued_ids(count: nat) -> Set<Seq<char>> {
    Set::new(|s: Seq<char>| exists|k: u64| k < count && #[trigger] serial_id(k) == Some(s))
}

/// What stands at each place after the listing at `i` is taken out.
pub(crate) proof fn lemma_remove_places(ds: Seq<Date>, i: int)
    requires
        0 <= i < ds.len(),
    ensures
        ds.remove(i).len() == ds.len() - 1,
        forall|j: int|
            0 <= j < ds.len() - 1 ==> #[trigger] ds.remove(i)[j] == if j < i {
                ds[j]
            } else {
                ds[j + 1]
            },
        unique_ids(ds) ==> unique_ids(ds.remove(i)),
{
    let r = ds.remove(i);
    assert forall|j: int| 0 <= j < ds.len() - 1 implies #[trigger] r[j] == if j < i {
        ds[j]
    } else {
        ds[j + 1]
    } by {}
    if unique_ids(ds) {
        assert forall|a: int, b: int|
            0 <= a < r.len() && 0 <= b < r.len() && a != b implies #[trigger] r[a].id@
            != #[trigger] r[b].id@ by {
            let x = if a < i {
                a
            } else {
                a + 1
            };
            let y = if b < i {
                b
            } else {
                b + 1
            };
            assert(r[a] == ds[x]);
            assert(r[b] == ds[y]);
        }
    }
}

/// Moving the expiry of one listing changes no identifier.
proof fn lemma_update_ids(ds: Seq<Date>, i: int, due: int)
    requires
        0 <= i < ds.len(),
    ensures
        forall|j: int|
            0 <= j < ds.len() ==> #[trigger] ds.update(i, with_due(ds[i], due))[j].id@ == ds[j].id@,
        unique_ids(ds) ==> unique_ids(ds.update(i, with_due(ds[i], due))),
{
    let r = ds.update(i, with_due(ds[i], due));
    assert forall|j: int| 0 <= j < ds.len() implies #[trigger] r[j].id@ == ds[j].id@ by {}
    if unique_ids(ds) {
        assert forall|a: int, b: int|
            0 <= a < r.len() && 0 <= b < r.len() && a != b implies #[trigger] r[a].id@
            != #[trigger] r[b].id@ by {
            assert(r[a].id@ == ds[a].id@);
            assert(r[b].id@ == ds[b].id@);
        }
    }
}

/// A filtered list holds only listings of the list, and keeps identifiers
/// unique.
pub(crate) proof fn lemma_filter_ids(ds: Seq<Date>, p: spec_fn(Date) -> bool)
    ensures
        forall|a: int| 0 <= a < ds.filter(p).len() ==> ds.contains(#[trigger] ds.filter(p)[a]),
        unique_ids(ds) ==> unique_ids(ds.filter(p)),
    decreases ds.len(),
{
    reveal(Seq::filter);
    let f = ds.filter(p);
    if ds.len() > 0 {
        let init = ds.drop_last();
        lemma_filter_ids(init, p);
        let g = init.filter(p);
        assert forall|a: int| 0 <= a < g.len() implies ds.contains(#[trigger] g[a]) by {
            let j = choose|j: int| 0 <= j < init.len() && init[j] == g[a];
            assert(ds[j] == g[a]);
        }
        if p(ds.last()) {
            assert(f == g.push(ds.last()));
            assert forall|a: int| 0 <= a < f.len() implies ds.contains(#[trigger] f[a]) by {
                if a < g.len() {
                    assert(f[a] == g[a]);
                } else {
                    assert(f[a] == ds[ds.len() - 1]);
                }
            }
            if unique_ids(ds) {
                assert forall|a: int, b: int|
                    0 <= a < f.len() && 0 <= b < f.len() && a != b implies #[trigger] f[a].id@
                    != #[trigger] f[b].id@ by {
                    if a < g.len() && b < g.len() {
                        assert(f[a] == g[a] && f[b] == g[b]);
                        assert(unique_ids(g));
                    } else if a < g.len() {
                        let j = choose|j: int| 0 <= j < init.len() && init[j] == g[a];
                        assert(f[a] == ds[j]);
                        assert(f[b] == ds[ds.len() - 1]);
                    } else {
                        let j = choose|j: int| 0 <= j < init.len() && init[j] == g[b];
                        assert(f[b] == ds[j]);
                        assert(f[a] == ds[ds.len() - 1]);
                    }
                }
            }
        } else {
            assert(f == g);
        }
    }
}

/// The store of listings. Every listing carries an identifier that the store
/// issued and no other listing carries.
pub struct DatingService {
    dates: Vec<Date>,
    current_id: u64,
}

impl View for DatingService {
    type V = Seq<Date>;

    closed spec fn view(&self) -> Seq<Date> {
        self.dates@
    }
}

/// Finds the place of `id` in `ds`.
fn position(ds: &[Date], id: &str) -> (r: Option<usize>)
    requires
        unique_ids(ds@),
    ensures
        r matches Some(i) ==> has_id(ds@, id@) && i as int == index_of(ds@, id@),
        r is None ==> !has_id(ds@, id@),
{
    let key = String::from_str(id);
    let mut i: usize = 0;
    while i < ds.len()
        invariant
            i <= ds@.len(),
            unique_ids(ds@),
            key@ == id@,
            forall|j: int| 0 <= j < i ==> #[trigger] ds@[j].id@ != id@,
        decreases ds@.len() - i,
    {
        if ds[i].id == key {
            proof {
                assert(has_id(ds@, id@));
                let j = index_of(ds@, id@);
                assert(ds@[j].id@ == ds@[i as int].id@);
            }
            return Some(i);
        }
        i = i + 1;
    }
    None
}

impl DatingService {
    /// How many identifiers the store has issued.
    pub closed spec fn serial(&self) -> nat {
        self.current_id as nat
    }

    /// Every identifier the store has issued.
    pub open spec fn issued(&self) -> Set<Seq<char>> {
        issued_ids(self.serial())
    }

    /// Identifiers are unique, and each one was issued by this store.
    pub open spec fn wf(&self) -> bool {
        &&& unique_ids(self@)
        &&& forall|i: int| 0 <= i < self@.len() ==> self.issued().contains(#[trigger] self@[i].id@)
    }

    /// An empty store that has issued nothing.
    pub fn new() -> (r: DatingService)
        ensures
            r.wf(),
            r@ == Seq::<Date>::empty(),
            r.serial() == 0,
    {
        DatingService { dates: Vec::new(), current_id: 0 }
    }

    /// The listing with identifier `id`.
    pub fn get_date(&self, id: &str) -> (r: Result<Date, ()>)
        requires
            self.wf(),
        ensures
            r == (match lookup(self@, id@) {
                Some(d) => Ok::<Date, ()>(d),
                None => Err(()),
            }),
    {
        match position(self.dates.as_slice(), id) {
            Some(i) => Ok(self.dates[i].clone()),
            None => Err(()),
        }
    }

    /// All listings, in the order in which they were made.
    pub fn list(&self) -> (r: Vec<Date>)
        ensures
            r@ == self@,
    {
        let mut out: Vec<Date> = Vec::new();
        let mut i: usize = 0;
        while i < self.dates.len()
            invariant
                i <= self@.len(),
                out@ == self@.subrange(0, i as int),
            decreases self@.len() - i,
        {
            out.push(self.dates[i].clone());
            i = i + 1;
            assert(out@ =~= self@.subrange(0, i as int));
        }
        assert(self@.subrange(0, self@.len() as int) =~= self@);
        out
    }
    /// The place of listing `id` in `vector_of_dates`, if `password` is its
    /// password; else why not.
    pub fn find_date(&self, id: &str, password: String, vector_of_dates: &[Date]) -> (r: Result<
        usize,
        String,
    >)
        requires
            unique_ids(vector_of_dates@),
        ensures
            match r {
                Ok(i) => authorize(vector_of_dates@, id@, password@) == Ok::<int, Seq<char>>(
                    i as int,
                ),
                Err(e) => authorize(vector_of_dates@, id@, password@) == Err::<int, Seq<char>>(
                    e@,
                ),
            },
    {
        let pos = match position(vector_of_dates, id) {
            Some(pos) => pos,
            None => return Err(String::from_str("Date does not exist!")),
        };
        if vector_of_dates[pos].content.password != password {
            Err(String::from_str("Password incorrect!"))
        } else {
            Ok(pos)
        }
    }

    /// Takes listing `id` out of the store, if `password` is its password.
    pub fn delete_date(&mut self, id: &str, password: String) -> (r: Result<(), String>)
        requires
            old(self).wf(),
        ensures
            final(self).wf(),
            final(self).serial() == old(self).serial(),
            final(self)@ == after_delete(old(self)@, id@, password@),
            match r {
                Ok(()) => delete_result(old(self)@, id@, password@) == Ok::<(), Seq<char>>(()),
                Err(e) => delete_result(old(self)@, id@, password@) == Err::<(), Seq<char>>(e@),
            },
    {
        let ghost before = self@;
        match self.find_date(id, password, self.dates.as_slice()) {
            Ok(pos) => {
                proof {
                    lemma_remove_places(before, pos as int);
                }
                self.dates.remove(pos);
                Ok(())
            },
            Err(msg) => Err(msg),
        }
    }

    /// Lets listing `id` live `days` more days from now, or takes it out when
    /// `days` is zero, if `password` is its password.
    pub fn reset_timeout(&mut self, id: &str, password: String, days: String) -> (r: Result<
        (),
        String,
    >)
        requires
            old(self).wf(),
        ensures
            final(self).wf(),
            final(self).serial() == old(self).serial(),
            exists|now: int|
                0 <= now <= LATEST_TIME && final(self)@ == after_reset(
                    old(self)@,
                    id@,
                    password@,
                    days@,
                    now,
                ),
            match r {
                Ok(()) => reset_result(old(self)@, id@, password@, days@) == Ok::<(), Seq<char>>(
                    (),
                ),
                Err(e) => reset_result(old(self)@, id@, password@, days@) == Err::<(), Seq<char>>(
                    e@,
                ),
            },
    {
        let now = now_seconds();
        self.reset_timeout_at(id, password, days, now)
    }

    /// Lets listing `id` live `days` more days from `now`, or takes it out
    /// when `days` is zero, if `password` is its password.
    pub fn reset_timeout_at(&mut self, id: &str, password: String, days: String, now: i64) -> (r:
        Result<(), String>)
        requires
            old(self).wf(),
            now <= LATEST_TIME,
        ensures
            final(self).wf(),
            final(self).serial() == old(self).serial(),
            final(self)@ == after_reset(old(self)@, id@, password@, days@, now as int),
            match r {
                Ok(()) => reset_result(old(self)@, id@, password@, days@) == Ok::<(), Seq<char>>(
                    (),
                ),
                Err(e) => reset_result(old(self)@, id@, password@, days@) == Err::<(), Seq<char>>(
                    e@,
                ),
            },
    {
        let span = match validate_time(days.as_str()) {
            Ok(span) => span,
            Err(e) => return Err(e),
        };
        let ghost before = self@;
        match self.find_date(id, password, self.dates.as_slice()) {
            Ok(pos) => {
                if span == 0 {
                    proof {
                        lemma_remove_places(before, pos as int);
                    }
                    self.dates.remove(pos);
                } else {
                    let due = now + (span as i64) * DAY_SECONDS;
                    proof {
                        lemma_update_ids(before, pos as int, due as int);
                    }
                    let mut date = self.dates[pos].clone();
                    date.due = due;
                    self.dates.set(pos, date);
                    assert(self@ =~= after_reset(before, id@, password@, days@, now as int));
                }
                Ok(())
            },
            Err(msg) => Err(msg),
        }
    }
    /// The listing shown after `id` in the rotation: the next one in order,
    /// or the first where `id` is the last, unknown or not given; a
    /// placeholder with identifier "empty" while the store is empty.
    pub fn get_next_date_of(&self, id: Option<&str>) -> (r: Date)
        requires
            self.wf(),
        ensures
            self@.len() == 0 ==> r.id@ == "empty"@ && is_placeholder(r.content) && r.created
                == r.due,
            self@.len() > 0 ==> r == self@[next_index(self@, optional_text(id))],
    {
        if self.dates.len() == 0 {
            return Date::new(String::from_str("empty"), DateContent::new_placeholder(), 0);
        }
        let id = match id {
            None => return self.dates[0].clone(),
            Some(id) => id,
        };
        match position(self.dates.as_slice(), id) {
            Some(i) => if i + 1 < self.dates.len() {
                self.dates[i + 1].clone()
            } else {
                self.dates[0].clone()
            },
            None => self.dates[0].clone(),
        }
    }

    /// Takes out every listing that expired before now; returns how many.
    pub fn clean_old_dates(&mut self) -> (r: usize)
        requires
            old(self).wf(),
        ensures
            final(self).wf(),
            final(self).serial() == old(self).serial(),
            exists|now: int|
                0 <= now <= LATEST_TIME && final(self)@ == unexpired(old(self)@, now),
            r == old(self)@.len() - final(self)@.len(),
    {
        let now = now_seconds();
        self.clean_old_dates_at(now)
    }

    /// Takes out every listing that expired before `now`; returns how many.
    pub fn clean_old_dates_at(&mut self, now: i64) -> (r: usize)
        requires
            old(self).wf(),
        ensures
            final(self).wf(),
            final(self).serial() == old(self).serial(),
            final(self)@ == unexpired(old(self)@, now as int),
            r == old(self)@.len() - final(self)@.len(),
    {
        let ghost before = self@;
        let ghost p = still_live(now as int);
        let mut kept: Vec<Date> = Vec::new();
        let mut i: usize = 0;
        assert(before.subrange(0, 0).filter(p) =~= Seq::<Date>::empty());
        while i < self.dates.len()
            invariant
                i <= before.len(),
                self@ == before,
                p == still_live(now as int),
                kept@ == before.subrange(0, i as int).filter(p),
                kept@.len() <= i,
            decreases before.len() - i,
        {
            let ghost prefix = before.subrange(0, i as int + 1);
            assert(prefix.drop_last() =~= before.subrange(0, i as int));
            assert(prefix.last() == before[i as int]);
            proof {
                reveal(Seq::filter);
            }
            if self.dates[i].due >= now {
                kept.push(self.dates[i].clone());
            }
            i = i + 1;
        }
        assert(before.subrange(0, before.len() as int) =~= before);
        proof {
            lemma_filter_ids(before, p);
            let f = before.filter(p);
            assert forall|a: int| 0 <= a < f.len() implies self.issued().contains(
                #[trigger] f[a].id@,
            ) by {
                let j = choose|j: int| 0 <= j < before.len() && before[j] == f[a];
                assert(self.issued().contains(before[j].id@));
            }
        }
        let removed = self.dates.len() - kept.len();
        self.dates = kept;
        removed
    }

    /// Stores `content` as a new listing made now, under a new identifier.
    pub fn add_date(&mut self, content: DateContent) -> (r: Result<String, InputError>)
        requires
            old(self).wf(),
        ensures
            final(self).wf(),
            exists|now: int| 0 <= now <= LATEST_TIME && added(*old(self), *final(self), content, now, r),
    {
        let now = now_seconds();
        self.add_date_at(content, now)
    }

    /// Stores `content` as a new listing made at `now`, under a new identifier;
    /// or returns every rule that it breaks, with the content unchanged.
    pub fn add_date_at(&mut self, content: DateContent, now: i64) -> (r: Result<String, InputError>)
        requires
            old(self).wf(),
            now <= LATEST_TIME,
        ensures
            final(self).wf(),
            added(*old(self), *final(self), content, now as int, r),
    {
        let (errors, days) = check_content(&content);
        if errors.len() > 0 {
            return Err(InputError { content, errors });
        }
        if self.current_id == u64::MAX {
            return Err(exhausted(content));
        }
        let serial = self.current_id;
        let id = match encode_serial(ID_SEED, ID_LENGTH, serial) {
            Some(id) => id,
            None => return Err(exhausted(content)),
        };
        let ghost before = *self;
        proof {
            let c = before.serial();
            if issued_ids(c).contains(id@) {
                let k = choose|k: u64| k < c && #[trigger] serial_id(k) == Some(id@);
                assert(lowercase_block_id(ID_SEED, ID_LENGTH, k) != lowercase_block_id(
                    ID_SEED,
                    ID_LENGTH,
                    serial,
                ));
            }
            assert forall|t: Seq<char>|
                #[trigger] issued_ids(c + 1).contains(t) <==> issued_ids(c).insert(id@).contains(
                    t,
                ) by {
                if t == id@ {
                    assert(serial_id(serial) == Some(t));
                }
                if issued_ids(c + 1).contains(t) && t != id@ {
                    let k = choose|k: u64| k < c + 1 && #[trigger] serial_id(k) == Some(t);
                    assert(k != serial);
                    assert(issued_ids(c).contains(t));
                }
            }
            assert(issued_ids(c + 1) =~= issued_ids(c).insert(id@));
        }
        self.current_id = serial + 1;
        let date = Date::new_at(id.clone(), content, days as i64, now);
        self.dates.push(date);
        proof {
            let ds = self@;
            let n = before@.len() as int;
            assert forall|a: int, b: int|
                0 <= a < ds.len() && 0 <= b < ds.len() && a != b implies #[trigger] ds[a].id@
                != #[trigger] ds[b].id@ by {
                if a < n && b < n {
                    assert(ds[a] == before@[a] && ds[b] == before@[b]);
                } else if a < n {
                    assert(before.issued().contains(before@[a].id@));
                    assert(ds[a] == before@[a]);
                } else {
                    assert(before.issued().contains(before@[b].id@));
                    assert(ds[b] == before@[b]);
                }
            }
            assert forall|a: int| 0 <= a < ds.len() implies self.issued().contains(
                #[trigger] ds[a].id@,
            ) by {
                if a < n {
                    assert(ds[a] == before@[a]);
                    assert(before.issued().contains(before@[a].id@));
                }
            }
            assert(ds[n].id@ == id@);
            assert(has_id(ds, id@));
            assert(ds[index_of(ds, id@)].id@ == ds[n].id@);
        }
        Ok(id)
    }
}

/// A rejection of `content` for want of a fresh identifier.
fn exhausted(content: DateContent) -> (e: InputError)
    ensures
        e.content == content,
        texts(e.errors@) == seq![ids_exhausted_message()],
{
    let mut errors: Vec<String> = Vec::new();
    errors.push(String::from_str("No identifier is left for a new date"));
    assert(texts(errors@) =~= seq![ids_exhausted_message()]);
    InputError { content, errors }
}

/// What a request at `now` to store `content` did to the store `before`,
/// leaving `after` and answering `r`. A valid content is stored under the
/// identifier of the next serial number, one that the store never issued
/// before, and expires after the lifetime it asks for; an invalid one is
/// refused with every rule it breaks. Either way the content comes back
/// unchanged on refusal.
pub open spec fn added(
    before: DatingService,
    after: DatingService,
    content: DateContent,
    now: int,
    r: Result<String, InputError>,
) -> bool {
    match r {
        Ok(id) => {
            &&& validation_errors(content).len() == 0
            &&& before.serial() < u64::MAX
            &&& serial_id(before.serial() as u64) == Some(id@)
            &&& !before.issued().contains(id@)
            &&& after.issued() == before.issued().insert(id@)
            &&& after.serial() == before.serial() + 1
            &&& after@ == before@.push(
                (Date {
                    id: id,
                    created: now as i64,
                    due: expiry(now, lifetime_days(content)) as i64,
                    content: content,
                }),
            )
            &&& lookup(after@, id@) == Some(after@.last())
        },
        Err(e) => {
            &&& e.content == content
            &&& after@ == before@
            &&& after.serial() == before.serial()
            &&& if validation_errors(content).len() > 0 {
                texts(e.errors@) == validation_errors(content)
            } else {
                &&& texts(e.errors@) == seq![ids_exhausted_message()]
                &&& (before.serial() == u64::MAX || serial_id(before.serial() as u64) is None)
            }
        },
    }
}

} // verus!
