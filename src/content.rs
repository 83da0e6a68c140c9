//! What a user posts, and the rules it must meet.

use vstd::prelude::*;
use vstd::string::*;

verus! {

/// The longest lifetime, in days, that a listing may ask for.
pub const MAX_DAYS: usize = 21;

/// The content of a listing, as the user wrote it.
#[derive(Debug)]
pub struct DateContent {
    pub who: String,
    pub what: String,
    pub shortdesc: String,
    pub longdesc: String,
    pub contact: String,
    pub password: String,
    /// The requested lifetime in days, as text.
    pub action_type: Option<String>,
}

impl Clone for DateContent {
    fn clone(&self) -> (r: Self)
        ensures
            r == *self,
    {
        DateContent {
            who: self.who.clone(),
            what: self.what.clone(),
            shortdesc: self.shortdesc.clone(),
            longdesc: self.longdesc.clone(),
            contact: self.contact.clone(),
            password: self.password.clone(),
            action_type: match &self.action_type {
                Some(s) => Some(s.clone()),
                None => None,
            },
        }
    }
}

/// A rejected listing: every rule it broke, and the content unchanged.
#[derive(Debug)]
pub struct InputError {
    pub content: DateContent,
    pub errors: Vec<String>,
}

/// A request to change a listing: its password and the new lifetime in days.
#[derive(Debug)]
pub struct DeleteRequest {
    pub password: String,
    pub action_type: Option<String>,
}

impl DateContent {
    /// An empty form; the password is the shared default.
    pub fn new() -> (r: Self)
        ensures
            r.who@ == Seq::<char>::empty(),
            r.what@ == Seq::<char>::empty(),
            r.shortdesc@ == Seq::<char>::empty(),
            r.longdesc@ == Seq::<char>::empty(),
            r.contact@ == Seq::<char>::empty(),
            r.password@ == default_password(),
            r.action_type is None,
    {
        DateContent {
            who: String::new(),
            what: String::new(),
            shortdesc: String::new(),
            longdesc: String::new(),
            contact: String::new(),
            password: String::from_str("public"),
            action_type: None,
        }
    }

    /// The content shown while the board holds no listing.
    pub fn new_placeholder() -> (r: Self)
        ensures
            is_placeholder(r),
    {
        DateContent {
            who: String::from_str("Dating Plattform"),
            what: String::from_str("Date"),
            shortdesc: String::from_str(
                "There is currently no date on this dating plattform feel free to post one",
            ),
            longdesc: String::new(),
            contact: String::new(),
            password: String::from_str("public"),
            action_type: None,
        }
    }
}

/// The password of a listing whose author set none.
pub open spec fn default_password() -> Seq<char> {
    "public"@
}

/// Whether `c` holds the text of the placeholder.
pub open spec fn is_placeholder(c: DateContent) -> bool {
    &&& c.who@ == "Dating Plattform"@
    &&& c.what@ == "Date"@
    &&& c.shortdesc@
        == "There is currently no date on this dating plattform feel free to post one"@
    &&& c.longdesc@ == Seq::<char>::empty()
    &&& c.contact@ == Seq::<char>::empty()
    &&& c.password@ == default_password()
    &&& c.action_type is None
}

/// Whether `c` is a decimal digit.
pub open spec fn is_digit(c: char) -> bool {
    '0' as u32 <= c as u32 && c as u32 <= '9' as u32
}

/// The value of the decimal digit `c`.
pub open spec fn digit_value(c: char) -> nat {
    (c as u32 - '0' as u32) as nat
}

/// The number that the digits `s` write in base ten.
pub open spec fn decimal_value(s: Seq<char>) -> nat
    decreases s.len(),
{
    if s.len() == 0 {
        0
    } else {
        decimal_value(s.drop_last()) * 10 + digit_value(s.last())
    }
}

/// Whether `s` is one or more decimal digits.
pub open spec fn all_digits(s: Seq<char>) -> bool {
    s.len() > 0 && forall|i: int| 0 <= i < s.len() ==> is_digit(#[trigger] s[i])
}

/// `s` without one leading plus sign.
pub open spec fn unsigned_digits(s: Seq<char>) -> Seq<char> {
    if s.len() > 0 && s[0] == '+' {
        s.subrange(1, s.len() as int)
    } else {
        s
    }
}

/// The `usize` that the text `s` writes, if it writes one: an optional plus
/// sign, then decimal digits whose value fits.
pub open spec fn parsed_usize(s: Seq<char>) -> Option<nat> {
    let d = unsigned_digits(s);
    if all_digits(d) && decimal_value(d) <= usize::MAX {
        Some(decimal_value(d))
    } else {
        None
    }
}

pub open spec fn not_number_message() -> Seq<char> {
    "Time is not a number"@
}

pub open spec fn too_long_message() -> Seq<char> {
    "Come on! Dont overdo it"@
}

/// A lifetime in days read from text, or the reason it is refused.
pub open spec fn time_check(text: Seq<char>) -> Result<nat, Seq<char>> {
    match parsed_usize(text) {
        None => Err(not_number_message()),
        Some(d) => if d > MAX_DAYS {
            Err(too_long_message())
        } else {
            Ok(d)
        },
    }
}

/// A value of a prefix of digits never exceeds that of the whole.
proof fn lemma_prefix_value_le(s: Seq<char>, k: int)
    requires
        0 <= k <= s.len(),
    ensures
        decimal_value(s.subrange(0, k)) <= decimal_value(s),
    decreases s.len(),
{
    if k == s.len() {
        assert(s.subrange(0, k) =~= s);
    } else {
        lemma_prefix_value_le(s.drop_last(), k);
        assert(s.drop_last().subrange(0, k) =~= s.subrange(0, k));
    }
}

/// Reads an unsigned decimal number, as `usize`'s parser does.
fn parse_usize(s: &str) -> (r: Option<usize>)
    ensures
        r matches Some(v) ==> parsed_usize(s@) == Some(v as nat),
        r is None ==> parsed_usize(s@) is None,
{
    let n = s.unicode_len();
    let mut start: usize = 0;
    if n > 0 && s.get_char(0) == '+' {
        start = 1;
    }
    let ghost d = s@.subrange(start as int, n as int);
    assert(d =~= unsigned_digits(s@));
    if start == n {
        return None;
    }
    let mut v: usize = 0;
    let mut i: usize = start;
    assert(d.subrange(0, 0) =~= Seq::<char>::empty());
    while i < n
        invariant
            start <= i <= n,
            start < n,
            n == s@.len(),
            d == s@.subrange(start as int, n as int),
            d == unsigned_digits(s@),
            forall|k: int| 0 <= k < i - start ==> is_digit(#[trigger] d[k]),
            v as nat == decimal_value(d.subrange(0, i - start)),
        decreases n - i,
    {
        let c = s.get_char(i);
        assert(c == d[i - start]);
        if !('0' <= c && c <= '9') {
            assert(!is_digit(d[i - start]));
            return None;
        }
        let digit = (c as u32 - '0' as u32) as usize;
        let ghost next = d.subrange(0, i + 1 - start);
        assert(next.drop_last() =~= d.subrange(0, i - start));
        assert(decimal_value(next) == v * 10 + digit);
        match v.checked_mul(10) {
            None => {
                proof {
                    lemma_prefix_value_le(d, i + 1 - start);
                    assert(v * 10 > usize::MAX);
                }
                return None;
            },
            Some(t) => match t.checked_add(digit) {
                None => {
                    proof {
                        lemma_prefix_value_le(d, i + 1 - start);
                    }
                    return None;
                },
                Some(u) => {
                    v = u;
                },
            },
        }
        i = i + 1;
    }
    assert(d.subrange(0, n - start) =~= d);
    Some(v)
}

/// Reads a lifetime in days: a number from zero up to the maximum.
pub fn validate_time(input: &str) -> (r: Result<usize, String>)
    ensures
        match r {
            Ok(days) => time_check(input@) == Ok::<nat, Seq<char>>(days as nat),
            Err(e) => time_check(input@) == Err::<nat, Seq<char>>(e@),
        },
{
    let days = match parse_usize(input) {
        Some(days) => days,
        None => return Err(String::from_str("Time is not a number")),
    };
    if days > MAX_DAYS {
        return Err(String::from_str("Come on! Dont overdo it"));
    }
    Ok(days)
}

/// The one-message list when `broken` holds, else the empty list.
pub open spec fn rule(broken: bool, message: Seq<char>) -> Seq<Seq<char>> {
    if broken {
        seq![message]
    } else {
        Seq::empty()
    }
}

/// The lifetime text of `c`; a missing one reads as the empty text.
pub open spec fn lifetime_text(c: DateContent) -> Seq<char> {
    match c.action_type {
        Some(t) => t@,
        None => Seq::empty(),
    }
}

/// The message for a refused lifetime, if it is refused.
pub open spec fn time_messages(c: DateContent) -> Seq<Seq<char>> {
    match time_check(lifetime_text(c)) {
        Ok(_) => Seq::empty(),
        Err(m) => seq![m],
    }
}

/// Every rule that `c` breaks, in the order in which they are checked.
pub open spec fn validation_errors(c: DateContent) -> Seq<Seq<char>> {
    rule(c.who@.len() < 2, "Who must be at least 2 characters long"@)
        + rule(c.who@.len() > 15, "Who must be 15 characters or shorter"@)
        + rule(c.what@.len() < 2, "What must be at least 2 characters long"@)
        + rule(c.what@.len() > 15, "what must be 15 characters or shorter"@)
        + rule(c.shortdesc@.len() < 10, "Short description has to be at lesat 10 characters long"@)
        + rule(c.shortdesc@.len() > 200, "Short description must be 200 characters or shorter"@)
        + time_messages(c)
}

/// The text of each message.
pub open spec fn texts(v: Seq<String>) -> Seq<Seq<char>> {
    v.map_values(|m: String| m@)
}

/// Adds `message` to `errors` when `broken` holds.
fn note_rule(errors: &mut Vec<String>, broken: bool, message: &str)
    ensures
        texts(final(errors)@) == texts(old(errors)@) + rule(broken, message@),
{
    if broken {
        errors.push(String::from_str(message));
        assert(texts(final(errors)@) =~= texts(old(errors)@) + rule(broken, message@));
    } else {
        assert(texts(final(errors)@) =~= texts(old(errors)@) + rule(broken, message@));
    }
}

/// Checks `content` against every rule; with no rule broken, also returns the
/// lifetime it asks for.
pub fn check_content(content: &DateContent) -> (r: (Vec<String>, usize))
    ensures
        texts(r.0@) == validation_errors(*content),
        r.0@.len() == 0 ==> time_check(lifetime_text(*content)) == Ok::<nat, Seq<char>>(
            r.1 as nat,
        ),
{
    let mut errors: Vec<String> = Vec::new();
    assert(texts(errors@) =~= Seq::<Seq<char>>::empty());
    let who = content.who.as_str().unicode_len();
    let what = content.what.as_str().unicode_len();
    let shortdesc = content.shortdesc.as_str().unicode_len();
    note_rule(&mut errors, who < 2, "Who must be at least 2 characters long");
    note_rule(&mut errors, who > 15, "Who must be 15 characters or shorter");
    note_rule(&mut errors, what < 2, "What must be at least 2 characters long");
    note_rule(&mut errors, what > 15, "what must be 15 characters or shorter");
    note_rule(
        &mut errors,
        shortdesc < 10,
        "Short description has to be at lesat 10 characters long",
    );
    note_rule(
        &mut errors,
        shortdesc > 200,
        "Short description must be 200 characters or shorter",
    );
    let ghost rules = texts(errors@);
    let time = match &content.action_type {
        Some(t) => validate_time(t.as_str()),
        None => validate_time(""),
    };
    proof {
        reveal_strlit("");
    }
    let mut days: usize = 0;
    match time {
        Ok(d) => {
            days = d;
            assert(texts(errors@) =~= rules + time_messages(*content));
        },
        Err(e) => {
            errors.push(e);
            assert(texts(errors@) =~= rules + time_messages(*content));
        },
    }
    assert(rules.len() + time_messages(*content).len() == errors@.len());
    (errors, days)
}

} // verus!
