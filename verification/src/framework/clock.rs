//! The local wall clock and the session id that is derived from it.

use vstd::prelude::*;
use vstd::string::StringExecFns;

verus! {

/// One reading of the local wall clock: the calendar date and time of day in
/// the local time zone, and the milliseconds since the Unix epoch.
#[derive(Clone, Copy, Debug, PartialEq, Eq, Structural)]
pub struct ClockReading {
    pub year: i32,
    pub month: u32,
    pub day: u32,
    pub hour: u32,
    pub minute: u32,
    pub second: u32,
    /// Nanoseconds since the whole second; a billion or more during a leap
    /// second.
    pub nanosecond: u32,
    pub timestamp_millis: i64,
}

impl ClockReading {
    /// Each component lies in the range of its unit.
    pub open spec fn wf(self) -> bool {
        &&& 1 <= self.month <= 12
        &&& 1 <= self.day <= 31
        &&& self.hour <= 23
        &&& self.minute <= 59
        &&& self.second <= 59
        &&& self.nanosecond <= 1_999_999_999
    }

    /// Whether each component lies in the range of its unit.
    pub fn is_valid(&self) -> (ok: bool)
        ensures
            ok == self.wf(),
    {
        1 <= self.month && self.month <= 12 && 1 <= self.day && self.day <= 31 && self.hour <= 23
            && self.minute <= 59 && self.second <= 59 && self.nanosecond <= 1_999_999_999
    }
}

/// `chrono::Local::now`, taken apart with the getters of `Datelike` and
/// `Timelike` and with `DateTime::timestamp_millis`. Nothing is claimed of
/// the instant that is read, only the ranges that chrono documents for the
/// components.
#[verifier::external_body]
pub(crate) fn local_now() -> (now: ClockReading)
    ensures
        now.wf(),
{
    let now = chrono::Local::now();
    ClockReading {
        year: chrono::Datelike::year(&now),
        month: chrono::Datelike::month(&now),
        day: chrono::Datelike::day(&now),
        hour: chrono::Timelike::hour(&now),
        minute: chrono::Timelike::minute(&now),
        second: chrono::Timelike::second(&now),
        nanosecond: chrono::Timelike::nanosecond(&now),
        timestamp_millis: now.timestamp_millis(),
    }
}

/// The decimal digit `d`.
pub open spec fn digit(d: int) -> char {
    if d == 0 {
        '0'
    } else if d == 1 {
        '1'
    } else if d == 2 {
        '2'
    } else if d == 3 {
        '3'
    } else if d == 4 {
        '4'
    } else if d == 5 {
        '5'
    } else if d == 6 {
        '6'
    } else if d == 7 {
        '7'
    } else if d == 8 {
        '8'
    } else {
        '9'
    }
}

/// `v`, which is under 100, in two digits.
pub open spec fn two_digits(v: int) -> Seq<char> {
    seq![digit(v / 10), digit(v % 10)]
}

/// `n` in decimal, without leading zeros.
pub open spec fn digits(n: nat) -> Seq<char>
    decreases n,
{
    if n < 10 {
        seq![digit(n as int)]
    } else {
        digits(n / 10).push(digit((n % 10) as int))
    }
}

/// `n` in decimal, in four digits at least.
pub open spec fn four_digits(n: nat) -> Seq<char> {
    if n < 10000 {
        two_digits(n as int / 100) + two_digits(n as int % 100)
    } else {
        digits(n)
    }
}

/// The year as a session id shows it: four digits from 0 to 9999, else a
/// sign and four digits at least.
pub open spec fn year_text(year: int) -> Seq<char> {
    if 0 <= year <= 9999 {
        four_digits(year as nat)
    } else if year < 0 {
        seq!['-'] + four_digits((-year) as nat)
    } else {
        seq!['+'] + four_digits(year as nat)
    }
}

/// The session id of a clock reading: year, month, day, hour, minute and
/// second, two digits each but for the year. A leap second shows as 60.
pub open spec fn session_id_text(now: ClockReading) -> Seq<char> {
    year_text(now.year as int) + two_digits(now.month as int) + two_digits(now.day as int)
        + two_digits(now.hour as int) + two_digits(now.minute as int) + two_digits(
        now.second as int + now.nanosecond as int / 1_000_000_000,
    )
}

/// Appends the digit `d`.
fn push_digit(text: &mut String, d: u32)
    requires
        d < 10,
    ensures
        final(text)@ == old(text)@.push(digit(d as int)),
{
    proof {
        reveal_strlit("0");
        reveal_strlit("1");
        reveal_strlit("2");
        reveal_strlit("3");
        reveal_strlit("4");
        reveal_strlit("5");
        reveal_strlit("6");
        reveal_strlit("7");
        reveal_strlit("8");
        reveal_strlit("9");
    }
    let literal = if d == 0 {
        "0"
    } else if d == 1 {
        "1"
    } else if d == 2 {
        "2"
    } else if d == 3 {
        "3"
    } else if d == 4 {
        "4"
    } else if d == 5 {
        "5"
    } else if d == 6 {
        "6"
    } else if d == 7 {
        "7"
    } else if d == 8 {
        "8"
    } else {
        "9"
    };
    assert(literal@ =~= seq![digit(d as int)]);
    text.append(literal);
    assert(text@ =~= old(text)@.push(digit(d as int)));
}

/// Appends `v` in two digits.
fn push_two_digits(text: &mut String, v: u32)
    requires
        v < 100,
    ensures
        final(text)@ == old(text)@ + two_digits(v as int),
{
    push_digit(text, v / 10);
    push_digit(text, v % 10);
    assert(text@ =~= old(text)@ + two_digits(v as int));
}

/// Appends `n` in decimal.
fn push_digits(text: &mut String, n: u32)
    ensures
        final(text)@ == old(text)@ + digits(n as nat),
    decreases n,
{
    if n >= 10 {
        push_digits(text, n / 10);
    }
    push_digit(text, n % 10);
    assert(text@ =~= old(text)@ + digits(n as nat));
}

/// Appends `n` in four digits at least.
fn push_four_digits(text: &mut String, n: u32)
    ensures
        final(text)@ == old(text)@ + four_digits(n as nat),
{
    if n < 10000 {
        push_two_digits(text, n / 100);
        push_two_digits(text, n % 100);
        assert(text@ =~= old(text)@ + four_digits(n as nat));
    } else {
        push_digits(text, n);
    }
}

impl ClockReading {
    /// The session id of this reading.
    pub fn session_id(&self) -> (id: String)
        requires
            self.wf(),
        ensures
            id@ == session_id_text(*self),
    {
        let mut id = String::new();
        if 0 <= self.year && self.year <= 9999 {
            push_four_digits(&mut id, self.year as u32);
        } else if self.year < 0 {
            id.append("-");
            proof {
                reveal_strlit("-");
            }
            push_four_digits(&mut id, (-(self.year + 1)) as u32 + 1);
        } else {
            id.append("+");
            proof {
                reveal_strlit("+");
            }
            push_four_digits(&mut id, self.year as u32);
        }
        assert(id@ =~= year_text(self.year as int));
        push_two_digits(&mut id, self.month);
        push_two_digits(&mut id, self.day);
        push_two_digits(&mut id, self.hour);
        push_two_digits(&mut id, self.minute);
        push_two_digits(&mut id, self.second + self.nanosecond / 1_000_000_000);
        id
    }
}

/// The second that a session id shows: 60 during a leap second.
pub open spec fn shown_second(now: ClockReading) -> int {
    now.second as int + now.nanosecond as int / 1_000_000_000
}

/// The seven groups of two digits that make up the session id of a reading
/// whose year has four digits.
pub open spec fn id_groups(now: ClockReading) -> Seq<int> {
    seq![
        now.year as int / 100,
        now.year as int % 100,
        now.month as int,
        now.day as int,
        now.hour as int,
        now.minute as int,
        shown_second(now),
    ]
}

/// Reading `a` shows an earlier second than reading `b`.
pub open spec fn shows_earlier(a: ClockReading, b: ClockReading) -> bool {
    ||| a.year < b.year
    ||| a.year == b.year && a.month < b.month
    ||| a.year == b.year && a.month == b.month && a.day < b.day
    ||| a.year == b.year && a.month == b.month && a.day == b.day && a.hour < b.hour
    ||| a.year == b.year && a.month == b.month && a.day == b.day && a.hour == b.hour && a.minute
        < b.minute
    ||| a.year == b.year && a.month == b.month && a.day == b.day && a.hour == b.hour && a.minute
        == b.minute && shown_second(a) < shown_second(b)
}

/// Text `a` sorts before text `b`: where they first differ `a` has the
/// smaller character, or `a` ends there and `b` goes on.
pub open spec fn sorts_before(a: Seq<char>, b: Seq<char>) -> bool {
    exists|i: int|
        0 <= i <= a.len() && i < b.len() && #[trigger] a.take(i) == b.take(i) && (i < a.len()
            ==> (a[i] as u32) < (b[i] as u32))
}

/// The session id of a reading whose year has four digits, digit by digit.
pub proof fn lemma_session_id_digits(now: ClockReading)
    requires
        now.wf(),
        0 <= now.year <= 9999,
    ensures
        session_id_text(now).len() == 14,
        forall|k: int|
            0 <= k < 14 ==> #[trigger] session_id_text(now)[k] == digit(
                if k % 2 == 0 {
                    id_groups(now)[k / 2] / 10
                } else {
                    id_groups(now)[k / 2] % 10
                },
            ),
        forall|j: int| 0 <= j < 7 ==> 0 <= #[trigger] id_groups(now)[j] < 100,
{
    let id = session_id_text(now);
    let g = id_groups(now);
    assert(id =~= two_digits(g[0]) + two_digits(g[1]) + two_digits(g[2]) + two_digits(g[3])
        + two_digits(g[4]) + two_digits(g[5]) + two_digits(g[6]));
    assert forall|k: int| 0 <= k < 14 implies #[trigger] id[k] == digit(
        if k % 2 == 0 {
            g[k / 2] / 10
        } else {
            g[k / 2] % 10
        },
    ) by {
        assert(0 <= k / 2 < 7);
    }
}

/// Of two decimal digits the smaller has the smaller character.
pub proof fn lemma_digit_order(x: int, y: int)
    requires
        0 <= x <= 9,
        0 <= y <= 9,
    ensures
        x < y <==> (digit(x) as u32) < (digit(y) as u32),
        x == y <==> digit(x) == digit(y),
{
}

/// Session ids sort as time goes: of two readings with years of four
/// digits, the one that shows the earlier second has the id that sorts
/// first, and readings that show the same second have the same id.
pub proof fn lemma_session_ids_ordered(a: ClockReading, b: ClockReading)
    requires
        a.wf(),
        b.wf(),
        0 <= a.year <= 9999,
        0 <= b.year <= 9999,
    ensures
        shows_earlier(a, b) ==> sorts_before(session_id_text(a), session_id_text(b)),
        !shows_earlier(a, b) && !shows_earlier(b, a) ==> session_id_text(a) == session_id_text(
            b,
        ),
{
    let ia = session_id_text(a);
    let ib = session_id_text(b);
    let ga = id_groups(a);
    let gb = id_groups(b);
    lemma_session_id_digits(a);
    lemma_session_id_digits(b);
    if shows_earlier(a, b) {
        // the first group in which the readings differ
        let j: int = if ga[0] != gb[0] {
            0
        } else if ga[1] != gb[1] {
            1
        } else if ga[2] != gb[2] {
            2
        } else if ga[3] != gb[3] {
            3
        } else if ga[4] != gb[4] {
            4
        } else if ga[5] != gb[5] {
            5
        } else {
            6
        };
        assert(ga[j] < gb[j]);
        assert(forall|m: int| 0 <= m < j ==> ga[m] == gb[m]);
        // the first digit in which the ids differ
        let i: int = if ga[j] / 10 != gb[j] / 10 {
            2 * j
        } else {
            2 * j + 1
        };
        assert(i / 2 == j);
        assert forall|k: int| 0 <= k < i implies ia[k] == ib[k] by {
            assert(0 <= k / 2 <= j);
            if k / 2 < j {
                assert(ga[k / 2] == gb[k / 2]);
            }
        }
        assert(ia.take(i) =~= ib.take(i));
        if i == 2 * j {
            lemma_digit_order(ga[j] / 10, gb[j] / 10);
        } else {
            lemma_digit_order(ga[j] % 10, gb[j] % 10);
        }
        assert((ia[i] as u32) < (ib[i] as u32));
    } else if !shows_earlier(b, a) {
        assert(ga =~= gb);
        assert(ia =~= ib);
    }
}

} // verus!
