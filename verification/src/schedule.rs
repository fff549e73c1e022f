//! Schedule predicates: a calendar instant, and the five-field cron
//! expression that decides at which instants a job is due.

use vstd::prelude::*;

verus! {

/// A wall-clock instant broken into the calendar fields that schedule
/// predicates read: minute, hour, day of month, month, and day of week
/// (`0` is Sunday).
#[derive(Clone, Copy, PartialEq, Eq, Structural, Debug)]
pub struct Timestamp {
    pub minute: u8,
    pub hour: u8,
    pub day: u8,
    pub month: u8,
    pub weekday: u8,
}

impl Timestamp {
    /// Field ranges of a real calendar instant.
    pub open spec fn wf(self) -> bool {
        self.minute < 60 && self.hour < 24 && 1 <= self.day <= 31 && 1 <= self.month <= 12
            && self.weekday < 7
    }

    pub fn new(minute: u8, hour: u8, day: u8, month: u8, weekday: u8) -> (r: Timestamp)
        ensures
            r == (Timestamp { minute, hour, day, month, weekday }),
    {
        Timestamp { minute, hour, day, month, weekday }
    }

    /// Captures the current wall-clock instant in UTC.
    ///
    /// Relies on `time::OffsetDateTime::now_utc` and its calendar
    /// accessors `minute`, `hour`, `day`, `month` and
    /// `Weekday::number_days_from_sunday`, whose documented ranges give
    /// the well-formedness bound. Nothing more can be promised of a
    /// reading of the clock.
    #[verifier::external_body]
    pub fn now_utc() -> (r: Timestamp)
        ensures
            r.wf(),
    {
        let t = time::OffsetDateTime::now_utc();
        Timestamp {
            minute: t.minute(),
            hour: t.hour(),
            day: t.day(),
            month: u8::from(t.month()),
            weekday: t.weekday().number_days_from_sunday(),
        }
    }
}

/// One field of a schedule expression: a wildcard that admits every
/// value, or one exact value.
#[derive(Clone, Copy, PartialEq, Eq, Structural, Debug)]
pub enum CronField {
    Any,
    Exact(u8),
}

impl CronField {
    /// Whether this field admits the calendar value `v`.
    pub open spec fn admits(self, v: u8) -> bool {
        match self {
            CronField::Any => true,
            CronField::Exact(n) => n == v,
        }
    }

    /// Evaluate the field against one calendar value.
    pub fn check(&self, v: u8) -> (r: bool)
        ensures
            r == self.admits(v),
    {
        match self {
            CronField::Any => true,
            CronField::Exact(n) => *n == v,
        }
    }
}

/// A schedule predicate in the classic five-field cron shape: minute,
/// hour, day of month, month, day of week. Each field is a wildcard or
/// one exact value.
#[derive(Clone, Copy, PartialEq, Eq, Structural, Debug)]
pub struct Cron {
    pub minute: CronField,
    pub hour: CronField,
    pub day: CronField,
    pub month: CronField,
    pub weekday: CronField,
}

/// Index of the first space in `s` at or after `i`, or `s.len()` if no
/// space follows.
pub open spec fn token_end(s: Seq<char>, i: int) -> int
    decreases s.len() - i
{
    if i < 0 || i >= s.len() {
        s.len() as int
    } else if s[i] == ' ' {
        i
    } else {
        token_end(s, i + 1)
    }
}

/// `token_end` stays between `i` and the end of `s`, stops on a space,
/// and skips no space.
pub proof fn lemma_token_end(s: Seq<char>, i: int)
    requires
        0 <= i <= s.len(),
    ensures
        i <= token_end(s, i) <= s.len(),
        token_end(s, i) < s.len() ==> s[token_end(s, i)] == ' ',
        forall|j: int| i <= j < token_end(s, i) ==> s[j] != ' ',
    decreases s.len() - i,
{
    if i < s.len() && s[i] != ' ' {
        lemma_token_end(s, i + 1);
    }
}

/// Whether `c` is a decimal digit.
pub open spec fn digit(c: char) -> bool {
    48 <= c as u32 <= 57
}

/// The decimal value of the digit `c`.
pub open spec fn digit_val(c: char) -> int {
    c as u32 - 48
}

/// The schedule field denoted by the characters of `s` from `i`
/// (inclusive) to `j` (exclusive): `*`, or a one- or two-digit number
/// between `lo` and `hi`; `None` for anything else.
pub open spec fn token_field(s: Seq<char>, i: int, j: int, lo: u8, hi: u8) -> Option<CronField> {
    if !(0 <= i <= j <= s.len()) {
        None
    } else if j - i == 1 && s[i] == '*' {
        Some(CronField::Any)
    } else if j - i == 1 && digit(s[i]) {
        if lo <= digit_val(s[i]) <= hi {
            Some(CronField::Exact(digit_val(s[i]) as u8))
        } else {
            None
        }
    } else if j - i == 2 && digit(s[i]) && digit(s[i + 1]) {
        if lo <= 10 * digit_val(s[i]) + digit_val(s[i + 1]) <= hi {
            Some(CronField::Exact((10 * digit_val(s[i]) + digit_val(s[i + 1])) as u8))
        } else {
            None
        }
    } else {
        None
    }
}

/// Start index of the `k`-th (0-based) space-separated field of `s`:
/// one past the end of the previous field's terminating space.
pub open spec fn tok_start(s: Seq<char>, k: int) -> int
    decreases k when k >= 0
{
    if k <= 0 {
        0
    } else {
        token_end(s, tok_start(s, k - 1)) + 1
    }
}

/// Whether `s` consists of exactly five space-separated fields: the
/// fifth field starts within the string and runs to its end.
pub open spec fn five_fields(s: Seq<char>) -> bool {
    tok_start(s, 4) <= s.len() && token_end(s, tok_start(s, 4)) == s.len()
}

/// The lowest calendar value the `k`-th cron field may name.
pub open spec fn field_lo(k: int) -> u8 {
    if k == 2 || k == 3 {
        1
    } else {
        0
    }
}

/// The highest calendar value the `k`-th cron field may name.
pub open spec fn field_hi(k: int) -> u8 {
    if k == 0 {
        59
    } else if k == 1 {
        23
    } else if k == 2 {
        31
    } else if k == 3 {
        12
    } else {
        6
    }
}

/// The `k`-th field of the expression `s`, parsed against its calendar
/// range.
pub open spec fn field_at(s: Seq<char>, k: int) -> Option<CronField> {
    token_field(s, tok_start(s, k), token_end(s, tok_start(s, k)), field_lo(k), field_hi(k))
}

/// The schedule denoted by the expression `s`: five space-separated
/// fields, each a wildcard or an in-range number, in the order minute,
/// hour, day of month, month, day of week; `None` if the expression is
/// malformed.
pub open spec fn spec_parse(s: Seq<char>) -> Option<Cron> {
    if five_fields(s) && field_at(s, 0) is Some && field_at(s, 1) is Some && field_at(
        s,
        2,
    ) is Some && field_at(s, 3) is Some && field_at(s, 4) is Some {
        Some(
            Cron {
                minute: field_at(s, 0)->Some_0,
                hour: field_at(s, 1)->Some_0,
                day: field_at(s, 2)->Some_0,
                month: field_at(s, 3)->Some_0,
                weekday: field_at(s, 4)->Some_0,
            },
        )
    } else {
        None
    }
}

/// Why a schedule expression was rejected at registration time.
#[derive(Clone, Copy, PartialEq, Eq, Structural, Debug)]
pub enum ScheduleError {
    /// The expression does not consist of exactly five space-separated
    /// fields.
    FieldCount,
    /// The field with this 0-based position is not `*` and not an
    /// in-range number.
    Field(u8),
}

impl ScheduleError {
    /// A short diagnostic description of the rejection.
    pub fn message(&self) -> (r: &'static str)
        ensures
            self is FieldCount ==> r@ == "schedule expression must have five space-separated fields"@,
            self is Field ==> r@ == "schedule field must be '*' or an in-range number"@,
    {
        match self {
            ScheduleError::FieldCount => "schedule expression must have five space-separated fields",
            ScheduleError::Field(_) => "schedule field must be '*' or an in-range number",
        }
    }
}

/// Index of the first space in `expr` at or after `i`, or the length of
/// `expr` if no space follows.
fn find_token_end(expr: &str, i: usize) -> (r: usize)
    requires
        i <= expr@.len(),
    ensures
        r == token_end(expr@, i as int),
        i <= r <= expr@.len(),
{
    proof {
        lemma_token_end(expr@, i as int);
    }
    let len = expr.unicode_len();
    let mut j = i;
    while j < len
        invariant
            i <= j <= expr@.len(),
            len == expr@.len(),
            token_end(expr@, i as int) == token_end(expr@, j as int),
        decreases expr@.len() - j,
    {
        if expr.get_char(j) == ' ' {
            return j;
        }
        j += 1;
    }
    j
}

/// Parse the characters of `expr` from `i` (inclusive) to `j`
/// (exclusive) as one schedule field with range `lo ..= hi`.
fn parse_field(expr: &str, i: usize, j: usize, lo: u8, hi: u8) -> (r: Option<CronField>)
    requires
        i <= j <= expr@.len(),
    ensures
        r == token_field(expr@, i as int, j as int, lo, hi),
{
    if j - i == 1 {
        let c = expr.get_char(i);
        if c == '*' {
            Some(CronField::Any)
        } else {
            let u = c as u32;
            if 48 <= u && u <= 57 {
                let v = (u - 48) as u8;
                if lo <= v && v <= hi {
                    Some(CronField::Exact(v))
                } else {
                    None
                }
            } else {
                None
            }
        }
    } else if j - i == 2 {
        let c0 = expr.get_char(i);
        let c1 = expr.get_char(i + 1);
        let u0 = c0 as u32;
        let u1 = c1 as u32;
        if 48 <= u0 && u0 <= 57 && 48 <= u1 && u1 <= 57 {
            let v = ((u0 - 48) * 10 + (u1 - 48)) as u8;
            if lo <= v && v <= hi {
                Some(CronField::Exact(v))
            } else {
                None
            }
        } else {
            None
        }
    } else {
        None
    }
}

impl Cron {
    /// Whether the predicate fires at the instant `t`: every field
    /// admits the corresponding calendar value.
    pub open spec fn fires_at(self, t: Timestamp) -> bool {
        self.minute.admits(t.minute) && self.hour.admits(t.hour) && self.day.admits(t.day)
            && self.month.admits(t.month) && self.weekday.admits(t.weekday)
    }

    /// Evaluate the predicate at `time`: a pure query over the fields,
    /// total over all timestamps; it never fails.
    pub fn should_run(&self, time: &Timestamp) -> (r: bool)
        ensures
            r == self.fires_at(*time),
    {
        self.minute.check(time.minute) && self.hour.check(time.hour) && self.day.check(time.day)
            && self.month.check(time.month) && self.weekday.check(time.weekday)
    }

    /// Parse a schedule expression, rejecting every malformed one at
    /// registration time: the result is `Ok` exactly when `expr` is five
    /// space-separated fields, each `*` or an in-range number, and the
    /// error names the first offence.
    pub fn parse(expr: &str) -> (r: Result<Cron, ScheduleError>)
        ensures
            r is Ok <==> spec_parse(expr@) is Some,
            r matches Ok(c) ==> Some(c) == spec_parse(expr@),
            r == Err::<Cron, ScheduleError>(ScheduleError::FieldCount) <==> !five_fields(expr@),
            forall|k: u8|
                r == Err::<Cron, ScheduleError>(ScheduleError::Field(k)) <==> (five_fields(expr@)
                    && k < 5 && field_at(expr@, k as int) is None && (forall|m: int|
                    0 <= m < k ==> field_at(expr@, m) is Some)),
    {
        let ghost s = expr@;
        let len = expr.unicode_len();
        let e0 = find_token_end(expr, 0);
        assert(tok_start(s, 0) == 0);
        assert(tok_start(s, 1) == e0 + 1);
        if e0 == len {
            assert(token_end(s, len + 1) == len);
            assert(tok_start(s, 2) == len + 1);
            assert(tok_start(s, 3) == len + 1);
            assert(tok_start(s, 4) == len + 1);
            assert(!five_fields(s));
            return Err(ScheduleError::FieldCount);
        }
        let s1 = e0 + 1;
        let e1 = find_token_end(expr, s1);
        assert(tok_start(s, 2) == e1 + 1);
        if e1 == len {
            assert(token_end(s, len + 1) == len);
            assert(tok_start(s, 3) == len + 1);
            assert(tok_start(s, 4) == len + 1);
            assert(!five_fields(s));
            return Err(ScheduleError::FieldCount);
        }
        let s2 = e1 + 1;
        let e2 = find_token_end(expr, s2);
        assert(tok_start(s, 3) == e2 + 1);
        if e2 == len {
            assert(token_end(s, len + 1) == len);
            assert(tok_start(s, 4) == len + 1);
            assert(!five_fields(s));
            return Err(ScheduleError::FieldCount);
        }
        let s3 = e2 + 1;
        let e3 = find_token_end(expr, s3);
        assert(tok_start(s, 4) == e3 + 1);
        if e3 == len {
            assert(!five_fields(s));
            return Err(ScheduleError::FieldCount);
        }
        let s4 = e3 + 1;
        let e4 = find_token_end(expr, s4);
        if e4 != len {
            assert(!five_fields(s));
            return Err(ScheduleError::FieldCount);
        }
        assert(five_fields(s));
        let f0 = parse_field(expr, 0, e0, 0, 59);
        let f1 = parse_field(expr, s1, e1, 0, 23);
        let f2 = parse_field(expr, s2, e2, 1, 31);
        let f3 = parse_field(expr, s3, e3, 1, 12);
        let f4 = parse_field(expr, s4, e4, 0, 6);
        assert(f0 == field_at(s, 0));
        assert(f1 == field_at(s, 1));
        assert(f2 == field_at(s, 2));
        assert(f3 == field_at(s, 3));
        assert(f4 == field_at(s, 4));
        match (f0, f1, f2, f3, f4) {
            (Some(minute), Some(hour), Some(day), Some(month), Some(weekday)) => Ok(
                Cron { minute, hour, day, month, weekday },
            ),
            (None, _, _, _, _) => Err(ScheduleError::Field(0)),
            (_, None, _, _, _) => Err(ScheduleError::Field(1)),
            (_, _, None, _, _) => Err(ScheduleError::Field(2)),
            (_, _, _, None, _) => Err(ScheduleError::Field(3)),
            (_, _, _, _, None) => Err(ScheduleError::Field(4)),
        }
    }
}

/// Due-ness is a deterministic pure function of the predicate and the
/// timestamp: two evaluations of the same predicate at the same instant
/// agree, whatever else happened between them.
pub proof fn lemma_due_deterministic(c: Cron, t: Timestamp, r1: bool, r2: bool)
    requires
        r1 == c.fires_at(t),
        r2 == c.fires_at(t),
    ensures
        r1 == r2,
{
}

} // verus!
