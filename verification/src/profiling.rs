//! Times of events, for finding out what makes the program slow.
//!
//! Times are given in nanoseconds of a clock that does not run backwards, and are
//! reported in whole milliseconds.
use vstd::prelude::*;

verus! {

/// When the measurement began, if it did, and whether anything is reported.
#[derive(Debug, Clone, Copy, PartialEq, Eq)]
pub struct Profiler {
    pub start: Option<u128>,
    pub enabled: bool,
}

/// A part of the program that is being timed.
#[derive(Debug, Clone)]
pub struct ProfileScope {
    pub event: &'static str,
    pub start: u128,
    pub enabled: bool,
    pub detail: Option<String>,
}

/// How many nanoseconds make one millisecond.
pub const MILLISECOND: u128 = 1_000_000;

/// The whole milliseconds from `start` to `now`; none if `now` is earlier.
pub open spec fn elapsed(start: u128, now: u128) -> u128 {
    if now >= start {
        ((now - start) / MILLISECOND as int) as u128
    } else {
        0
    }
}

/// The digit for a number below ten.
pub open spec fn digit(d: nat) -> char {
    (48 + d) as char
}

/// A number as it is written in decimal.
pub open spec fn decimal(n: nat) -> Seq<char>
    decreases n,
{
    if n < 10 {
        seq![digit(n)]
    } else {
        decimal(n / 10).push(digit(n % 10))
    }
}

pub open spec fn spaces(count: nat) -> Seq<char> {
    Seq::new(count, |i: int| ' ')
}

/// A text with spaces before it, so that it is at least `width` wide.
pub open spec fn right_aligned(text: Seq<char>, width: nat) -> Seq<char> {
    spaces(
        if text.len() < width {
            (width - text.len()) as nat
        } else {
            0
        },
    ) + text
}

/// A line of the report, without what happened.
pub open spec fn report_head(milliseconds: u128) -> Seq<char> {
    right_aligned(decimal(milliseconds as nat), 5) + " ms time elapsed: "@
}

pub open spec fn detail_text(detail: Seq<char>) -> Seq<char> {
    " ("@ + detail + ")"@
}

impl Profiler {
    pub open spec fn idle() -> Self {
        Profiler { start: None, enabled: false }
    }

    /// The profiler once its start is fixed: the first look at the clock counts.
    pub open spec fn started(self, now: u128) -> Self {
        Profiler {
            start: match self.start {
                Some(start) => Some(start),
                None => Some(now),
            },
            ..self
        }
    }

    pub open spec fn spec_since_start(self, now: u128) -> u128 {
        elapsed(self.started(now).start->0, now)
    }

    /// A profiler that has not begun to measure, and reports nothing.
    pub fn new() -> (r: Self)
        ensures
            r == Profiler::idle(),
    {
        Profiler { start: None, enabled: false }
    }

    fn since_start(&mut self, now: u128) -> (r: u128)
        ensures
            *final(self) == old(self).started(now),
            r == old(self).spec_since_start(now),
    {
        let start = match self.start {
            Some(start) => start,
            None => now,
        };
        self.start = Some(start);
        time_between(start, now)
    }
}

fn time_between(start: u128, now: u128) -> (r: u128)
    ensures
        r == elapsed(start, now),
{
    if now >= start {
        (now - start) / MILLISECOND
    } else {
        0
    }
}

fn digit_text(d: u8) -> (r: &'static str)
    requires
        d < 10,
    ensures
        r@ == seq![digit(d as nat)],
{
    proof {
        reveal_strlit("0");
        reveal_strlit("1");
        reveal_strlit("2");
        reveal_strlit("3");
        reveal_strlit("4");
        reveal_strlit("5");
        reveal_strlit("6");
        reveal_strlit("7");
        reveal_strlit("8");
        reveal_strlit("9");
    }
    let r = match d {
        0 => "0",
        1 => "1",
        2 => "2",
        3 => "3",
        4 => "4",
        5 => "5",
        6 => "6",
        7 => "7",
        8 => "8",
        _ => "9",
    };
    assert(r@ =~= seq![digit(d as nat)]);
    r
}

fn decimal_text(n: u128) -> (r: String)
    ensures
        r@ == decimal(n as nat),
    decreases n,
{
    if n < 10 {
        String::from_str(digit_text(n as u8))
    } else {
        let mut text = decimal_text(n / 10);
        text.append(digit_text((n % 10) as u8));
        assert(text@ =~= decimal(n as nat));
        text
    }
}

fn head_text(milliseconds: u128) -> (r: String)
    ensures
        r@ == report_head(milliseconds),
{
    let number = decimal_text(milliseconds);
    let len: usize = number.as_str().unicode_len();
    let mut text = String::new();
    let mut k: usize = len;
    proof {
        reveal_strlit(" ");
    }
    while k < 5
        invariant
            len <= k,
            k <= 5 || k == len,
            " "@ =~= seq![' '],
            text@ =~= spaces((k - len) as nat),
        decreases 5 - k,
    {
        text.append(" ");
        k = k + 1;
    }
    text.append(number.as_str());
    text.append(" ms time elapsed: ");
    text
}

fn append_detail(text: &mut String, detail: &str)
    ensures
        final(text)@ == old(text)@ + detail_text(detail@),
{
    text.append(" (");
    text.append(detail);
    text.append(")");
    assert(text@ =~= old(text)@ + detail_text(detail@));
}

/// Begins to measure, unless that was done before.
pub fn init(profiler: &mut Profiler, now: u128)
    ensures
        *final(profiler) == old(profiler).started(now),
{
    profiler.since_start(now);
}

pub fn set_enabled(profiler: &mut Profiler, enabled: bool)
    ensures
        *final(profiler) == (Profiler { enabled, ..*old(profiler) }),
{
    profiler.enabled = enabled;
}

pub fn enabled(profiler: &Profiler) -> (r: bool)
    ensures
        r == profiler.enabled,
{
    profiler.enabled
}

/// The line that reports an event; none while reports are switched off.
pub fn mark(profiler: &mut Profiler, now: u128, event: &str) -> (r: Option<String>)
    ensures
        old(profiler).enabled ==> {
            &&& *final(profiler) == old(profiler).started(now)
            &&& r is Some
            &&& r->0@ == report_head(old(profiler).spec_since_start(now)) + event@
        },
        !old(profiler).enabled ==> *final(profiler) == *old(profiler) && r is None,
{
    if !enabled(profiler) {
        return None;
    }
    let mut text = head_text(profiler.since_start(now));
    text.append(event);
    Some(text)
}

/// The line that reports an event with a detail; none while reports are switched
/// off.
pub fn mark_detail(profiler: &mut Profiler, now: u128, event: &str, detail: &str) -> (r: Option<
    String,
>)
    ensures
        old(profiler).enabled ==> {
            &&& *final(profiler) == old(profiler).started(now)
            &&& r is Some
            &&& r->0@ == report_head(old(profiler).spec_since_start(now)) + event@ + detail_text(
                detail@,
            )
        },
        !old(profiler).enabled ==> *final(profiler) == *old(profiler) && r is None,
{
    if !enabled(profiler) {
        return None;
    }
    let mut text = head_text(profiler.since_start(now));
    text.append(event);
    append_detail(&mut text, detail);
    Some(text)
}

/// Begins to time a part of the program. Whether that is reported is decided now.
pub fn scope(profiler: &Profiler, now: u128, event: &'static str) -> (r: ProfileScope)
    ensures
        r == (ProfileScope { event, start: now, enabled: profiler.enabled, detail: None }),
{
    ProfileScope { event, start: now, enabled: enabled(profiler), detail: None }
}

pub fn scope_detail(profiler: &Profiler, now: u128, event: &'static str, detail: String) -> (r:
    ProfileScope)
    ensures
        r == (ProfileScope { event, start: now, enabled: profiler.enabled, detail: Some(detail) }),
{
    ProfileScope { event, start: now, enabled: enabled(profiler), detail: Some(detail) }
}

impl ProfileScope {
    /// The line that reports how long the part took.
    pub open spec fn report(self, since_start: u128, now: u128) -> Seq<char> {
        let text = report_head(since_start) + self.event@ + " completed in "@ + decimal(
            elapsed(self.start, now) as nat,
        ) + " ms"@;
        match self.detail {
            Some(detail) => text + detail_text(detail@),
            None => text,
        }
    }

    /// Ends the part of the program: gives the line that reports how long it took,
    /// or none if it is not reported.
    pub fn finish(self, profiler: &mut Profiler, now: u128) -> (r: Option<String>)
        ensures
            self.enabled ==> {
                &&& *final(profiler) == old(profiler).started(now)
                &&& r is Some
                &&& r->0@ == self.report(old(profiler).spec_since_start(now), now)
            },
            !self.enabled ==> *final(profiler) == *old(profiler) && r is None,
    {
        if !self.enabled {
            return None;
        }
        let mut text = head_text(profiler.since_start(now));
        text.append(self.event);
        text.append(" completed in ");
        text.append(decimal_text(time_between(self.start, now)).as_str());
        text.append(" ms");
        if let Some(detail) = &self.detail {
            append_detail(&mut text, detail.as_str());
        }
        Some(text)
    }
}

/// The number that a text of digits stands for.
pub open spec fn number_of(text: Seq<char>) -> nat
    decreases text.len(),
{
    if text.len() == 0 {
        0
    } else {
        10 * number_of(text.drop_last()) + (text.last() as u32 - 48) as nat
    }
}

proof fn lemma_digit_reads_back(d: nat)
    requires
        d < 10,
    ensures
        digit(d) as u32 == 48 + d,
        digit(d) == '0' <==> d == 0,
{
    let n = (48 + d) as u32;
    assert(digit(d) as u32 == n);
}

/// A number that is written down can be read back, and has no leading zeros.
pub proof fn lemma_decimal_reads_back(n: nat)
    ensures
        number_of(decimal(n)) == n,
        decimal(n).len() > 0,
        forall|i: int| 0 <= i < decimal(n).len() ==> '0' <= #[trigger] decimal(n)[i] <= '9',
        decimal(n).len() > 1 <==> n >= 10,
        n >= 10 ==> decimal(n)[0] != '0',
    decreases n,
{
    if n < 10 {
        assert(decimal(n).drop_last() =~= Seq::<char>::empty());
        assert(decimal(n).last() == digit(n));
        lemma_digit_reads_back(n);
        assert(number_of(Seq::<char>::empty()) == 0);
    } else {
        lemma_decimal_reads_back(n / 10);
        assert(decimal(n).drop_last() =~= decimal(n / 10));
        assert(decimal(n).last() == digit(n % 10));
        lemma_digit_reads_back(n % 10);
        assert(decimal(n)[0] == decimal(n / 10)[0]);
        if n / 10 < 10 {
            lemma_digit_reads_back(n / 10);
            assert(decimal(n / 10)[0] == digit(n / 10));
        }
    }
}

/// The time that is reported is the one that went by, rounded down to milliseconds.
pub proof fn lemma_elapsed_is_the_time_between(start: u128, now: u128)
    ensures
        start <= now ==> elapsed(start, now) * 1_000_000 <= now - start < (elapsed(start, now) + 1)
            * 1_000_000,
        now < start ==> elapsed(start, now) == 0,
{
}

/// The clock of a profiler starts with the first look at it, and never again.
pub proof fn lemma_first_look_starts_the_clock(profiler: Profiler, first: u128, later: u128)
    ensures
        profiler.started(first).started(later) == profiler.started(first),
        profiler.started(first).enabled == profiler.enabled,
        profiler.start is None ==> {
            &&& profiler.spec_since_start(first) == 0
            &&& profiler.started(first).spec_since_start(later) == elapsed(first, later)
        },
        profiler.start matches Some(start) ==> profiler.spec_since_start(later) == elapsed(
            start,
            later,
        ),
{
}

/// A line begins with the milliseconds, aligned to the right in five columns.
pub proof fn lemma_head_of_a_line(milliseconds: u128)
    ensures
        ({
            let head = report_head(milliseconds);
            let digits = decimal(milliseconds as nat);
            let width = if digits.len() < 5 {
                5int
            } else {
                digits.len() as int
            };
            &&& " ms time elapsed: "@.is_suffix_of(head)
            &&& head.len() == width + " ms time elapsed: "@.len()
            &&& head.subrange(width - digits.len(), width) == digits
            &&& forall|i: int| 0 <= i < width - digits.len() ==> #[trigger] head[i] == ' '
        }),
{
    let head = report_head(milliseconds);
    let digits = decimal(milliseconds as nat);
    let unit = " ms time elapsed: "@;
    let width = if digits.len() < 5 {
        5int
    } else {
        digits.len() as int
    };
    assert(head.subrange(width - digits.len(), width) =~= digits);
    assert(unit =~= head.subrange(head.len() - unit.len(), head.len() as int));
}

/// The line about a part of the program tells when it ended, what it was, and how long
/// it took.
pub proof fn lemma_line_about_a_part(scope: ProfileScope, since_start: u128, now: u128)
    ensures
        ({
            let line = scope.report(since_start, now);
            let told = report_head(since_start) + scope.event@ + " completed in "@;
            let digits = decimal(elapsed(scope.start, now) as nat);
            let at = told.len() as int;
            &&& told.is_prefix_of(line)
            &&& line.len() >= at + digits.len()
            &&& line.subrange(at, at + digits.len()) == digits
            &&& scope.detail matches Some(detail) ==> line.len() >= detail@.len() + 1
                && line.subrange(
                line.len() - detail@.len() - ")"@.len(),
                line.len() - ")"@.len(),
            ) == detail@
        }),
{
    let line = scope.report(since_start, now);
    let told = report_head(since_start) + scope.event@ + " completed in "@;
    let digits = decimal(elapsed(scope.start, now) as nat);
    let at = told.len() as int;
    assert(told =~= line.subrange(0, at));
    assert(line.subrange(at, at + digits.len()) =~= digits);
    if let Some(detail) = scope.detail {
        reveal_strlit(")");
        assert(line.subrange(
            line.len() - detail@.len() - ")"@.len(),
            line.len() - ")"@.len(),
        ) =~= detail@);
    }
}

} // verus!
