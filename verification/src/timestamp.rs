use vstd::prelude::*;

use crate::labels::{lemma_lex_concat, lemma_lex_refl, lex_le};

use chrono::Datelike;
use chrono::Timelike;

verus! {

/// A wall-clock instant, broken into plain calendar fields.
#[derive(Clone, Copy, PartialEq, Eq, Structural)]
pub struct Timestamp {
    pub year: i32,
    pub month: u32,
    pub day: u32,
    pub hour: u32,
    pub minute: u32,
    pub second: u32,
}

/// The fields a backup-root label can carry: calendar ranges, with the
/// year within the four digits the fixed-width label format holds.
pub open spec fn ts_wf(ts: Timestamp) -> bool {
    &&& 0 <= ts.year <= 9999
    &&& 1 <= ts.month <= 12
    &&& 1 <= ts.day <= 31
    &&& ts.hour <= 23
    &&& ts.minute <= 59
    &&& ts.second <= 59
}

/// Relies on `chrono::Local::now` and its `Datelike` / `Timelike`
/// accessors for the current local time; chrono documents month as 1 to
/// 12, day as 1 to 31, hour as 0 to 23, and minute and second as 0 to
/// 59. Nothing further can be promised of a clock reading. Note that
/// chrono's `now` panics on a system clock set before the Unix epoch —
/// an environmental state no precondition can exclude here.
#[verifier::external_body]
fn clock_now() -> (r: Timestamp)
    ensures
        1 <= r.month <= 12,
        1 <= r.day <= 31,
        r.hour <= 23,
        r.minute <= 59,
        r.second <= 59,
{
    let now = chrono::Local::now();
    Timestamp {
        year: now.year(),
        month: now.month(),
        day: now.day(),
        hour: now.hour(),
        minute: now.minute(),
        second: now.second(),
    }
}

/// The decimal digit character for one digit value.
pub open spec fn digit_char_of(d: int) -> char {
    if d == 0 {
        '0'
    } else if d == 1 {
        '1'
    } else if d == 2 {
        '2'
    } else if d == 3 {
        '3'
    } else if d == 4 {
        '4'
    } else if d == 5 {
        '5'
    } else if d == 6 {
        '6'
    } else if d == 7 {
        '7'
    } else if d == 8 {
        '8'
    } else {
        '9'
    }
}

/// A value rendered as exactly two decimal digits, zero-padded.
pub open spec fn two_digits_of(v: int) -> Seq<char> {
    seq![digit_char_of(v / 10 % 10), digit_char_of(v % 10)]
}

/// A value rendered as exactly four decimal digits, zero-padded.
pub open spec fn four_digits_of(v: int) -> Seq<char> {
    seq![
        digit_char_of(v / 1000 % 10),
        digit_char_of(v / 100 % 10),
        digit_char_of(v / 10 % 10),
        digit_char_of(v % 10),
    ]
}

/// The backup-root label of an instant: fixed-width, zero-padded fields,
/// so that the lexicographic order of labels is their chronological
/// order.
pub open spec fn label_of(ts: Timestamp) -> Seq<char> {
    four_digits_of(ts.year as int) + "-"@ + two_digits_of(ts.month as int) + "-"@ + two_digits_of(
        ts.day as int,
    ) + "_"@ + two_digits_of(ts.hour as int) + "-"@ + two_digits_of(ts.minute as int) + "-"@
        + two_digits_of(ts.second as int)
}

/// Digit characters order exactly as their digit values.
proof fn lemma_digit_char_order(d: int, e: int)
    requires
        0 <= d <= 9,
        0 <= e <= 9,
    ensures
        (digit_char_of(d) == digit_char_of(e)) == (d == e),
        ((digit_char_of(d) as u32) < (digit_char_of(e) as u32)) == (d < e),
{
}

/// Chronological order on instants: field by field, most significant
/// first.
pub open spec fn ts_le(a: Timestamp, b: Timestamp) -> bool {
    if a.year != b.year {
        a.year < b.year
    } else if a.month != b.month {
        a.month < b.month
    } else if a.day != b.day {
        a.day < b.day
    } else if a.hour != b.hour {
        a.hour < b.hour
    } else if a.minute != b.minute {
        a.minute < b.minute
    } else {
        a.second <= b.second
    }
}

/// One digit character compares as its digit value.
proof fn lemma_one_digit_le(v: int, w: int)
    requires
        0 <= v <= 9,
        0 <= w <= 9,
    ensures
        lex_le(seq![digit_char_of(v)], seq![digit_char_of(w)]) == (v <= w),
{
    lemma_digit_char_order(v, w);
    let a = seq![digit_char_of(v)];
    let b = seq![digit_char_of(w)];
    if a[0] == b[0] {
        assert(a.skip(1) =~= Seq::<char>::empty());
        assert(b.skip(1) =~= Seq::<char>::empty());
        assert(lex_le(Seq::<char>::empty(), Seq::<char>::empty()));
        assert(lex_le(a, b));
    }
}

/// Two zero-padded digits compare as their value.
proof fn lemma_two_digits_le(v: int, w: int)
    requires
        0 <= v <= 99,
        0 <= w <= 99,
    ensures
        lex_le(two_digits_of(v), two_digits_of(w)) == (v <= w),
{
    let a1 = seq![digit_char_of(v / 10 % 10)];
    let a2 = seq![digit_char_of(v % 10)];
    let b1 = seq![digit_char_of(w / 10 % 10)];
    let b2 = seq![digit_char_of(w % 10)];
    assert(two_digits_of(v) =~= a1 + a2);
    assert(two_digits_of(w) =~= b1 + b2);
    assert(v / 10 % 10 == v / 10);
    assert(w / 10 % 10 == w / 10);
    lemma_digit_char_order(v / 10, w / 10);
    lemma_lex_concat(a1, a2, b1, b2);
    if a1 == b1 {
        assert(v / 10 == w / 10);
        lemma_one_digit_le(v % 10, w % 10);
        assert(v == 10 * (v / 10) + v % 10);
        assert(w == 10 * (w / 10) + w % 10);
    } else {
        assert(v / 10 != w / 10);
        lemma_one_digit_le(v / 10, w / 10);
        assert((v <= w) == (v / 10 <= w / 10)) by {
            assert(v == 10 * (v / 10) + v % 10);
            assert(w == 10 * (w / 10) + w % 10);
        }
    }
}

/// Two zero-padded digits carry their value.
proof fn lemma_two_digits_injective(v: int, w: int)
    requires
        0 <= v <= 99,
        0 <= w <= 99,
        two_digits_of(v) == two_digits_of(w),
    ensures
        v == w,
{
    lemma_two_digits_le(v, w);
    lemma_two_digits_le(w, v);
    lemma_lex_refl(two_digits_of(v));
}

/// Four zero-padded digits are the two-digit renderings of the upper and
/// lower halves, side by side.
proof fn lemma_four_digits_split(v: int)
    requires
        0 <= v <= 9999,
    ensures
        four_digits_of(v) =~= two_digits_of(v / 100) + two_digits_of(v % 100),
{
    assert((v / 100) / 10 == v / 1000) by (nonlinear_arith)
        requires 0 <= v <= 9999;
    assert((v % 100) / 10 == v / 10 % 10) by (nonlinear_arith)
        requires 0 <= v <= 9999;
    assert((v % 100) % 10 == v % 10) by (nonlinear_arith)
        requires 0 <= v <= 9999;
    assert((v / 100) % 10 == v / 100 % 10);
    assert(v / 1000 % 10 == v / 1000) by (nonlinear_arith)
        requires 0 <= v <= 9999;
}

/// Four zero-padded digits compare as their value.
proof fn lemma_four_digits_le(v: int, w: int)
    requires
        0 <= v <= 9999,
        0 <= w <= 9999,
    ensures
        lex_le(four_digits_of(v), four_digits_of(w)) == (v <= w),
{
    lemma_four_digits_split(v);
    lemma_four_digits_split(w);
    let a1 = two_digits_of(v / 100);
    let a2 = two_digits_of(v % 100);
    let b1 = two_digits_of(w / 100);
    let b2 = two_digits_of(w % 100);
    lemma_lex_concat(a1, a2, b1, b2);
    if a1 == b1 {
        lemma_two_digits_injective(v / 100, w / 100);
        lemma_two_digits_le(v % 100, w % 100);
        assert(v == 100 * (v / 100) + v % 100);
        assert(w == 100 * (w / 100) + w % 100);
    } else {
        assert(v / 100 != w / 100);
        lemma_two_digits_le(v / 100, w / 100);
        assert((v <= w) == (v / 100 <= w / 100)) by {
            assert(v == 100 * (v / 100) + v % 100);
            assert(w == 100 * (w / 100) + w % 100);
        }
    }
}

/// Four zero-padded digits carry their value.
proof fn lemma_four_digits_injective(v: int, w: int)
    requires
        0 <= v <= 9999,
        0 <= w <= 9999,
        four_digits_of(v) == four_digits_of(w),
    ensures
        v == w,
{
    lemma_four_digits_le(v, w);
    lemma_four_digits_le(w, v);
    lemma_lex_refl(four_digits_of(v));
}

/// Compare one two-digit field and hand equal fields on to the rest of
/// the label.
proof fn lemma_label_field(v: int, w: int, rest_v: Seq<char>, rest_w: Seq<char>, le_rest: bool)
    requires
        0 <= v <= 99,
        0 <= w <= 99,
        lex_le(rest_v, rest_w) == le_rest,
    ensures
        lex_le(two_digits_of(v) + rest_v, two_digits_of(w) + rest_w) == (if v != w {
            v < w
        } else {
            le_rest
        }),
{
    lemma_lex_concat(two_digits_of(v), rest_v, two_digits_of(w), rest_w);
    if two_digits_of(v) == two_digits_of(w) {
        lemma_two_digits_injective(v, w);
    } else {
        assert(v != w);
        lemma_two_digits_le(v, w);
        lemma_two_digits_le(w, v);
        if v < w {
        } else {
            assert(w < v);
        }
    }
}

/// The fixed-width label format makes lexicographic order on labels the
/// chronological order of the instants they name: exactly what selecting
/// the greatest label for a revert relies on.
pub proof fn lemma_label_order_is_chronological(t1: Timestamp, t2: Timestamp)
    requires
        ts_wf(t1),
        ts_wf(t2),
    ensures
        lex_le(label_of(t1), label_of(t2)) == ts_le(t1, t2),
{
    reveal_strlit("-");
    reveal_strlit("_");
    let sep = "-"@;
    let usep = "_"@;
    let s1 = two_digits_of(t1.second as int);
    let s2 = two_digits_of(t2.second as int);
    let mi1 = two_digits_of(t1.minute as int) + (sep + s1);
    let mi2 = two_digits_of(t2.minute as int) + (sep + s2);
    let h1 = two_digits_of(t1.hour as int) + (sep + mi1);
    let h2 = two_digits_of(t2.hour as int) + (sep + mi2);
    let d1 = two_digits_of(t1.day as int) + (usep + h1);
    let d2 = two_digits_of(t2.day as int) + (usep + h2);
    let mo1 = two_digits_of(t1.month as int) + (sep + d1);
    let mo2 = two_digits_of(t2.month as int) + (sep + d2);
    let y1 = four_digits_of(t1.year as int) + (sep + mo1);
    let y2 = four_digits_of(t2.year as int) + (sep + mo2);
    assert(label_of(t1) =~= y1);
    assert(label_of(t2) =~= y2);

    let le_s = lex_le(s1, s2);
    lemma_two_digits_le(t1.second as int, t2.second as int);

    lemma_lex_concat(sep, s1, sep, s2);
    lemma_label_field(t1.minute as int, t2.minute as int, sep + s1, sep + s2, le_s);
    let le_mi = lex_le(mi1, mi2);

    lemma_lex_concat(sep, mi1, sep, mi2);
    lemma_label_field(t1.hour as int, t2.hour as int, sep + mi1, sep + mi2, le_mi);
    let le_h = lex_le(h1, h2);

    lemma_lex_concat(usep, h1, usep, h2);
    lemma_label_field(t1.day as int, t2.day as int, usep + h1, usep + h2, le_h);
    let le_d = lex_le(d1, d2);

    lemma_lex_concat(sep, d1, sep, d2);
    lemma_label_field(t1.month as int, t2.month as int, sep + d1, sep + d2, le_d);
    let le_mo = lex_le(mo1, mo2);

    lemma_lex_concat(sep, mo1, sep, mo2);
    lemma_lex_concat(
        four_digits_of(t1.year as int),
        sep + mo1,
        four_digits_of(t2.year as int),
        sep + mo2,
    );
    if four_digits_of(t1.year as int) == four_digits_of(t2.year as int) {
        lemma_four_digits_injective(t1.year as int, t2.year as int);
    } else {
        assert(t1.year != t2.year);
        lemma_four_digits_le(t1.year as int, t2.year as int);
        lemma_four_digits_le(t2.year as int, t1.year as int);
        if t1.year < t2.year {
        } else {
            assert(t2.year < t1.year);
        }
    }
}

/// The single-character string for one digit value.
fn digit_str(d: u32) -> (r: &'static str)
    requires
        d < 10,
    ensures
        r@ =~= seq![digit_char_of(d as int)],
{
    proof {
        reveal_strlit("0");
        reveal_strlit("1");
        reveal_strlit("2");
        reveal_strlit("3");
        reveal_strlit("4");
        reveal_strlit("5");
        reveal_strlit("6");
        reveal_strlit("7");
        reveal_strlit("8");
        reveal_strlit("9");
    }
    if d == 0 {
        "0"
    } else if d == 1 {
        "1"
    } else if d == 2 {
        "2"
    } else if d == 3 {
        "3"
    } else if d == 4 {
        "4"
    } else if d == 5 {
        "5"
    } else if d == 6 {
        "6"
    } else if d == 7 {
        "7"
    } else if d == 8 {
        "8"
    } else {
        "9"
    }
}

/// Append a value as two zero-padded digits.
fn push_two_digits(s: &mut String, v: u32)
    requires
        v <= 99,
    ensures
        final(s)@ == old(s)@ + two_digits_of(v as int),
{
    s.append(digit_str(v / 10 % 10));
    s.append(digit_str(v % 10));
    proof {
        assert(final(s)@ =~= old(s)@ + two_digits_of(v as int));
    }
}

/// Append a value as four zero-padded digits.
fn push_four_digits(s: &mut String, v: u32)
    requires
        v <= 9999,
    ensures
        final(s)@ == old(s)@ + four_digits_of(v as int),
{
    s.append(digit_str(v / 1000 % 10));
    s.append(digit_str(v / 100 % 10));
    s.append(digit_str(v / 10 % 10));
    s.append(digit_str(v % 10));
    proof {
        assert(final(s)@ =~= old(s)@ + four_digits_of(v as int));
    }
}

/// Render an instant as a backup-root label.
pub fn format_label(ts: &Timestamp) -> (r: String)
    requires
        ts_wf(*ts),
    ensures
        r@ == label_of(*ts),
{
    let mut s = String::new();
    push_four_digits(&mut s, ts.year as u32);
    s.append("-");
    push_two_digits(&mut s, ts.month);
    s.append("-");
    push_two_digits(&mut s, ts.day);
    s.append("_");
    push_two_digits(&mut s, ts.hour);
    s.append("-");
    push_two_digits(&mut s, ts.minute);
    s.append("-");
    push_two_digits(&mut s, ts.second);
    proof {
        assert(s@ =~= label_of(*ts));
    }
    s
}

/// The label is always exactly nineteen characters wide.
pub proof fn lemma_label_len(ts: Timestamp)
    ensures
        label_of(ts).len() == 19,
{
    reveal_strlit("-");
    reveal_strlit("_");
}

/// Render an instant as a backup-root label, accepting it exactly when
/// the label format can carry it: the calendar fields in range and the
/// year within four digits. This is the whole decision between a clock
/// reading and the label a restore runs under.
pub fn label_for(ts: &Timestamp) -> (r: Option<String>)
    ensures
        r is Some <==> ts_wf(*ts),
        (r matches Some(l) ==> l@ == label_of(*ts) && l@.len() == 19),
{
    if ts.year < 0 || ts.year > 9999 || ts.month < 1 || ts.month > 12 || ts.day < 1 || ts.day > 31
        || ts.hour > 23 || ts.minute > 59 || ts.second > 59 {
        return None;
    }
    let label = format_label(ts);
    proof {
        lemma_label_len(*ts);
    }
    Some(label)
}

/// Read the clock and render the backup-root label for this run, fixed
/// once for the whole restore invocation. `None` only when the clock
/// reports an instant the label format cannot carry.
pub fn make_backup_label() -> (r: Option<String>)
    ensures
        (r matches Some(l) ==> exists|ts: Timestamp|
            ts_wf(ts) && l@ == label_of(ts) && l@.len() == 19),
{
    let ts = clock_now();
    let r = label_for(&ts);
    proof {
        if r is Some {
            assert(ts_wf(ts) && r->Some_0@ == label_of(ts) && r->Some_0@.len() == 19);
        }
    }
    r
}

} // verus!
