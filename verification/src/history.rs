//! History codec and aggregator: completed sessions and their daily sum.
//!
//! The history file is append-only, one record per line:
//! `"<day/month/year> <whole minutes>"`.  Records are immutable once
//! appended, insertion order is chronological by write time, but readers
//! must not assume any order: aggregation scans every line and filters.
//! One corrupt line is fatal for the whole scan — a corrupt history is
//! never silently skipped.

use vstd::prelude::*;
use crate::config::Config;
use crate::datetime::{
    date_chars, date_from_string, date_to_string, lemma_date_round_trip, parse_date_chars, Date,
};
use crate::digits::{
    all_digits, append_decimal, dec_str, dec_val, is_digit, lemma_dec_str_wf, parse_decimal,
};
use crate::errors::CorruptionError;
use crate::status::{encode_closed_spec, set_timestamp_status_closed};
use crate::words::{get_two_words_from_line, lemma_two_words_of_join, no_space_chars, space_from};

verus! {

/// One finished work block: the calendar date on which it was closed —
/// not opened — and its length in whole minutes.
#[derive(Clone, Copy, Debug, PartialEq, Eq, Structural)]
pub struct Timestamp {
    pub date: Date,
    pub duration: i64,
}

impl Timestamp {
    /// A valid record: a real date and a non-negative length.
    pub open spec fn wf(self) -> bool {
        &&& self.date.wf()
        &&& self.duration >= 0
    }
}

/// The history line recording a completed session: date, space, minutes.
pub open spec fn encode_timestamp_spec(t: Timestamp) -> Seq<char> {
    date_chars(t.date) + seq![' '] + dec_str(t.duration as int)
}

/// Meaning of a history line.  The first token must spell a valid date;
/// the second must be a non-negative base-10 numeral that fits the
/// duration type.  Anything after the second token is ignored.
pub open spec fn parse_timestamp_spec(line: Seq<char>) -> Result<Timestamp, CorruptionError> {
    let i = space_from(line, 0);
    match parse_date_chars(line.subrange(0, i)) {
        Option::None => Result::Err(CorruptionError::BadDate),
        Option::Some(d) => {
            if i == line.len() {
                Result::Err(CorruptionError::BadDuration)
            } else {
                let tok = line.subrange(i + 1, space_from(line, i + 1));
                if all_digits(tok) && tok.len() >= 1 && dec_val(tok) <= i64::MAX {
                    Result::Ok(Timestamp { date: d, duration: dec_val(tok) as i64 })
                } else {
                    Result::Err(CorruptionError::BadDuration)
                }
            }
        },
    }
}

/// Decodes one history line.
pub fn get_timestamp_from_line(line: &str) -> (r: Result<Timestamp, CorruptionError>)
    ensures
        r == parse_timestamp_spec(line@),
{
    match get_two_words_from_line(line) {
        None => {
            proof {
                assert(line@.subrange(0, space_from(line@, 0)) =~= line@);
            }
            match date_from_string(line) {
                Some(_) => Err(CorruptionError::BadDuration),
                None => Err(CorruptionError::BadDate),
            }
        },
        Some((date_token, duration_token)) => {
            match date_from_string(date_token) {
                None => Err(CorruptionError::BadDate),
                Some(d) => match parse_decimal(duration_token) {
                    Some(v) => Ok(Timestamp { date: d, duration: v }),
                    None => Err(CorruptionError::BadDuration),
                },
            }
        },
    }
}

/// Renders a completed session as a history line.
pub fn encode_timestamp(t: &Timestamp) -> (line: String)
    requires
        t.wf(),
    ensures
        line@ == encode_timestamp_spec(*t),
{
    let mut line = date_to_string(t.date);
    line.append(" ");
    append_decimal(&mut line, t.duration);
    proof {
        reveal_strlit(" ");
        assert(line@ =~= encode_timestamp_spec(*t));
    }
    line
}

/// The two lines that close a session: the closed status line to
/// overwrite the status file with, and the history line to append for a
/// block of `timestamp_duration` minutes closed on `today`.
pub fn close_timestamp(cfg: &Config, today: Date, timestamp_duration: i64) -> (r: (String, String))
    requires
        today.wf(),
        timestamp_duration >= 0,
    ensures
        r.0@ == encode_closed_spec(*cfg),
        r.1@ == encode_timestamp_spec((Timestamp { date: today, duration: timestamp_duration })),
{
    let status_line = set_timestamp_status_closed(cfg);
    let history_line = encode_timestamp(&Timestamp { date: today, duration: timestamp_duration });
    (status_line, history_line)
}

/// Meaning of a whole history file: the records of every line in order,
/// or the first decode error.  A corrupt line is fatal even when its
/// date would not have matched any query.
pub open spec fn parse_history_spec(lines: Seq<Seq<char>>) -> Result<Seq<Timestamp>, CorruptionError>
    decreases lines.len(),
{
    if lines.len() == 0 {
        Result::Ok(Seq::empty())
    } else {
        match parse_history_spec(lines.drop_last()) {
            Result::Err(e) => Result::Err(e),
            Result::Ok(s) => match parse_timestamp_spec(lines.last()) {
                Result::Err(e) => Result::Err(e),
                Result::Ok(t) => Result::Ok(s.push(t)),
            },
        }
    }
}

/// The records of `records` made on `d`, in order.
pub open spec fn records_on(records: Seq<Timestamp>, d: Date) -> Seq<Timestamp>
    decreases records.len(),
{
    if records.len() == 0 {
        Seq::empty()
    } else if records.last().date == d {
        records_on(records.drop_last(), d).push(records.last())
    } else {
        records_on(records.drop_last(), d)
    }
}

/// Sum of all durations.
pub open spec fn sum_durations(records: Seq<Timestamp>) -> int
    decreases records.len(),
{
    if records.len() == 0 {
        0
    } else {
        sum_durations(records.drop_last()) + records.last().duration
    }
}

/// Sum of the durations of exactly the records made on `d`.
pub open spec fn sum_for_date(records: Seq<Timestamp>, d: Date) -> int
    decreases records.len(),
{
    if records.len() == 0 {
        0
    } else {
        sum_for_date(records.drop_last(), d) + if records.last().date == d {
            records.last().duration as int
        } else {
            0
        }
    }
}

/// Whatever a history line decodes to is a valid record.
proof fn lemma_parse_timestamp_wf(line: Seq<char>)
    ensures
        parse_timestamp_spec(line) matches Ok(t) ==> t.wf(),
{
    if parse_timestamp_spec(line) is Ok {
        let i = space_from(line, 0);
        let tok = line.subrange(i + 1, space_from(line, i + 1));
        crate::digits::lemma_dec_val_nonneg(tok);
    }
}

/// If the lines up to `i` decode and line `i` does not, the whole file
/// fails with exactly line `i`'s error.
proof fn lemma_parse_history_first_error(lines: Seq<Seq<char>>, i: int, e: CorruptionError)
    requires
        0 <= i < lines.len(),
        parse_history_spec(lines.take(i)) is Ok,
        parse_timestamp_spec(lines[i]) == Result::<Timestamp, CorruptionError>::Err(e),
    ensures
        parse_history_spec(lines) == Result::<Seq<Timestamp>, CorruptionError>::Err(e),
    decreases lines.len(),
{
    if i == lines.len() - 1 {
        assert(lines.drop_last() =~= lines.take(i));
    } else {
        assert(lines.drop_last().take(i) =~= lines.take(i));
        lemma_parse_history_first_error(lines.drop_last(), i, e);
    }
}

/// Summing a prefix never exceeds summing the whole, once durations are
/// non-negative.
proof fn lemma_sum_durations_take_le(records: Seq<Timestamp>, i: int)
    requires
        forall|k: int| 0 <= k < records.len() ==> (#[trigger] records[k]).duration >= 0,
        0 <= i <= records.len(),
    ensures
        0 <= sum_durations(records.take(i)) <= sum_durations(records),
    decreases records.len() - i,
{
    assert forall|k: int| 0 <= k < records.take(i).len() implies (#[trigger] records.take(
        i,
    )[k]).duration >= 0 by {
        assert(records.take(i)[k] == records[k]);
    }
    lemma_sum_durations_nonneg(records.take(i));
    if i == records.len() {
        assert(records.take(i) =~= records);
    } else {
        assert(records.take(i + 1).drop_last() =~= records.take(i));
        assert(records.take(i + 1).last() == records[i]);
        assert(records[i].duration >= 0);
        lemma_sum_durations_take_le(records, i + 1);
    }
}

proof fn lemma_sum_durations_nonneg(records: Seq<Timestamp>)
    requires
        forall|k: int| 0 <= k < records.len() ==> (#[trigger] records[k]).duration >= 0,
    ensures
        sum_durations(records) >= 0,
    decreases records.len(),
{
    if records.len() > 0 {
        lemma_sum_durations_nonneg(records.drop_last());
    }
}

/// Filtering by date and then summing everything is summing by date.
proof fn lemma_sum_records_on(records: Seq<Timestamp>, d: Date)
    ensures
        sum_durations(records_on(records, d)) == sum_for_date(records, d),
    decreases records.len(),
{
    if records.len() > 0 {
        lemma_sum_records_on(records.drop_last(), d);
        if records.last().date == d {
            assert(records_on(records, d).drop_last() =~= records_on(records.drop_last(), d));
        }
    }
}

/// A date that matches no record sums to zero.
proof fn lemma_sum_for_date_none(records: Seq<Timestamp>, d: Date)
    requires
        forall|k: int| 0 <= k < records.len() ==> (#[trigger] records[k]).date != d,
    ensures
        sum_for_date(records, d) == 0,
    decreases records.len(),
{
    if records.len() > 0 {
        lemma_sum_for_date_none(records.drop_last(), d);
    }
}

/// Removing one record removes exactly its contribution to the sum.
proof fn lemma_sum_for_date_remove(records: Seq<Timestamp>, j: int, d: Date)
    requires
        0 <= j < records.len(),
    ensures
        sum_for_date(records, d) == sum_for_date(records.remove(j), d) + if records[j].date == d {
            records[j].duration as int
        } else {
            0
        },
    decreases records.len(),
{
    if j == records.len() - 1 {
        assert(records.remove(j) =~= records.drop_last());
    } else {
        assert(records.remove(j).drop_last() =~= records.drop_last().remove(j));
        assert(records.remove(j).last() == records.last());
        lemma_sum_for_date_remove(records.drop_last(), j, d);
    }
}

/// Aggregation is insensitive to the order of the records: any two
/// sequences holding the same multiset of completed sessions sum to the
/// same total for every date.
pub proof fn lemma_sum_for_date_permutation(s1: Seq<Timestamp>, s2: Seq<Timestamp>, d: Date)
    requires
        s1.to_multiset() == s2.to_multiset(),
    ensures
        sum_for_date(s1, d) == sum_for_date(s2, d),
    decreases s1.len(),
{
    s1.to_multiset_ensures();
    s2.to_multiset_ensures();
    if s1.len() == 0 {
        assert(s2.len() == 0);
    } else {
        let x = s1.last();
        assert(s1.contains(x));
        assert(s2.to_multiset().count(x) > 0);
        assert(s2.contains(x));
        let j = choose|j: int| 0 <= j < s2.len() && s2[j] == x;
        assert(s1.drop_last() =~= s1.remove(s1.len() - 1));
        assert(s1.remove(s1.len() - 1).to_multiset() == s1.to_multiset().remove(x));
        assert(s2.remove(j).to_multiset() == s2.to_multiset().remove(x));
        lemma_sum_for_date_permutation(s1.drop_last(), s2.remove(j), d);
        lemma_sum_for_date_remove(s2, j, d);
    }
}

/// Decodes every history line and keeps the records made on `day`.  The
/// first corrupt line is fatal for the whole scan.
pub fn get_all_timestamps_in_a_day(lines: &Vec<String>, day: Date) -> (r: Result<
    Vec<Timestamp>,
    CorruptionError,
>)
    ensures
        match r {
            Result::Ok(ts) => parse_history_spec(lines.deep_view()) matches Ok(all) && ts@
                == records_on(all, day) && (forall|k: int|
                0 <= k < ts@.len() ==> (#[trigger] ts@[k]).wf()),
            Result::Err(e) => parse_history_spec(lines.deep_view()) == Result::<
                Seq<Timestamp>,
                CorruptionError,
            >::Err(e),
        },
{
    let ghost ldv = lines.deep_view();
    let mut ts: Vec<Timestamp> = Vec::new();
    let n = lines.len();
    let mut i: usize = 0;
    while i < n
        invariant
            i <= n,
            n == lines@.len(),
            ldv == lines.deep_view(),
            parse_history_spec(ldv.take(i as int)) matches Ok(all) && ts@ == records_on(all, day)
                && (forall|k: int| 0 <= k < ts@.len() ==> (#[trigger] ts@[k]).wf()),
        decreases n - i,
    {
        proof {
            assert(ldv.take(i as int + 1).drop_last() =~= ldv.take(i as int));
            assert(ldv[i as int] == lines@[i as int]@);
        }
        match get_timestamp_from_line(lines[i].as_str()) {
            Err(e) => {
                proof {
                    lemma_parse_history_first_error(ldv, i as int, e);
                }
                return Err(e);
            },
            Ok(t) => {
                proof {
                    lemma_parse_timestamp_wf(ldv[i as int]);
                    let all = parse_history_spec(ldv.take(i as int))->Ok_0;
                    assert(all.push(t).drop_last() =~= all);
                    assert(all.push(t).last() == t);
                }
                if t.date == day {
                    ts.push(t);
                }
            },
        }
        i = i + 1;
    }
    proof {
        assert(ldv.take(n as int) =~= ldv);
    }
    Ok(ts)
}

/// Sums the durations of the given records.
pub fn sum_minutes_in_timestamps(timestamps: &Vec<Timestamp>) -> (total: i64)
    requires
        forall|k: int| 0 <= k < timestamps@.len() ==> (#[trigger] timestamps@[k]).duration >= 0,
        sum_durations(timestamps@) <= i64::MAX,
    ensures
        total == sum_durations(timestamps@),
{
    let mut total: i64 = 0;
    let n = timestamps.len();
    let mut i: usize = 0;
    while i < n
        invariant
            i <= n,
            n == timestamps@.len(),
            forall|k: int| 0 <= k < timestamps@.len() ==> (#[trigger] timestamps@[k]).duration
                >= 0,
            sum_durations(timestamps@) <= i64::MAX,
            total == sum_durations(timestamps@.take(i as int)),
            total >= 0,
        decreases n - i,
    {
        proof {
            assert(timestamps@.take(i as int + 1).drop_last() =~= timestamps@.take(i as int));
            lemma_sum_durations_take_le(timestamps@, i as int + 1);
        }
        total = total + timestamps[i].duration;
        i = i + 1;
    }
    proof {
        assert(timestamps@.take(n as int) =~= timestamps@);
    }
    total
}

/// Total minutes worked on `day` according to the history lines: decodes
/// every line, keeps the records whose date equals `day`, and sums their
/// durations.  An empty match sums to zero.  The first corrupt line is
/// the result; a total beyond the duration type is reported rather than
/// wrapped.
pub fn total_minutes_for_date(lines: &Vec<String>, day: Date) -> (r: Result<i64, CorruptionError>)
    ensures
        match parse_history_spec(lines.deep_view()) {
            Result::Err(e) => r == Result::<i64, CorruptionError>::Err(e),
            Result::Ok(all) => if sum_for_date(all, day) <= i64::MAX {
                r == Result::<i64, CorruptionError>::Ok(sum_for_date(all, day) as i64)
            } else {
                r == Result::<i64, CorruptionError>::Err(CorruptionError::Overflow)
            },
        },
        (parse_history_spec(lines.deep_view()) matches Ok(all) && (forall|k: int|
            0 <= k < all.len() ==> (#[trigger] all[k]).date != day)) ==> r == Result::<
            i64,
            CorruptionError,
        >::Ok(0),
{
    let matching = match get_all_timestamps_in_a_day(lines, day) {
        Err(e) => {
            return Err(e);
        },
        Ok(v) => v,
    };
    let ghost all = parse_history_spec(lines.deep_view())->Ok_0;
    proof {
        lemma_sum_records_on(all, day);
        if forall|k: int| 0 <= k < all.len() ==> (#[trigger] all[k]).date != day {
            lemma_sum_for_date_none(all, day);
        }
    }
    let mut total: i64 = 0;
    let n = matching.len();
    let mut i: usize = 0;
    while i < n
        invariant
            i <= n,
            n == matching@.len(),
            forall|k: int| 0 <= k < matching@.len() ==> (#[trigger] matching@[k]).wf(),
            parse_history_spec(lines.deep_view()) == Result::<
                Seq<Timestamp>,
                CorruptionError,
            >::Ok(all),
            sum_durations(matching@) == sum_for_date(all, day),
            total == sum_durations(matching@.take(i as int)),
            total >= 0,
        decreases n - i,
    {
        proof {
            assert(matching@.take(i as int + 1).drop_last() =~= matching@.take(i as int));
            assert(matching@.take(i as int + 1).last() == matching@[i as int]);
            assert(matching@[i as int].wf());
        }
        let d = matching[i].duration;
        if total > i64::MAX - d {
            proof {
                lemma_sum_durations_wf_take_le(matching@, i as int + 1);
                assert(sum_durations(matching@.take(i as int + 1)) == total + d);
                assert(sum_for_date(all, day) > i64::MAX);
                if forall|k: int| 0 <= k < all.len() ==> (#[trigger] all[k]).date != day {
                    lemma_sum_for_date_none(all, day);
                    assert(false);
                }
            }
            return Err(CorruptionError::Overflow);
        }
        total = total + d;
        i = i + 1;
    }
    proof {
        assert(matching@.take(n as int) =~= matching@);
    }
    Ok(total)
}

/// As [`lemma_sum_durations_take_le`], but from well-formedness.
proof fn lemma_sum_durations_wf_take_le(records: Seq<Timestamp>, i: int)
    requires
        forall|k: int| 0 <= k < records.len() ==> (#[trigger] records[k]).wf(),
        0 <= i <= records.len(),
    ensures
        sum_durations(records.take(i)) <= sum_durations(records),
{
    assert forall|k: int| 0 <= k < records.len() implies (#[trigger] records[k]).duration >= 0 by {
        assert(records[k].wf());
    }
    lemma_sum_durations_take_le(records, i);
}

/// A numeral holds no space.
proof fn lemma_digits_no_space(s: Seq<char>)
    requires
        all_digits(s),
    ensures
        no_space_chars(s),
{
    assert forall|i: int| 0 <= i < s.len() implies #[trigger] s[i] != ' ' by {
        assert(is_digit(s[i]));
    }
}

/// Round trip: every valid completed session decodes back from its own
/// history line.
pub proof fn lemma_timestamp_round_trip(t: Timestamp)
    requires
        t.wf(),
    ensures
        parse_timestamp_spec(encode_timestamp_spec(t)) == Result::<
            Timestamp,
            CorruptionError,
        >::Ok(t),
{
    let ds = date_chars(t.date);
    let ns = dec_str(t.duration as int);
    let line = encode_timestamp_spec(t);
    lemma_date_round_trip(t.date);
    lemma_dec_str_wf(t.duration as int);
    lemma_digits_no_space(ns);
    lemma_two_words_of_join(ds, ns);
    assert(line.subrange(0, space_from(line, 0)) =~= ds);
    assert(line.subrange(ds.len() as int + 1, space_from(line, ds.len() as int + 1)) =~= ns);
}

} // verus!
