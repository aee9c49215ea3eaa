//! Live-duration rendering: elapsed time between a stream's start and a
//! given "now", shown as zero-padded `HH:MM`.

use vstd::prelude::*;
use crate::numfmt::{dec_str_pad2, u64_dec_chars_pad2};
use crate::text::string_from_chars;

verus! {

/// What chrono's parse of a timestamp text returns: the instant as whole
/// seconds since the Unix epoch where the text is a well-formed timestamp,
/// `None` otherwise — a function of the characters alone.
pub uninterp spec fn ts_secs_of(s: Seq<char>) -> Option<i64>;

/// Relies on chrono's `FromStr for DateTime<Utc>` (a relaxed RFC 3339
/// parse, depending on the characters alone) and `DateTime::timestamp`.
#[verifier::external_body]
pub(crate) fn parse_start_secs(s: &str) -> (r: Option<i64>)
    ensures
        r == ts_secs_of(s@),
{
    match s.parse::<chrono::DateTime<chrono::Utc>>() {
        Ok(dt) => Some(dt.timestamp()),
        Err(_) => None,
    }
}

/// `total_minutes` rendered as `HH:MM`: total whole hours (two digits or
/// more), a colon, and the remaining minutes (always two digits).
pub open spec fn hhmm_view(total_minutes: nat) -> Seq<char> {
    dec_str_pad2(total_minutes / 60) + seq![':'] + dec_str_pad2(total_minutes % 60)
}

/// The duration column for a start instant and a "now", both in seconds
/// since the Unix epoch: empty where the start text did not parse,
/// otherwise the elapsed whole minutes as `HH:MM`. A start instant later
/// than "now" renders as `00:00`.
pub open spec fn duration_view(ts: Option<i64>, now_secs: i64) -> Seq<char> {
    match ts {
        Option::None => Seq::<char>::empty(),
        Option::Some(t) => if t <= now_secs {
            hhmm_view(((now_secs - t) / 60) as nat)
        } else {
            hhmm_view(0)
        },
    }
}

/// `total_minutes` rendered as `HH:MM`.
pub fn render_hhmm(total_minutes: u64) -> (r: Vec<char>)
    ensures
        r@ == hhmm_view(total_minutes as nat),
{
    let mut r = u64_dec_chars_pad2(total_minutes / 60);
    r.push(':');
    let mm = u64_dec_chars_pad2(total_minutes % 60);
    let mut k: usize = 0;
    while k < mm.len()
        invariant
            k <= mm@.len(),
            r@ == dec_str_pad2(total_minutes as nat / 60) + seq![':'] + mm@.subrange(0, k as int),
        decreases mm@.len() - k,
    {
        r.push(mm[k]);
        proof {
            assert(mm@.subrange(0, k + 1 as int) =~= mm@.subrange(0, k as int).push(
                mm@[k as int],
            ));
            assert((dec_str_pad2(total_minutes as nat / 60) + seq![':'] + mm@.subrange(
                0,
                k as int,
            )).push(mm@[k as int]) =~= dec_str_pad2(total_minutes as nat / 60) + seq![':']
                + mm@.subrange(0, k + 1 as int));
        }
        k = k + 1;
    }
    proof {
        assert(mm@.subrange(0, mm@.len() as int) =~= mm@);
        assert(r@ =~= hhmm_view(total_minutes as nat));
    }
    r
}

/// The rendered live duration for a stream that started at the instant
/// written in `started_at`, as of `now_secs`. Where the text does not
/// parse the result is empty; where the start lies after `now_secs` the
/// result is `00:00`.
pub fn duration_hhmm(started_at: &str, now_secs: i64) -> (r: String)
    ensures
        r@ == duration_view(ts_secs_of(started_at@), now_secs),
{
    match parse_start_secs(started_at) {
        Option::None => String::new(),
        Option::Some(t) => {
            let total_minutes: u64 = if t <= now_secs {
                let diff: i128 = (now_secs as i128) - (t as i128);
                let diff_u: u64 = diff as u64;
                proof {
                    assert(0 <= diff < 0x10000000000000000i128);
                    assert(diff_u == now_secs - t);
                }
                diff_u / 60
            } else {
                0
            };
            let chars = render_hhmm(total_minutes);
            string_from_chars(&chars)
        },
    }
}

} // verus!
