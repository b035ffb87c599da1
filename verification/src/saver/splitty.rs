//! Saves a run as a single JSON document: the run's title, its negated
//! start delay and attempt count, and one record per segment holding
//! the personal-best split time, the duration of the personal-best
//! segment (the difference to the previous split), and the best segment
//! time, all in milliseconds. Missing times are written as nulls.

use vstd::prelude::*;
use crate::decimal::{dec_of, frac_to_trimmed, trimmed_frac, u64_to_dec};
use crate::json::{json_string, write_json_string};
use crate::run::{run_times_wf, segment_times_wf, time_wf, Run, Segment, Time, TimeSpan};
use crate::text::seq_assoc;

verus! {

/// All times of the run are small enough that any difference of two of
/// them still fits the tick type.
pub open spec fn run_ticks_bounded(run: Run) -> bool {
    &&& -0x2000_0000_0000_0000 < run.offset.ticks < 0x2000_0000_0000_0000
    &&& forall|i: int|
        0 <= i < run.segments@.len() ==> segment_ticks_bounded(#[trigger] run.segments@[i])
}

/// Both times of a segment are bounded away from the tick extremes.
pub open spec fn segment_ticks_bounded(s: Segment) -> bool {
    &&& (s.personal_best_split_time.real_time matches Some(t) ==> -0x2000_0000_0000_0000 < t.ticks
        < 0x2000_0000_0000_0000)
    &&& (s.best_segment_time.real_time matches Some(t) ==> -0x2000_0000_0000_0000 < t.ticks
        < 0x2000_0000_0000_0000)
}

/// A magnitude of ticks as a JSON float of milliseconds: the whole
/// milliseconds, then `.0` or the trimmed 4-digit fraction.
pub open spec fn json_ms_mag(m: int) -> Seq<char> {
    dec_of((m / 10_000) as nat) + (if m % 10_000 == 0 {
        ".0"@
    } else {
        "."@ + trimmed_frac((m % 10_000) as nat, 4)
    })
}

/// A signed count of ticks as a JSON float of milliseconds.
pub open spec fn json_ms_signed(t: int) -> Seq<char> {
    if t < 0 {
        "-"@ + json_ms_mag(-t)
    } else {
        json_ms_mag(t)
    }
}

/// The negated offset as the start delay: negating a zero offset keeps
/// the float's negative sign.
pub open spec fn start_delay_text(offset_ticks: int) -> Seq<char> {
    if offset_ticks > 0 {
        "-"@ + json_ms_mag(offset_ticks)
    } else if offset_ticks == 0 {
        "-0.0"@
    } else {
        json_ms_mag(-offset_ticks)
    }
}

/// An optional time span as JSON: `null` when absent.
pub open spec fn opt_ms_text(o: Option<TimeSpan>) -> Seq<char> {
    match o {
        None => "null"@,
        Some(t) => json_ms_signed(t.ticks as int),
    }
}

/// One segment's record. `last` is the previous personal-best split in
/// ticks; the personal-best duration is the difference to it.
pub open spec fn entry_text(s: Segment, last: int) -> Seq<char> {
    "{\"name\":"@ + json_string(s.name@) + ",\"pb_split\":"@ + opt_ms_text(
        s.personal_best_split_time.real_time,
    ) + ",\"pb_duration\":"@ + (match s.personal_best_split_time.real_time {
        None => "null"@,
        Some(t) => json_ms_signed(t.ticks - last),
    }) + ",\"split_best\":"@ + opt_ms_text(s.best_segment_time.real_time) + "}"@
}

/// The split after `s`: the personal-best split if present, else the
/// running value.
pub open spec fn next_last(s: Segment, last: int) -> int {
    match s.personal_best_split_time.real_time {
        None => last,
        Some(t) => t.ticks as int,
    }
}

/// The comma-separated segment records from position `k` on, with
/// `last` the previous personal-best split in ticks.
pub open spec fn entries_text(segs: Seq<Segment>, k: int, last: int) -> Seq<char>
    decreases segs.len() - k,
{
    if !(0 <= k < segs.len()) {
        Seq::empty()
    } else {
        (if k != 0 {
            ","@
        } else {
            Seq::empty()
        }) + entry_text(segs[k], last) + entries_text(segs, k + 1, next_last(segs[k], last))
    }
}

/// The complete document this saver writes.
pub open spec fn splits_json(run: Run) -> Seq<char> {
    "{\"timer_name\":"@ + json_string(run.extended_name_spec()) + ",\"run_name\":"@ + json_string(
        run.extended_name_spec(),
    ) + ",\"hash\":\"\",\"start_delay\":"@ + start_delay_text(run.offset.ticks as int)
        + ",\"run_count\":"@ + dec_of(run.attempt_count as nat) + ",\"splits\":["@ + entries_text(
        run.segments@,
        0,
        0,
    ) + "],\"timer_type\":0}"@
}

fn write_json_ms_mag(out: &mut String, m: u64)
    ensures
        final(out)@ == old(out)@ + json_ms_mag(m as int),
{
    let ghost b0 = out@;
    let d = u64_to_dec(m / 10_000);
    out.append(d.as_str());
    let frac = m % 10_000;
    if frac == 0 {
        out.append(".0");
        proof {
            seq_assoc(b0, dec_of((m as int / 10_000) as nat), ".0"@);
        }
    } else {
        out.append(".");
        let f = frac_to_trimmed(frac, 4);
        out.append(f.as_str());
        proof {
            let tf = trimmed_frac(frac as nat, 4);
            seq_assoc(b0 + dec_of((m as int / 10_000) as nat), "."@, tf);
            seq_assoc(b0, dec_of((m as int / 10_000) as nat), "."@ + tf);
        }
    }
}

fn write_json_ms_signed(out: &mut String, t: i64)
    requires
        t > i64::MIN,
    ensures
        final(out)@ == old(out)@ + json_ms_signed(t as int),
{
    let ghost b0 = out@;
    if t < 0 {
        out.append("-");
        write_json_ms_mag(out, (-t) as u64);
        proof {
            seq_assoc(b0, "-"@, json_ms_mag(-(t as int)));
        }
    } else {
        write_json_ms_mag(out, t as u64);
    }
}

fn write_opt_ms(out: &mut String, o: Option<TimeSpan>)
    requires
        o matches Some(t) ==> t.ticks > i64::MIN,
    ensures
        final(out)@ == old(out)@ + opt_ms_text(o),
{
    match o {
        None => out.append("null"),
        Some(t) => write_json_ms_signed(out, t.ticks),
    }
}

/// Appends the complete document for `run` to `out`, as
/// [`splits_json`] describes.
#[verifier::rlimit(100)]
pub fn save(run: &Run, out: &mut String)
    requires
        run_times_wf(*run),
        run_ticks_bounded(*run),
    ensures
        final(out)@ == old(out)@ + splits_json(*run),
{
    let ghost b0 = out@;
    let ghost title = run.extended_name_spec();
    let ghost p1 = "{\"timer_name\":"@ + json_string(title);
    let ghost p2 = p1 + ",\"run_name\":"@;
    let ghost p3 = p2 + json_string(title);
    let ghost p4 = p3 + ",\"hash\":\"\",\"start_delay\":"@;
    let ghost p5 = p4 + start_delay_text(run.offset.ticks as int);
    let ghost p6 = p5 + ",\"run_count\":"@;
    let ghost p7 = p6 + dec_of(run.attempt_count as nat);
    let ghost p8 = p7 + ",\"splits\":["@;
    let ghost p9 = p8 + entries_text(run.segments@, 0, 0);
    let ghost p10 = p9 + "],\"timer_type\":0}"@;

    let title_s = run.extended_name(false);
    out.append("{\"timer_name\":");
    write_json_string(out, title_s.as_str());
    proof {
        seq_assoc(b0, "{\"timer_name\":"@, json_string(title));
    }
    out.append(",\"run_name\":");
    proof {
        seq_assoc(b0, p1, ",\"run_name\":"@);
    }
    write_json_string(out, title_s.as_str());
    proof {
        seq_assoc(b0, p2, json_string(title));
    }
    out.append(",\"hash\":\"\",\"start_delay\":");
    proof {
        seq_assoc(b0, p3, ",\"hash\":\"\",\"start_delay\":"@);
    }
    let offset = run.offset();
    if offset.ticks > 0 {
        out.append("-");
        write_json_ms_mag(out, offset.ticks as u64);
        proof {
            seq_assoc(b0 + p4, "-"@, json_ms_mag(run.offset.ticks as int));
            seq_assoc(b0, p4, start_delay_text(run.offset.ticks as int));
        }
    } else if offset.ticks == 0 {
        out.append("-0.0");
        proof {
            seq_assoc(b0, p4, "-0.0"@);
        }
    } else {
        write_json_ms_mag(out, (-offset.ticks) as u64);
        proof {
            seq_assoc(b0, p4, start_delay_text(run.offset.ticks as int));
        }
    }
    out.append(",\"run_count\":");
    proof {
        seq_assoc(b0, p5, ",\"run_count\":"@);
    }
    let attempts = u64_to_dec(run.attempt_count() as u64);
    out.append(attempts.as_str());
    proof {
        seq_assoc(b0, p6, dec_of(run.attempt_count as nat));
    }
    out.append(",\"splits\":[");
    proof {
        seq_assoc(b0, p7, ",\"splits\":["@);
    }

    let segments = run.segments();
    let mut last: i64 = 0;
    let mut k: usize = 0;
    while k < segments.len()
        invariant
            0 <= k <= segments@.len(),
            segments@ == run.segments@,
            run_times_wf(*run),
            run_ticks_bounded(*run),
            -0x2000_0000_0000_0000 < last < 0x2000_0000_0000_0000,
            (b0 + p8) + entries_text(run.segments@, 0, 0) == out@ + entries_text(
                run.segments@,
                k as int,
                last as int,
            ),
        decreases segments@.len() - k,
    {
        let ghost w0 = out@;
        let ghost lastg = last as int;
        let s = &segments[k];
        proof {
            assert(segment_times_wf(run.segments@[k as int]));
            assert(segment_ticks_bounded(run.segments@[k as int]));
        }
        let ghost comma = if k != 0 {
            ","@
        } else {
            Seq::<char>::empty()
        };
        if k != 0 {
            out.append(",");
        }
        proof {
            if k == 0 {
                assert(w0 + comma =~= w0);
            }
            assert(out@ == w0 + comma);
        }
        let ghost w1 = out@;
        let ghost e1 = "{\"name\":"@;
        let ghost e2 = e1 + json_string(s.name@);
        let ghost e3 = e2 + ",\"pb_split\":"@;
        let ghost e4 = e3 + opt_ms_text(s.personal_best_split_time.real_time);
        let ghost e5 = e4 + ",\"pb_duration\":"@;
        let ghost e6 = e5 + (match s.personal_best_split_time.real_time {
            None => "null"@,
            Some(t) => json_ms_signed(t.ticks - lastg),
        });
        let ghost e7 = e6 + ",\"split_best\":"@;
        let ghost e8 = e7 + opt_ms_text(s.best_segment_time.real_time);
        let ghost e9 = e8 + "}"@;

        out.append("{\"name\":");
        write_json_string(out, s.name());
        proof {
            seq_assoc(w1, e1, json_string(s.name@));
        }
        out.append(",\"pb_split\":");
        proof {
            seq_assoc(w1, e2, ",\"pb_split\":"@);
        }
        let pb = s.personal_best_split_time().real_time;
        write_opt_ms(out, pb);
        proof {
            seq_assoc(w1, e3, opt_ms_text(s.personal_best_split_time.real_time));
        }
        out.append(",\"pb_duration\":");
        proof {
            seq_assoc(w1, e4, ",\"pb_duration\":"@);
        }
        match pb {
            None => {
                out.append("null");
                proof {
                    seq_assoc(w1, e5, "null"@);
                }
            },
            Some(t) => {
                write_json_ms_signed(out, t.ticks - last);
                last = t.ticks;
                proof {
                    seq_assoc(w1, e5, json_ms_signed(t.ticks - lastg));
                }
            },
        }
        out.append(",\"split_best\":");
        proof {
            seq_assoc(w1, e6, ",\"split_best\":"@);
        }
        write_opt_ms(out, s.best_segment_time().real_time);
        proof {
            seq_assoc(w1, e7, opt_ms_text(s.best_segment_time.real_time));
        }
        out.append("}");
        proof {
            seq_assoc(w1, e8, "}"@);
            assert(out@ == w1 + e9);
            assert(entry_text(run.segments@[k as int], lastg) == e9);
            assert(next_last(run.segments@[k as int], lastg) == last as int);
            seq_assoc(w0, comma, e9);
            seq_assoc(w0, comma + e9, entries_text(run.segments@, k + 1, last as int));
        }
        k += 1;
    }
    proof {
        assert(out@ + entries_text(run.segments@, k as int, last as int) =~= out@);
    }
    out.append("],\"timer_type\":0}");
    proof {
        seq_assoc(b0, p9, "],\"timer_type\":0}"@);
        assert(out@ == b0 + p10);
        assert(splits_json(*run) == p10);
    }
}

} // verus!
