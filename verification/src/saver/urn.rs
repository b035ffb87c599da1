//! Saves a run as a JSON document of named splits: the title, attempt
//! count and negated start delay (each omitted when empty or zero), and
//! one record per segment with its personal-best split, best split
//! time and best segment time, each rendered in the full
//! hours:minutes:seconds form with a seven-digit fraction and omitted
//! when absent or zero. Best split times get stored correctly only if
//! the comparison generator has been executed on the run.

use vstd::prelude::*;
use crate::decimal::{padded, u64_to_dec_padded};
use crate::json::{json_string, write_json_string};
use crate::run::{
    comparison_in, lemma_comparison_in_wf, run_times_wf, segment_times_wf, time_wf, Run, Segment,
    Time, TimeSpan,
};
use crate::text::seq_assoc;

verus! {

/// A magnitude of ticks in the full form: two-digit (or wider) hours,
/// two-digit minutes and seconds, and a seven-digit fraction.
pub open spec fn complete_mag_text(m: int) -> Seq<char> {
    padded((m / 36_000_000_000) as nat, 2) + ":"@ + padded(((m / 600_000_000) % 60) as nat, 2)
        + ":"@ + padded(((m / 10_000_000) % 60) as nat, 2) + "."@ + padded((m % 10_000_000) as nat, 7)
}

/// A signed count of ticks in the full form.
pub open spec fn complete_text(ticks: int) -> Seq<char> {
    if ticks < 0 {
        "-"@ + complete_mag_text(-ticks)
    } else {
        complete_mag_text(ticks)
    }
}

fn write_complete_mag(out: &mut String, m: u64)
    ensures
        final(out)@ == old(out)@ + complete_mag_text(m as int),
{
    let ghost b0 = out@;
    let ghost c1 = padded((m as int / 36_000_000_000) as nat, 2);
    let ghost c2 = c1 + ":"@;
    let ghost c3 = c2 + padded(((m as int / 600_000_000) % 60) as nat, 2);
    let ghost c4 = c3 + ":"@;
    let ghost c5 = c4 + padded(((m as int / 10_000_000) % 60) as nat, 2);
    let ghost c6 = c5 + "."@;
    let ghost c7 = c6 + padded((m as int % 10_000_000) as nat, 7);
    let hours = u64_to_dec_padded(m / 36_000_000_000, 2);
    out.append(hours.as_str());
    out.append(":");
    proof {
        seq_assoc(b0, c1, ":"@);
    }
    let minutes = u64_to_dec_padded((m / 600_000_000) % 60, 2);
    out.append(minutes.as_str());
    proof {
        seq_assoc(b0, c2, padded(((m as int / 600_000_000) % 60) as nat, 2));
    }
    out.append(":");
    proof {
        seq_assoc(b0, c3, ":"@);
    }
    let seconds = u64_to_dec_padded((m / 10_000_000) % 60, 2);
    out.append(seconds.as_str());
    proof {
        seq_assoc(b0, c4, padded(((m as int / 10_000_000) % 60) as nat, 2));
    }
    out.append(".");
    proof {
        seq_assoc(b0, c5, "."@);
    }
    let frac = u64_to_dec_padded(m % 10_000_000, 7);
    out.append(frac.as_str());
    proof {
        seq_assoc(b0, c6, padded((m as int % 10_000_000) as nat, 7));
        assert(out@ == b0 + c7);
        assert(complete_mag_text(m as int) == c7);
    }
}

fn write_complete(out: &mut String, ticks: i64)
    requires
        ticks > i64::MIN,
    ensures
        final(out)@ == old(out)@ + complete_text(ticks as int),
{
    let ghost b0 = out@;
    if ticks < 0 {
        out.append("-");
        write_complete_mag(out, (-ticks) as u64);
        proof {
            seq_assoc(b0, "-"@, complete_mag_text(-(ticks as int)));
        }
    } else {
        write_complete_mag(out, ticks as u64);
    }
}

/// A time span that gets written at all: present and not zero.
pub open spec fn span_present(o: Option<TimeSpan>) -> bool {
    match o {
        Some(t) => t.ticks != 0,
        None => false,
    }
}

/// A quoted full-form time value.
pub open spec fn quoted_complete(ticks: int) -> Seq<char> {
    "\""@ + complete_text(ticks) + "\""@
}

fn write_quoted_complete(out: &mut String, ticks: i64)
    requires
        ticks > i64::MIN,
    ensures
        final(out)@ == old(out)@ + quoted_complete(ticks as int),
{
    let ghost b0 = out@;
    out.append("\"");
    write_complete(out, ticks);
    proof {
        seq_assoc(b0, "\""@, complete_text(ticks as int));
    }
    out.append("\"");
    proof {
        seq_assoc(b0, "\""@ + complete_text(ticks as int), "\""@);
        assert(quoted_complete(ticks as int) == ("\""@ + complete_text(ticks as int)) + "\""@);
    }
}

/// The best split time stored on a segment by the comparison generator.
pub open spec fn best_time_of(s: Segment) -> Time {
    comparison_in(s.comparisons@, "Best Split Times"@, 0)
}

/// One segment's record: its four fields, each omitted when empty or
/// zero, the remaining ones joined by commas.
pub open spec fn entry_text(s: Segment) -> Seq<char> {
    let ti = s.name@.len() > 0;
    let tp = span_present(s.personal_best_split_time.real_time);
    let bp = span_present(best_time_of(s).real_time);
    let sp = span_present(s.best_segment_time.real_time);
    "{"@ + (if ti {
        "\"title\":"@ + json_string(s.name@)
    } else {
        Seq::empty()
    }) + (if tp && ti {
        ","@
    } else {
        Seq::empty()
    }) + (if tp {
        "\"time\":"@ + quoted_complete(s.personal_best_split_time.real_time->Some_0.ticks as int)
    } else {
        Seq::empty()
    }) + (if bp && (ti || tp) {
        ","@
    } else {
        Seq::empty()
    }) + (if bp {
        "\"best_time\":"@ + quoted_complete(best_time_of(s).real_time->Some_0.ticks as int)
    } else {
        Seq::empty()
    }) + (if sp && (ti || tp || bp) {
        ","@
    } else {
        Seq::empty()
    }) + (if sp {
        "\"best_segment\":"@ + quoted_complete(s.best_segment_time.real_time->Some_0.ticks as int)
    } else {
        Seq::empty()
    }) + "}"@
}

/// The comma-separated segment records from position `k` on.
pub open spec fn entries_text(segs: Seq<Segment>, k: int) -> Seq<char>
    decreases segs.len() - k,
{
    if !(0 <= k < segs.len()) {
        Seq::empty()
    } else {
        (if k != 0 {
            ","@
        } else {
            Seq::empty()
        }) + entry_text(segs[k]) + entries_text(segs, k + 1)
    }
}

/// The complete document this saver writes: title, attempt count and
/// negated start delay, each omitted when empty or zero, then the
/// segment records.
pub open spec fn urn_json(run: Run) -> Seq<char> {
    let t = run.extended_name_spec().len() > 0;
    let a = run.attempt_count != 0;
    let d = run.offset.ticks != 0;
    "{"@ + (if t {
        "\"title\":"@ + json_string(run.extended_name_spec())
    } else {
        Seq::empty()
    }) + (if a && t {
        ","@
    } else {
        Seq::empty()
    }) + (if a {
        "\"attempt_count\":"@ + crate::decimal::dec_of(run.attempt_count as nat)
    } else {
        Seq::empty()
    }) + (if d && (t || a) {
        ","@
    } else {
        Seq::empty()
    }) + (if d {
        "\"start_delay\":"@ + quoted_complete(-(run.offset.ticks as int))
    } else {
        Seq::empty()
    }) + (if t || a || d {
        ","@
    } else {
        Seq::empty()
    }) + "\"splits\":["@ + entries_text(run.segments@, 0) + "]}"@
}

fn write_entry(out: &mut String, s: &Segment)
    requires
        segment_times_wf(*s),
    ensures
        final(out)@ == old(out)@ + entry_text(*s),
{
    let ghost b0 = out@;
    let ghost ti = s.name@.len() > 0;
    let ghost tp = span_present(s.personal_best_split_time.real_time);
    let ghost bp = span_present(best_time_of(*s).real_time);
    let ghost sp = span_present(s.best_segment_time.real_time);
    let ghost p1 = "{"@ + (if ti {
        "\"title\":"@ + json_string(s.name@)
    } else {
        Seq::<char>::empty()
    });
    let ghost p2 = p1 + (if tp && ti {
        ","@
    } else {
        Seq::<char>::empty()
    });
    let ghost p3 = p2 + (if tp {
        "\"time\":"@ + quoted_complete(s.personal_best_split_time.real_time->Some_0.ticks as int)
    } else {
        Seq::<char>::empty()
    });
    let ghost p4 = p3 + (if bp && (ti || tp) {
        ","@
    } else {
        Seq::<char>::empty()
    });
    let ghost p5 = p4 + (if bp {
        "\"best_time\":"@ + quoted_complete(best_time_of(*s).real_time->Some_0.ticks as int)
    } else {
        Seq::<char>::empty()
    });
    let ghost p6 = p5 + (if sp && (ti || tp || bp) {
        ","@
    } else {
        Seq::<char>::empty()
    });
    let ghost p7 = p6 + (if sp {
        "\"best_segment\":"@ + quoted_complete(s.best_segment_time.real_time->Some_0.ticks as int)
    } else {
        Seq::<char>::empty()
    });
    let ghost p8 = p7 + "}"@;

    proof {
        lemma_comparison_in_wf(s.comparisons@, "Best Split Times"@, 0);
    }
    out.append("{");
    let has_title = !s.name.as_str().is_empty();
    if has_title {
        out.append("\"title\":");
        write_json_string(out, s.name());
        proof {
            seq_assoc(b0 + "{"@, "\"title\":"@, json_string(s.name@));
            seq_assoc(b0, "{"@, "\"title\":"@ + json_string(s.name@));
        }
    } else {
        proof {
            assert((b0 + "{"@) + Seq::<char>::empty() =~= b0 + "{"@);
            seq_assoc(b0, "{"@, Seq::<char>::empty());
        }
    }
    proof {
        assert(out@ == b0 + p1);
    }
    let pb = s.personal_best_split_time().real_time;
    let has_time = match pb {
        Some(t) => t.ticks != 0,
        None => false,
    };
    if has_time && has_title {
        out.append(",");
        proof {
            seq_assoc(b0, p1, ","@);
        }
    } else {
        proof {
            assert((b0 + p1) + Seq::<char>::empty() =~= b0 + p1);
            seq_assoc(b0, p1, Seq::<char>::empty());
        }
    }
    proof {
        assert(out@ == b0 + p2);
    }
    if has_time {
        out.append("\"time\":");
        let ghost w = b0 + p2;
        match pb {
            Some(t) => {
                write_quoted_complete(out, t.ticks);
                proof {
                    seq_assoc(w, "\"time\":"@, quoted_complete(t.ticks as int));
                    seq_assoc(b0, p2, "\"time\":"@ + quoted_complete(t.ticks as int));
                }
            },
            None => {},
        }
    } else {
        proof {
            assert((b0 + p2) + Seq::<char>::empty() =~= b0 + p2);
            seq_assoc(b0, p2, Seq::<char>::empty());
        }
    }
    proof {
        assert(out@ == b0 + p3);
    }
    let best_time = s.comparison("Best Split Times").real_time;
    let has_best_time = match best_time {
        Some(t) => t.ticks != 0,
        None => false,
    };
    if has_best_time && (has_title || has_time) {
        out.append(",");
        proof {
            seq_assoc(b0, p3, ","@);
        }
    } else {
        proof {
            assert((b0 + p3) + Seq::<char>::empty() =~= b0 + p3);
            seq_assoc(b0, p3, Seq::<char>::empty());
        }
    }
    proof {
        assert(out@ == b0 + p4);
    }
    if has_best_time {
        out.append("\"best_time\":");
        let ghost w = b0 + p4;
        match best_time {
            Some(t) => {
                write_quoted_complete(out, t.ticks);
                proof {
                    seq_assoc(w, "\"best_time\":"@, quoted_complete(t.ticks as int));
                    seq_assoc(b0, p4, "\"best_time\":"@ + quoted_complete(t.ticks as int));
                }
            },
            None => {},
        }
    } else {
        proof {
            assert((b0 + p4) + Seq::<char>::empty() =~= b0 + p4);
            seq_assoc(b0, p4, Seq::<char>::empty());
        }
    }
    proof {
        assert(out@ == b0 + p5);
    }
    let best_seg = s.best_segment_time().real_time;
    let has_best_seg = match best_seg {
        Some(t) => t.ticks != 0,
        None => false,
    };
    if has_best_seg && (has_title || has_time || has_best_time) {
        out.append(",");
        proof {
            seq_assoc(b0, p5, ","@);
        }
    } else {
        proof {
            assert((b0 + p5) + Seq::<char>::empty() =~= b0 + p5);
            seq_assoc(b0, p5, Seq::<char>::empty());
        }
    }
    proof {
        assert(out@ == b0 + p6);
    }
    if has_best_seg {
        out.append("\"best_segment\":");
        let ghost w = b0 + p6;
        match best_seg {
            Some(t) => {
                write_quoted_complete(out, t.ticks);
                proof {
                    seq_assoc(w, "\"best_segment\":"@, quoted_complete(t.ticks as int));
                    seq_assoc(b0, p6, "\"best_segment\":"@ + quoted_complete(t.ticks as int));
                }
            },
            None => {},
        }
    } else {
        proof {
            assert((b0 + p6) + Seq::<char>::empty() =~= b0 + p6);
            seq_assoc(b0, p6, Seq::<char>::empty());
        }
    }
    proof {
        assert(out@ == b0 + p7);
    }
    out.append("}");
    proof {
        seq_assoc(b0, p7, "}"@);
        assert(out@ == b0 + p8);
        assert(entry_text(*s) == p8);
    }
}

/// Appends the complete document for `run` to `out`, as [`urn_json`]
/// describes.
#[verifier::rlimit(100)]
pub fn save(run: &Run, out: &mut String)
    requires
        run_times_wf(*run),
    ensures
        final(out)@ == old(out)@ + urn_json(*run),
{
    let ghost b0 = out@;
    let ghost t = run.extended_name_spec().len() > 0;
    let ghost a = run.attempt_count != 0;
    let ghost d = run.offset.ticks != 0;
    let ghost p1 = "{"@ + (if t {
        "\"title\":"@ + json_string(run.extended_name_spec())
    } else {
        Seq::<char>::empty()
    });
    let ghost p2 = p1 + (if a && t {
        ","@
    } else {
        Seq::<char>::empty()
    });
    let ghost p3 = p2 + (if a {
        "\"attempt_count\":"@ + crate::decimal::dec_of(run.attempt_count as nat)
    } else {
        Seq::<char>::empty()
    });
    let ghost p4 = p3 + (if d && (t || a) {
        ","@
    } else {
        Seq::<char>::empty()
    });
    let ghost p5 = p4 + (if d {
        "\"start_delay\":"@ + quoted_complete(-(run.offset.ticks as int))
    } else {
        Seq::<char>::empty()
    });
    let ghost p6 = p5 + (if t || a || d {
        ","@
    } else {
        Seq::<char>::empty()
    });
    let ghost p7 = p6 + "\"splits\":["@;
    let ghost p8 = p7 + entries_text(run.segments@, 0);
    let ghost p9 = p8 + "]}"@;

    out.append("{");
    let title = run.extended_name(false);
    let has_title = !title.as_str().is_empty();
    if has_title {
        out.append("\"title\":");
        write_json_string(out, title.as_str());
        proof {
            seq_assoc(b0 + "{"@, "\"title\":"@, json_string(run.extended_name_spec()));
            seq_assoc(b0, "{"@, "\"title\":"@ + json_string(run.extended_name_spec()));
        }
    } else {
        proof {
            assert((b0 + "{"@) + Seq::<char>::empty() =~= b0 + "{"@);
            seq_assoc(b0, "{"@, Seq::<char>::empty());
        }
    }
    proof {
        assert(out@ == b0 + p1);
    }
    let attempts = run.attempt_count();
    let has_attempts = attempts != 0;
    if has_attempts && has_title {
        out.append(",");
        proof {
            seq_assoc(b0, p1, ","@);
        }
    } else {
        proof {
            assert((b0 + p1) + Seq::<char>::empty() =~= b0 + p1);
            seq_assoc(b0, p1, Seq::<char>::empty());
        }
    }
    proof {
        assert(out@ == b0 + p2);
    }
    if has_attempts {
        out.append("\"attempt_count\":");
        let n = crate::decimal::u64_to_dec(attempts as u64);
        out.append(n.as_str());
        proof {
            let w = b0 + p2;
            seq_assoc(w, "\"attempt_count\":"@, crate::decimal::dec_of(run.attempt_count as nat));
            seq_assoc(
                b0,
                p2,
                "\"attempt_count\":"@ + crate::decimal::dec_of(run.attempt_count as nat),
            );
        }
    } else {
        proof {
            assert((b0 + p2) + Seq::<char>::empty() =~= b0 + p2);
            seq_assoc(b0, p2, Seq::<char>::empty());
        }
    }
    proof {
        assert(out@ == b0 + p3);
    }
    let offset = run.offset();
    let has_delay = offset.ticks != 0;
    if has_delay && (has_title || has_attempts) {
        out.append(",");
        proof {
            seq_assoc(b0, p3, ","@);
        }
    } else {
        proof {
            assert((b0 + p3) + Seq::<char>::empty() =~= b0 + p3);
            seq_assoc(b0, p3, Seq::<char>::empty());
        }
    }
    proof {
        assert(out@ == b0 + p4);
    }
    if has_delay {
        out.append("\"start_delay\":");
        write_quoted_complete(out, -offset.ticks);
        proof {
            let w = b0 + p4;
            seq_assoc(w, "\"start_delay\":"@, quoted_complete(-(run.offset.ticks as int)));
            seq_assoc(b0, p4, "\"start_delay\":"@ + quoted_complete(-(run.offset.ticks as int)));
        }
    } else {
        proof {
            assert((b0 + p4) + Seq::<char>::empty() =~= b0 + p4);
            seq_assoc(b0, p4, Seq::<char>::empty());
        }
    }
    proof {
        assert(out@ == b0 + p5);
    }
    if has_title || has_attempts || has_delay {
        out.append(",");
        proof {
            seq_assoc(b0, p5, ","@);
        }
    } else {
        proof {
            assert((b0 + p5) + Seq::<char>::empty() =~= b0 + p5);
            seq_assoc(b0, p5, Seq::<char>::empty());
        }
    }
    proof {
        assert(out@ == b0 + p6);
    }
    out.append("\"splits\":[");
    proof {
        seq_assoc(b0, p6, "\"splits\":["@);
    }

    let segments = run.segments();
    let mut k: usize = 0;
    while k < segments.len()
        invariant
            0 <= k <= segments@.len(),
            segments@ == run.segments@,
            run_times_wf(*run),
            (b0 + p7) + entries_text(run.segments@, 0) == out@ + entries_text(
                run.segments@,
                k as int,
            ),
        decreases segments@.len() - k,
    {
        let ghost w0 = out@;
        let ghost comma = if k != 0 {
            ","@
        } else {
            Seq::<char>::empty()
        };
        if k != 0 {
            out.append(",");
        }
        proof {
            if k == 0 {
                assert(w0 + comma =~= w0);
            }
            assert(out@ == w0 + comma);
            assert(segment_times_wf(run.segments@[k as int]));
        }
        write_entry(out, &segments[k]);
        proof {
            seq_assoc(w0, comma, entry_text(run.segments@[k as int]));
            seq_assoc(w0, comma + entry_text(run.segments@[k as int]), entries_text(
                run.segments@,
                k + 1,
            ));
        }
        k += 1;
    }
    proof {
        assert(out@ + entries_text(run.segments@, k as int) =~= out@);
    }
    out.append("]}");
    proof {
        seq_assoc(b0, p8, "]}"@);
        assert(out@ == b0 + p9);
        assert(urn_json(*run) == p9);
    }
}

} // verus!
