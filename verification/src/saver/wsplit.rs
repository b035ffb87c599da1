//! Saves a run in a line-oriented splits format: a header of title,
//! attempt count, negated offset and window size, one comma-separated
//! line per segment with its old-run, personal-best and best-segment
//! times in seconds, an icon index line, and — when the sink supports
//! side files — one side file per segment icon.

use vstd::prelude::*;
use crate::decimal::{dec_of, frac_part, frac_to_trimmed, u64_to_dec};
use crate::image::{extension_of, url_of, Image, ImageFormat};
use crate::run::{
    comparison_in, lemma_comparison_in_wf, run_times_wf, segment_times_wf, time_wf, Run, Segment,
    Time,
};
use crate::saver::file_write::FileWrite;
use crate::text::seq_assoc;

verus! {

/// A magnitude of ticks rendered as seconds: the whole seconds in
/// decimal, then the trimmed 7-digit fraction if any.
pub open spec fn seconds_mag_text(m: int) -> Seq<char> {
    dec_of((m / 10_000_000) as nat) + frac_part((m % 10_000_000) as nat, 7)
}

/// A signed count of ticks rendered as seconds.
pub open spec fn seconds_text(ticks: int) -> Seq<char> {
    if ticks < 0 {
        "-"@ + seconds_mag_text(-ticks)
    } else {
        seconds_mag_text(ticks)
    }
}

/// A time's real-time component in seconds; "0" when absent.
pub open spec fn time_seconds_text(t: Time) -> Seq<char> {
    match t.real_time {
        None => seconds_text(0),
        Some(ts) => seconds_text(ts.ticks as int),
    }
}

/// The negated offset in milliseconds, as the header reports it: "0"
/// for a zero offset, else the negated value with its trimmed 4-digit
/// fraction.
pub open spec fn offset_text(ticks: int) -> Seq<char> {
    if ticks == 0 {
        "0"@
    } else if ticks > 0 {
        "-"@ + millis_mag_text(ticks)
    } else {
        millis_mag_text(-ticks)
    }
}

/// A magnitude of ticks rendered as milliseconds.
pub open spec fn millis_mag_text(m: int) -> Seq<char> {
    dec_of((m / 10_000) as nat) + frac_part((m % 10_000) as nat, 4)
}

fn write_seconds_mag(out: &mut String, m: u64)
    ensures
        final(out)@ == old(out)@ + seconds_mag_text(m as int),
{
    let ghost b0 = out@;
    let d = u64_to_dec(m / 10_000_000);
    out.append(d.as_str());
    let frac = m % 10_000_000;
    if frac != 0 {
        out.append(".");
        let f = frac_to_trimmed(frac, 7);
        out.append(f.as_str());
        proof {
            let tf = crate::decimal::trimmed_frac(frac as nat, 7);
            seq_assoc(b0 + dec_of((m as int / 10_000_000) as nat), "."@, tf);
            seq_assoc(b0, dec_of((m as int / 10_000_000) as nat), "."@ + tf);
        }
    } else {
        proof {
            assert(b0 + dec_of((m as int / 10_000_000) as nat) + Seq::<char>::empty() =~= b0
                + dec_of((m as int / 10_000_000) as nat));
            seq_assoc(b0, dec_of((m as int / 10_000_000) as nat), Seq::<char>::empty());
        }
    }
}

fn write_seconds(out: &mut String, ticks: i64)
    requires
        ticks > i64::MIN,
    ensures
        final(out)@ == old(out)@ + seconds_text(ticks as int),
{
    let ghost b0 = out@;
    if ticks < 0 {
        out.append("-");
        let m = (-ticks) as u64;
        write_seconds_mag(out, m);
        proof {
            seq_assoc(b0, "-"@, seconds_mag_text(m as int));
        }
    } else {
        let m = ticks as u64;
        write_seconds_mag(out, m);
    }
}

fn write_time_seconds(out: &mut String, t: Time)
    requires
        time_wf(t),
    ensures
        final(out)@ == old(out)@ + time_seconds_text(t),
{
    match t.real_time {
        None => write_seconds(out, 0),
        Some(ts) => write_seconds(out, ts.ticks),
    }
}

fn write_offset(out: &mut String, ticks: i64)
    requires
        ticks > i64::MIN,
    ensures
        final(out)@ == old(out)@ + offset_text(ticks as int),
{
    let ghost b0 = out@;
    if ticks == 0 {
        out.append("0");
    } else {
        let m: u64 = if ticks > 0 {
            out.append("-");
            ticks as u64
        } else {
            (-ticks) as u64
        };
        let ghost b1 = out@;
        let d = u64_to_dec(m / 10_000);
        out.append(d.as_str());
        let frac = m % 10_000;
        if frac != 0 {
            out.append(".");
            let f = frac_to_trimmed(frac, 4);
            out.append(f.as_str());
            proof {
                let tf = crate::decimal::trimmed_frac(frac as nat, 4);
                seq_assoc(b1 + dec_of((m as int / 10_000) as nat), "."@, tf);
                seq_assoc(b1, dec_of((m as int / 10_000) as nat), "."@ + tf);
            }
        } else {
            proof {
                seq_assoc(b1, dec_of((m as int / 10_000) as nat), Seq::<char>::empty());
                assert(b1 + (dec_of((m as int / 10_000) as nat) + Seq::<char>::empty()) =~= b1
                    + dec_of((m as int / 10_000) as nat));
            }
        }
        proof {
            if ticks > 0 {
                seq_assoc(b0, "-"@, millis_mag_text(m as int));
            }
        }
    }
}

/// One segment's line: name, old-run time, personal-best time, best
/// segment time, all in seconds.
pub open spec fn segment_line(s: Segment) -> Seq<char> {
    s.name@ + ","@ + time_seconds_text(comparison_in(s.comparisons@, "Old Run"@, 0)) + ","@
        + time_seconds_text(s.personal_best_split_time) + ","@ + time_seconds_text(
        s.best_segment_time,
    ) + "\n"@
}

/// The segment lines from position `k` on.
pub open spec fn segment_lines(segs: Seq<Segment>, k: int) -> Seq<char>
    decreases segs.len() - k,
{
    if !(0 <= k < segs.len()) {
        Seq::empty()
    } else {
        segment_line(segs[k]) + segment_lines(segs, k + 1)
    }
}

/// The extension suffix of an icon entry: a dot and the extension of
/// the icon's recognized format, or nothing.
pub open spec fn ext_part(f: Option<ImageFormat>) -> Seq<char> {
    match f {
        Some(fmt) => "."@ + extension_of(fmt),
        None => Seq::empty(),
    }
}

/// The quoted name under which segment `i`'s icon is stored.
pub open spec fn icon_file_name(icon: Image, i: nat) -> Seq<char> {
    "\"icon"@ + dec_of(i) + "\""@ + ext_part(icon.format_view())
}

/// One entry of the icon index line: the stored icon name, or an empty
/// quoted name when the sink keeps no side files or the icon is empty.
pub open spec fn icon_entry(s: Segment, i: nat, supports: bool) -> Seq<char> {
    if !supports || s.icon.url_view().len() == 0 {
        "\"\""@
    } else {
        icon_file_name(s.icon, i)
    }
}

/// The comma-separated icon index entries from position `k` on.
pub open spec fn icon_entries(segs: Seq<Segment>, k: int, supports: bool) -> Seq<char>
    decreases segs.len() - k,
{
    if !(0 <= k < segs.len()) {
        Seq::empty()
    } else {
        (if k != 0 {
            ","@
        } else {
            Seq::empty()
        }) + icon_entry(segs[k], k as nat, supports) + icon_entries(segs, k + 1, supports)
    }
}

/// Everything this saver writes to the main file.
pub open spec fn main_text(run: Run, supports: bool) -> Seq<char> {
    "Title="@ + run.extended_name_spec() + "\n"@ + "Attempts="@ + dec_of(run.attempt_count as nat)
        + "\n"@ + "Offset="@ + offset_text(run.offset.ticks as int) + "\n"@ + "Size=152,25\n"@
        + segment_lines(run.segments@, 0) + "Icons="@ + icon_entries(run.segments@, 0, supports)
        + "\n"@
}

fn build_icon_name(icon: &Image, i: usize) -> (r: String)
    ensures
        r@ == icon_file_name(*icon, i as nat),
{
    let ghost b0 = Seq::<char>::empty();
    let mut name = String::from_str("\"icon");
    let d = u64_to_dec(i as u64);
    name.append(d.as_str());
    name.append("\"");
    match icon.file_extension() {
        Some(e) => {
            name.append(".");
            name.append(e);
            proof {
                let f = icon.format_view()->Some_0;
                seq_assoc("\"icon"@, dec_of(i as nat), "\""@);
                seq_assoc(("\"icon"@ + dec_of(i as nat)) + "\""@, "."@, extension_of(f));
            }
        },
        None => {
            proof {
                seq_assoc("\"icon"@, dec_of(i as nat), "\""@);
                assert((("\"icon"@ + dec_of(i as nat)) + "\""@) + Seq::<char>::empty() =~= (
                ("\"icon"@ + dec_of(i as nat)) + "\""@));
            }
        },
    }
    name
}

/// Saves `run` into `writer`: the main text is exactly [`main_text`];
/// when the sink supports side files, one side file per segment is
/// added, named as [`icon_file_name`] says, holding the icon's decoded
/// bytes (empty for an empty icon).
#[verifier::rlimit(100)]
pub fn save<W: FileWrite>(run: &Run, writer: &mut W)
    requires
        run_times_wf(*run),
    ensures
        final(writer).spec_supports_other_files() == old(writer).spec_supports_other_files(),
        final(writer).main_content() == old(writer).main_content() + main_text(
            *run,
            old(writer).spec_supports_other_files(),
        ),
        !old(writer).spec_supports_other_files() ==> final(writer).other_files() == old(
            writer,
        ).other_files(),
        old(writer).spec_supports_other_files() ==> ({
            let o0 = old(writer).other_files();
            let o1 = final(writer).other_files();
            let segs = run.segments@;
            &&& o1.len() == o0.len() + segs.len()
            &&& forall|i: int| 0 <= i < o0.len() ==> o1[i] == o0[i]
            &&& forall|i: int|
                0 <= i < segs.len() ==> (#[trigger] o1[o0.len() + i]).0 == icon_file_name(
                    segs[i].icon,
                    i as nat,
                )
            &&& forall|i: int|
                0 <= i < segs.len() && (#[trigger] segs[i]).icon.url_view().len() == 0 ==> o1[o0.len()
                    + i].1 == Seq::<u8>::empty()
            &&& forall|i: int, d: Seq<u8>|
                0 <= i < segs.len() && d.len() > 0 && (#[trigger] segs[i]).icon.url_view()
                    == #[trigger] url_of(d) ==> o1[o0.len() + i].1 == d
        }),
{
    let ghost m0 = old(writer).main_content();
    let ghost p1 = "Title="@ + run.extended_name_spec();
    let ghost p2 = p1 + "\n"@;
    let ghost p3 = p2 + "Attempts="@;
    let ghost p4 = p3 + dec_of(run.attempt_count as nat);
    let ghost p5 = p4 + "\n"@;
    let ghost p6 = p5 + "Offset="@;
    let ghost p7 = p6 + offset_text(run.offset.ticks as int);
    let ghost p8 = p7 + "\n"@;
    let ghost p9 = p8 + "Size=152,25\n"@;
    let ghost p10 = p9 + segment_lines(run.segments@, 0);
    let ghost p11 = p10 + "Icons="@;
    let ghost supports_g = old(writer).spec_supports_other_files();
    let ghost p12 = p11 + icon_entries(run.segments@, 0, supports_g);
    let ghost p13 = p12 + "\n"@;

    writer.write_main("Title=");
    let title = run.extended_name(false);
    writer.write_main(title.as_str());
    proof {
        seq_assoc(m0, "Title="@, run.extended_name_spec());
    }
    writer.write_main("\n");
    proof {
        seq_assoc(m0, p1, "\n"@);
    }
    writer.write_main("Attempts=");
    proof {
        seq_assoc(m0, p2, "Attempts="@);
    }
    let attempts = u64_to_dec(run.attempt_count() as u64);
    writer.write_main(attempts.as_str());
    proof {
        seq_assoc(m0, p3, dec_of(run.attempt_count as nat));
    }
    writer.write_main("\n");
    proof {
        seq_assoc(m0, p4, "\n"@);
    }
    writer.write_main("Offset=");
    proof {
        seq_assoc(m0, p5, "Offset="@);
    }
    let mut offset_str = String::new();
    write_offset(&mut offset_str, run.offset().ticks);
    writer.write_main(offset_str.as_str());
    proof {
        assert(Seq::<char>::empty() + offset_text(run.offset.ticks as int) =~= offset_text(
            run.offset.ticks as int,
        ));
        seq_assoc(m0, p6, offset_text(run.offset.ticks as int));
    }
    writer.write_main("\n");
    proof {
        seq_assoc(m0, p7, "\n"@);
    }
    writer.write_main("Size=152,25\n");
    proof {
        seq_assoc(m0, p8, "Size=152,25\n"@);
    }

    let segments = run.segments();
    let mut k: usize = 0;
    while k < segments.len()
        invariant
            0 <= k <= segments@.len(),
            segments@ == run.segments@,
            run_times_wf(*run),
            writer.spec_supports_other_files() == old(writer).spec_supports_other_files(),
            writer.other_files() == old(writer).other_files(),
            (m0 + p9) + segment_lines(run.segments@, 0) == writer.main_content() + segment_lines(
                run.segments@,
                k as int,
            ),
        decreases segments@.len() - k,
    {
        let ghost w0 = writer.main_content();
        let s = &segments[k];
        let ghost q1 = s.name@ + ","@;
        let ghost old_run_time = comparison_in(s.comparisons@, "Old Run"@, 0);
        let ghost q2 = q1 + time_seconds_text(old_run_time);
        let ghost q3 = q2 + ","@;
        let ghost q4 = q3 + time_seconds_text(s.personal_best_split_time);
        let ghost q5 = q4 + ","@;
        let ghost q6 = q5 + time_seconds_text(s.best_segment_time);
        let ghost q7 = q6 + "\n"@;
        proof {
            assert(segment_times_wf(run.segments@[k as int]));
            lemma_comparison_in_wf(s.comparisons@, "Old Run"@, 0);
        }
        writer.write_main(s.name());
        writer.write_main(",");
        proof {
            seq_assoc(w0, s.name@, ","@);
        }
        let mut t = String::new();
        write_time_seconds(&mut t, s.comparison("Old Run"));
        writer.write_main(t.as_str());
        proof {
            assert(Seq::<char>::empty() + time_seconds_text(old_run_time) =~= time_seconds_text(
                old_run_time,
            ));
            seq_assoc(w0, q1, time_seconds_text(old_run_time));
        }
        writer.write_main(",");
        proof {
            seq_assoc(w0, q2, ","@);
        }
        let mut t2 = String::new();
        write_time_seconds(&mut t2, s.personal_best_split_time());
        writer.write_main(t2.as_str());
        proof {
            assert(Seq::<char>::empty() + time_seconds_text(s.personal_best_split_time)
                =~= time_seconds_text(s.personal_best_split_time));
            seq_assoc(w0, q3, time_seconds_text(s.personal_best_split_time));
        }
        writer.write_main(",");
        proof {
            seq_assoc(w0, q4, ","@);
        }
        let mut t3 = String::new();
        write_time_seconds(&mut t3, s.best_segment_time());
        writer.write_main(t3.as_str());
        proof {
            assert(Seq::<char>::empty() + time_seconds_text(s.best_segment_time)
                =~= time_seconds_text(s.best_segment_time));
            seq_assoc(w0, q5, time_seconds_text(s.best_segment_time));
        }
        writer.write_main("\n");
        proof {
            seq_assoc(w0, q6, "\n"@);
            assert(segment_line(run.segments@[k as int]) == q7);
            seq_assoc(w0, segment_line(run.segments@[k as int]), segment_lines(
                run.segments@,
                k + 1,
            ));
        }
        k += 1;
    }
    proof {
        assert(writer.main_content() + segment_lines(run.segments@, k as int)
            =~= writer.main_content());
        assert(writer.main_content() == (m0 + p9) + segment_lines(run.segments@, 0));
    }

    writer.write_main("Icons=");
    proof {
        seq_assoc(m0, p10, "Icons="@);
    }
    let supports = writer.supports_other_files();
    let mut k: usize = 0;
    while k < segments.len()
        invariant
            0 <= k <= segments@.len(),
            segments@ == run.segments@,
            supports == old(writer).spec_supports_other_files(),
            supports == supports_g,
            writer.spec_supports_other_files() == old(writer).spec_supports_other_files(),
            writer.other_files() == old(writer).other_files(),
            (m0 + p11) + icon_entries(run.segments@, 0, supports_g) == writer.main_content()
                + icon_entries(run.segments@, k as int, supports_g),
        decreases segments@.len() - k,
    {
        let ghost w0 = writer.main_content();
        let ghost comma = if k != 0 {
            ","@
        } else {
            Seq::<char>::empty()
        };
        if k != 0 {
            writer.write_main(",");
        }
        proof {
            if k == 0 {
                assert(w0 + comma =~= w0);
            }
        }
        let icon = segments[k].icon();
        if !supports || icon.url().is_empty() {
            writer.write_main("\"\"");
            proof {
                assert(icon_entry(run.segments@[k as int], k as nat, supports_g) == "\"\""@);
                seq_assoc(w0, comma, "\"\""@);
            }
        } else {
            let name = build_icon_name(icon, k);
            writer.write_main(name.as_str());
            proof {
                assert(icon_entry(run.segments@[k as int], k as nat, supports_g) == icon_file_name(
                    run.segments@[k as int].icon,
                    k as nat,
                ));
                seq_assoc(w0, comma, icon_file_name(run.segments@[k as int].icon, k as nat));
            }
        }
        proof {
            seq_assoc(w0, comma + icon_entry(run.segments@[k as int], k as nat, supports_g),
            icon_entries(run.segments@, k + 1, supports_g));
        }
        k += 1;
    }
    proof {
        assert(writer.main_content() + icon_entries(run.segments@, k as int, supports_g)
            =~= writer.main_content());
    }
    writer.write_main("\n");
    proof {
        seq_assoc(m0, p12, "\n"@);
        assert(main_text(*run, supports_g) == p13);
    }

    if supports {
        let ghost o0 = writer.other_files();
        let mut buf: Vec<u8> = Vec::new();
        let mut k: usize = 0;
        while k < segments.len()
            invariant
                0 <= k <= segments@.len(),
                segments@ == run.segments@,
                supports == old(writer).spec_supports_other_files(),
                supports,
                supports == supports_g,
                writer.spec_supports_other_files() == old(writer).spec_supports_other_files(),
                writer.main_content() == old(writer).main_content() + main_text(
                    *run,
                    old(writer).spec_supports_other_files(),
                ),
                o0 == old(writer).other_files(),
                writer.other_files().len() == o0.len() + k,
                forall|i: int| 0 <= i < o0.len() ==> writer.other_files()[i] == o0[i],
                forall|i: int|
                    0 <= i < k ==> (#[trigger] writer.other_files()[o0.len() + i]).0
                        == icon_file_name(run.segments@[i].icon, i as nat),
                forall|i: int|
                    0 <= i < k && (#[trigger] run.segments@[i]).icon.url_view().len() == 0
                        ==> writer.other_files()[o0.len() + i].1 == Seq::<u8>::empty(),
                forall|i: int, d: Seq<u8>|
                    0 <= i < k && d.len() > 0 && (#[trigger] run.segments@[i]).icon.url_view()
                        == #[trigger] url_of(d) ==> writer.other_files()[o0.len() + i].1 == d,
            decreases segments@.len() - k,
        {
            let icon = segments[k].icon();
            let name = build_icon_name(icon, k);
            writer.start_other_file(name.as_str());
            let ok = icon.decode_data(&mut buf).is_ok();
            if ok {
                writer.write_other(buf.as_slice());
                proof {
                    let o = writer.other_files();
                    assert(o[o0.len() + k].1 =~= buf@);
                }
            }
            k += 1;
        }
    }
}

} // verus!
