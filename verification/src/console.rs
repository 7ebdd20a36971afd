//! Plain-text console content: the settings of the interactive console,
//! the description lines for mutants, and the formatting of elapsed times
//! and byte counts. Styling and terminal drawing live with the caller.

use vstd::prelude::*;

use crate::mutate::{spec_describe, Mutant};
use crate::text::{chars_to_string, dec_chars, spec_dec, str_to_chars};

verus! {

/// Settings of the interactive console: whether to print every log, and
/// whether to print elapsed times.
pub struct Console {
    pub show_all_logs: bool,
    pub show_times: bool,
}

impl Console {
    /// A console that shows times but only noteworthy logs.
    pub fn new() -> (r: Console)
        ensures
            !r.show_all_logs,
            r.show_times,
    {
        Console { show_all_logs: false, show_times: true }
    }

    /// This console with `show_all_logs` replaced.
    pub fn show_all_logs(self, show_all_logs: bool) -> (r: Console)
        ensures
            r.show_all_logs == show_all_logs,
            r.show_times == self.show_times,
    {
        Console { show_all_logs, ..self }
    }

    /// This console with `show_times` replaced.
    pub fn show_times(self, show_times: bool) -> (r: Console)
        ensures
            r.show_all_logs == self.show_all_logs,
            r.show_times == show_times,
    {
        Console { show_times, ..self }
    }
}

/// The one-line rendering of a mutant: its location, what is replaced, and
/// the replacement.
pub fn style_mutation(mutant: &Mutant) -> (r: String)
    ensures
        r@ == spec_describe(mutant@),
{
    mutant.describe()
}

/// The listing of a set of mutants: one description line per mutant.
pub open spec fn spec_mutation_list(ms: Seq<crate::mutate::MutantV>) -> Seq<char>
    decreases ms.len(),
{
    if ms.len() == 0 {
        Seq::<char>::empty()
    } else {
        spec_describe(ms[0]).push('\n').add(spec_mutation_list(ms.skip(1)))
    }
}

/// Renders the mutant listing, one line per mutant.
pub fn list_mutations(mutants: &Vec<Mutant>) -> (r: String)
    ensures
        r@ == spec_mutation_list(mutants@.map_values(|m: Mutant| m@)),
{
    let ghost msv = mutants@.map_values(|m: Mutant| m@);
    let mut out: Vec<char> = Vec::new();
    let n = mutants.len();
    let mut i: usize = 0;
    proof {
        assert(msv.skip(0) =~= msv);
    }
    while i < n
        invariant
            i <= n,
            n == mutants@.len(),
            msv == mutants@.map_values(|m: Mutant| m@),
            spec_mutation_list(msv) == out@.add(spec_mutation_list(msv.skip(i as int))),
        decreases n - i,
    {
        proof {
            assert(msv.skip(i as int)[0] == msv[i as int]);
            assert(msv.skip(i as int).skip(1) =~= msv.skip(i as int + 1));
        }
        let line = mutants[i].describe();
        let mut lv = str_to_chars(line.as_str());
        let ghost out0 = out@;
        out.append(&mut lv);
        out.push('\n');
        proof {
            assert(out@ =~= out0.add(spec_describe(msv[i as int]).push('\n')));
            assert(out0.add(spec_describe(msv[i as int]).push('\n')).add(
                spec_mutation_list(msv.skip(i as int + 1)),
            ) =~= out0.add(
                spec_describe(msv[i as int]).push('\n').add(
                    spec_mutation_list(msv.skip(i as int + 1)),
                ),
            ));
        }
        i += 1;
    }
    proof {
        assert(msv.skip(n as int) =~= Seq::<crate::mutate::MutantV>::empty());
        assert(out@.add(Seq::<char>::empty()) =~= out@);
    }
    chars_to_string(&out)
}

/// The milliseconds of an elapsed time, three digits, zero padded.
pub open spec fn spec_pad3(f: nat) -> Seq<char> {
    if f < 10 {
        "00"@.add(spec_dec(f))
    } else if f < 100 {
        "0"@.add(spec_dec(f))
    } else {
        spec_dec(f)
    }
}

/// An elapsed time rendered as seconds with three decimal places, e.g.
/// `2.307s`.
pub open spec fn spec_format_elapsed(millis: nat) -> Seq<char> {
    spec_dec(millis / 1000).add(seq!['.']).add(spec_pad3(millis % 1000)).push('s')
}

/// Formats an elapsed time in milliseconds as seconds with millisecond
/// precision.
pub fn format_elapsed(elapsed_millis: u64) -> (r: String)
    ensures
        r@ == spec_format_elapsed(elapsed_millis as nat),
{
    let secs = elapsed_millis / 1000;
    let frac = elapsed_millis % 1000;
    let mut v = dec_chars(secs);
    v.push('.');
    let mut fv = dec_chars(frac);
    if frac < 10 {
        let mut pad = str_to_chars("00");
        v.append(&mut pad);
    } else if frac < 100 {
        let mut pad = str_to_chars("0");
        v.append(&mut pad);
    }
    v.append(&mut fv);
    v.push('s');
    proof {
        reveal_strlit("00");
        reveal_strlit("0");
        assert(v@ =~= spec_format_elapsed(elapsed_millis as nat));
    }
    chars_to_string(&v)
}

/// A byte count rendered in whole megabytes, e.g. `317 MB`.
pub open spec fn spec_format_mb(bytes: nat) -> Seq<char> {
    spec_dec(bytes / 1000000).add(" MB"@)
}

/// Formats a byte count in whole megabytes.
pub fn format_mb(bytes: u64) -> (r: String)
    ensures
        r@ == spec_format_mb(bytes as nat),
{
    let mut v = dec_chars(bytes / 1000000);
    let mut suffix = str_to_chars(" MB");
    v.append(&mut suffix);
    proof {
        assert(v@ =~= spec_format_mb(bytes as nat));
    }
    chars_to_string(&v)
}

} // verus!
