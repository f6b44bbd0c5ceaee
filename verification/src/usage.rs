//! The descriptions of the user-facing options for `ruby --help`. Options for
//! ZJIT developers are left out on purpose.

use vstd::prelude::*;

verus! {

/// The help table: for each user-facing option its syntax and its
/// description, in the order in which they are shown.
pub open spec fn usage_table() -> Seq<(Seq<char>, Seq<char>)> {
    seq![
        ("--zjit-call-threshold=num"@, "Number of calls to trigger JIT (default: 2)."@),
        (
            "--zjit-num-profiles=num"@,
            "Number of profiled calls before JIT (default: 1, max: 255)."@,
        ),
        ("--zjit-stats"@, "Enable collecting ZJIT statistics."@),
        ("--zjit-perf"@, "Dump ISEQ symbols into /tmp/perf-{}.map for Linux perf."@),
        (
            "--zjit-log-compiled-iseqs=path"@,
            "Log compiled ISEQs to the file. The file will be truncated."@,
        ),
    ]
}

/// The characters of each line of a help table.
pub open spec fn lines_view(lines: Seq<(&'static str, &'static str)>) -> Seq<
    (Seq<char>, Seq<char>),
> {
    lines.map_values(|line: (&'static str, &'static str)| (line.0@, line.1@))
}

/// `--help` allows only 80 characters per line, indentation included: every
/// option's syntax and every description is shorter than that.
pub proof fn lemma_usage_fits()
    ensures
        forall|i: int|
            0 <= i < usage_table().len() ==> (#[trigger] usage_table()[i]).0.len() < 80
                && usage_table()[i].1.len() < 80,
{
    reveal_strlit("--zjit-call-threshold=num");
    reveal_strlit("Number of calls to trigger JIT (default: 2).");
    reveal_strlit("--zjit-num-profiles=num");
    reveal_strlit("Number of profiled calls before JIT (default: 1, max: 255).");
    reveal_strlit("--zjit-stats");
    reveal_strlit("Enable collecting ZJIT statistics.");
    reveal_strlit("--zjit-perf");
    reveal_strlit("Dump ISEQ symbols into /tmp/perf-{}.map for Linux perf.");
    reveal_strlit("--zjit-log-compiled-iseqs=path");
    reveal_strlit("Log compiled ISEQs to the file. The file will be truncated.");
}

/// The help table, for a host that renders it line by line.
pub fn usage_lines() -> (lines: Vec<(&'static str, &'static str)>)
    ensures
        lines_view(lines@) == usage_table(),
{
    let mut lines: Vec<(&'static str, &'static str)> = Vec::new();
    lines.push(("--zjit-call-threshold=num", "Number of calls to trigger JIT (default: 2)."));
    lines.push(
        ("--zjit-num-profiles=num", "Number of profiled calls before JIT (default: 1, max: 255)."),
    );
    lines.push(("--zjit-stats", "Enable collecting ZJIT statistics."));
    lines.push(("--zjit-perf", "Dump ISEQ symbols into /tmp/perf-{}.map for Linux perf."));
    lines.push(
        (
            "--zjit-log-compiled-iseqs=path",
            "Log compiled ISEQs to the file. The file will be truncated.",
        ),
    );
    assert(lines_view(lines@) =~= usage_table());
    lines
}

} // verus!
