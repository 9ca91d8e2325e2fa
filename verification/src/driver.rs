//! The driver: visits the opened sources in order, runs exactly one
//! pass over each, and isolates per-source failures — a source that
//! could not be opened or read contributes one diagnostic line naming
//! it and the run continues with its siblings.

use vstd::prelude::*;
use vstd::string::*;
use crate::cat;
use crate::head;
use crate::numbering::{cat_output, cat_source, DisplayMode};
use crate::views_of;
use crate::window::{select_window, window, Count};

verus! {

/// A source the resolver tried to open and read: its full content, or
/// the cause of the per-source failure.
pub type SourceOutcome<T> = Result<T, String>;

/// What a run produces: content for the output channel and one
/// diagnostic per failed source for the error channel. The run itself
/// always completes.
pub struct RunReport {
    pub output: Vec<String>,
    pub diagnostics: Vec<String>,
}

/// As `RunReport`, for the byte-granularity pass.
pub struct ByteRunReport {
    pub output: Vec<u8>,
    pub diagnostics: Vec<String>,
}

/// The diagnostic line for a failed source: its name, a separator, and
/// the cause.
pub open spec fn diag_text(name: Seq<char>, cause: Seq<char>) -> Seq<char> {
    name + seq![':', ' '] + cause
}

/// Renders the diagnostic line for a failed source.
pub fn diag_line(name: &str, cause: &str) -> (r: String)
    ensures
        r@ == diag_text(name@, cause@),
{
    let mut s = name.to_owned();
    proof {
        reveal_strlit(": ");
    }
    s.append(": ");
    s.append(cause);
    proof {
        assert(s@ =~= diag_text(name@, cause@));
    }
    s
}

/// The diagnostics of the first `i` sources: one line per failure, in
/// source order.
pub open spec fn diags_upto<T>(
    names: Seq<String>,
    data: Seq<SourceOutcome<T>>,
    i: int,
) -> Seq<Seq<char>>
    decreases i,
{
    if i <= 0 {
        Seq::empty()
    } else {
        diags_upto(names, data, i - 1) + match data[i - 1] {
            Ok(_) => Seq::<Seq<char>>::empty(),
            Err(c) => seq![diag_text(names[i - 1]@, c@)],
        }
    }
}

/// The cat-style output of the first `i` sources: each readable source
/// formatted whole, failed sources contributing nothing.
pub open spec fn cat_lines_upto(
    mode: DisplayMode,
    show_ends: bool,
    data: Seq<SourceOutcome<Vec<String>>>,
    i: int,
) -> Seq<Seq<char>>
    decreases i,
{
    if i <= 0 {
        Seq::empty()
    } else {
        cat_lines_upto(mode, show_ends, data, i - 1) + match data[i - 1] {
            Ok(v) => cat_output(mode, show_ends, views_of(v@)),
            Err(_) => Seq::<Seq<char>>::empty(),
        }
    }
}

/// The head-style line output of the first `i` sources: each readable
/// source's selected window, failed sources contributing nothing.
pub open spec fn head_lines_upto(
    c: Count,
    data: Seq<SourceOutcome<Vec<String>>>,
    i: int,
) -> Seq<Seq<char>>
    decreases i,
{
    if i <= 0 {
        Seq::empty()
    } else {
        head_lines_upto(c, data, i - 1) + match data[i - 1] {
            Ok(v) => window(views_of(v@), c),
            Err(_) => Seq::<Seq<char>>::empty(),
        }
    }
}

/// The head-style byte output of the first `i` sources.
pub open spec fn head_bytes_upto(c: Count, data: Seq<SourceOutcome<Vec<u8>>>, i: int) -> Seq<u8>
    decreases i,
{
    if i <= 0 {
        Seq::empty()
    } else {
        head_bytes_upto(c, data, i - 1) + match data[i - 1] {
            Ok(v) => window(v@, c),
            Err(_) => Seq::<u8>::empty(),
        }
    }
}

/// Runs the cat-style pass over every source in order. Each readable
/// source is formatted whole with a fresh nonblank counter; each failed
/// one yields exactly one diagnostic naming it, and never stops the
/// run.
pub fn run_cat(config: &cat::Config, data: Vec<SourceOutcome<Vec<String>>>) -> (r: RunReport)
    requires
        data@.len() == config.files@.len(),
    ensures
        views_of(r.output@) == cat_lines_upto(
            config.mode,
            config.show_ends,
            data@,
            data@.len() as int,
        ),
        views_of(r.diagnostics@) == diags_upto(config.files@, data@, data@.len() as int),
{
    let ghost orig = data@;
    let ghost total = orig.len() as int;
    let mut rest = data;
    let n = rest.len();
    let mut output: Vec<String> = Vec::new();
    let mut diagnostics: Vec<String> = Vec::new();
    let mut i: usize = 0;
    while i < n
        invariant
            orig.len() == total,
            n == total,
            i <= n,
            rest@.len() == total - i,
            config.files@.len() == total,
            rest@ =~= orig.skip(i as int),
            views_of(output@) == cat_lines_upto(config.mode, config.show_ends, orig, i as int),
            views_of(diagnostics@) == diags_upto(config.files@, orig, i as int),
        decreases n - i,
    {
        let ghost pre_out = output@;
        let item = rest.remove(0);
        proof {
            assert(item == orig[i as int]);
            assert(rest@ =~= orig.skip(i as int + 1));
        }
        match item {
            Ok(v) => {
                let mut produced = cat_source(config.mode, config.show_ends, &v);
                output.append(&mut produced);
                proof {
                    crate::lemma_views_of_concat(pre_out, output@.skip(pre_out.len() as int));
                    assert(views_of(output@) =~= cat_lines_upto(
                        config.mode,
                        config.show_ends,
                        orig,
                        i as int + 1,
                    ));
                }
            },
            Err(cause) => {
                let d = diag_line(config.files[i].as_str(), cause.as_str());
                diagnostics.push(d);
                proof {
                    assert(views_of(diagnostics@) =~= diags_upto(
                        config.files@,
                        orig,
                        i as int + 1,
                    ));
                }
            },
        }
        i += 1;
    }
    RunReport { output, diagnostics }
}

/// Runs the head-style line pass over every source in order, emitting
/// each readable source's selected line window and one diagnostic per
/// failed source.
pub fn run_head_lines(config: &head::Config, data: Vec<SourceOutcome<Vec<String>>>) -> (r:
    RunReport)
    requires
        data@.len() == config.files@.len(),
        !config.bytes_active(),
    ensures
        views_of(r.output@) == head_lines_upto(config.lines, data@, data@.len() as int),
        views_of(r.diagnostics@) == diags_upto(config.files@, data@, data@.len() as int),
{
    let c = config.active_count();
    let ghost orig = data@;
    let ghost total = orig.len() as int;
    let mut rest = data;
    let n = rest.len();
    let mut output: Vec<String> = Vec::new();
    let mut diagnostics: Vec<String> = Vec::new();
    let mut i: usize = 0;
    while i < n
        invariant
            c == config.lines,
            orig.len() == total,
            n == total,
            i <= n,
            rest@.len() == total - i,
            config.files@.len() == total,
            rest@ =~= orig.skip(i as int),
            views_of(output@) == head_lines_upto(c, orig, i as int),
            views_of(diagnostics@) == diags_upto(config.files@, orig, i as int),
        decreases n - i,
    {
        let ghost pre_out = output@;
        let item = rest.remove(0);
        proof {
            assert(item == orig[i as int]);
            assert(rest@ =~= orig.skip(i as int + 1));
        }
        match item {
            Ok(v) => {
                let ghost vs = views_of(v@);
                let mut produced = select_window(v, c);
                proof {
                    assert(views_of(produced@) =~= window(vs, c));
                }
                output.append(&mut produced);
                proof {
                    crate::lemma_views_of_concat(pre_out, output@.skip(pre_out.len() as int));
                    assert(views_of(output@) =~= head_lines_upto(c, orig, i as int + 1));
                }
            },
            Err(cause) => {
                let d = diag_line(config.files[i].as_str(), cause.as_str());
                diagnostics.push(d);
                proof {
                    assert(views_of(diagnostics@) =~= diags_upto(
                        config.files@,
                        orig,
                        i as int + 1,
                    ));
                }
            },
        }
        i += 1;
    }
    RunReport { output, diagnostics }
}

/// Runs the head-style byte pass over every source in order, emitting
/// each readable source's selected bytes verbatim — bytes are never
/// decoded or reinterpreted — and one diagnostic per failed source.
pub fn run_head_bytes(config: &head::Config, data: Vec<SourceOutcome<Vec<u8>>>) -> (r:
    ByteRunReport)
    requires
        data@.len() == config.files@.len(),
        config.bytes_active(),
    ensures
        r.output@ == head_bytes_upto(config.active_count_spec(), data@, data@.len() as int),
        views_of(r.diagnostics@) == diags_upto(config.files@, data@, data@.len() as int),
{
    let c = config.active_count();
    let ghost orig = data@;
    let ghost total = orig.len() as int;
    let mut rest = data;
    let n = rest.len();
    let mut output: Vec<u8> = Vec::new();
    let mut diagnostics: Vec<String> = Vec::new();
    let mut i: usize = 0;
    while i < n
        invariant
            c == config.active_count_spec(),
            orig.len() == total,
            n == total,
            i <= n,
            rest@.len() == total - i,
            config.files@.len() == total,
            rest@ =~= orig.skip(i as int),
            output@ == head_bytes_upto(c, orig, i as int),
            views_of(diagnostics@) == diags_upto(config.files@, orig, i as int),
        decreases n - i,
    {
        let item = rest.remove(0);
        proof {
            assert(item == orig[i as int]);
            assert(rest@ =~= orig.skip(i as int + 1));
        }
        match item {
            Ok(v) => {
                let mut produced = select_window(v, c);
                output.append(&mut produced);
                proof {
                    assert(output@ =~= head_bytes_upto(c, orig, i as int + 1));
                }
            },
            Err(cause) => {
                let d = diag_line(config.files[i].as_str(), cause.as_str());
                diagnostics.push(d);
                proof {
                    assert(views_of(diagnostics@) =~= diags_upto(
                        config.files@,
                        orig,
                        i as int + 1,
                    ));
                }
            },
        }
        i += 1;
    }
    ByteRunReport { output, diagnostics }
}

} // verus!
