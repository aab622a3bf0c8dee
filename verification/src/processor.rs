use vstd::prelude::*;

use crate::format::{file_name_start, last_dot, scan_path, spec_format_of, FileFormat};

verus! {

/// The part of `p` after `root`, when `p` lies under `root` with a '/'
/// boundary; else `p` itself.
pub open spec fn spec_strip_prefix(p: Seq<char>, root: Seq<char>) -> Seq<char> {
    if root.len() > 0 && p.len() > root.len() && p.take(root.len() as int) == root {
        if p[root.len() as int] == '/' {
            p.skip(root.len() as int + 1)
        } else if root.last() == '/' {
            p.skip(root.len() as int)
        } else {
            p
        }
    } else {
        p
    }
}

/// Joins a relative path under a root with a '/' separator; an absolute
/// relative part stands alone.
pub open spec fn spec_join(out: Seq<char>, rel: Seq<char>) -> Seq<char> {
    if rel.len() == 0 {
        out
    } else if rel[0] == '/' {
        rel
    } else if out.len() == 0 {
        rel
    } else if out.last() == '/' {
        out + rel
    } else {
        out + "/"@ + rel
    }
}

/// Replaces the path's extension with `parquet`, or appends one when the file
/// name has none.
pub open spec fn spec_with_parquet_ext(p: Seq<char>) -> Seq<char> {
    match last_dot(p) {
        Option::Some(d) => if d > file_name_start(p) {
            p.take(d + 1) + "parquet"@
        } else {
            p + ".parquet"@
        },
        Option::None => p + ".parquet"@,
    }
}

/// The output path of an input file: its path relative to the input root,
/// re-rooted under the output root, with the extension replaced.
pub open spec fn spec_output_path(
    input: Seq<char>,
    input_dir: Seq<char>,
    output_dir: Seq<char>,
) -> Seq<char> {
    spec_with_parquet_ext(spec_join(output_dir, spec_strip_prefix(input, input_dir)))
}

fn starts_with_str(p: &str, root: &str) -> (r: bool)
    ensures
        r == (p@.len() >= root@.len() && p@.take(root@.len() as int) == root@),
{
    let n: usize = p.unicode_len();
    let m: usize = root.unicode_len();
    if n < m {
        return false;
    }
    let mut i: usize = 0;
    while i < m
        invariant
            i <= m,
            m <= n,
            n == p@.len(),
            m == root@.len(),
            forall|j: int| 0 <= j < i ==> p@[j] == root@[j],
        decreases m - i,
    {
        if p.get_char(i) != root.get_char(i) {
            proof {
                assert(p@.take(m as int)[i as int] != root@[i as int]);
            }
            return false;
        }
        i += 1;
    }
    proof {
        assert(p@.take(m as int) =~= root@);
    }
    true
}

/// Maps an input path to its output path: strips the input root, re-roots
/// under the output root, and swaps the extension for `parquet`.
pub fn get_output_path(input: &str, input_dir: &str, output_dir: &str) -> (r: String)
    ensures
        r@ == spec_output_path(input@, input_dir@, output_dir@),
{
    let n: usize = input.unicode_len();
    let m: usize = input_dir.unicode_len();
    let rel: String;
    if m > 0 && n > m && starts_with_str(input, input_dir) {
        if input.get_char(m) == '/' {
            rel = input.substring_char(m + 1, n).to_owned();
        } else if input_dir.get_char(m - 1) == '/' {
            rel = input.substring_char(m, n).to_owned();
        } else {
            rel = input.to_owned();
        }
    } else {
        rel = input.to_owned();
    }
    proof {
        assert(rel@ == spec_strip_prefix(input@, input_dir@));
    }
    let rl: usize = rel.as_str().unicode_len();
    let ol: usize = output_dir.unicode_len();
    let joined: String;
    if rl == 0 {
        joined = output_dir.to_owned();
    } else if rel.as_str().get_char(0) == '/' {
        joined = rel;
    } else if ol == 0 {
        joined = rel;
    } else if output_dir.get_char(ol - 1) == '/' {
        let mut s = output_dir.to_owned();
        s.append(rel.as_str());
        joined = s;
    } else {
        let mut s = output_dir.to_owned();
        s.append("/");
        s.append(rel.as_str());
        proof {
            assert(s@ =~= output_dir@ + "/"@ + spec_strip_prefix(input@, input_dir@));
        }
        joined = s;
    }
    proof {
        assert(joined@ == spec_join(output_dir@, spec_strip_prefix(input@, input_dir@)));
    }
    let jl: usize = joined.as_str().unicode_len();
    let (fns, dot) = scan_path(joined.as_str());
    match dot {
        Option::Some(d) => {
            if d > fns {
                proof {
                    assert(d < jl);
                }
                let mut s = joined.as_str().substring_char(0, d + 1).to_owned();
                s.append("parquet");
                s
            } else {
                let mut s = joined;
                s.append(".parquet");
                s
            }
        },
        Option::None => {
            let mut s = joined;
            s.append(".parquet");
            s
        },
    }
}

/// Re-rooting: for a file `input_dir + "/" + rel`, the output path is the
/// output root joined with the same relative path, its extension swapped —
/// the subdirectory structure under the input root is preserved, whatever the
/// depth of `rel`.
pub proof fn lemma_output_path_reroots(
    rel: Seq<char>,
    input_dir: Seq<char>,
    output_dir: Seq<char>,
)
    requires
        input_dir.len() > 0,
        input_dir.last() != '/',
        rel.len() > 0,
    ensures
        spec_output_path(input_dir + seq!['/'] + rel, input_dir, output_dir)
            == spec_with_parquet_ext(spec_join(output_dir, rel)),
{
    let p = input_dir + seq!['/'] + rel;
    assert(p.take(input_dir.len() as int) =~= input_dir);
    assert(p[input_dir.len() as int] == '/');
    assert(p.skip(input_dir.len() as int + 1) =~= rel);
}

/// Re-rooting with a root that already ends in '/': for a file
/// `input_dir + rel`, the output path is likewise the output root joined
/// with the same relative path, its extension swapped, at any depth of
/// `rel`.
pub proof fn lemma_output_path_reroots_slash_root(
    rel: Seq<char>,
    input_dir: Seq<char>,
    output_dir: Seq<char>,
)
    requires
        input_dir.len() > 0,
        input_dir.last() == '/',
        rel.len() > 0,
        rel[0] != '/',
    ensures
        spec_output_path(input_dir + rel, input_dir, output_dir) == spec_with_parquet_ext(
            spec_join(output_dir, rel),
        ),
{
    let p = input_dir + rel;
    assert(p.take(input_dir.len() as int) =~= input_dir);
    assert(p[input_dir.len() as int] == rel[0]);
    assert(p.skip(input_dir.len() as int) =~= rel);
}

/// One unit of conversion work: an input file and its computed output path.
pub struct ConversionJob {
    pub input: String,
    pub output: String,
}

/// The job a directory entry gives rise to: only a regular file with a
/// supported extension is planned, and its output is the re-rooted path.
pub open spec fn spec_plan(
    path: Seq<char>,
    is_file: bool,
    input_dir: Seq<char>,
    output_dir: Seq<char>,
) -> Option<(Seq<char>, Seq<char>)> {
    if is_file && spec_format_of(path) is Some {
        Option::Some((path, spec_output_path(path, input_dir, output_dir)))
    } else {
        Option::None
    }
}

/// Decides whether one discovered or notified path is converted, and to
/// where. Batch traversal and watch events share this single decision.
pub fn plan_file(path: &str, is_file: bool, input_dir: &str, output_dir: &str) -> (r: Option<
    ConversionJob,
>)
    ensures
        match r {
            Option::Some(job) => spec_plan(path@, is_file, input_dir@, output_dir@)
                == Option::Some((job.input@, job.output@)),
            Option::None => spec_plan(path@, is_file, input_dir@, output_dir@) is None,
        },
{
    if is_file && FileFormat::is_supported(path) {
        Option::Some(
            ConversionJob {
                input: path.to_owned(),
                output: get_output_path(path, input_dir, output_dir),
            },
        )
    } else {
        Option::None
    }
}

/// The outcome counts of one batch pass.
pub struct ProcessStats {
    pub processed: usize,
    pub errors: usize,
}

/// How many of the first `i` outcomes are successes.
pub open spec fn count_true(s: Seq<bool>, i: int) -> int
    decreases i,
{
    if i <= 0 {
        0
    } else {
        count_true(s, i - 1) + if s[i - 1] {
            1int
        } else {
            0int
        }
    }
}

/// Folds per-file outcomes into the batch summary: every success counts as
/// processed, every fault as an error, and no fault stops the count.
pub fn summarize(outcomes: &Vec<bool>) -> (r: ProcessStats)
    ensures
        r.processed == count_true(outcomes@, outcomes@.len() as int),
        r.processed + r.errors == outcomes@.len(),
{
    let n: usize = outcomes.len();
    let mut processed: usize = 0;
    let mut errors: usize = 0;
    let mut i: usize = 0;
    while i < n
        invariant
            i <= n,
            n == outcomes@.len(),
            processed == count_true(outcomes@, i as int),
            processed + errors == i,
        decreases n - i,
    {
        if outcomes[i] {
            processed += 1;
        } else {
            errors += 1;
        }
        i += 1;
    }
    ProcessStats { processed, errors }
}

} // verus!
