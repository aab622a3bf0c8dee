use vstd::prelude::*;

use crate::text::{eq_ignore_ascii_case, lower_code, str_eq_ignore_case};

verus! {

/// The file formats the pipeline accepts, each keyed by a file-name extension.
#[derive(Debug, Clone, Copy, PartialEq, Eq, Structural)]
pub enum FileFormat {
    Csv,
    Json,
    Xml,
    Xls,
    Xlsx,
    Ods,
}

/// Index just past the last '/' of `p`: where the file name begins.
pub open spec fn file_name_start(p: Seq<char>) -> int
    decreases p.len(),
{
    if p.len() == 0 {
        0
    } else if p.last() == '/' {
        p.len() as int
    } else {
        file_name_start(p.drop_last())
    }
}

/// Position of the last '.' of `p`, if `p` holds one.
pub open spec fn last_dot(p: Seq<char>) -> Option<int>
    decreases p.len(),
{
    if p.len() == 0 {
        Option::None
    } else if p.last() == '.' {
        Option::Some(p.len() - 1)
    } else {
        last_dot(p.drop_last())
    }
}

/// The extension of a path: the text after the last '.' of its file name,
/// provided that dot is not the file name's first character.
pub open spec fn spec_extension(p: Seq<char>) -> Option<Seq<char>> {
    match last_dot(p) {
        Option::Some(d) => if d > file_name_start(p) {
            Option::Some(p.subrange(d + 1, p.len() as int))
        } else {
            Option::None
        },
        Option::None => Option::None,
    }
}

/// The format keyed by extension `e`, compared ASCII-case-insensitively.
pub open spec fn format_of_ext(e: Seq<char>) -> Option<FileFormat> {
    if eq_ignore_ascii_case(e, "csv"@) {
        Option::Some(FileFormat::Csv)
    } else if eq_ignore_ascii_case(e, "json"@) {
        Option::Some(FileFormat::Json)
    } else if eq_ignore_ascii_case(e, "xml"@) {
        Option::Some(FileFormat::Xml)
    } else if eq_ignore_ascii_case(e, "xls"@) {
        Option::Some(FileFormat::Xls)
    } else if eq_ignore_ascii_case(e, "xlsx"@) {
        Option::Some(FileFormat::Xlsx)
    } else if eq_ignore_ascii_case(e, "ods"@) {
        Option::Some(FileFormat::Ods)
    } else {
        Option::None
    }
}

/// The format detected for a path: decided by its extension alone.
pub open spec fn spec_format_of(p: Seq<char>) -> Option<FileFormat> {
    match spec_extension(p) {
        Option::Some(e) => format_of_ext(e),
        Option::None => Option::None,
    }
}

proof fn lemma_scan_step(s: Seq<char>, c: char)
    ensures
        file_name_start(s.push(c)) == (if c == '/' {
            s.len() as int + 1
        } else {
            file_name_start(s)
        }),
        last_dot(s.push(c)) == (if c == '.' {
            Option::Some(s.len() as int)
        } else {
            last_dot(s)
        }),
{
    let t = s.push(c);
    assert(t.last() == c);
    assert(t.drop_last() =~= s);
}

/// Scans `path` once: returns the index where its file name begins and the
/// position of its last dot, if any.
pub(crate) fn scan_path(path: &str) -> (r: (usize, Option<usize>))
    ensures
        r.0 as int == file_name_start(path@),
        match r.1 {
            Option::Some(d) => last_dot(path@) == Option::Some(d as int) && d < path@.len(),
            Option::None => last_dot(path@) is None,
        },
{
    let n: usize = path.unicode_len();
    let mut i: usize = 0;
    let mut fns: usize = 0;
    let mut dot: Option<usize> = Option::None;
    proof {
        assert(path@.take(0) =~= Seq::<char>::empty());
    }
    while i < n
        invariant
            i <= n,
            n == path@.len(),
            fns as int == file_name_start(path@.take(i as int)),
            fns <= i,
            match dot {
                Option::Some(d) => last_dot(path@.take(i as int)) == Option::Some(d as int) && d
                    < i,
                Option::None => last_dot(path@.take(i as int)) is None,
            },
        decreases n - i,
    {
        let c: char = path.get_char(i);
        proof {
            assert(path@.take(i + 1) =~= path@.take(i as int).push(path@[i as int]));
            lemma_scan_step(path@.take(i as int), path@[i as int]);
        }
        if c == '/' {
            fns = i + 1;
        } else if c == '.' {
            dot = Option::Some(i);
        }
        i += 1;
    }
    proof {
        assert(path@.take(n as int) =~= path@);
    }
    (fns, dot)
}

fn format_from_ext(e: &str) -> (r: Option<FileFormat>)
    ensures
        r == format_of_ext(e@),
{
    if str_eq_ignore_case(e, "csv") {
        Option::Some(FileFormat::Csv)
    } else if str_eq_ignore_case(e, "json") {
        Option::Some(FileFormat::Json)
    } else if str_eq_ignore_case(e, "xml") {
        Option::Some(FileFormat::Xml)
    } else if str_eq_ignore_case(e, "xls") {
        Option::Some(FileFormat::Xls)
    } else if str_eq_ignore_case(e, "xlsx") {
        Option::Some(FileFormat::Xlsx)
    } else if str_eq_ignore_case(e, "ods") {
        Option::Some(FileFormat::Ods)
    } else {
        Option::None
    }
}

impl FileFormat {
    /// Detects the format of `path` from its extension, case-insensitively.
    pub fn from_path(path: &str) -> (r: Option<FileFormat>)
        ensures
            r == spec_format_of(path@),
    {
        let (fns, dot) = scan_path(path);
        match dot {
            Option::Some(d) => {
                if d > fns {
                    let n: usize = path.unicode_len();
                    let e = path.substring_char(d + 1, n);
                    format_from_ext(e)
                } else {
                    Option::None
                }
            },
            Option::None => Option::None,
        }
    }

    /// The extensions the pipeline accepts, in their canonical lower-case form.
    pub fn supported_extensions() -> (r: Vec<&'static str>)
        ensures
            r@.len() == 6,
            r@[0]@ == "csv"@,
            r@[1]@ == "json"@,
            r@[2]@ == "xml"@,
            r@[3]@ == "xls"@,
            r@[4]@ == "xlsx"@,
            r@[5]@ == "ods"@,
    {
        let mut v: Vec<&'static str> = Vec::new();
        v.push("csv");
        v.push("json");
        v.push("xml");
        v.push("xls");
        v.push("xlsx");
        v.push("ods");
        v
    }

    /// Whether the path's extension names a supported format.
    pub fn is_supported(path: &str) -> (r: bool)
        ensures
            r == (spec_format_of(path@) is Some),
    {
        FileFormat::from_path(path).is_some()
    }
}

/// Detection goes by the extension alone: a path whose extension case-folds to
/// a supported one is detected as that format, and every other path is
/// rejected.
pub proof fn lemma_detect_by_extension(p: Seq<char>)
    ensures
        spec_extension(p) is None ==> spec_format_of(p) is None,
        spec_extension(p) matches Some(e) ==> spec_format_of(p) == format_of_ext(e),
        forall|e: Seq<char>|
            spec_extension(p) == Option::Some(e) && eq_ignore_ascii_case(e, "csv"@)
                ==> spec_format_of(p) == Option::Some(FileFormat::Csv),
        forall|e: Seq<char>|
            spec_extension(p) == Option::Some(e) && eq_ignore_ascii_case(e, "json"@)
                ==> spec_format_of(p) == Option::Some(FileFormat::Json),
        forall|e: Seq<char>|
            spec_extension(p) == Option::Some(e) && eq_ignore_ascii_case(e, "xml"@)
                ==> spec_format_of(p) == Option::Some(FileFormat::Xml),
        forall|e: Seq<char>|
            spec_extension(p) == Option::Some(e) && eq_ignore_ascii_case(e, "xls"@)
                ==> spec_format_of(p) == Option::Some(FileFormat::Xls),
        forall|e: Seq<char>|
            spec_extension(p) == Option::Some(e) && eq_ignore_ascii_case(e, "xlsx"@)
                ==> spec_format_of(p) == Option::Some(FileFormat::Xlsx),
        forall|e: Seq<char>|
            spec_extension(p) == Option::Some(e) && eq_ignore_ascii_case(e, "ods"@)
                ==> spec_format_of(p) == Option::Some(FileFormat::Ods),
{
    assert forall|e: Seq<char>|
        spec_extension(p) == Option::Some(e) && eq_ignore_ascii_case(e, "csv"@)
            implies spec_format_of(p) == Option::Some(FileFormat::Csv) by {}
    assert forall|e: Seq<char>|
        spec_extension(p) == Option::Some(e) && eq_ignore_ascii_case(e, "json"@)
            implies spec_format_of(p) == Option::Some(FileFormat::Json) by {
        lemma_case_distinct(e);
    }
    assert forall|e: Seq<char>|
        spec_extension(p) == Option::Some(e) && eq_ignore_ascii_case(e, "xml"@)
            implies spec_format_of(p) == Option::Some(FileFormat::Xml) by {
        lemma_case_distinct(e);
    }
    assert forall|e: Seq<char>|
        spec_extension(p) == Option::Some(e) && eq_ignore_ascii_case(e, "xls"@)
            implies spec_format_of(p) == Option::Some(FileFormat::Xls) by {
        lemma_case_distinct(e);
    }
    assert forall|e: Seq<char>|
        spec_extension(p) == Option::Some(e) && eq_ignore_ascii_case(e, "xlsx"@)
            implies spec_format_of(p) == Option::Some(FileFormat::Xlsx) by {
        lemma_case_distinct(e);
    }
    assert forall|e: Seq<char>|
        spec_extension(p) == Option::Some(e) && eq_ignore_ascii_case(e, "ods"@)
            implies spec_format_of(p) == Option::Some(FileFormat::Ods) by {
        lemma_case_distinct(e);
    }
}

/// No sequence is case-insensitively equal to both `a` and `b` when those
/// differ at position `i` even after folding.
proof fn lemma_differ_at(e: Seq<char>, a: Seq<char>, b: Seq<char>, i: int)
    requires
        0 <= i < a.len(),
        a.len() == b.len(),
        lower_code(a[i]) != lower_code(b[i]),
    ensures
        !(eq_ignore_ascii_case(e, a) && eq_ignore_ascii_case(e, b)),
{
    if eq_ignore_ascii_case(e, a) && eq_ignore_ascii_case(e, b) {
        assert(lower_code(e[i]) == lower_code(a[i]));
        assert(lower_code(e[i]) == lower_code(b[i]));
    }
}

/// No extension case-folds to two different supported extensions.
proof fn lemma_case_distinct(e: Seq<char>)
    ensures
        eq_ignore_ascii_case(e, "json"@) ==> !eq_ignore_ascii_case(e, "csv"@),
        eq_ignore_ascii_case(e, "xml"@) ==> !eq_ignore_ascii_case(e, "csv"@) && !eq_ignore_ascii_case(e, "json"@),
        eq_ignore_ascii_case(e, "xls"@) ==> !eq_ignore_ascii_case(e, "csv"@) && !eq_ignore_ascii_case(e, "json"@) && !eq_ignore_ascii_case(e, "xml"@),
        eq_ignore_ascii_case(e, "xlsx"@) ==> !eq_ignore_ascii_case(e, "csv"@) && !eq_ignore_ascii_case(e, "json"@) && !eq_ignore_ascii_case(e, "xml"@) && !eq_ignore_ascii_case(e, "xls"@),
        eq_ignore_ascii_case(e, "ods"@) ==> !eq_ignore_ascii_case(e, "csv"@) && !eq_ignore_ascii_case(e, "json"@) && !eq_ignore_ascii_case(e, "xml"@) && !eq_ignore_ascii_case(e, "xls"@) && !eq_ignore_ascii_case(e, "xlsx"@),
{
    reveal_strlit("csv");
    reveal_strlit("json");
    reveal_strlit("xml");
    reveal_strlit("xls");
    reveal_strlit("xlsx");
    reveal_strlit("ods");
    lemma_differ_at(e, "xml"@, "csv"@, 0);
    lemma_differ_at(e, "xls"@, "csv"@, 0);
    lemma_differ_at(e, "xls"@, "xml"@, 1);
    lemma_differ_at(e, "xlsx"@, "json"@, 0);
    lemma_differ_at(e, "ods"@, "csv"@, 0);
    lemma_differ_at(e, "ods"@, "xml"@, 0);
    lemma_differ_at(e, "ods"@, "xls"@, 0);
}

} // verus!
