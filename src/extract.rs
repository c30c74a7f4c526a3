use vstd::prelude::*;
use crate::model::str_eq;

verus! {

/// One entry of an archive: its stored path, whether it is a directory,
/// and its inflated bytes (`None` where they could not be read).
#[derive(Debug)]
pub struct ArchiveEntry {
    pub path: String,
    pub is_dir: bool,
    pub data: Option<Vec<u8>>,
}

/// Whether a path names one of the structured entries, which extraction
/// leaves in the archive.
pub open spec fn is_reserved(p: Seq<char>) -> bool {
    p == "graph.json"@ || p == "metadata.json"@ || p == "documentation.json"@
}

pub open spec fn is_separator(c: char) -> bool {
    c == '/' || c == '\\'
}

/// Where the segment that starts at `i` ends: the next separator, or the
/// end of the path.
pub open spec fn segment_end(p: Seq<char>, i: int) -> int
    decreases p.len() - i,
{
    if i >= p.len() || i < 0 {
        p.len() as int
    } else if is_separator(p[i]) {
        i
    } else {
        segment_end(p, i + 1)
    }
}

/// The depth below the output directory after one segment: `..` goes up,
/// `.` and an empty segment stay, any other name goes down.
pub open spec fn next_depth(seg: Seq<char>, depth: int) -> int {
    if seg == ".."@ {
        depth - 1
    } else if seg == "."@ || seg.len() == 0 {
        depth
    } else {
        depth + 1
    }
}

/// Whether walking the segments from position `i`, at `depth` below the
/// output directory, ever climbs above it.
pub open spec fn climbs_out(p: Seq<char>, i: int, depth: int) -> bool
    decreases p.len() - i,
{
    if i < 0 || i > p.len() {
        false
    } else {
        let e = segment_end(p, i);
        let d = next_depth(p.subrange(i, e), depth);
        if d < 0 {
            true
        } else if e >= p.len() || e < i {
            false
        } else {
            climbs_out(p, e + 1, d)
        }
    }
}

/// Whether a stored path starts with a drive prefix such as `C:`.
pub open spec fn has_drive_prefix(p: Seq<char>) -> bool {
    p.len() >= 2 && p[1] == ':'
}

/// Whether a stored path stays below the directory it is extracted to: it
/// is not empty, does not start at a root or with a drive prefix, and its `..` segments never climb
/// above the directory (`a/../b` stays, `../b` and `a/../../b` leave).
pub open spec fn is_safe_path(p: Seq<char>) -> bool {
    p.len() > 0 && !is_separator(p[0]) && !has_drive_prefix(p) && !climbs_out(p, 0, 0)
}

proof fn lemma_segment_end(p: Seq<char>, i: int)
    requires
        0 <= i <= p.len(),
    ensures
        i <= segment_end(p, i) <= p.len(),
        forall|k: int| i <= k < segment_end(p, i) ==> !is_separator(#[trigger] p[k]),
        segment_end(p, i) < p.len() ==> is_separator(p[segment_end(p, i)]),
    decreases p.len() - i,
{
    if i < p.len() && !is_separator(p[i]) {
        lemma_segment_end(p, i + 1);
    }
}

/// What extraction does with one entry.
#[derive(Debug, Clone, Copy, PartialEq, Eq, Structural)]
pub enum ExtractStep {
    /// A structured entry: left in the archive.
    Reserved,
    /// A path that would leave the output directory: refused.
    UnsafePath,
    /// A directory: created below the output directory.
    MakeDir,
    /// A file whose bytes could not be read: reported, not written.
    Unreadable,
    /// A file: written below the output directory.
    WriteFile,
}

pub open spec fn step_for(path: Seq<char>, is_dir: bool, readable: bool) -> ExtractStep {
    if is_reserved(path) {
        ExtractStep::Reserved
    } else if !is_safe_path(path) {
        ExtractStep::UnsafePath
    } else if is_dir {
        ExtractStep::MakeDir
    } else if !readable {
        ExtractStep::Unreadable
    } else {
        ExtractStep::WriteFile
    }
}

/// The step for an entry; one that could not be opened is unreadable.
pub open spec fn entry_step(e: Option<ArchiveEntry>) -> ExtractStep {
    match e {
        Some(x) => step_for(x.path@, x.is_dir, x.data is Some),
        None => ExtractStep::Unreadable,
    }
}

/// Whether a stored path is one of the structured entries.
pub fn is_reserved_path(p: &str) -> (r: bool)
    ensures
        r == is_reserved(p@),
{
    proof {
        reveal_strlit("graph.json");
        reveal_strlit("metadata.json");
        reveal_strlit("documentation.json");
    }
    str_eq(p, "graph.json") || str_eq(p, "metadata.json") || str_eq(p, "documentation.json")
}

/// Whether a stored path stays below the directory it is extracted to.
pub fn safe_entry_path(p: &str) -> (r: bool)
    ensures
        r == is_safe_path(p@),
{
    let n = p.unicode_len();
    if n == 0 {
        return false;
    }
    let first = p.get_char(0);
    if first == '/' || first == '\\' {
        return false;
    }
    if n >= 2 && p.get_char(1) == ':' {
        return false;
    }
    let mut start: usize = 0;
    let mut depth: usize = 0;
    loop
        invariant
            n == p@.len(),
            start <= n,
            n > 0,
            !is_separator(p@[0]),
            !has_drive_prefix(p@),
            depth <= start,
            climbs_out(p@, 0, 0) == climbs_out(p@, start as int, depth as int),
        decreases n - start,
    {
        let mut end: usize = start;
        while end < n && p.get_char(end) != '/' && p.get_char(end) != '\\'
            invariant
                n == p@.len(),
                start <= end <= n,
                segment_end(p@, start as int) == segment_end(p@, end as int),
            decreases n - end,
        {
            end = end + 1;
        }
        proof {
            lemma_segment_end(p@, start as int);
            if end < n {
                assert(segment_end(p@, end as int) == end);
            }
        }
        let len = end - start;
        let ghost seg = p@.subrange(start as int, end as int);
        proof {
            reveal_strlit("..");
            reveal_strlit(".");
            assert(".."@.len() == 2);
            assert("."@.len() == 1);
            assert(".."@[0] == '.' && ".."@[1] == '.');
            assert("."@[0] == '.');
        }
        let mut is_dot = false;
        let mut is_up = false;
        if len == 1 {
            let a = p.get_char(start);
            is_dot = a == '.';
            proof {
                assert(seg[0] == a);
                if is_dot {
                    assert(seg =~= "."@);
                }
            }
        } else if len == 2 {
            let a = p.get_char(start);
            let b = p.get_char(start + 1);
            is_up = a == '.' && b == '.';
            proof {
                assert(seg[0] == a && seg[1] == b);
                if is_up {
                    assert(seg =~= ".."@);
                }
            }
        }
        assert(is_up == (seg == ".."@));
        assert(is_dot == (seg == "."@));
        assert(len == seg.len());
        let ghost before = depth as int;
        assert(next_depth(seg, before) < 0 ==> climbs_out(p@, start as int, before));
        if is_up {
            if depth == 0 {
                return false;
            }
            depth = depth - 1;
        } else if !is_dot && len > 0 {
            depth = depth + 1;
        }
        assert(depth == next_depth(seg, before));
        if end >= n {
            assert(!climbs_out(p@, start as int, before));
            return true;
        }
        assert(climbs_out(p@, start as int, before) == climbs_out(p@, end + 1, depth as int));
        start = end + 1;
    }
}

/// What extraction does with each entry, in the archive's order.
pub fn plan_extraction(entries: &Vec<Option<ArchiveEntry>>) -> (r: Vec<ExtractStep>)
    ensures
        r@.len() == entries@.len(),
        forall|i: int| 0 <= i < entries@.len() ==> r@[i] == entry_step(#[trigger] entries@[i]),
{
    let mut out: Vec<ExtractStep> = Vec::new();
    let mut i: usize = 0;
    while i < entries.len()
        invariant
            i <= entries@.len(),
            out@.len() == i,
            forall|j: int| 0 <= j < i ==> out@[j] == entry_step(#[trigger] entries@[j]),
        decreases entries@.len() - i,
    {
        let step = match &entries[i] {
            None => ExtractStep::Unreadable,
            Some(e) => {
                if is_reserved_path(e.path.as_str()) {
                    ExtractStep::Reserved
                } else if !safe_entry_path(e.path.as_str()) {
                    ExtractStep::UnsafePath
                } else if e.is_dir {
                    ExtractStep::MakeDir
                } else if e.data.is_none() {
                    ExtractStep::Unreadable
                } else {
                    ExtractStep::WriteFile
                }
            },
        };
        out.push(step);
        i = i + 1;
    }
    out
}

/// Extraction refuses exactly the entries whose path would leave the output
/// directory (the structured entries aside), writes or creates only entries
/// whose path stays below it, and writes every other readable file.
pub proof fn lemma_extraction_stays_inside(path: Seq<char>, is_dir: bool, readable: bool)
    ensures
        (step_for(path, is_dir, readable) == ExtractStep::UnsafePath) <==> (!is_reserved(path)
            && !is_safe_path(path)),
        step_for(path, is_dir, readable) == ExtractStep::WriteFile || step_for(
            path,
            is_dir,
            readable,
        ) == ExtractStep::MakeDir ==> is_safe_path(path),
        !is_reserved(path) && is_safe_path(path) && !is_dir && readable ==> step_for(
            path,
            is_dir,
            readable,
        ) == ExtractStep::WriteFile,
{
}

} // verus!
