use vstd::prelude::*;

verus! {

/// Why generating an archive could not start or did not succeed.
#[derive(Debug, Clone, Copy, PartialEq, Eq, Structural)]
pub enum GenerateError {
    /// The input file does not exist.
    InputMissing,
    /// The input is not a `.zip` file.
    NotZip,
    /// No builder was found at any candidate location.
    BuilderNotFound,
}

/// The path without its trailing `/` separators.
pub open spec fn without_trailing_slashes(p: Seq<char>) -> Seq<char>
    decreases p.len(),
{
    if p.len() > 0 && p.last() == '/' {
        without_trailing_slashes(p.drop_last())
    } else {
        p
    }
}

/// Whether a path's file name (its last segment, trailing `/` aside) has the
/// extension `zip`: it ends in `.zip` with at least one character of the
/// file name before that dot.
pub open spec fn has_zip_ext(p: Seq<char>) -> bool {
    let t = without_trailing_slashes(p);
    let n = t.len();
    n >= 5 && t.subrange(n - 4, n as int) == ".zip"@ && t[n - 5] != '/'
}

/// Checks the input of a generation: it must exist and be a `.zip` file.
pub fn check_generate_input(exists: bool, path: &str) -> (r: Result<(), GenerateError>)
    ensures
        !exists ==> r == Err::<(), GenerateError>(GenerateError::InputMissing),
        exists && !has_zip_ext(path@) ==> r == Err::<(), GenerateError>(GenerateError::NotZip),
        exists && has_zip_ext(path@) ==> r is Ok,
{
    if !exists {
        return Err(GenerateError::InputMissing);
    }
    let mut n = path.unicode_len();
    assert(path@.take(n as int) == path@);
    while n > 0 && path.get_char(n - 1) == '/'
        invariant
            n <= path@.len(),
            without_trailing_slashes(path@) == without_trailing_slashes(path@.take(n as int)),
        decreases n,
    {
        assert(path@.take(n as int).drop_last() == path@.take(n - 1));
        n = n - 1;
    }
    let ghost t = path@.take(n as int);
    assert(without_trailing_slashes(t) == t);
    proof {
        reveal_strlit(".zip");
    }
    if n < 5 {
        return Err(GenerateError::NotZip);
    }
    let ok = path.get_char(n - 4) == '.' && path.get_char(n - 3) == 'z' && path.get_char(n - 2)
        == 'i' && path.get_char(n - 1) == 'p' && path.get_char(n - 5) != '/';
    proof {
        let tail = t.subrange(n - 4, n as int);
        if ok {
            assert(tail =~= ".zip"@);
        } else if tail == ".zip"@ {
            assert(tail[0] == '.' && tail[1] == 'z' && tail[2] == 'i' && tail[3] == 'p');
        }
    }
    if ok {
        Ok(())
    } else {
        Err(GenerateError::NotZip)
    }
}

/// Where the builder program is looked for, in order: the release build
/// next to this tool or below it, the debug build likewise, then the bare
/// program name, which is also looked up on the system search path.
pub fn builder_candidates() -> (r: Vec<String>)
    ensures
        r@.len() == 5,
        r@[0]@ == "../builder/target/release/doctown-builder"@,
        r@[1]@ == "builder/target/release/doctown-builder"@,
        r@[2]@ == "../builder/target/debug/doctown-builder"@,
        r@[3]@ == "builder/target/debug/doctown-builder"@,
        r@[4]@ == "doctown-builder"@,
{
    let mut v: Vec<String> = Vec::new();
    v.push("../builder/target/release/doctown-builder".to_owned());
    v.push("builder/target/release/doctown-builder".to_owned());
    v.push("../builder/target/debug/doctown-builder".to_owned());
    v.push("builder/target/debug/doctown-builder".to_owned());
    v.push("doctown-builder".to_owned());
    v
}

/// The builder that was chosen.
#[derive(Debug)]
pub enum BuilderPick {
    /// The candidate at this position exists.
    Candidate(usize),
    /// No candidate exists; the system search path gave this location.
    OnPath(String),
}

/// Chooses the builder: the first candidate that exists; else the location
/// that the search path gave for the bare name, where it is not empty.
pub fn select_builder(exists: &Vec<bool>, on_path: Option<String>) -> (r: Result<
    BuilderPick,
    GenerateError,
>)
    ensures
        match r {
            Ok(BuilderPick::Candidate(i)) => i < exists@.len() && exists@[i as int] && forall|
                j: int,
            |
                0 <= j < i ==> !exists@[j],
            Ok(BuilderPick::OnPath(p)) => (forall|j: int| 0 <= j < exists@.len() ==> !exists@[j])
                && (on_path matches Some(q) && q@ == p@) && p@.len() > 0,
            Err(e) => e == GenerateError::BuilderNotFound && (forall|j: int|
                0 <= j < exists@.len() ==> !exists@[j]) && (on_path matches Some(q)
                ==> q@.len() == 0),
        },
{
    let mut i: usize = 0;
    while i < exists.len()
        invariant
            i <= exists@.len(),
            forall|j: int| 0 <= j < i ==> !exists@[j],
        decreases exists@.len() - i,
    {
        if exists[i] {
            return Ok(BuilderPick::Candidate(i));
        }
        i = i + 1;
    }
    match on_path {
        Some(p) => {
            if p.as_str().unicode_len() > 0 {
                Ok(BuilderPick::OnPath(p))
            } else {
                Err(GenerateError::BuilderNotFound)
            }
        },
        None => Err(GenerateError::BuilderNotFound),
    }
}

} // verus!
