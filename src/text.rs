use vstd::prelude::*;

verus! {

/// What `char::to_lowercase` gives for one character (one to three
/// characters).
pub uninterp spec fn lower_of(c: char) -> Seq<char>;

/// Relies on char::to_lowercase: the lowercase mapping of one character,
/// which depends on that character alone.
#[verifier::external_body]
fn lowercase_char(c: char) -> (r: Vec<char>)
    ensures
        r@ == lower_of(c),
{
    c.to_lowercase().collect()
}

/// The lowercase fold of a text: each character replaced by its lowercase
/// mapping.
pub open spec fn fold(s: Seq<char>) -> Seq<char>
    decreases s.len(),
{
    if s.len() == 0 {
        Seq::empty()
    } else {
        fold(s.drop_last()) + lower_of(s.last())
    }
}

/// Whether `n` occurs in `h` at position `i`.
pub open spec fn occurs_at(h: Seq<char>, n: Seq<char>, i: int) -> bool {
    0 <= i && i + n.len() <= h.len() && h.subrange(i, i + n.len()) == n
}

/// Whether `n` occurs in `h` as a contiguous run of characters.
pub open spec fn contains(h: Seq<char>, n: Seq<char>) -> bool {
    exists|i: int| occurs_at(h, n, i)
}

/// Whether `n` occurs in `h`, exactly or after folding both sides.
pub open spec fn name_matches(h: Seq<char>, n: Seq<char>, case_sensitive: bool) -> bool {
    if case_sensitive {
        contains(h, n)
    } else {
        contains(fold(h), fold(n))
    }
}

/// The characters of a text.
pub fn chars_of(s: &str) -> (r: Vec<char>)
    ensures
        r@ == s@,
{
    let n = s.unicode_len();
    let mut out: Vec<char> = Vec::new();
    let mut i: usize = 0;
    while i < n
        invariant
            n == s@.len(),
            i <= n,
            out@ == s@.take(i as int),
        decreases n - i,
    {
        out.push(s.get_char(i));
        assert(s@.take(i + 1) == s@.take(i as int).push(s@[i as int]));
        i = i + 1;
    }
    assert(s@.take(n as int) == s@);
    out
}

/// The lowercase fold of a text.
pub fn fold_text(s: &str) -> (r: Vec<char>)
    ensures
        r@ == fold(s@),
{
    let n = s.unicode_len();
    let mut out: Vec<char> = Vec::new();
    let mut i: usize = 0;
    while i < n
        invariant
            n == s@.len(),
            i <= n,
            out@ == fold(s@.take(i as int)),
        decreases n - i,
    {
        let low = lowercase_char(s.get_char(i));
        let ghost before = out@;
        let mut k: usize = 0;
        while k < low.len()
            invariant
                k <= low@.len(),
                out@ == before + low@.take(k as int),
            decreases low@.len() - k,
        {
            out.push(low[k]);
            assert(low@.take(k + 1) == low@.take(k as int).push(low@[k as int]));
            k = k + 1;
        }
        assert(low@.take(low@.len() as int) == low@);
        assert(s@.take(i + 1).drop_last() == s@.take(i as int));
        i = i + 1;
    }
    assert(s@.take(n as int) == s@);
    out
}

/// Whether `needle` occurs in `hay`.
pub fn seq_contains(hay: &Vec<char>, needle: &Vec<char>) -> (r: bool)
    ensures
        r == contains(hay@, needle@),
{
    let hl = hay.len();
    let nl = needle.len();
    if nl > hl {
        assert forall|i: int| !occurs_at(hay@, needle@, i) by {}
        return false;
    }
    let last = hl - nl;
    let mut i: usize = 0;
    loop
        invariant
            hl == hay@.len(),
            nl == needle@.len(),
            last == hl - nl,
            i <= last,
            forall|j: int| 0 <= j < i ==> !#[trigger] occurs_at(hay@, needle@, j),
        decreases last - i,
    {
        let mut k: usize = 0;
        let mut same = true;
        while k < nl
            invariant
                nl == needle@.len(),
                hl == hay@.len(),
                i + nl <= hay@.len(),
                k <= nl,
                same ==> hay@.subrange(i as int, i + k) == needle@.subrange(0, k as int),
                !same ==> !occurs_at(hay@, needle@, i as int),
            decreases nl - k,
        {
            if same && hay[i + k] != needle[k] {
                assert(hay@.subrange(i as int, i + nl)[k as int] != needle@[k as int]);
                same = false;
            }
            if same {
                assert(hay@.subrange(i as int, i + k + 1) == hay@.subrange(i as int, i + k).push(
                    hay@[i + k],
                ));
                assert(needle@.subrange(0, k + 1) == needle@.subrange(0, k as int).push(
                    needle@[k as int],
                ));
            }
            k = k + 1;
        }
        if same {
            assert(needle@.subrange(0, nl as int) == needle@);
            assert(occurs_at(hay@, needle@, i as int));
            return true;
        }
        if i == last {
            assert forall|j: int| !occurs_at(hay@, needle@, j) by {
                if 0 <= j <= last {
                }
            }
            return false;
        }
        i = i + 1;
    }
}

/// Whether `needle` occurs in `hay`, with both folded to lower case when
/// the search is not case-sensitive. An empty needle occurs in every text.
pub fn text_matches(hay: &str, needle: &str, case_sensitive: bool) -> (r: bool)
    ensures
        r == name_matches(hay@, needle@, case_sensitive),
{
    if case_sensitive {
        seq_contains(&chars_of(hay), &chars_of(needle))
    } else {
        seq_contains(&fold_text(hay), &fold_text(needle))
    }
}

/// Folding a joined text joins the folded parts.
pub proof fn lemma_fold_concat(a: Seq<char>, b: Seq<char>)
    ensures
        fold(a + b) == fold(a) + fold(b),
    decreases b.len(),
{
    if b.len() == 0 {
        assert(a + b == a);
    } else {
        lemma_fold_concat(a, b.drop_last());
        assert((a + b).drop_last() == a + b.drop_last());
        assert((a + b).last() == b.last());
        assert(fold(a) + fold(b.drop_last()) + lower_of(b.last()) == fold(a) + (fold(
            b.drop_last(),
        ) + lower_of(b.last())));
    }
}

/// A run of characters that occurs exactly also occurs after folding.
pub proof fn lemma_contains_folds(h: Seq<char>, n: Seq<char>)
    requires
        contains(h, n),
    ensures
        contains(fold(h), fold(n)),
{
    let i = choose|i: int| occurs_at(h, n, i);
    let pre = h.subrange(0, i);
    let post = h.subrange(i + n.len(), h.len() as int);
    assert(h == pre + n + post);
    lemma_fold_concat(pre + n, post);
    lemma_fold_concat(pre, n);
    let fh = fold(h);
    let at = fold(pre).len() as int;
    assert(fh == fold(pre) + fold(n) + fold(post));
    assert(fh.subrange(at, at + fold(n).len()) == fold(n));
    assert(occurs_at(fh, fold(n), at));
}

} // verus!
