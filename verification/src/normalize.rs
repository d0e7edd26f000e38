//! Normalization of submitted fields: trimming, case-folding the course
//! key, and substituting defaults for blank values.

use vstd::prelude::*;

verus! {

/// The Unicode `White_Space` characters, as `str::trim` removes them.
pub open spec fn is_ws(c: char) -> bool {
    c == '\u{0009}' || c == '\u{000A}' || c == '\u{000B}' || c == '\u{000C}' || c == '\u{000D}'
        || c == ' ' || c == '\u{0085}' || c == '\u{00A0}' || c == '\u{1680}' || ('\u{2000}' <= c
        && c <= '\u{200A}') || c == '\u{2028}' || c == '\u{2029}' || c == '\u{202F}' || c
        == '\u{205F}' || c == '\u{3000}'
}

fn is_ws_exec(c: char) -> (r: bool)
    ensures
        r == is_ws(c),
{
    c == '\u{0009}' || c == '\u{000A}' || c == '\u{000B}' || c == '\u{000C}' || c == '\u{000D}'
        || c == ' ' || c == '\u{0085}' || c == '\u{00A0}' || c == '\u{1680}' || ('\u{2000}' <= c
        && c <= '\u{200A}') || c == '\u{2028}' || c == '\u{2029}' || c == '\u{202F}' || c
        == '\u{205F}' || c == '\u{3000}'
}

/// What is left of `s` once leading whitespace is removed.
pub open spec fn trim_start_spec(s: Seq<char>) -> Seq<char>
    decreases s.len(),
{
    if s.len() == 0 {
        s
    } else if is_ws(s[0]) {
        trim_start_spec(s.drop_first())
    } else {
        s
    }
}

/// What is left of `s` once trailing whitespace is removed.
pub open spec fn trim_end_spec(s: Seq<char>) -> Seq<char>
    decreases s.len(),
{
    if s.len() == 0 {
        s
    } else if is_ws(s.last()) {
        trim_end_spec(s.drop_last())
    } else {
        s
    }
}

/// `s` with leading and trailing whitespace removed.
pub open spec fn trim_spec(s: Seq<char>) -> Seq<char> {
    trim_end_spec(trim_start_spec(s))
}

proof fn lemma_trim_start_prefix(s: Seq<char>, lo: int)
    requires
        0 <= lo <= s.len(),
        forall|j: int| 0 <= j < lo ==> is_ws(s[j]),
        lo < s.len() ==> !is_ws(s[lo]),
    ensures
        trim_start_spec(s) == s.subrange(lo, s.len() as int),
    decreases lo,
{
    if lo == 0 {
        if s.len() == 0 {
            assert(trim_start_spec(s) =~= s.subrange(0, s.len() as int));
        } else {
            assert(trim_start_spec(s) =~= s.subrange(0, s.len() as int));
        }
    } else {
        let t = s.drop_first();
        assert(forall|j: int| 0 <= j < lo - 1 ==> is_ws(t[j]));
        lemma_trim_start_prefix(t, lo - 1);
        assert(t.subrange(lo - 1, t.len() as int) =~= s.subrange(lo, s.len() as int));
    }
}

proof fn lemma_trim_end_suffix(s: Seq<char>, hi: int)
    requires
        0 <= hi <= s.len(),
        forall|j: int| hi <= j < s.len() ==> is_ws(s[j]),
        hi > 0 ==> !is_ws(s[hi - 1]),
    ensures
        trim_end_spec(s) == s.subrange(0, hi),
    decreases s.len(),
{
    if hi == s.len() {
        if s.len() == 0 {
            assert(trim_end_spec(s) =~= s.subrange(0, hi));
        } else {
            assert(trim_end_spec(s) =~= s.subrange(0, hi));
        }
    } else {
        let t = s.drop_last();
        assert(forall|j: int| hi <= j < t.len() ==> is_ws(t[j]));
        lemma_trim_end_suffix(t, hi);
        assert(t.subrange(0, hi) =~= s.subrange(0, hi));
    }
}

/// Remove leading and trailing whitespace.
pub fn trim(s: &str) -> (r: String)
    ensures
        r@ == trim_spec(s@),
{
    let n = s.unicode_len();
    let mut lo: usize = 0;
    while lo < n && is_ws_exec(s.get_char(lo))
        invariant
            0 <= lo <= n,
            n == s@.len(),
            forall|j: int| 0 <= j < lo ==> is_ws(s@[j]),
        decreases n - lo,
    {
        lo = lo + 1;
    }
    let mut hi: usize = n;
    while hi > lo && is_ws_exec(s.get_char(hi - 1))
        invariant
            lo <= hi <= n,
            n == s@.len(),
            forall|j: int| 0 <= j < lo ==> is_ws(s@[j]),
            lo < n ==> !is_ws(s@[lo as int]),
            forall|j: int| hi <= j < n ==> is_ws(s@[j]),
        decreases hi,
    {
        hi = hi - 1;
    }
    let t = s.substring_char(lo, hi);
    proof {
        lemma_trim_start_prefix(s@, lo as int);
        let mid = s@.subrange(lo as int, n as int);
        assert(forall|j: int| hi - lo <= j < mid.len() ==> is_ws(mid[j]));
        lemma_trim_end_suffix(mid, hi - lo);
        assert(mid.subrange(0, hi - lo) =~= s@.subrange(lo as int, hi as int));
    }
    t.to_owned()
}

/// What `str::to_lowercase` returns: a function of the characters alone.
pub uninterp spec fn lower_of(s: Seq<char>) -> Seq<char>;

/// Relies on str::to_lowercase: the result depends on the characters
/// alone, and is empty exactly when the input is (each character maps to
/// one or more lowercase characters).
#[verifier::external_body]
pub(crate) fn to_lowercase_str(s: &str) -> (r: String)
    ensures
        r@ == lower_of(s@),
        s@.len() == 0 ==> r@.len() == 0,
        s@.len() > 0 ==> r@.len() > 0,
{
    s.to_lowercase()
}

/// The display name a submission is stored under.
pub open spec fn normalized_name(s: Seq<char>) -> Seq<char> {
    if trim_spec(s).len() == 0 {
        "Anonymous"@
    } else {
        trim_spec(s)
    }
}

/// The course key a submission is stored under: trimmed and case-folded,
/// with a sentinel for blank input.
pub open spec fn normalized_course(s: Seq<char>) -> Seq<char> {
    if trim_spec(s).len() == 0 {
        "default"@
    } else {
        lower_of(trim_spec(s))
    }
}

/// The group label a submission is stored under.
pub open spec fn normalized_school(s: Seq<char>) -> Seq<char> {
    if trim_spec(s).len() == 0 {
        "Unknown School"@
    } else {
        trim_spec(s)
    }
}

pub fn normalize_name(s: &str) -> (r: String)
    ensures
        r@ == normalized_name(s@),
{
    let t = trim(s);
    if t.as_str().unicode_len() == 0 {
        String::from_str("Anonymous")
    } else {
        t
    }
}

pub fn normalize_course(s: &str) -> (r: String)
    ensures
        r@ == normalized_course(s@),
{
    let t = trim(s);
    let low = to_lowercase_str(t.as_str());
    if low.as_str().unicode_len() == 0 {
        String::from_str("default")
    } else {
        low
    }
}

pub fn normalize_school(s: &str) -> (r: String)
    ensures
        r@ == normalized_school(s@),
{
    let t = trim(s);
    if t.as_str().unicode_len() == 0 {
        String::from_str("Unknown School")
    } else {
        t
    }
}

/// Blank or whitespace-only fields are silently replaced by their
/// defaults. Normalization is a pure function of the submitted text, so
/// however many times the same blank submission is repeated, the stored
/// name, course and group label are the same.
pub proof fn lemma_blank_defaults()
    ensures
        normalized_name("  "@) == "Anonymous"@,
        normalized_course(""@) == "default"@,
        normalized_school("  "@) == "Unknown School"@,
{
    reveal_strlit("  ");
    reveal_strlit("");
    let s2 = "  "@;
    let t1 = s2.drop_first();
    let t2 = t1.drop_first();
    assert(is_ws(s2[0]));
    assert(trim_start_spec(s2) == trim_start_spec(t1));
    assert(t1.len() == 1 && is_ws(t1[0]));
    assert(trim_start_spec(t1) == trim_start_spec(t2));
    assert(t2.len() == 0);
    assert(trim_start_spec(t2) == t2);
    assert(trim_spec(s2).len() == 0);
    assert(trim_start_spec(""@) =~= Seq::<char>::empty());
    assert(trim_spec(""@).len() == 0);
}

} // verus!
