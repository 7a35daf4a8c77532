//! Rule patterns: path globs over bytes and process identities.

use vstd::prelude::*;

verus! {

/// The byte `*`: matches any run of bytes, the empty one included.
pub const STAR: u8 = 42;

/// The byte `?`: matches exactly one byte.
pub const QUESTION: u8 = 63;

/// Whether the glob `p` from position `i` on matches the text `s` from
/// position `j` on.
pub open spec fn glob_from(p: Seq<u8>, s: Seq<u8>, i: int, j: int) -> bool
    decreases p.len() - i, s.len() - j,
{
    if i < 0 || j < 0 || j > s.len() {
        false
    } else if i >= p.len() {
        j == s.len()
    } else if p[i] == STAR {
        glob_from(p, s, i + 1, j) || (j < s.len() && glob_from(p, s, i, j + 1))
    } else {
        j < s.len() && (p[i] == QUESTION || p[i] == s[j]) && glob_from(p, s, i + 1, j + 1)
    }
}

/// Whether the glob `p` matches the whole of `s`.
pub open spec fn glob_matches(p: Seq<u8>, s: Seq<u8>) -> bool {
    glob_from(p, s, 0, 0)
}

/// A glob is well formed when it is not empty and holds no NUL byte.
pub open spec fn glob_well_formed(p: Seq<u8>) -> bool {
    p.len() > 0 && forall|k: int| 0 <= k < p.len() ==> #[trigger] p[k] != 0
}

/// From position `i` on, `p` holds neither `*` nor `?`.
pub open spec fn literal_from(p: Seq<u8>, i: int) -> bool {
    forall|k: int| i <= k < p.len() ==> #[trigger] p[k] != STAR && p[k] != QUESTION
}

/// What `p` holds from `i` on is what `s` holds from `j` on.
pub open spec fn same_tail(p: Seq<u8>, s: Seq<u8>, i: int, j: int) -> bool {
    &&& p.len() - i == s.len() - j
    &&& forall|k: int| i <= k < p.len() ==> #[trigger] p[k] == s[k - i + j]
}

/// `s` ends with `t`.
pub open spec fn ends_with(s: Seq<u8>, t: Seq<u8>) -> bool {
    t.len() <= s.len() && s.subrange(s.len() - t.len(), s.len() as int) == t
}

/// Without wildcards from `i` on, a glob matches from there exactly the text
/// that is equal to it.
pub proof fn lemma_literal_tail(p: Seq<u8>, s: Seq<u8>, i: int, j: int)
    requires
        0 <= i <= p.len(),
        0 <= j <= s.len(),
        literal_from(p, i),
    ensures
        glob_from(p, s, i, j) == same_tail(p, s, i, j),
    decreases p.len() - i,
{
    if i < p.len() {
        assert(p[i] != STAR && p[i] != QUESTION);
        if j < s.len() {
            lemma_literal_tail(p, s, i + 1, j + 1);
            if same_tail(p, s, i, j) {
                assert(p[i] == s[i - i + j]);
                assert(same_tail(p, s, i + 1, j + 1));
            }
            if p[i] == s[j] && same_tail(p, s, i + 1, j + 1) {
                assert forall|k: int| i <= k < p.len() implies #[trigger] p[k] == s[k - i + j] by {
                    if k > i {
                        assert(p[k] == s[k - (i + 1) + (j + 1)]);
                    }
                }
            }
        }
    }
}

/// A glob without wildcards matches exactly itself.
pub proof fn lemma_literal_glob(p: Seq<u8>, s: Seq<u8>)
    requires
        literal_from(p, 0),
    ensures
        glob_matches(p, s) == (p == s),
{
    lemma_literal_tail(p, s, 0, 0);
    if same_tail(p, s, 0, 0) {
        assert forall|k: int| 0 <= k < p.len() implies p[k] == s[k] by {
            assert(p[k] == s[k - 0 + 0]);
        }
        assert(p =~= s);
    }
}

/// The glob `*` matches every text.
pub proof fn lemma_star_matches_all(s: Seq<u8>, j: int)
    requires
        0 <= j <= s.len(),
    ensures
        glob_from(seq![STAR], s, 0, j),
        j == 0 ==> glob_matches(seq![STAR], s),
    decreases s.len() - j,
{
    let p = seq![STAR];
    assert(p[0] == STAR);
    if j < s.len() {
        lemma_star_matches_all(s, j + 1);
    } else {
        assert(glob_from(p, s, 1, j));
    }
}

proof fn lemma_star_then_literal(lit: Seq<u8>, s: Seq<u8>, j: int)
    requires
        literal_from(lit, 0),
        0 <= j <= s.len(),
    ensures
        glob_from(seq![STAR] + lit, s, 0, j) == (ends_with(s, lit) && j <= s.len() - lit.len()),
    decreases s.len() - j,
{
    let p = seq![STAR] + lit;
    let cut = s.len() - lit.len();
    assert(p[0] == STAR);
    assert forall|k: int| 1 <= k < p.len() implies #[trigger] p[k] != STAR && p[k] != QUESTION by {
        assert(p[k] == lit[k - 1]);
    }
    lemma_literal_tail(p, s, 1, j);
    if same_tail(p, s, 1, j) {
        assert(j == cut);
        assert forall|m: int| 0 <= m < lit.len() implies s.subrange(cut, s.len() as int)[m]
            == lit[m] by {
            assert(p[m + 1] == s[m + 1 - 1 + j]);
            assert(p[m + 1] == lit[m]);
        }
        assert(s.subrange(cut, s.len() as int) =~= lit);
    }
    if ends_with(s, lit) && j == cut {
        assert forall|k: int| 1 <= k < p.len() implies #[trigger] p[k] == s[k - 1 + j] by {
            assert(p[k] == lit[k - 1]);
            assert(s.subrange(cut, s.len() as int)[k - 1] == s[cut + k - 1]);
        }
        assert(same_tail(p, s, 1, j));
    }
    if j < s.len() {
        lemma_star_then_literal(lit, s, j + 1);
    }
}

/// A `*` followed by text without wildcards matches exactly what ends with
/// that text.
pub proof fn lemma_star_suffix(lit: Seq<u8>, s: Seq<u8>)
    requires
        literal_from(lit, 0),
    ensures
        glob_matches(seq![STAR] + lit, s) == ends_with(s, lit),
{
    lemma_star_then_literal(lit, s, 0);
}

/// Decides `glob_well_formed`.
pub fn check_glob(p: &Vec<u8>) -> (ok: bool)
    ensures
        ok == glob_well_formed(p@),
{
    if p.len() == 0 {
        return false;
    }
    let mut k: usize = 0;
    while k < p.len()
        invariant
            k <= p.len(),
            forall|m: int| 0 <= m < k ==> #[trigger] p@[m] != 0,
        decreases p.len() - k,
    {
        if p[k] == 0 {
            return false;
        }
        k += 1;
    }
    true
}

/// Matches a glob against a byte string.
///
/// Works on one row of the match table, from the end of the glob to its
/// start, so it takes time `p.len() * s.len()` and space `s.len()`.
pub fn glob_match(p: &Vec<u8>, s: &Vec<u8>) -> (hit: bool)
    ensures
        hit == glob_matches(p@, s@),
{
    let plen: usize = p.len();
    let slen: usize = s.len();
    let mut row: Vec<bool> = Vec::new();
    let mut k: usize = 0;
    while k < slen
        invariant
            k <= slen,
            slen == s@.len(),
            row@.len() == k,
            forall|m: int| 0 <= m < k ==> #[trigger] row@[m] == glob_from(p@, s@, plen as int, m),
            plen == p@.len(),
        decreases slen - k,
    {
        row.push(false);
        k += 1;
    }
    row.push(true);
    let mut i: usize = plen;
    while i > 0
        invariant
            i <= plen,
            plen == p@.len(),
            slen == s@.len(),
            row@.len() == slen + 1,
            forall|m: int| 0 <= m <= slen ==> #[trigger] row@[m] == glob_from(p@, s@, i as int, m),
        decreases i,
    {
        i -= 1;
        let c: u8 = p[i];
        if c == STAR {
            let mut j: usize = slen;
            while j > 0
                invariant
                    j <= slen,
                    i < plen,
                    plen == p@.len(),
                    slen == s@.len(),
                    p@[i as int] == STAR,
                    row@.len() == slen + 1,
                    forall|m: int|
                        0 <= m < j ==> #[trigger] row@[m] == glob_from(p@, s@, i + 1, m),
                    forall|m: int|
                        j <= m <= slen ==> #[trigger] row@[m] == glob_from(p@, s@, i as int, m),
                decreases j,
            {
                j -= 1;
                let v: bool = row[j] || row[j + 1];
                row.set(j, v);
            }
        } else {
            let mut j: usize = 0;
            while j < slen
                invariant
                    j <= slen,
                    i < plen,
                    plen == p@.len(),
                    slen == s@.len(),
                    p@[i as int] == c,
                    c != STAR,
                    row@.len() == slen + 1,
                    forall|m: int|
                        0 <= m < j ==> #[trigger] row@[m] == glob_from(p@, s@, i as int, m),
                    forall|m: int|
                        j <= m <= slen ==> #[trigger] row@[m] == glob_from(p@, s@, i + 1, m),
                decreases slen - j,
            {
                let v: bool = (c == QUESTION || c == s[j]) && row[j + 1];
                row.set(j, v);
                j += 1;
            }
            row.set(slen, false);
        }
    }
    row[0]
}

/// What a rule is matched against.
#[derive(Clone, Debug, PartialEq, Eq)]
pub enum Pattern {
    /// A glob over the target path.
    Path(Vec<u8>),
    /// The identity of the requesting process.
    Process(u64),
}

/// The mathematical value of a `Pattern`.
pub enum PatternView {
    Path(Seq<u8>),
    Process(u64),
}

impl View for Pattern {
    type V = PatternView;

    open spec fn view(&self) -> PatternView {
        match self {
            Pattern::Path(g) => PatternView::Path(g@),
            Pattern::Process(id) => PatternView::Process(*id),
        }
    }
}

/// A process pattern is always well formed; a path pattern when its glob is.
pub open spec fn pattern_well_formed(p: PatternView) -> bool {
    match p {
        PatternView::Path(g) => glob_well_formed(g),
        PatternView::Process(_) => true,
    }
}

/// Whether a pattern selects an operation on `path` by `process`.
pub open spec fn pattern_matches(p: PatternView, path: Seq<u8>, process: u64) -> bool {
    match p {
        PatternView::Path(g) => glob_matches(g, path),
        PatternView::Process(id) => id == process,
    }
}

impl Pattern {
    /// Decides `pattern_well_formed`.
    pub fn is_well_formed(&self) -> (ok: bool)
        ensures
            ok == pattern_well_formed(self@),
    {
        match self {
            Pattern::Path(g) => check_glob(g),
            Pattern::Process(_) => true,
        }
    }

    /// Decides `pattern_matches`.
    pub fn matches(&self, path: &Vec<u8>, process: u64) -> (hit: bool)
        ensures
            hit == pattern_matches(self@, path@, process),
    {
        match self {
            Pattern::Path(g) => glob_match(g, path),
            Pattern::Process(id) => *id == process,
        }
    }
}

} // verus!
