//! The symbol interner: a bidirectional mapping between path strings and
//! compact, process-stable numeric identifiers.
//!
//! Numbers are assigned densely in first-seen order starting at 1; the
//! number 0 is reserved as the null path and is never produced by
//! interning.  Entries are never removed, so a number keeps its meaning for
//! the life of the interner.

use vstd::prelude::*;
use vstd::string::StrSliceExecFns;

verus! {

/// An interned, process-stable identifier for a path string.
///
/// `Path(0)` is the reserved null path, denoting "absent"; interning never
/// yields it.
#[derive(Copy, Clone, PartialEq, Eq, Hash, Debug, Structural)]
pub struct Path(pub u64);

impl Path {
    /// The reserved null path.
    pub fn null() -> (p: Path)
        ensures
            p == Path(0u64),
    {
        Path(0)
    }
}

/// A well-formed interner model holds pairwise-distinct strings, so every
/// string determines at most one number.
pub open spec fn wf_model(m: Seq<Seq<char>>) -> bool {
    forall|i: int, j: int| 0 <= i < j < m.len() ==> m[i] != m[j]
}

pub open spec fn model_contains(m: Seq<Seq<char>>, s: Seq<char>) -> bool {
    exists|i: int| 0 <= i < m.len() && m[i] == s
}

/// The interner model after interning `s`: unchanged if `s` is already
/// present, otherwise extended by `s`.
pub open spec fn spec_intern(m: Seq<Seq<char>>, s: Seq<char>) -> Seq<Seq<char>> {
    if model_contains(m, s) {
        m
    } else {
        m.push(s)
    }
}

/// The number that interning `s` into `m` yields: one more than the index
/// at which `s` sits (or will sit).
pub open spec fn spec_path_of(m: Seq<Seq<char>>, s: Seq<char>) -> int {
    if model_contains(m, s) {
        (choose|i: int| 0 <= i < m.len() && m[i] == s) + 1
    } else {
        m.len() as int + 1
    }
}

/// `m2` extends `m`: every entry of `m` is still at its old index.
pub open spec fn model_extends(m2: Seq<Seq<char>>, m: Seq<Seq<char>>) -> bool {
    &&& m.len() <= m2.len()
    &&& forall|i: int| 0 <= i < m.len() ==> m2[i] == m[i]
}

/// In a well-formed model, a witness index pins the assigned number down.
pub proof fn lemma_path_of_contained(m: Seq<Seq<char>>, s: Seq<char>, i: int)
    requires
        wf_model(m),
        0 <= i < m.len(),
        m[i] == s,
    ensures
        model_contains(m, s),
        spec_path_of(m, s) == i + 1,
{
    assert(model_contains(m, s));
    let j = choose|k: int| 0 <= k < m.len() && m[k] == s;
    if j != i {
        assert(m[i] != m[j]);
    }
}

/// Interning preserves well-formedness.
pub proof fn lemma_spec_intern_wf(m: Seq<Seq<char>>, s: Seq<char>)
    requires
        wf_model(m),
    ensures
        wf_model(spec_intern(m, s)),
{
    if !model_contains(m, s) {
        let m2 = m.push(s);
        assert forall|i: int, j: int| 0 <= i < j < m2.len() implies m2[i] != m2[j] by {
            if j < m.len() {
                assert(m2[i] == m[i] && m2[j] == m[j]);
            } else {
                assert(m2[j] == s);
                assert(m2[i] == m[i]);
            }
        }
    }
}

/// After interning, the string is present, and the assigned number names it.
pub proof fn lemma_intern_result(m: Seq<Seq<char>>, s: Seq<char>)
    requires
        wf_model(m),
    ensures
        wf_model(spec_intern(m, s)),
        model_contains(spec_intern(m, s), s),
        model_extends(spec_intern(m, s), m),
        1 <= spec_path_of(m, s) <= spec_intern(m, s).len(),
        spec_intern(m, s)[spec_path_of(m, s) - 1] == s,
        spec_path_of(spec_intern(m, s), s) == spec_path_of(m, s),
{
    lemma_spec_intern_wf(m, s);
    if model_contains(m, s) {
        let i = choose|k: int| 0 <= k < m.len() && m[k] == s;
        lemma_path_of_contained(m, s, i);
    } else {
        let m2 = m.push(s);
        lemma_path_of_contained(m2, s, m.len() as int);
    }
}

/// Interning the same string twice yields the same number and the same
/// model: interning is idempotent.
pub proof fn lemma_intern_idempotent(m: Seq<Seq<char>>, s: Seq<char>)
    requires
        wf_model(m),
    ensures
        spec_intern(spec_intern(m, s), s) == spec_intern(m, s),
        spec_path_of(spec_intern(m, s), s) == spec_path_of(m, s),
{
    lemma_intern_result(m, s);
}

/// Two distinct strings held by a well-formed model carry distinct numbers.
pub proof fn lemma_path_of_injective(m: Seq<Seq<char>>, s1: Seq<char>, s2: Seq<char>)
    requires
        wf_model(m),
        model_contains(m, s1),
        model_contains(m, s2),
        s1 != s2,
    ensures
        spec_path_of(m, s1) != spec_path_of(m, s2),
{
    let i1 = choose|k: int| 0 <= k < m.len() && m[k] == s1;
    let i2 = choose|k: int| 0 <= k < m.len() && m[k] == s2;
    lemma_path_of_contained(m, s1, i1);
    lemma_path_of_contained(m, s2, i2);
}

/// Interning distinct strings, one after the other, yields distinct
/// numbers.
pub proof fn lemma_intern_distinct(m: Seq<Seq<char>>, s1: Seq<char>, s2: Seq<char>)
    requires
        wf_model(m),
        s1 != s2,
    ensures
        spec_path_of(m, s1) != spec_path_of(spec_intern(m, s1), s2),
{
    let m1 = spec_intern(m, s1);
    lemma_intern_result(m, s1);
    lemma_intern_result(m1, s2);
    if model_contains(m1, s2) {
        lemma_path_of_injective(m1, s1, s2);
    } else {
        assert(spec_path_of(m1, s2) == m1.len() + 1);
        assert(spec_path_of(m, s1) == spec_path_of(m1, s1) <= m1.len());
    }
}

pub proof fn lemma_extends_trans(m3: Seq<Seq<char>>, m2: Seq<Seq<char>>, m1: Seq<Seq<char>>)
    requires
        model_extends(m3, m2),
        model_extends(m2, m1),
    ensures
        model_extends(m3, m1),
{
}

/// A number assigned by a model keeps naming the same string in every
/// extension of that model.
pub proof fn lemma_path_stable(m2: Seq<Seq<char>>, m: Seq<Seq<char>>, s: Seq<char>)
    requires
        wf_model(m2),
        model_extends(m2, m),
        model_contains(m, s),
    ensures
        model_contains(m2, s),
        spec_path_of(m2, s) == spec_path_of(m, s),
{
    let i = choose|k: int| 0 <= k < m.len() && m[k] == s;
    assert(wf_model(m)) by {
        assert forall|a: int, b: int| 0 <= a < b < m.len() implies m[a] != m[b] by {
            assert(m2[a] == m[a] && m2[b] == m[b]);
        }
    }
    lemma_path_of_contained(m, s, i);
    lemma_path_of_contained(m2, s, i);
}

/// The symbol interner.  Strings are stored in first-seen order; the string
/// numbered `p` sits at index `p - 1`.
pub struct Interner {
    path_to_str: Vec<String>,
}

impl View for Interner {
    type V = Seq<Seq<char>>;

    closed spec fn view(&self) -> Seq<Seq<char>> {
        self.path_to_str@.map_values(|s: String| s@)
    }
}

impl Interner {
    pub open spec fn wf(&self) -> bool {
        wf_model(self@)
    }

    pub fn new() -> (r: Interner)
        ensures
            r@ == Seq::<Seq<char>>::empty(),
            r.wf(),
    {
        let r = Interner { path_to_str: Vec::new() };
        proof {
            assert(r@ =~= Seq::<Seq<char>>::empty());
        }
        r
    }

    /// Linear search for an already-interned string.
    fn find_str(&self, string: &String) -> (r: Option<usize>)
        requires
            self.wf(),
        ensures
            match r {
                Some(i) => i < self@.len() && self@[i as int] == string@,
                None => !model_contains(self@, string@),
            },
    {
        let n = self.path_to_str.len();
        let mut i: usize = 0;
        while i < n
            invariant
                n == self.path_to_str@.len(),
                n == self@.len(),
                i <= n,
                forall|j: int| 0 <= j < i ==> self@[j] != string@,
            decreases n - i,
        {
            assert(self@[i as int] == self.path_to_str@[i as int]@);
            if self.path_to_str[i] == *string {
                return Some(i);
            }
            i = i + 1;
        }
        None
    }

    /// Interns `string`: returns its stable number, assigning the next free
    /// number at first sight.  Idempotent, and injective over distinct
    /// strings (`lemma_intern_idempotent`, `lemma_intern_distinct`).
    pub fn intern(&mut self, string: &str) -> (p: Path)
        requires
            old(self).wf(),
        ensures
            final(self).wf(),
            final(self)@ == spec_intern(old(self)@, string@),
            p.0 == spec_path_of(old(self)@, string@),
            1 <= p.0 <= final(self)@.len(),
            final(self)@[p.0 as int - 1] == string@,
            model_extends(final(self)@, old(self)@),
    {
        let owned: String = string.to_owned();
        proof {
            lemma_intern_result(self@, string@);
        }
        match self.find_str(&owned) {
            Some(i) => {
                let n = self.path_to_str.len();
                proof {
                    assert(n == self@.len());
                    lemma_path_of_contained(self@, string@, i as int);
                }
                Path((i + 1) as u64)
            }
            None => {
                self.path_to_str.push(owned);
                proof {
                    assert(self@ =~= old(self)@.push(string@));
                }
                Path(self.path_to_str.len() as u64)
            }
        }
    }

    /// How many strings have been interned; the valid numbers are
    /// exactly 1 through this count.
    pub fn len(&self) -> (n: usize)
        ensures
            n == self@.len(),
    {
        self.path_to_str.len()
    }

    /// Resolves a number produced by `intern` back to its string.  Numbers
    /// the interner never produced (the null path among them) are a caller
    /// contract violation and are excluded by precondition.
    pub fn untern(&self, path: Path) -> (r: String)
        requires
            1 <= path.0,
            path.0 <= self@.len(),
        ensures
            r@ == self@[path.0 as int - 1],
    {
        let n = self.path_to_str.len();
        proof {
            assert(n == self@.len());
        }
        let i: usize = (path.0 - 1) as usize;
        self.path_to_str[i].clone()
    }
}

/// Holds where the characters at `i` spell the canonical source-path
/// separator `/input/`.
pub open spec fn is_sep_at(s: Seq<char>, i: int) -> bool {
    &&& 0 <= i
    &&& i + 7 <= s.len()
    &&& s[i] == '/'
    &&& s[i + 1] == 'i'
    &&& s[i + 2] == 'n'
    &&& s[i + 3] == 'p'
    &&& s[i + 4] == 'u'
    &&& s[i + 5] == 't'
    &&& s[i + 6] == '/'
}

/// Index of the first separator occurrence at or after `i`, or -1.
pub open spec fn scan_sep(s: Seq<char>, i: int) -> int
    decreases s.len() - i when 0 <= i
{
    if i + 7 > s.len() {
        -1
    } else if is_sep_at(s, i) {
        i
    } else {
        scan_sep(s, i + 1)
    }
}

/// Index of the first `/input/` separator in `s`, or -1 when none occurs.
pub open spec fn spec_sep_index(s: Seq<char>) -> int {
    scan_sep(s, 0)
}

pub open spec fn has_separator(s: Seq<char>) -> bool {
    spec_sep_index(s) >= 0
}

/// The user-path half of a source path: everything before the separator.
pub open spec fn user_part(s: Seq<char>) -> Seq<char> {
    s.subrange(0, spec_sep_index(s))
}

/// The input-path half of a source path: everything after the separator.
pub open spec fn input_part(s: Seq<char>) -> Seq<char> {
    s.subrange(spec_sep_index(s) + 7, s.len() as int)
}

/// A non-negative scan result is a genuine separator position.
pub proof fn lemma_scan_sep(s: Seq<char>, i: int)
    requires
        0 <= i,
        scan_sep(s, i) >= 0,
    ensures
        is_sep_at(s, scan_sep(s, i)),
        i <= scan_sep(s, i),
    decreases s.len() - i,
{
    if i + 7 > s.len() {
    } else if is_sep_at(s, i) {
    } else {
        lemma_scan_sep(s, i + 1);
    }
}

/// Finds the first `/input/` separator of `s`, by character index.
pub(crate) fn find_separator(s: &str) -> (r: Option<usize>)
    ensures
        match r {
            Some(i) => spec_sep_index(s@) == i as int,
            None => spec_sep_index(s@) == -1,
        },
{
    let n = s.unicode_len();
    if n < 7 {
        return None;
    }
    let mut i: usize = 0;
    while i <= n - 7
        invariant
            n == s@.len(),
            7 <= n,
            i <= n,
            scan_sep(s@, 0) == scan_sep(s@, i as int),
        decreases n - i,
    {
        let hit = s.get_char(i) == '/' && s.get_char(i + 1) == 'i' && s.get_char(i + 2) == 'n'
            && s.get_char(i + 3) == 'p' && s.get_char(i + 4) == 'u' && s.get_char(i + 5) == 't'
            && s.get_char(i + 6) == '/';
        if hit {
            assert(is_sep_at(s@, i as int));
            return Some(i);
        }
        assert(!is_sep_at(s@, i as int));
        i = i + 1;
    }
    None
}

} // verus!
