//! Character-level helpers on strings, with their mathematical models.
use vstd::prelude::*;

verus! {

/// Separators between the tokens of a name.
pub open spec fn name_seps() -> Set<char> {
    set!['-', '_']
}

/// The tokens of `s` between the separators in `seps`, empty ones included:
/// a string with `k` separators has `k + 1` tokens.
pub open spec fn tokens(s: Seq<char>, seps: Set<char>) -> Seq<Seq<char>>
    decreases s.len(),
{
    if s.len() == 0 {
        seq![Seq::<char>::empty()]
    } else {
        let t = tokens(s.drop_last(), seps);
        if seps.contains(s.last()) {
            t.push(Seq::<char>::empty())
        } else {
            t.update(t.len() - 1, t.last().push(s.last()))
        }
    }
}

/// `toks` joined with `sep` between consecutive items.
pub open spec fn join(toks: Seq<Seq<char>>, sep: char) -> Seq<char>
    decreases toks.len(),
{
    if toks.len() == 0 {
        Seq::<char>::empty()
    } else if toks.len() == 1 {
        toks[0]
    } else {
        join(toks.drop_last(), sep) + seq![sep] + toks.last()
    }
}

/// Splitting always gives at least one token.
pub proof fn lemma_tokens_nonempty(s: Seq<char>, seps: Set<char>)
    ensures
        tokens(s, seps).len() >= 1,
    decreases s.len(),
{
    if s.len() > 0 {
        lemma_tokens_nonempty(s.drop_last(), seps);
    }
}

/// No character of `s` is in `seps`.
pub open spec fn free_of(s: Seq<char>, seps: Set<char>) -> bool {
    forall|i: int| 0 <= i < s.len() ==> !seps.contains(#[trigger] s[i])
}

/// No token holds a separator.
pub proof fn lemma_tokens_free(s: Seq<char>, seps: Set<char>)
    ensures
        forall|i: int|
            0 <= i < tokens(s, seps).len() ==> free_of(#[trigger] tokens(s, seps)[i], seps),
    decreases s.len(),
{
    lemma_tokens_nonempty(s, seps);
    if s.len() > 0 {
        lemma_tokens_free(s.drop_last(), seps);
        lemma_tokens_nonempty(s.drop_last(), seps);
        let t = tokens(s.drop_last(), seps);
        if !seps.contains(s.last()) {
            let l = t.last().push(s.last());
            assert(free_of(t[t.len() - 1], seps));
            assert forall|i: int| 0 <= i < l.len() implies !seps.contains(#[trigger] l[i]) by {
                if i < l.len() - 1 {
                    assert(l[i] == t.last()[i]);
                }
            }
        }
    }
}

/// Splitting a string without separators gives the string itself.
pub proof fn lemma_tokens_of_free(b: Seq<char>, seps: Set<char>)
    requires
        free_of(b, seps),
    ensures
        tokens(b, seps) == seq![b],
    decreases b.len(),
{
    if b.len() == 0 {
        assert(b =~= Seq::<char>::empty());
    } else {
        lemma_tokens_of_free(b.drop_last(), seps);
        assert(!seps.contains(b[b.len() - 1]));
        assert(b.drop_last().push(b.last()) =~= b);
        assert(tokens(b, seps) =~= seq![b]);
    }
}

/// Splitting after a separator starts a new token.
pub proof fn lemma_tokens_append(a: Seq<char>, sep: char, b: Seq<char>, seps: Set<char>)
    requires
        seps.contains(sep),
        free_of(b, seps),
    ensures
        tokens(a + seq![sep] + b, seps) == tokens(a, seps).push(b),
    decreases b.len(),
{
    let s = a + seq![sep] + b;
    if b.len() == 0 {
        assert(s.drop_last() =~= a);
        assert(b =~= Seq::<char>::empty());
    } else {
        let b0 = b.drop_last();
        lemma_tokens_append(a, sep, b0, seps);
        assert(s.drop_last() =~= a + seq![sep] + b0);
        assert(!seps.contains(b[b.len() - 1]));
        assert(b0.push(b.last()) =~= b);
        assert(tokens(s, seps) =~= tokens(a, seps).push(b));
    }
}

/// Joining separator-free tokens and splitting again gives the tokens back.
pub proof fn lemma_split_join(toks: Seq<Seq<char>>, sep: char, seps: Set<char>)
    requires
        toks.len() >= 1,
        seps.contains(sep),
        forall|i: int| 0 <= i < toks.len() ==> free_of(#[trigger] toks[i], seps),
    ensures
        tokens(join(toks, sep), seps) == toks,
    decreases toks.len(),
{
    if toks.len() == 1 {
        lemma_tokens_of_free(toks[0], seps);
        assert(toks =~= seq![toks[0]]);
    } else {
        let init = toks.drop_last();
        assert forall|i: int| 0 <= i < init.len() implies free_of(#[trigger] init[i], seps) by {
            assert(init[i] == toks[i]);
        }
        lemma_split_join(init, sep, seps);
        assert(free_of(toks[toks.len() - 1], seps));
        lemma_tokens_append(join(init, sep), sep, toks.last(), seps);
        assert(init.push(toks.last()) =~= toks);
    }
}

/// Unicode white space, as `char::is_whitespace` reads it.
pub open spec fn is_white(c: char) -> bool {
    ('\u{9}' <= c && c <= '\u{d}') || c == ' ' || c == '\u{85}' || c == '\u{a0}' || c
        == '\u{1680}' || ('\u{2000}' <= c && c <= '\u{200a}') || c == '\u{2028}' || c
        == '\u{2029}' || c == '\u{202f}' || c == '\u{205f}' || c == '\u{3000}'
}

/// The separator between the directories of a search path.
pub open spec fn search_path_seps() -> Set<char> {
    set![':']
}

/// Whether `c` is Unicode white space.
pub fn white(c: char) -> (r: bool)
    ensures
        r == is_white(c),
{
    ('\u{9}' <= c && c <= '\u{d}') || c == ' ' || c == '\u{85}' || c == '\u{a0}' || c
        == '\u{1680}' || ('\u{2000}' <= c && c <= '\u{200a}') || c == '\u{2028}' || c
        == '\u{2029}' || c == '\u{202f}' || c == '\u{205f}' || c == '\u{3000}'
}

/// The kinds of separator that strings are split at.
#[derive(Clone, Copy, PartialEq, Eq, Debug)]
pub enum Separators {
    /// `-` and `_`, between the tokens of a name.
    Name,
    /// `/`, between the components of a path.
    Path,
    /// `:`, between the directories of a search path.
    SearchPath,
    /// White space and `,`, between the numbers of a selection.
    Selection,
}

impl Separators {
    /// The separator characters of this kind.
    pub open spec fn chars(self) -> Set<char> {
        match self {
            Separators::Name => name_seps(),
            Separators::Path => set!['/'],
            Separators::SearchPath => search_path_seps(),
            Separators::Selection => Set::new(|c: char| is_white(c) || c == ','),
        }
    }

    /// Whether `c` is a separator of this kind.
    pub fn is_sep(self, c: char) -> (r: bool)
        ensures
            r == self.chars().contains(c),
    {
        match self {
            Separators::Name => c == '-' || c == '_',
            Separators::Path => c == '/',
            Separators::SearchPath => c == ':',
            Separators::Selection => white(c) || c == ',',
        }
    }
}

/// Splits `s` at every separator of `seps`.
pub fn split(s: &str, seps: Separators) -> (r: Vec<String>)
    ensures
        r.deep_view() == tokens(s@, seps.chars()),
{
    let ghost sep = seps.chars();
    let n = s.unicode_len();
    let mut r: Vec<String> = Vec::new();
    let mut start: usize = 0;
    let mut i: usize = 0;
    assert(r.deep_view().push(s@.subrange(0, 0)) =~~= tokens(s@.subrange(0, 0), sep));
    while i < n
        invariant
            n == s@.len(),
            start <= i <= n,
            sep == seps.chars(),
            r.deep_view().push(s@.subrange(start as int, i as int)) == tokens(s@.subrange(0, i as int), sep),
        decreases n - i,
    {
        let c = s.get_char(i);
        let ghost pre = s@.subrange(0, i as int);
        let ghost cur = s@.subrange(start as int, i as int);
        let ghost old_r = r.deep_view();
        assert(s@.subrange(0, i + 1).drop_last() =~= pre);
        assert(s@.subrange(0, i + 1).last() == c);
        if seps.is_sep(c) {
            let t = s.substring_char(start, i);
            r.push(String::from_str(t));
            start = i + 1;
            assert(r.deep_view() =~~= old_r.push(cur));
            assert(s@.subrange(start as int, i + 1) =~= Seq::<char>::empty());
            assert(r.deep_view().push(s@.subrange(start as int, i + 1)) =~~= tokens(pre, sep).push(
                Seq::<char>::empty(),
            ));
        } else {
            assert(s@.subrange(start as int, i + 1) =~= cur.push(c));
            let ghost t = tokens(pre, sep);
            assert(t.last() == cur);
            assert(r.deep_view().push(s@.subrange(start as int, i + 1)) =~~= t.update(
                t.len() - 1,
                t.last().push(c),
            ));
        }
        i = i + 1;
    }
    let t = s.substring_char(start, n);
    r.push(String::from_str(t));
    assert(s@.subrange(0, n as int) =~= s@);
    r
}

/// `u` is the ASCII upper-case form of the lower-case letter `l`.
pub open spec fn is_upper_of(u: char, l: char) -> bool {
    'a' <= l && l <= 'z' && u as u32 + 32 == l as u32
}

/// The two characters are equal up to ASCII case.
pub open spec fn fold_eq(a: char, b: char) -> bool {
    a == b || is_upper_of(a, b) || is_upper_of(b, a)
}

/// The two strings are equal up to ASCII case.
pub open spec fn eq_ci(a: Seq<char>, b: Seq<char>) -> bool {
    a.len() == b.len() && forall|i: int| 0 <= i < a.len() ==> fold_eq(#[trigger] a[i], b[i])
}

/// `needle` occurs in `hay`, up to ASCII case.
pub open spec fn contains_ci(hay: Seq<char>, needle: Seq<char>) -> bool {
    exists|i: int| 0 <= i && i + needle.len() <= hay.len() && #[trigger] eq_ci(hay.subrange(i, i + needle.len()), needle)
}

/// `s` begins with an ASCII digit.
pub open spec fn starts_with_digit(s: Seq<char>) -> bool {
    s.len() > 0 && '0' <= s[0] && s[0] <= '9'
}

/// Compares two characters up to ASCII case.
pub fn chars_fold_eq(a: char, b: char) -> (r: bool)
    ensures
        r == fold_eq(a, b),
{
    let x = a as u32;
    let y = b as u32;
    a == b || ('a' <= b && b <= 'z' && x + 32 == y) || ('a' <= a && a <= 'z' && y + 32 == x)
}

/// Compares two strings up to ASCII case.
pub fn eq_ignore_case(a: &str, b: &str) -> (r: bool)
    ensures
        r == eq_ci(a@, b@),
{
    let n = a.unicode_len();
    if n != b.unicode_len() {
        return false;
    }
    let mut i: usize = 0;
    while i < n
        invariant
            n == a@.len() == b@.len(),
            i <= n,
            forall|j: int| 0 <= j < i ==> fold_eq(#[trigger] a@[j], b@[j]),
        decreases n - i,
    {
        if !chars_fold_eq(a.get_char(i), b.get_char(i)) {
            return false;
        }
        i = i + 1;
    }
    true
}

/// Whether `needle` occurs in `hay`, up to ASCII case.
pub fn contains_ignore_case(hay: &str, needle: &str) -> (r: bool)
    ensures
        r == contains_ci(hay@, needle@),
{
    let n = hay.unicode_len();
    let m = needle.unicode_len();
    if m > n {
        return false;
    }
    let mut i: usize = 0;
    while i <= n - m
        invariant
            n == hay@.len(),
            m == needle@.len(),
            m <= n,
            i <= n - m + 1,
            forall|j: int| 0 <= j < i ==> !eq_ci(#[trigger] hay@.subrange(j, j + m), needle@),
        decreases n - m + 1 - i,
    {
        if eq_ignore_case(hay.substring_char(i, i + m), needle) {
            return true;
        }
        i = i + 1;
    }
    false
}

/// Compares two strings exactly.
pub fn str_eq(a: &str, b: &str) -> (r: bool)
    ensures
        r == (a@ == b@),
{
    let n = a.unicode_len();
    if n != b.unicode_len() {
        return false;
    }
    let mut i: usize = 0;
    while i < n
        invariant
            n == a@.len() == b@.len(),
            i <= n,
            forall|j: int| 0 <= j < i ==> a@[j] == b@[j],
        decreases n - i,
    {
        if a.get_char(i) != b.get_char(i) {
            return false;
        }
        i = i + 1;
    }
    assert(a@ =~= b@);
    true
}

/// Whether `s` begins with an ASCII digit.
pub fn first_is_digit(s: &str) -> (r: bool)
    ensures
        r == starts_with_digit(s@),
{
    if s.unicode_len() == 0 {
        false
    } else {
        let c = s.get_char(0);
        '0' <= c && c <= '9'
    }
}

/// Joins the first `k` strings of `toks` with `sep` between them.
pub fn join_first(toks: &Vec<String>, k: usize, sep: char, sep_str: &str) -> (r: String)
    requires
        k <= toks@.len(),
        sep_str@ == seq![sep],
    ensures
        r@ == join(toks.deep_view().take(k as int), sep),
{
    let mut r = String::new();
    let mut i: usize = 0;
    while i < k
        invariant
            k <= toks@.len(),
            i <= k,
            sep_str@ == seq![sep],
            r@ == join(toks.deep_view().take(i as int), sep),
        decreases k - i,
    {
        let ghost before = toks.deep_view().take(i as int);
        let ghost after = toks.deep_view().take(i + 1);
        assert(after.drop_last() =~= before);
        if i > 0 {
            r.append(sep_str);
        }
        r.append(toks[i].as_str());
        assert(after.last() == toks[i as int]@);
        if i == 0 {
            assert(r@ =~= join(after, sep));
        }
        i = i + 1;
    }
    r
}

/// `s` without white space at either end.
pub open spec fn trim_ws(s: Seq<char>) -> Seq<char>
    decreases s.len(),
{
    if s.len() > 0 && is_white(s[0]) {
        trim_ws(s.drop_first())
    } else if s.len() > 0 && is_white(s.last()) {
        trim_ws(s.drop_last())
    } else {
        s
    }
}

/// The non-empty items of `toks`, in order.
pub open spec fn non_empty(toks: Seq<Seq<char>>) -> Seq<Seq<char>>
    decreases toks.len(),
{
    if toks.len() == 0 {
        toks
    } else if toks.last().len() > 0 {
        non_empty(toks.drop_last()).push(toks.last())
    } else {
        non_empty(toks.drop_last())
    }
}

/// The non-empty tokens of `s` between separators of `seps`.
pub open spec fn fields(s: Seq<char>, seps: Set<char>) -> Seq<Seq<char>> {
    non_empty(tokens(s, seps))
}

/// Splits `s` at separators of `seps`, dropping empty tokens.
pub fn split_fields(s: &str, seps: Separators) -> (r: Vec<String>)
    ensures
        r.deep_view() == fields(s@, seps.chars()),
{
    let toks = split(s, seps);
    let mut r: Vec<String> = Vec::new();
    let mut i: usize = 0;
    assert(toks.deep_view().take(0) =~= Seq::<Seq<char>>::empty());
    while i < toks.len()
        invariant
            i <= toks@.len(),
            r.deep_view() == non_empty(toks.deep_view().take(i as int)),
        decreases toks@.len() - i,
    {
        let ghost pre = toks.deep_view().take(i + 1);
        assert(pre.drop_last() =~= toks.deep_view().take(i as int));
        assert(pre.last() == toks@[i as int]@);
        let ghost before = r.deep_view();
        if toks[i].unicode_len() > 0 {
            r.push(toks[i].clone());
            assert(r.deep_view() =~~= before.push(toks@[i as int]@));
        }
        i = i + 1;
    }
    assert(toks.deep_view().take(i as int) =~= toks.deep_view());
    r
}

/// `s` without white space at either end.
pub fn trim(s: &str) -> (r: &str)
    ensures
        r@ == trim_ws(s@),
{
    let n = s.unicode_len();
    let mut i: usize = 0;
    assert(s@.subrange(0, n as int) =~= s@);
    while i < n && white(s.get_char(i))
        invariant
            n == s@.len(),
            i <= n,
            trim_ws(s@) == trim_ws(s@.subrange(i as int, n as int)),
        decreases n - i,
    {
        let ghost sub = s@.subrange(i as int, n as int);
        assert(sub.drop_first() =~= s@.subrange(i + 1, n as int));
        assert(sub[0] == s@[i as int]);
        i = i + 1;
    }
    let mut j: usize = n;
    while j > i && white(s.get_char(j - 1))
        invariant
            n == s@.len(),
            i <= j <= n,
            i < j ==> !is_white(s@[i as int]),
            trim_ws(s@) == trim_ws(s@.subrange(i as int, j as int)),
        decreases j - i,
    {
        let ghost sub = s@.subrange(i as int, j as int);
        assert(sub.drop_last() =~= s@.subrange(i as int, j - 1));
        assert(sub[0] == s@[i as int]);
        assert(sub.last() == s@[j - 1]);
        j = j - 1;
    }
    proof {
        let sub = s@.subrange(i as int, j as int);
        if i < j {
            assert(sub[0] == s@[i as int]);
            assert(sub.last() == s@[j - 1]);
        }
    }
    s.substring_char(i, j)
}

} // verus!
