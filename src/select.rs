//! Choosing which executables become entry points: the desktop launcher and
//! the commands put on the PATH, by flags or from the user's answers.
use vstd::prelude::*;
use crate::error::InstallError;
use crate::text::{eq_ci, eq_ignore_case, fields, split_fields, str_eq, trim, trim_ws, Separators};

verus! {

/// The digits of a number, after an optional leading `+`.
pub open spec fn digits_part(t: Seq<char>) -> Seq<char> {
    if t.len() > 0 && t[0] == '+' {
        t.drop_first()
    } else {
        t
    }
}

/// An ASCII decimal digit.
pub open spec fn is_digit(c: char) -> bool {
    '0' <= c && c <= '9'
}

/// `t` is a decimal number: an optional `+` and at least one digit.
pub open spec fn is_number(t: Seq<char>) -> bool {
    let d = digits_part(t);
    d.len() > 0 && forall|i: int| 0 <= i < d.len() ==> is_digit(#[trigger] d[i])
}

/// The value of a string of decimal digits.
pub open spec fn digits_value(d: Seq<char>) -> nat
    decreases d.len(),
{
    if d.len() == 0 {
        0
    } else {
        digits_value(d.drop_last()) * 10 + ((d.last() as u32) as int - 48) as nat
    }
}

/// How a token of a selection reads against a list of `count` executables.
#[derive(Clone, Copy, Debug)]
pub enum Pick {
    /// Not a number.
    NotNumber,
    /// A number outside `1..=count`.
    OutOfRange,
    /// The number `i + 1`: the executable at index `i`.
    Index(usize),
}

/// How the token `t` reads as a selection among `count` executables.
pub open spec fn pick_of(t: Seq<char>, count: usize) -> Pick {
    if !is_number(t) {
        Pick::NotNumber
    } else if digits_value(digits_part(t)) < 1 || digits_value(digits_part(t)) > count {
        Pick::OutOfRange
    } else {
        Pick::Index((digits_value(digits_part(t)) - 1) as usize)
    }
}

/// Every index of a list of `count`, in order.
pub open spec fn all_indices(count: usize) -> Seq<usize> {
    Seq::new(count as nat, |i: int| i as usize)
}

/// The answer declines a yes/no question: `n` or `no`, up to case and
/// surrounding white space.
pub open spec fn declines(answer: Seq<char>) -> bool {
    eq_ci(trim_ws(answer), "n"@) || eq_ci(trim_ws(answer), "no"@)
}

/// The desktop launcher chosen by `answer` among `count` executables: a
/// single executable is offered as a yes/no question; among several, an
/// empty answer or `0` skips, and a number picks by position from 1.
pub open spec fn desktop_result(answer: Seq<char>, count: usize) -> Result<Option<usize>, InstallError> {
    let t = trim_ws(answer);
    if count == 0 {
        Ok(None)
    } else if count == 1 {
        Ok(if declines(answer) { None } else { Some(0usize) })
    } else if t.len() == 0 || t == "0"@ {
        Ok(None)
    } else {
        match pick_of(t, count) {
            Pick::NotNumber => Err(InstallError::InvalidInput),
            Pick::OutOfRange => Err(InstallError::InvalidSelection),
            Pick::Index(i) => Ok(Some(i)),
        }
    }
}

/// The PATH commands chosen by `answer` among `count` executables: a single
/// executable is offered as a yes/no question; among several, an empty
/// answer or `all` picks every one, and otherwise numbers separated by white
/// space or commas pick by position from 1. A token that is not a number
/// fails with `InvalidInput`, before any number out of range fails with
/// `InvalidSelection`.
pub open spec fn path_result(answer: Seq<char>, count: usize) -> Result<Seq<usize>, InstallError> {
    let t = trim_ws(answer);
    let f = fields(t, Separators::Selection.chars());
    if count == 0 {
        Ok(Seq::<usize>::empty())
    } else if count == 1 {
        Ok(if declines(answer) { Seq::<usize>::empty() } else { seq![0usize] })
    } else if t.len() == 0 || eq_ci(t, "all"@) {
        Ok(all_indices(count))
    } else if exists|i: int| 0 <= i < f.len() && pick_of(#[trigger] f[i], count) is NotNumber {
        Err(InstallError::InvalidInput)
    } else if exists|i: int| 0 <= i < f.len() && pick_of(#[trigger] f[i], count) is OutOfRange {
        Err(InstallError::InvalidSelection)
    } else {
        Ok(Seq::new(f.len(), |i: int| pick_of(f[i], count)->Index_0))
    }
}

/// `r` holds the indices `v`, or the same error.
pub open spec fn same_indices(r: Result<Vec<usize>, InstallError>, v: Result<Seq<usize>, InstallError>) -> bool {
    match v {
        Ok(s) => r matches Ok(w) && w@ == s,
        Err(e) => r == Err::<Vec<usize>, InstallError>(e),
    }
}

/// Reads `t` as a selection number against `count` executables.
pub fn classify(t: &str, count: usize) -> (r: Pick)
    ensures
        r == pick_of(t@, count),
{
    let n = t.unicode_len();
    let mut i: usize = 0;
    if n > 0 && t.get_char(0) == '+' {
        i = 1;
    }
    let ghost d = digits_part(t@);
    assert(d =~= t@.subrange(i as int, n as int));
    if i >= n {
        return Pick::NotNumber;
    }
    let start = i;
    let mut acc: usize = 0;
    let mut over = false;
    assert(d.take(0) =~= Seq::<char>::empty());
    while i < n
        invariant
            n == t@.len(),
            start <= i <= n,
            d == t@.subrange(start as int, n as int),
            d == digits_part(t@),
            forall|j: int| 0 <= j < i - start ==> is_digit(#[trigger] d[j]),
            over == (digits_value(d.take(i - start)) > count),
            !over ==> acc == digits_value(d.take(i - start)),
        decreases n - i,
    {
        let c = t.get_char(i);
        assert(d[i - start] == c);
        if !('0' <= c && c <= '9') {
            return Pick::NotNumber;
        }
        let ghost pre = d.take(i - start + 1);
        assert(pre.drop_last() =~= d.take(i - start));
        assert(pre.last() == c);
        let dv = (c as u32 - 48) as usize;
        if !over {
            let next = (acc as u128) * 10 + (dv as u128);
            if next > count as u128 {
                over = true;
            } else {
                acc = next as usize;
            }
        }
        i = i + 1;
    }
    assert(d.take(n - start) =~= d);
    if over || acc < 1 {
        Pick::OutOfRange
    } else {
        Pick::Index(acc - 1)
    }
}

/// Whether `answer` declines a yes/no question.
pub fn is_declined(answer: &str) -> (r: bool)
    ensures
        r == declines(answer@),
{
    let t = trim(answer);
    eq_ignore_case(t, "n") || eq_ignore_case(t, "no")
}

/// The desktop launcher when flags decide: the first executable, unless the
/// desktop entry is skipped or there is none.
pub fn default_desktop(count: usize, no_desktop: bool) -> (r: Option<usize>)
    ensures
        r == (if no_desktop || count == 0 { None } else { Some(0usize) }),
{
    if no_desktop || count == 0 {
        None
    } else {
        Some(0)
    }
}

fn indices(count: usize) -> (r: Vec<usize>)
    ensures
        r@ == all_indices(count),
{
    let mut r: Vec<usize> = Vec::new();
    let mut i: usize = 0;
    while i < count
        invariant
            i <= count,
            r@ =~= all_indices(i),
        decreases count - i,
    {
        r.push(i);
        i = i + 1;
    }
    r
}

/// The PATH commands when flags decide: every executable, unless adding to
/// the PATH is skipped.
pub fn default_path(count: usize, no_path: bool) -> (r: Vec<usize>)
    ensures
        r@ == (if no_path { Seq::<usize>::empty() } else { all_indices(count) }),
{
    if no_path {
        Vec::new()
    } else {
        indices(count)
    }
}

/// The desktop launcher chosen by the user's `answer` among `count`
/// executables; see [`desktop_result`].
pub fn desktop_choice(answer: &str, count: usize) -> (r: Result<Option<usize>, InstallError>)
    ensures
        r == desktop_result(answer@, count),
{
    if count == 0 {
        return Ok(None);
    }
    if count == 1 {
        return Ok(if is_declined(answer) { None } else { Some(0) });
    }
    let t = trim(answer);
    if t.unicode_len() == 0 || str_eq(t, "0") {
        return Ok(None);
    }
    match classify(t, count) {
        Pick::NotNumber => Err(InstallError::InvalidInput),
        Pick::OutOfRange => Err(InstallError::InvalidSelection),
        Pick::Index(i) => Ok(Some(i)),
    }
}

/// The PATH commands chosen by the user's `answer` among `count`
/// executables; see [`path_result`].
pub fn path_choice(answer: &str, count: usize) -> (r: Result<Vec<usize>, InstallError>)
    ensures
        same_indices(r, path_result(answer@, count)),
{
    if count == 0 {
        return Ok(Vec::new());
    }
    if count == 1 {
        let mut v: Vec<usize> = Vec::new();
        if !is_declined(answer) {
            v.push(0);
        }
        return Ok(v);
    }
    let t = trim(answer);
    if t.unicode_len() == 0 || eq_ignore_case(t, "all") {
        return Ok(indices(count));
    }
    let f = split_fields(t, Separators::Selection);
    let ghost fv = f.deep_view();
    let mut picks: Vec<usize> = Vec::new();
    let mut out_of_range = false;
    let mut i: usize = 0;
    while i < f.len()
        invariant
            fv == f.deep_view(),
            fv == fields(t@, Separators::Selection.chars()),
            t@ == trim_ws(answer@),
            count > 1,
            !(t@.len() == 0 || eq_ci(t@, "all"@)),
            i <= f@.len(),
            forall|j: int| 0 <= j < i ==> !(pick_of(#[trigger] fv[j], count) is NotNumber),
            out_of_range == exists|j: int| 0 <= j < i && pick_of(#[trigger] fv[j], count) is OutOfRange,
            !out_of_range ==> picks@.len() == i && forall|j: int|
                0 <= j < i ==> pick_of(#[trigger] fv[j], count) == Pick::Index(picks@[j]),
        decreases f@.len() - i,
    {
        assert(fv[i as int] == f@[i as int]@);
        match classify(f[i].as_str(), count) {
            Pick::NotNumber => {
                return Err(InstallError::InvalidInput);
            },
            Pick::OutOfRange => {
                out_of_range = true;
            },
            Pick::Index(k) => {
                if !out_of_range {
                    picks.push(k);
                }
            },
        }
        i = i + 1;
    }
    if out_of_range {
        Err(InstallError::InvalidSelection)
    } else {
        assert(picks@ =~= Seq::new(fv.len(), |i: int| pick_of(fv[i], count)->Index_0));
        Ok(picks)
    }
}

/// Where the choices come from.
#[derive(Clone, Debug)]
pub enum Mode {
    /// The flags decide: the first executable for the desktop, all of them
    /// for the PATH.
    Flags,
    /// The user's answers decide.
    Ask { desktop_answer: String, path_answer: String },
}

/// The chosen entry points, as indices into the executables.
#[derive(Clone, Debug)]
pub struct Selection {
    pub desktop: Option<usize>,
    pub path: Vec<usize>,
}

/// The selection among `count` executables under `mode`, where the skip
/// flags take their role out of any choice. A refused desktop answer is
/// reported before a refused PATH answer.
pub open spec fn is_selection(
    count: usize,
    no_desktop: bool,
    no_path: bool,
    mode: Mode,
    r: Result<Selection, InstallError>,
) -> bool {
    let (d, p) = match mode {
        Mode::Flags => (
            Ok::<Option<usize>, InstallError>(if no_desktop || count == 0 { None } else { Some(0usize) }),
            Ok::<Seq<usize>, InstallError>(if no_path { Seq::<usize>::empty() } else { all_indices(count) }),
        ),
        Mode::Ask { desktop_answer, path_answer } => (
            if no_desktop { Ok(None) } else { desktop_result(desktop_answer@, count) },
            if no_path { Ok(Seq::<usize>::empty()) } else { path_result(path_answer@, count) },
        ),
    };
    match (d, p) {
        (Err(e), _) => r == Err::<Selection, InstallError>(e),
        (Ok(_), Err(e)) => r == Err::<Selection, InstallError>(e),
        (Ok(dv), Ok(pv)) => r matches Ok(sel) && sel.desktop == dv && sel.path@ == pv,
    }
}

/// Chooses the desktop launcher and the PATH commands among `count`
/// executables; see [`is_selection`].
pub fn select_entry_points(count: usize, no_desktop: bool, no_path: bool, mode: &Mode) -> (r: Result<Selection, InstallError>)
    ensures
        is_selection(count, no_desktop, no_path, *mode, r),
{
    match mode {
        Mode::Flags => Ok(Selection { desktop: default_desktop(count, no_desktop), path: default_path(count, no_path) }),
        Mode::Ask { desktop_answer, path_answer } => {
            let desktop = if no_desktop {
                None
            } else {
                match desktop_choice(desktop_answer.as_str(), count) {
                    Ok(d) => d,
                    Err(e) => return Err(e),
                }
            };
            if no_path {
                return Ok(Selection { desktop, path: Vec::new() });
            }
            match path_choice(path_answer.as_str(), count) {
                Ok(path) => Ok(Selection { desktop, path }),
                Err(e) => Err(e),
            }
        },
    }
}

} // verus!
