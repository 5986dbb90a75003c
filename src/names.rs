//! Deriving clean names from archive stems and folder names.
use vstd::prelude::*;
use crate::error::InstallError;
use crate::paths::{file_name, file_name_of};
use crate::text::{
    eq_ci, eq_ignore_case, first_is_digit, join, join_first, name_seps, split, Separators,
    starts_with_digit, tokens, lemma_tokens_free, lemma_split_join, free_of,
};

verus! {

/// A token that names a target platform rather than the application.
pub open spec fn is_platform_tag(t: Seq<char>) -> bool {
    eq_ci(t, "linux"@) || eq_ci(t, "x64"@) || eq_ci(t, "x86"@) || eq_ci(t, "amd64"@) || eq_ci(
        t,
        "arm64"@,
    ) || eq_ci(t, "aarch64"@)
}

/// A token that may stay in a name: it does not begin a version and, where
/// `platform` is set, is no platform tag.
pub open spec fn keeps(t: Seq<char>, platform: bool) -> bool {
    !starts_with_digit(t) && !(platform && is_platform_tag(t))
}

/// The number of leading tokens that may stay.
pub open spec fn kept_len(toks: Seq<Seq<char>>, platform: bool) -> nat
    decreases toks.len(),
{
    if toks.len() == 0 || !keeps(toks[0], platform) {
        0
    } else {
        1 + kept_len(toks.drop_first(), platform)
    }
}

/// The longest prefix of the tokens of `s` that may stay, joined with `-`.
pub open spec fn trimmed(s: Seq<char>, platform: bool) -> Seq<char> {
    let toks = tokens(s, name_seps());
    join(toks.take(kept_len(toks, platform) as int), '-')
}

/// The directory name synthesized from an archive stem: tokens up to the
/// first one that begins with a digit. It may be empty.
pub open spec fn dir_name_from_stem(stem: Seq<char>) -> Seq<char> {
    trimmed(stem, false)
}

/// The clean name of `raw`: tokens up to the first version or platform tag,
/// or `raw` itself where nothing would remain.
pub open spec fn normalized(raw: Seq<char>) -> Seq<char> {
    if trimmed(raw, true).len() == 0 {
        raw
    } else {
        trimmed(raw, true)
    }
}

/// A prefix of `k` keepable tokens followed by a token that may not stay
/// (or by nothing) is the kept prefix.
pub proof fn lemma_kept_len(toks: Seq<Seq<char>>, platform: bool, k: int)
    requires
        0 <= k <= toks.len(),
        forall|j: int| 0 <= j < k ==> keeps(#[trigger] toks[j], platform),
        k == toks.len() || !keeps(toks[k], platform),
    ensures
        kept_len(toks, platform) == k,
    decreases k,
{
    if k > 0 {
        let rest = toks.drop_first();
        assert forall|j: int| 0 <= j < k - 1 implies keeps(#[trigger] rest[j], platform) by {
            assert(rest[j] == toks[j + 1]);
        }
        if k < toks.len() {
            assert(rest[k - 1] == toks[k]);
        }
        lemma_kept_len(rest, platform, k - 1);
        assert(keeps(toks[0], platform));
    }
}

proof fn lemma_kept_len_bound(toks: Seq<Seq<char>>, platform: bool)
    ensures
        kept_len(toks, platform) <= toks.len(),
        forall|j: int| 0 <= j < kept_len(toks, platform) ==> keeps(#[trigger] toks[j], platform),
    decreases toks.len(),
{
    if toks.len() > 0 && keeps(toks[0], platform) {
        let rest = toks.drop_first();
        lemma_kept_len_bound(rest, platform);
        assert forall|j: int| 0 <= j < kept_len(toks, platform) implies keeps(
            #[trigger] toks[j],
            platform,
        ) by {
            if j > 0 {
                assert(toks[j] == rest[j - 1]);
            }
        }
    }
}

/// A name is never empty where the raw text is not, and normalizing a
/// normalized name changes nothing.
pub proof fn lemma_normalize_idempotent(s: Seq<char>)
    requires
        s.len() > 0,
    ensures
        normalized(s).len() > 0,
        normalized(normalized(s)) == normalized(s),
{
    let toks = tokens(s, name_seps());
    let k = kept_len(toks, true);
    let kept = toks.take(k as int);
    if trimmed(s, true).len() > 0 {
        lemma_kept_len_bound(toks, true);
        lemma_tokens_free(s, name_seps());
        assert(kept.len() >= 1);
        assert forall|i: int| 0 <= i < kept.len() implies free_of(#[trigger] kept[i], name_seps())
            && keeps(kept[i], true) by {
            assert(kept[i] == toks[i]);
        }
        assert(name_seps().contains('-'));
        lemma_split_join(kept, '-', name_seps());
        lemma_kept_len(kept, true, kept.len() as int);
        assert(kept.take(kept.len() as int) =~= kept);
    }
}

/// Whether `t` names a target platform, up to ASCII case.
pub fn platform_tag(t: &str) -> (r: bool)
    ensures
        r == is_platform_tag(t@),
{
    eq_ignore_case(t, "linux") || eq_ignore_case(t, "x64") || eq_ignore_case(t, "x86")
        || eq_ignore_case(t, "amd64") || eq_ignore_case(t, "arm64") || eq_ignore_case(
        t,
        "aarch64",
    )
}

fn trim_tokens(s: &str, platform: bool) -> (r: String)
    ensures
        r@ == trimmed(s@, platform),
{
    let toks = split(s, Separators::Name);
    let n = toks.len();
    let mut k: usize = 0;
    while k < n
        invariant
            n == toks@.len(),
            k <= n,
            forall|j: int| 0 <= j < k ==> keeps(#[trigger] toks.deep_view()[j], platform),
        ensures
            k <= n,
            forall|j: int| 0 <= j < k ==> keeps(#[trigger] toks.deep_view()[j], platform),
            k == n || !keeps(toks.deep_view()[k as int], platform),
        decreases n - k,
    {
        let t = toks[k].as_str();
        if first_is_digit(t) || (platform && platform_tag(t)) {
            break;
        }
        k = k + 1;
    }
    let hyphen = "-";
    proof {
        lemma_kept_len(toks.deep_view(), platform, k as int);
        reveal_strlit("-");
        assert(hyphen@ =~= seq!['-']);
    }
    join_first(&toks, k, '-', hyphen)
}

/// The clean directory name of an archive stem: its tokens, split at `-` and
/// `_`, up to the first one that begins with an ASCII digit, joined with `-`.
/// Empty where the first token already begins with a digit.
pub fn extract_dir_name_from_stem(stem: &str) -> (r: String)
    ensures
        r@ == dir_name_from_stem(stem@),
{
    trim_tokens(stem, false)
}

/// The clean name of `raw`: its tokens, split at `-` and `_`, up to the first
/// one that begins with an ASCII digit or is a platform tag, joined with `-`;
/// `raw` unchanged where no token would remain.
pub fn normalize(raw: &str) -> (r: String)
    ensures
        r@ == normalized(raw@),
{
    let t = trim_tokens(raw, true);
    if t.unicode_len() == 0 {
        String::from_str(raw)
    } else {
        t
    }
}

/// The application name inferred from its directory: the normalized final
/// component of `path`.
pub open spec fn app_name_of(path: Seq<char>) -> Option<Seq<char>> {
    match file_name_of(path) {
        Some(n) => Some(normalized(n)),
        None => None,
    }
}

/// Infers a clean application name from the final component of the
/// application directory's path; `InvalidName` where the path has none.
pub fn infer_app_name(extracted_path: &str) -> (r: Result<String, InstallError>)
    ensures
        r matches Ok(n) ==> app_name_of(extracted_path@) == Some(n@),
        r is Err ==> app_name_of(extracted_path@) is None && r == Err::<String, InstallError>(
            InstallError::InvalidName,
        ),
{
    match file_name(extracted_path) {
        Some(n) => Ok(normalize(n.as_str())),
        None => Err(InstallError::InvalidName),
    }
}

} // verus!
