//! The version-file name grammar
//! `<id>_<4-digit-year><2-digit-month><2-digit-day>_<patch-id>.xml`,
//! where `<id>` and `<patch-id>` are non-empty ASCII alphanumeric tokens.
//! The whole name must match; the trailing `.xml` is literal.

use crate::LawDataError;
use crate::date::Date;
use crate::era::{ad_to_era, ad_to_era_spec, packed_date};
use crate::law::LawPatchInfo;
use crate::strutil::{digit_val, is_alnum_char, is_digit_char};
use vstd::prelude::*;
use vstd::string::StrSliceExecFns;

verus! {

/// End of the run of alphanumeric characters that starts at `i`.
pub open spec fn alnum_run(s: Seq<char>, i: int) -> int
    decreases s.len() - i when 0 <= i <= s.len()
{
    if i < s.len() && is_alnum_char(s[i]) {
        alnum_run(s, i + 1)
    } else {
        i
    }
}

/// A run that covers exactly the alphanumeric characters from `i` ends where
/// `alnum_run` says.
proof fn lemma_alnum_run(s: Seq<char>, i: int, e: int)
    requires
        0 <= i <= e <= s.len(),
        forall|j: int| i <= j < e ==> is_alnum_char(#[trigger] s[j]),
        e == s.len() || !is_alnum_char(s[e]),
    ensures
        alnum_run(s, i) == e,
    decreases e - i,
{
    if i < e {
        lemma_alnum_run(s, i + 1, e);
    }
}

/// Value of the four-digit year of a name whose id run ends at `a`.
pub open spec fn name_year(s: Seq<char>, a: int) -> int {
    digit_val(s[a + 1]) * 1000 + digit_val(s[a + 2]) * 100 + digit_val(s[a + 3]) * 10 + digit_val(
        s[a + 4],
    )
}

/// Value of the two-digit month of a name whose id run ends at `a`.
pub open spec fn name_month(s: Seq<char>, a: int) -> int {
    digit_val(s[a + 5]) * 10 + digit_val(s[a + 6])
}

/// Value of the two-digit day of a name whose id run ends at `a`.
pub open spec fn name_day(s: Seq<char>, a: int) -> int {
    digit_val(s[a + 7]) * 10 + digit_val(s[a + 8])
}

/// Whether a file name matches the version-file grammar. The id is the
/// leading alphanumeric run; an underscore, eight digits and an underscore
/// follow; the patch id is the next alphanumeric run; the literal `.xml`
/// closes the name.
pub open spec fn filename_matches(s: Seq<char>) -> bool {
    let a = alnum_run(s, 0);
    let b = alnum_run(s, a + 10);
    &&& a >= 1
    &&& a + 10 <= s.len()
    &&& s[a] == '_'
    &&& (forall|j: int| a + 1 <= j < a + 9 ==> is_digit_char(#[trigger] s[j]))
    &&& s[a + 9] == '_'
    &&& b >= a + 11
    &&& b + 4 == s.len()
    &&& s[b] == '.'
    &&& s[b + 1] == 'x'
    &&& s[b + 2] == 'm'
    &&& s[b + 3] == 'l'
}

/// The law id of a matching name: the leading alphanumeric run.
pub open spec fn filename_id(s: Seq<char>) -> Seq<char> {
    s.subrange(0, alnum_run(s, 0))
}

/// The patch id of a matching name: the run between the second underscore
/// and the `.xml` suffix.
pub open spec fn filename_patch_id(s: Seq<char>) -> Seq<char> {
    s.subrange(alnum_run(s, 0) + 10, alnum_run(s, alnum_run(s, 0) + 10))
}

/// Scans the alphanumeric run that starts at `i`.
fn scan_alnum(s: &str, n: usize, i: usize) -> (e: usize)
    requires
        n == s@.len(),
        0 <= i <= n,
    ensures
        i <= e <= n,
        e == alnum_run(s@, i as int),
{
    let mut j: usize = i;
    loop
        invariant_except_break
            i <= j <= n,
            n == s@.len(),
            forall|k: int| i <= k < j ==> is_alnum_char(#[trigger] s@[k]),
        ensures
            i <= j <= n,
            n == s@.len(),
            forall|k: int| i <= k < j ==> is_alnum_char(#[trigger] s@[k]),
            j == n || !is_alnum_char(s@[j as int]),
        decreases n - j,
    {
        if j >= n {
            break;
        }
        let u = s.get_char(j) as u32;
        if !((48 <= u && u <= 57) || (65 <= u && u <= 90) || (97 <= u && u <= 122)) {
            break;
        }
        j += 1;
    }
    proof {
        lemma_alnum_run(s@, i as int, j as int);
    }
    j
}

/// Reads the digit at position `i` of the name.
fn digit_at(s: &str, i: usize) -> (d: u64)
    requires
        i < s@.len(),
        is_digit_char(s@[i as int]),
    ensures
        d == digit_val(s@[i as int]),
{
    (s.get_char(i) as u32 - 48) as u64
}

/// Parses a version-file name against the grammar and derives the version
/// entry: the law id, and the patch metadata with the file's date resolved
/// against the era table.
///
/// Fails with `FilenamePatternMismatch`, carrying the offending name, when
/// the grammar does not match, and with `DateOutOfRange` when the date the
/// name carries precedes the era table or falls where the table would give
/// a negative era year.
#[verifier::loop_isolation(false)]
pub fn file_path_to_data(dir_name: &str, file_name: &str) -> (r: Result<
    (String, LawPatchInfo),
    LawDataError,
>)
    ensures
        match r {
            Ok((id, info)) => {
                let s = file_name@;
                let y = name_year(s, alnum_run(s, 0));
                let m = name_month(s, alnum_run(s, 0));
                let d = name_day(s, alnum_run(s, 0));
                &&& filename_matches(s)
                &&& id@ == filename_id(s)
                &&& info.dir_name@ == dir_name@
                &&& info.file_name@ == s
                &&& info.id@ == filename_id(s)
                &&& info.patch_id@ == filename_patch_id(s)
                &&& ad_to_era_spec(y, m, d) == Some(
                    (info.patch_date.era, info.patch_date.year as int),
                )
                &&& info.patch_date.ad_year == y
                &&& info.patch_date.month == Some(m as u64)
                &&& info.patch_date.day == Some(d as u64)
                &&& info.patch_date.wf()
            },
            Err(LawDataError::FilenamePatternMismatch { name }) => {
                &&& !filename_matches(file_name@)
                &&& name@ == file_name@
            },
            Err(LawDataError::DateOutOfRange) => {
                let s = file_name@;
                let y = name_year(s, alnum_run(s, 0));
                let m = name_month(s, alnum_run(s, 0));
                let d = name_day(s, alnum_run(s, 0));
                &&& filename_matches(s)
                &&& match ad_to_era_spec(y, m, d) {
                    Some((era, yr)) => yr < 0,
                    None => true,
                }
            },
            Err(_) => false,
        },
{
    let n: usize = file_name.unicode_len();
    let a: usize = scan_alnum(file_name, n, 0);
    let mismatch = LawDataError::FilenamePatternMismatch { name: file_name.to_owned() };
    if a < 1 || n < 10 || a > n - 10 {
        return Err(mismatch);
    }
    if file_name.get_char(a) != '_' || file_name.get_char(a + 9) != '_' {
        return Err(mismatch);
    }
    let mut k: usize = a + 1;
    while k < a + 9
        invariant
            a + 1 <= k <= a + 9,
            a + 10 <= n == file_name@.len(),
            forall|j: int| a + 1 <= j < k ==> is_digit_char(#[trigger] file_name@[j]),
        decreases a + 9 - k,
    {
        let u = file_name.get_char(k) as u32;
        if u < 48 || u > 57 {
            proof {
                assert(!is_digit_char(file_name@[k as int]));
            }
            return Err(mismatch);
        }
        k += 1;
    }
    let b: usize = scan_alnum(file_name, n, a + 10);
    if b == a + 10 || n - b != 4 {
        return Err(mismatch);
    }
    if file_name.get_char(b) != '.' || file_name.get_char(b + 1) != 'x' || file_name.get_char(
        b + 2,
    ) != 'm' || file_name.get_char(b + 3) != 'l' {
        return Err(mismatch);
    }
    let year: u64 = digit_at(file_name, a + 1) * 1000 + digit_at(file_name, a + 2) * 100
        + digit_at(file_name, a + 3) * 10 + digit_at(file_name, a + 4);
    let month: u64 = digit_at(file_name, a + 5) * 10 + digit_at(file_name, a + 6);
    let day: u64 = digit_at(file_name, a + 7) * 10 + digit_at(file_name, a + 8);
    let (era, era_year) = match ad_to_era(year, month, day) {
        Ok(p) => p,
        Err(_) => {
            return Err(LawDataError::DateOutOfRange);
        },
    };
    let id = file_name.substring_char(0, a).to_owned();
    let patch_id = file_name.substring_char(a + 10, b).to_owned();
    let date = Date { ad_year: year, era, year: era_year, month: Some(month), day: Some(day) };
    let info = LawPatchInfo {
        dir_name: dir_name.to_owned(),
        file_name: file_name.to_owned(),
        id: id.clone(),
        patch_date: date,
        patch_id,
    };
    Ok((id, info))
}

} // verus!
