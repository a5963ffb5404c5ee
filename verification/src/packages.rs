use vstd::prelude::*;
use vstd::string::{StrSliceExecFns, StringExecFns};
use core::cmp::Ordering;
use crate::text::{str_eq, str_to_chars};
use crate::json::{spec_as_str, spec_get, spec_str_field, JsonValue};

verus! {

broadcast use vstd::seq_lib::group_to_multiset_ensures;

/// Which packages a listing shows: those published here, those cached from
/// the upstream, or all of them.
#[derive(Debug, Clone, Copy, PartialEq, Eq, Structural)]
pub enum PackageType {
    Private,
    Cached,
    All,
}

/// One page of a listing.
#[derive(Debug, Clone)]
pub struct PaginatedResult<T> {
    pub items: Vec<T>,
    pub total: usize,
    pub page: usize,
    pub page_size: usize,
    pub total_pages: usize,
}

/// What the boundary shows of one package.
#[derive(Debug, Clone)]
pub struct PackageInfo {
    pub name: String,
    pub version: String,
    pub description: Option<String>,
    pub author: Option<String>,
    pub license: Option<String>,
    pub versions: Vec<String>,
    pub keywords: Vec<String>,
    pub homepage: Option<String>,
    pub repository: Option<String>,
    pub created: Option<String>,
    pub modified: Option<String>,
}

/// A directory is a package exactly when it is a directory holding a
/// manifest; the caller reports the two probes.
pub fn is_valid_package_dir(is_dir: bool, has_package_json: bool) -> (r: bool)
    ensures
        r == (is_dir && has_package_json),
{
    is_dir && has_package_json
}

/// How the storage walk treats one directory entry.
#[derive(Debug, Clone, Copy, PartialEq, Eq, Structural)]
pub enum EntryKind {
    /// A hidden directory, skipped.
    Hidden,
    /// A scope directory, whose children are the packages.
    Scoped,
    /// An ordinary package directory.
    Plain,
}

/// A name starting with `@` is a scope; any other name starting with `.` is
/// hidden; the rest are plain packages.
pub open spec fn spec_classify(name: Seq<char>) -> EntryKind {
    if name.len() > 0 && name[0] == '@' {
        EntryKind::Scoped
    } else if name.len() > 0 && name[0] == '.' {
        EntryKind::Hidden
    } else {
        EntryKind::Plain
    }
}

/// Classifies one entry of the storage directory.
pub fn classify_entry(name: &str) -> (r: EntryKind)
    ensures
        r == spec_classify(name@),
{
    if name.unicode_len() == 0 {
        return EntryKind::Plain;
    }
    let c = name.get_char(0);
    if c == '@' {
        EntryKind::Scoped
    } else if c == '.' {
        EntryKind::Hidden
    } else {
        EntryKind::Plain
    }
}

/// Joins a scope and a package directory into the full package name.
pub fn full_scoped_name(scope: &str, inner: &str) -> (r: String)
    ensures
        r@ == scope@ + "/"@ + inner@,
{
    let r = scope.to_owned().concat("/").concat(inner);
    assert(r@ =~= scope@ + "/"@ + inner@);
    r
}

/// The on-disk directory of a package: the storage directory, the scope
/// where there is one, and the package directory.  Scoped or not, the
/// result is the storage path, a separator and the full name.
pub fn get_package_path(storage_path: &str, package_name: &str) -> (r: String)
    ensures
        r@ == storage_path@ + "/"@ + package_name@,
{
    let n = package_name.unicode_len();
    if n > 0 && package_name.get_char(0) == '@' {
        let mut j: usize = 0;
        while j < n && package_name.get_char(j) != '/'
            invariant
                n == package_name@.len(),
                j <= n,
                forall|k: int| 0 <= k < j ==> package_name@[k] != '/',
            decreases n - j,
        {
            j += 1;
        }
        if j < n {
            let scope = package_name.substring_char(0, j);
            let rest = package_name.substring_char(j + 1, n);
            let r = storage_path.to_owned().concat("/").concat(scope).concat("/").concat(rest);
            proof {
                reveal_strlit("/");
                assert("/"@ =~= seq!['/']);
                assert(package_name@ =~= package_name@.subrange(0, j as int) + "/"@
                    + package_name@.subrange(j + 1 as int, n as int));
                assert(r@ =~= storage_path@ + "/"@ + package_name@);
            }
            return r;
        }
    }
    let r = storage_path.to_owned().concat("/").concat(package_name);
    assert(r@ =~= storage_path@ + "/"@ + package_name@);
    r
}

/// A decimal digit.
pub open spec fn is_digit(c: char) -> bool {
    ('0' as u32) <= (c as u32) && (c as u32) <= ('9' as u32)
}

/// The value of one digit.
pub open spec fn digit_val(c: char) -> int {
    c as u32 - '0' as u32
}

/// The first position at or after `i` holding a non-digit.
pub open spec fn first_non_digit(s: Seq<char>, i: int) -> int
    decreases s.len() - i,
{
    if i < 0 || i >= s.len() {
        i
    } else if is_digit(s[i]) {
        first_non_digit(s, i + 1)
    } else {
        i
    }
}

/// The value of the digits at positions `i` up to `j`.
pub open spec fn run_val(s: Seq<char>, i: int, j: int) -> int
    decreases j - i,
{
    if i >= j {
        0
    } else {
        run_val(s, i, j - 1) * 10 + digit_val(s[j - 1])
    }
}

/// The numbers of a version text: each maximal digit run, in order, with
/// runs too large for 32 bits dropped — exactly what splitting at non-digits
/// and parsing each piece keeps.
pub open spec fn spec_version_nums(s: Seq<char>, i: int) -> Seq<int>
    decreases s.len() - i,
{
    if i < 0 || i >= s.len() {
        Seq::empty()
    } else if !is_digit(s[i]) {
        spec_version_nums(s, i + 1)
    } else {
        let j = first_non_digit(s, i);
        if i < j <= s.len() {
            let v = run_val(s, i, j);
            let rest = spec_version_nums(s, j);
            if v <= u32::MAX as int {
                seq![v] + rest
            } else {
                rest
            }
        } else {
            Seq::empty()
        }
    }
}

/// Lexicographic order of two number lists: the first differing position
/// decides; a strict prefix comes first.
pub open spec fn cmp_nums(a: Seq<int>, b: Seq<int>) -> int
    decreases a.len(),
{
    if a.len() == 0 && b.len() == 0 {
        0
    } else if a.len() == 0 {
        -1
    } else if b.len() == 0 {
        1
    } else if a[0] < b[0] {
        -1
    } else if a[0] > b[0] {
        1
    } else {
        cmp_nums(a.drop_first(), b.drop_first())
    }
}

/// The ordering a comparison value names.
pub open spec fn spec_ordering_of(c: int) -> Ordering {
    if c < 0 {
        Ordering::Less
    } else if c == 0 {
        Ordering::Equal
    } else {
        Ordering::Greater
    }
}

/// The version numbers a text names.
pub open spec fn spec_version_key(s: Seq<char>) -> Seq<int> {
    spec_version_nums(s, 0)
}

pub open spec fn nums_as_ints(v: Seq<u32>) -> Seq<int> {
    v.map(|_i: int, x: u32| x as int)
}

fn is_digit_exec(c: char) -> (r: bool)
    ensures
        r == is_digit(c),
{
    ('0' as u32) <= (c as u32) && (c as u32) <= ('9' as u32)
}

proof fn lemma_first_non_digit_at(s: Seq<char>, a: int, j: int)
    requires
        0 <= a <= j <= s.len(),
        forall|k: int| a <= k < j ==> is_digit(s[k]),
        j == s.len() || !is_digit(s[j]),
    ensures
        first_non_digit(s, a) == j,
    decreases j - a,
{
    if a < j {
        lemma_first_non_digit_at(s, a + 1, j);
    }
}

proof fn lemma_run_val_nonneg(s: Seq<char>, i: int, j: int)
    requires
        forall|k: int| i <= k < j ==> is_digit(s[k]),
        0 <= i,
        j <= s.len(),
    ensures
        run_val(s, i, j) >= 0,
    decreases j - i,
{
    if i < j {
        lemma_run_val_nonneg(s, i, j - 1);
    }
}

/// Parses the maximal digit runs of a version text, dropping any run that
/// does not fit 32 bits.
#[verifier::loop_isolation(false)]
fn parse_version_nums(s: &str) -> (r: Vec<u32>)
    ensures
        nums_as_ints(r@) == spec_version_key(s@),
{
    let cs = str_to_chars(s);
    let n = cs.len();
    let mut r: Vec<u32> = Vec::new();
    proof {
        assert(nums_as_ints(r@) + spec_version_nums(cs@, 0) =~= spec_version_nums(cs@, 0));
    }
    let mut i: usize = 0;
    while i < n
        invariant
            i <= n,
            nums_as_ints(r@) + spec_version_nums(cs@, i as int) == spec_version_nums(cs@, 0),
        decreases n - i,
    {
        if is_digit_exec(cs[i]) {
            let mut j = i + 1;
            while j < n && is_digit_exec(cs[j])
                invariant
                    i + 1 <= j <= n,
                    forall|k: int| i <= k < j ==> is_digit(cs@[k]),
                decreases n - j,
            {
                j += 1;
            }
            proof {
                lemma_first_non_digit_at(cs@, i as int, j as int);
            }
            let mut acc: u32 = 0;
            let mut overflow: bool = false;
            let mut k = i;
            while k < j
                invariant
                    i <= k <= j,
                    !overflow ==> acc as int == run_val(cs@, i as int, k as int),
                    overflow ==> run_val(cs@, i as int, k as int) > u32::MAX as int,
                decreases j - k,
            {
                let c = cs[k];
                let d: u32 = (c as u32) - ('0' as u32);
                proof {
                    lemma_run_val_nonneg(cs@, i as int, k as int);
                    assert(run_val(cs@, i as int, k + 1 as int) == run_val(cs@, i as int, k as int)
                        * 10 + digit_val(cs@[k as int]));
                }
                if !overflow {
                    let grown = acc.checked_mul(10);
                    match grown {
                        Some(m) => {
                            match m.checked_add(d) {
                                Some(v) => {
                                    acc = v;
                                },
                                None => {
                                    overflow = true;
                                },
                            }
                        },
                        None => {
                            overflow = true;
                        },
                    }
                }
                k += 1;
            }
            let ghost before = nums_as_ints(r@);
            if !overflow {
                r.push(acc);
                proof {
                    assert(nums_as_ints(r@) =~= before.push(acc as int));
                }
            }
            proof {
                assert(nums_as_ints(r@) + spec_version_nums(cs@, j as int) =~= spec_version_nums(
                    cs@,
                    0,
                ));
            }
            i = j;
        } else {
            i += 1;
        }
    }
    r
}

proof fn lemma_cmp_nums_skip(a: Seq<int>, b: Seq<int>, i: int)
    requires
        0 <= i <= a.len(),
        i <= b.len(),
        forall|k: int| 0 <= k < i ==> a[k] == b[k],
    ensures
        cmp_nums(a, b) == cmp_nums(a.skip(i), b.skip(i)),
    decreases i,
{
    if i == 0 {
        assert(a.skip(0) =~= a);
        assert(b.skip(0) =~= b);
    } else {
        lemma_cmp_nums_skip(a, b, i - 1);
        let x = a.skip(i - 1);
        let y = b.skip(i - 1);
        assert(x.len() > 0 && y.len() > 0);
        assert(x[0] == a[i - 1] && y[0] == b[i - 1]);
        assert(cmp_nums(x, y) == cmp_nums(x.drop_first(), y.drop_first()));
        assert(x.drop_first() =~= a.skip(i));
        assert(y.drop_first() =~= b.skip(i));
    }
}

/// Compares two version texts by their digit runs, as the listing sorts
/// them.
#[verifier::loop_isolation(false)]
pub fn version_compare(a: &str, b: &str) -> (r: Ordering)
    ensures
        r == spec_ordering_of(cmp_nums(spec_version_key(a@), spec_version_key(b@))),
{
    let va = parse_version_nums(a);
    let vb = parse_version_nums(b);
    let ghost aa = spec_version_key(a@);
    let ghost bb = spec_version_key(b@);
    let mut i: usize = 0;
    while i < va.len() && i < vb.len()
        invariant
            i <= va@.len(),
            i <= vb@.len(),
            forall|k: int| 0 <= k < i ==> aa[k] == bb[k],
        decreases va@.len() - i,
    {
        proof {
            assert(aa[i as int] == va@[i as int] as int);
            assert(bb[i as int] == vb@[i as int] as int);
        }
        if va[i] < vb[i] {
            proof {
                lemma_cmp_nums_skip(aa, bb, i as int);
                assert(cmp_nums(aa.skip(i as int), bb.skip(i as int)) == -1);
            }
            return Ordering::Less;
        }
        if va[i] > vb[i] {
            proof {
                lemma_cmp_nums_skip(aa, bb, i as int);
                assert(cmp_nums(aa.skip(i as int), bb.skip(i as int)) == 1);
            }
            return Ordering::Greater;
        }
        i += 1;
    }
    proof {
        lemma_cmp_nums_skip(aa, bb, i as int);
    }
    if va.len() == vb.len() {
        proof {
            assert(aa.skip(i as int).len() == 0 && bb.skip(i as int).len() == 0);
        }
        Ordering::Equal
    } else if va.len() < vb.len() {
        proof {
            assert(aa.skip(i as int).len() == 0 && bb.skip(i as int).len() > 0);
        }
        Ordering::Less
    } else {
        proof {
            assert(aa.skip(i as int).len() > 0 && bb.skip(i as int).len() == 0);
        }
        Ordering::Greater
    }
}

/// Whether one of the names is the given one.
pub open spec fn names_contain(names: Seq<Seq<char>>, x: Seq<char>) -> bool {
    exists|i: int| 0 <= i < names.len() && names[i] == x
}

/// Whether the list holds the given name.
#[verifier::loop_isolation(false)]
pub fn contains_name(names: &Vec<String>, x: &str) -> (r: bool)
    ensures
        r == names_contain(names.deep_view(), x@),
{
    let n = names.len();
    let mut i: usize = 0;
    while i < n
        invariant
            i <= n,
            forall|k: int| 0 <= k < i ==> names.deep_view()[k] != x@,
        decreases n - i,
    {
        if str_eq(names[i].as_str(), x) {
            assert(names.deep_view()[i as int] == x@);
            return true;
        }
        i += 1;
    }
    false
}

proof fn lemma_filter_push<A>(s: Seq<A>, x: A, pred: spec_fn(A) -> bool)
    ensures
        s.push(x).filter(pred) == if pred(x) {
            s.filter(pred).push(x)
        } else {
            s.filter(pred)
        },
{
    reveal(Seq::filter);
    assert(s.push(x).drop_last() =~= s);
}

/// Keeps the names the requested package type selects: all of them, those
/// the registry's own list names (published here), or those it does not
/// (cached from the upstream).
#[verifier::loop_isolation(false)]
pub fn filter_package_names_by_type(
    all_names: Vec<String>,
    package_type: PackageType,
    private_names: &Vec<String>,
) -> (r: Vec<String>)
    ensures
        package_type == PackageType::All ==> r.deep_view() == all_names.deep_view(),
        package_type == PackageType::Private ==> r.deep_view() == all_names.deep_view().filter(
            |n: Seq<char>| names_contain(private_names.deep_view(), n),
        ),
        package_type == PackageType::Cached ==> r.deep_view() == all_names.deep_view().filter(
            |n: Seq<char>| !names_contain(private_names.deep_view(), n),
        ),
{
    match package_type {
        PackageType::All => all_names,
        PackageType::Private => {
            let ghost pred = |n: Seq<char>| names_contain(private_names.deep_view(), n);
            let ghost av = all_names.deep_view();
            let mut r: Vec<String> = Vec::new();
            let mut i: usize = 0;
            proof {
                reveal(Seq::filter);
                assert(av.subrange(0, 0) =~= Seq::<Seq<char>>::empty());
            }
            while i < all_names.len()
                invariant
                    i <= all_names@.len(),
                    av == all_names.deep_view(),
                    r.deep_view() == av.subrange(0, i as int).filter(pred),
                decreases all_names@.len() - i,
            {
                let ghost dv0 = r.deep_view();
                let keep = contains_name(private_names, all_names[i].as_str());
                if keep {
                    r.push(all_names[i].clone());
                    proof {
                        assert(r.deep_view() =~= dv0.push(av[i as int]));
                    }
                }
                proof {
                    lemma_filter_push(av.subrange(0, i as int), av[i as int], pred);
                    assert(av.subrange(0, i + 1 as int).drop_last() =~= av.subrange(0, i as int));
                    assert(av.subrange(0, i + 1 as int) =~= av.subrange(0, i as int).push(
                        av[i as int],
                    ));
                }
                i += 1;
            }
            proof {
                assert(av.subrange(0, av.len() as int) =~= av);
            }
            r
        },
        PackageType::Cached => {
            let ghost pred = |n: Seq<char>| !names_contain(private_names.deep_view(), n);
            let ghost av = all_names.deep_view();
            let mut r: Vec<String> = Vec::new();
            let mut i: usize = 0;
            proof {
                reveal(Seq::filter);
                assert(av.subrange(0, 0) =~= Seq::<Seq<char>>::empty());
            }
            while i < all_names.len()
                invariant
                    i <= all_names@.len(),
                    av == all_names.deep_view(),
                    r.deep_view() == av.subrange(0, i as int).filter(pred),
                decreases all_names@.len() - i,
            {
                let ghost dv0 = r.deep_view();
                let keep = !contains_name(private_names, all_names[i].as_str());
                if keep {
                    r.push(all_names[i].clone());
                    proof {
                        assert(r.deep_view() =~= dv0.push(av[i as int]));
                    }
                }
                proof {
                    lemma_filter_push(av.subrange(0, i as int), av[i as int], pred);
                    assert(av.subrange(0, i + 1 as int) =~= av.subrange(0, i as int).push(
                        av[i as int],
                    ));
                }
                i += 1;
            }
            proof {
                assert(av.subrange(0, av.len() as int) =~= av);
            }
            r
        },
    }
}

/// How many pages a listing of `total` items has.
pub open spec fn spec_total_pages(total: int, page_size: int) -> int {
    if total == 0 {
        0
    } else {
        (total + page_size - 1) / page_size
    }
}

/// The first index of the requested page; a page count below one reads as
/// the first page.
pub open spec fn spec_page_start(page: int, page_size: int) -> int {
    if page >= 1 {
        (page - 1) * page_size
    } else {
        0
    }
}

/// Cuts the requested page out of the filtered names, with the page
/// arithmetic the listing shows.
#[verifier::loop_isolation(false)]
pub fn paginate(filtered: Vec<String>, page: usize, page_size: usize) -> (r: PaginatedResult<
    String,
>)
    requires
        page_size >= 1,
        spec_page_start(page as int, page_size as int) <= filtered@.len(),
        filtered@.len() + page_size <= usize::MAX,
    ensures
        r.total == filtered@.len(),
        r.page == page,
        r.page_size == page_size,
        r.total_pages == spec_total_pages(filtered@.len() as int, page_size as int),
        ({
            let start = spec_page_start(page as int, page_size as int);
            let end = if start + page_size <= filtered@.len() {
                start + page_size
            } else {
                filtered@.len() as int
            };
            r.items.deep_view() == filtered.deep_view().subrange(start, end)
        }),
{
    let total = filtered.len();
    let total_pages = if total == 0 {
        0
    } else {
        (total + page_size - 1) / page_size
    };
    let start = page.saturating_sub(1) * page_size;
    let end = if start + page_size <= total {
        start + page_size
    } else {
        total
    };
    let mut items: Vec<String> = Vec::new();
    let mut i: usize = start;
    proof {
        assert(items.deep_view() =~= filtered.deep_view().subrange(start as int, start as int));
    }
    while i < end
        invariant
            start <= i <= end <= filtered@.len(),
            items.deep_view() == filtered.deep_view().subrange(start as int, i as int),
        decreases end - i,
    {
        let ghost dv0 = items.deep_view();
        items.push(filtered[i].clone());
        proof {
            assert(items.deep_view() =~= dv0.push(filtered.deep_view()[i as int]));
            assert(items.deep_view() =~= filtered.deep_view().subrange(start as int, i + 1 as int));
        }
        i += 1;
    }
    PaginatedResult { items, total, page, page_size, total_pages }
}

pub proof fn lemma_cmp_nums_antisym(a: Seq<int>, b: Seq<int>)
    ensures
        cmp_nums(a, b) == -cmp_nums(b, a),
    decreases a.len(),
{
    if a.len() > 0 && b.len() > 0 && a[0] == b[0] {
        lemma_cmp_nums_antisym(a.drop_first(), b.drop_first());
    }
}

pub proof fn lemma_cmp_nums_trans(a: Seq<int>, b: Seq<int>, c: Seq<int>)
    requires
        cmp_nums(a, b) >= 0,
        cmp_nums(b, c) >= 0,
    ensures
        cmp_nums(a, c) >= 0,
    decreases a.len(),
{
    if a.len() > 0 && b.len() > 0 && c.len() > 0 && a[0] == b[0] && b[0] == c[0] {
        lemma_cmp_nums_trans(a.drop_first(), b.drop_first(), c.drop_first());
    }
}

pub proof fn lemma_cmp_nums_trans_le(a: Seq<int>, b: Seq<int>, c: Seq<int>)
    requires
        cmp_nums(a, b) <= 0,
        cmp_nums(b, c) <= 0,
    ensures
        cmp_nums(a, c) <= 0,
    decreases a.len(),
{
    if a.len() > 0 && b.len() > 0 && c.len() > 0 && a[0] == b[0] && b[0] == c[0] {
        lemma_cmp_nums_trans_le(a.drop_first(), b.drop_first(), c.drop_first());
    }
}

/// Compares two number lists lexicographically.
#[verifier::loop_isolation(false)]
fn cmp_u32_lists(x: &Vec<u32>, y: &Vec<u32>) -> (r: i8)
    ensures
        r as int == cmp_nums(nums_as_ints(x@), nums_as_ints(y@)),
{
    let ghost a = nums_as_ints(x@);
    let ghost b = nums_as_ints(y@);
    let mut i: usize = 0;
    while i < x.len() && i < y.len()
        invariant
            i <= x@.len(),
            i <= y@.len(),
            forall|k: int| 0 <= k < i ==> a[k] == b[k],
        decreases x@.len() - i,
    {
        if x[i] < y[i] {
            proof {
                lemma_cmp_nums_skip(a, b, i as int);
            }
            return -1;
        }
        if x[i] > y[i] {
            proof {
                lemma_cmp_nums_skip(a, b, i as int);
            }
            return 1;
        }
        i += 1;
    }
    proof {
        lemma_cmp_nums_skip(a, b, i as int);
    }
    if x.len() == y.len() {
        0
    } else if x.len() < y.len() {
        -1
    } else {
        1
    }
}

/// The characters of a text, as code points.
pub open spec fn chars_as_ints(s: Seq<char>) -> Seq<int> {
    s.map(|_i: int, c: char| (c as u32) as int)
}

/// Compares two texts by code point.
#[verifier::loop_isolation(false)]
fn cmp_char_lists(x: &Vec<char>, y: &Vec<char>) -> (r: i8)
    ensures
        r as int == cmp_nums(chars_as_ints(x@), chars_as_ints(y@)),
{
    let ghost a = chars_as_ints(x@);
    let ghost b = chars_as_ints(y@);
    let mut i: usize = 0;
    while i < x.len() && i < y.len()
        invariant
            i <= x@.len(),
            i <= y@.len(),
            forall|k: int| 0 <= k < i ==> a[k] == b[k],
        decreases x@.len() - i,
    {
        proof {
            assert(a[i as int] == (x@[i as int] as u32) as int);
            assert(b[i as int] == (y@[i as int] as u32) as int);
        }
        if (x[i] as u32) < (y[i] as u32) {
            proof {
                lemma_cmp_nums_skip(a, b, i as int);
                assert(a.skip(i as int)[0] == a[i as int]);
                assert(b.skip(i as int)[0] == b[i as int]);
            }
            return -1;
        }
        if (x[i] as u32) > (y[i] as u32) {
            proof {
                lemma_cmp_nums_skip(a, b, i as int);
                assert(a.skip(i as int)[0] == a[i as int]);
                assert(b.skip(i as int)[0] == b[i as int]);
            }
            return 1;
        }
        i += 1;
    }
    proof {
        lemma_cmp_nums_skip(a, b, i as int);
        assert(a.len() == x@.len() && b.len() == y@.len());
    }
    if x.len() == y.len() {
        0
    } else if x.len() < y.len() {
        -1
    } else {
        1
    }
}

/// The case-folded text of a name, as the name sort orders it.
pub uninterp spec fn lower_of(s: Seq<char>) -> Seq<char>;

/// Relies on str::to_lowercase: the folded text is a function of the
/// characters alone.
#[verifier::external_body]
fn lowercase(s: &str) -> (r: String)
    ensures
        r@ == lower_of(s@),
{
    s.to_lowercase()
}

/// The key the name sort compares: the code points of the case-folded name.
pub open spec fn spec_name_key(name: Seq<char>) -> Seq<int> {
    chars_as_ints(lower_of(name))
}

/// Compares two package names case-insensitively.
fn name_cmp(a: &str, b: &str) -> (r: i8)
    ensures
        r as int == cmp_nums(spec_name_key(a@), spec_name_key(b@)),
{
    let la = lowercase(a);
    let lb = lowercase(b);
    let ca = str_to_chars(la.as_str());
    let cb = str_to_chars(lb.as_str());
    cmp_char_lists(&ca, &cb)
}

/// Compares two versions by their digit runs.
fn version_cmp(a: &str, b: &str) -> (r: i8)
    ensures
        r as int == cmp_nums(spec_version_key(a@), spec_version_key(b@)),
{
    let va = parse_version_nums(a);
    let vb = parse_version_nums(b);
    cmp_u32_lists(&va, &vb)
}

/// Version lists are shown newest first.
pub open spec fn sorted_versions_desc(v: Seq<Seq<char>>) -> bool {
    forall|x: int, y: int|
        0 <= x < y < v.len() ==> cmp_nums(spec_version_key(v[x]), spec_version_key(v[y])) >= 0
}

/// Sorts version texts newest first, by their digit runs.
#[verifier::loop_isolation(false)]
pub fn sort_versions_desc(versions: Vec<String>) -> (r: Vec<String>)
    ensures
        r.deep_view().to_multiset() == versions.deep_view().to_multiset(),
        r@.len() == versions@.len(),
        sorted_versions_desc(r.deep_view()),
{
    let ghost orig = versions.deep_view();
    let mut r = versions;
    if r.len() <= 1 {
        return r;
    }
    let mut i: usize = 1;
    while i < r.len()
        invariant
            1 <= i,
            r@.len() == orig.len(),
            r.deep_view().to_multiset() == orig.to_multiset(),
            forall|x: int, y: int|
                0 <= x < y < i && y < r@.len() ==> cmp_nums(
                    spec_version_key(r.deep_view()[x]),
                    spec_version_key(r.deep_view()[y]),
                ) >= 0,
        decreases r@.len() - i,
    {
        let ghost dv0 = r.deep_view();
        let x = r.remove(i);
        let ghost dv1 = r.deep_view();
        proof {
            assert(dv1 =~= dv0.remove(i as int));
            assert(dv1.to_multiset() =~= dv0.to_multiset().remove(dv0[i as int]));
        }
        let mut pos: usize = 0;
        while pos < i && version_cmp(r[pos].as_str(), x.as_str()) >= 0
            invariant
                pos <= i,
                i < dv0.len(),
                r@.len() + 1 == orig.len(),
                dv1 == r.deep_view(),
                forall|k: int|
                    0 <= k < pos ==> cmp_nums(
                        spec_version_key(dv1[k]),
                        spec_version_key(x@),
                    ) >= 0,
            decreases i - pos,
        {
            pos += 1;
        }
        r.insert(pos, x);
        let ghost dv2 = r.deep_view();
        proof {
            assert(dv2 =~= dv1.insert(pos as int, x@));
            assert(dv2.to_multiset() =~= dv1.to_multiset().insert(x@));
            assert(dv0[i as int] == x@);
            assert(dv2.to_multiset() =~= dv0.to_multiset()) by {
                assert(dv0.to_multiset().count(x@) > 0) by {
                    assert(dv0.contains(x@));
                }
                assert(dv2.to_multiset() =~= dv0.to_multiset().remove(x@).insert(x@));
            }
            // everything in the old prefix keeps its place relative to dv0
            assert(forall|k: int| 0 <= k < i ==> dv1[k] == dv0[k]);
            if pos < i {
                // the element right after the insertion point goes below x
                assert(cmp_nums(spec_version_key(dv1[pos as int]), spec_version_key(x@)) < 0);
                lemma_cmp_nums_antisym(spec_version_key(dv1[pos as int]), spec_version_key(x@));
            }
            // the prefix up to and including the inserted element is ordered
            assert forall|a: int, b: int|
                0 <= a < b < i + 1 && b < dv2.len() implies cmp_nums(
                spec_version_key(dv2[a]),
                spec_version_key(dv2[b]),
            ) >= 0 by {
                if b < pos {
                    assert(dv2[a] == dv1[a] && dv2[b] == dv1[b]);
                } else if a < pos && b == pos {
                    assert(dv2[a] == dv1[a] && dv2[b] == x@);
                } else if a < pos && b > pos {
                    assert(dv2[a] == dv1[a] && dv2[b] == dv1[b - 1]);
                } else if a == pos {
                    assert(dv2[a] == x@ && dv2[b] == dv1[b - 1]);
                    if b - 1 > pos {
                        lemma_cmp_nums_trans(
                            spec_version_key(x@),
                            spec_version_key(dv1[pos as int]),
                            spec_version_key(dv1[b - 1]),
                        );
                    }
                } else {
                    assert(dv2[a] == dv1[a - 1] && dv2[b] == dv1[b - 1]);
                }
            }
        }
        i += 1;
    }
    r
}

/// Directory listings are shown in case-insensitive name order; an entry is
/// a package directory with its full name.
pub open spec fn sorted_by_name(v: Seq<(Seq<char>, Seq<char>)>) -> bool {
    forall|x: int, y: int|
        0 <= x < y < v.len() ==> cmp_nums(spec_name_key(v[x].1), spec_name_key(v[y].1)) <= 0
}

/// Sorts collected package directories by name, case-insensitively; each
/// pair carries the directory path and the full package name.
#[verifier::loop_isolation(false)]
pub fn sort_package_dirs(entries: Vec<(String, String)>) -> (r: Vec<(String, String)>)
    ensures
        r.deep_view().to_multiset() == entries.deep_view().to_multiset(),
        r@.len() == entries@.len(),
        sorted_by_name(r.deep_view()),
{
    let ghost orig = entries.deep_view();
    let mut r = entries;
    if r.len() <= 1 {
        return r;
    }
    let mut i: usize = 1;
    while i < r.len()
        invariant
            1 <= i,
            r@.len() == orig.len(),
            r.deep_view().to_multiset() == orig.to_multiset(),
            forall|x: int, y: int|
                0 <= x < y < i && y < r@.len() ==> cmp_nums(
                    spec_name_key(r.deep_view()[x].1),
                    spec_name_key(r.deep_view()[y].1),
                ) <= 0,
        decreases r@.len() - i,
    {
        let ghost dv0 = r.deep_view();
        let x = r.remove(i);
        let ghost dv1 = r.deep_view();
        let ghost xv = (x.0@, x.1@);
        proof {
            assert(dv1 =~= dv0.remove(i as int));
            assert(dv1.to_multiset() =~= dv0.to_multiset().remove(dv0[i as int]));
        }
        let mut pos: usize = 0;
        while pos < i && name_cmp(r[pos].1.as_str(), x.1.as_str()) <= 0
            invariant
                pos <= i,
                i < dv0.len(),
                r@.len() + 1 == orig.len(),
                dv1 == r.deep_view(),
                forall|k: int|
                    0 <= k < pos ==> cmp_nums(spec_name_key(dv1[k].1), spec_name_key(xv.1)) <= 0,
            decreases i - pos,
        {
            pos += 1;
        }
        r.insert(pos, x);
        let ghost dv2 = r.deep_view();
        proof {
            assert(dv2 =~= dv1.insert(pos as int, xv));
            assert(dv2.to_multiset() =~= dv1.to_multiset().insert(xv));
            assert(dv0[i as int] == xv);
            assert(dv2.to_multiset() =~= dv0.to_multiset()) by {
                assert(dv0.to_multiset().count(xv) > 0) by {
                    assert(dv0.contains(xv));
                }
                assert(dv2.to_multiset() =~= dv0.to_multiset().remove(xv).insert(xv));
            }
            assert(forall|k: int| 0 <= k < i ==> dv1[k] == dv0[k]);
            if pos < i {
                // the element right after the insertion point goes above x
                assert(cmp_nums(spec_name_key(dv1[pos as int].1), spec_name_key(xv.1)) > 0);
                lemma_cmp_nums_antisym(spec_name_key(dv1[pos as int].1), spec_name_key(xv.1));
            }
            assert forall|a: int, b: int|
                0 <= a < b < i + 1 && b < dv2.len() implies cmp_nums(
                spec_name_key(dv2[a].1),
                spec_name_key(dv2[b].1),
            ) <= 0 by {
                if b < pos {
                    assert(dv2[a] == dv1[a] && dv2[b] == dv1[b]);
                } else if a < pos && b == pos {
                    assert(dv2[a] == dv1[a] && dv2[b] == xv);
                } else if a < pos && b > pos {
                    assert(dv2[a] == dv1[a] && dv2[b] == dv1[b - 1]);
                } else if a == pos {
                    assert(dv2[a] == xv && dv2[b] == dv1[b - 1]);
                    if b - 1 > pos {
                        lemma_cmp_nums_trans_le(
                            spec_name_key(xv.1),
                            spec_name_key(dv1[pos as int].1),
                            spec_name_key(dv1[b - 1].1),
                        );
                    }
                } else {
                    assert(dv2[a] == dv1[a - 1] && dv2[b] == dv1[b - 1]);
                }
            }
        }
        i += 1;
    }
    r
}

/// The version shown as current: the `latest` dist tag, or a placeholder
/// when the manifest names none.
pub open spec fn spec_latest(json: JsonValue) -> Seq<char> {
    match spec_get(json, "dist-tags"@) {
        Some(dt) => match spec_str_field(dt, "latest"@) {
            Some(s) => s,
            None => "0.0.0"@,
        },
        None => "0.0.0"@,
    }
}

/// The manifest record of the current version.
pub open spec fn spec_latest_info(json: JsonValue) -> Option<JsonValue> {
    match spec_get(json, "versions"@) {
        Some(vs) => spec_get(vs, spec_latest(json)),
        None => None,
    }
}

/// An author field: the text itself, or the `name` of an author record.
pub open spec fn spec_parse_author(v: JsonValue) -> Option<Seq<char>> {
    match v {
        JsonValue::Str(s) => Some(s@),
        JsonValue::Object(_) => spec_str_field(v, "name"@),
        _ => None,
    }
}

/// A repository field: the text itself, or the `url` of a repository record.
pub open spec fn spec_parse_repository(v: JsonValue) -> Option<Seq<char>> {
    match v {
        JsonValue::Str(s) => Some(s@),
        JsonValue::Object(_) => spec_str_field(v, "url"@),
        _ => None,
    }
}

/// A field of the current version's record, with a fallback to the same
/// field at the top of the manifest.
pub open spec fn spec_info_str_field(json: JsonValue, key: Seq<char>) -> Option<Seq<char>> {
    let from_latest = match spec_latest_info(json) {
        Some(info) => spec_str_field(info, key),
        None => None,
    };
    match from_latest {
        Some(s) => Some(s),
        None => spec_str_field(json, key),
    }
}

/// The author shown: the current version's author, else the manifest's.
pub open spec fn spec_author(json: JsonValue) -> Option<Seq<char>> {
    let from_latest = match spec_latest_info(json) {
        Some(info) => match spec_get(info, "author"@) {
            Some(a) => spec_parse_author(a),
            None => None,
        },
        None => None,
    };
    match from_latest {
        Some(a) => Some(a),
        None => match spec_get(json, "author"@) {
            Some(a) => spec_parse_author(a),
            None => None,
        },
    }
}

/// The repository shown: taken from the current version's record alone.
pub open spec fn spec_repository(json: JsonValue) -> Option<Seq<char>> {
    match spec_latest_info(json) {
        Some(info) => match spec_get(info, "repository"@) {
            Some(v) => spec_parse_repository(v),
            None => None,
        },
        None => None,
    }
}

/// The strings among the given values, in order.
pub open spec fn spec_str_items(items: Seq<JsonValue>) -> Seq<Seq<char>>
    decreases items.len(),
{
    if items.len() == 0 {
        Seq::empty()
    } else {
        let prev = spec_str_items(items.drop_last());
        match spec_as_str(items.last()) {
            Some(s) => prev.push(s),
            None => prev,
        }
    }
}

/// The keywords shown: the strings of the current version's keyword list.
pub open spec fn spec_keywords(json: JsonValue) -> Seq<Seq<char>> {
    match spec_latest_info(json) {
        Some(info) => match spec_get(info, "keywords"@) {
            Some(JsonValue::Array(items)) => spec_str_items(items@),
            _ => Seq::empty(),
        },
        None => Seq::empty(),
    }
}

/// The field names of an object, in order.
pub open spec fn spec_obj_keys(fields: Seq<(String, JsonValue)>) -> Seq<Seq<char>> {
    fields.map(|_i: int, f: (String, JsonValue)| f.0@)
}

/// Every version the manifest records.
pub open spec fn spec_version_keys(json: JsonValue) -> Seq<Seq<char>> {
    match spec_get(json, "versions"@) {
        Some(JsonValue::Object(fields)) => spec_obj_keys(fields@),
        _ => Seq::empty(),
    }
}

/// A field of a time record at the top of the manifest.
pub open spec fn spec_time_field(json: JsonValue, key: Seq<char>) -> Option<Seq<char>> {
    match spec_get(json, "time"@) {
        Some(t) => spec_str_field(t, key),
        None => None,
    }
}

/// Reads an author field.
pub fn parse_author(v: &JsonValue) -> (r: Option<String>)
    ensures
        r.deep_view() == spec_parse_author(*v),
{
    match v {
        JsonValue::Str(s) => Some(s.clone()),
        JsonValue::Object(_) => match v.str_field("name") {
            Some(s) => Some(s.clone()),
            None => None,
        },
        _ => None,
    }
}

/// Reads a repository field.
pub fn parse_repository(v: &JsonValue) -> (r: Option<String>)
    ensures
        r.deep_view() == spec_parse_repository(*v),
{
    match v {
        JsonValue::Str(s) => Some(s.clone()),
        JsonValue::Object(_) => match v.str_field("url") {
            Some(s) => Some(s.clone()),
            None => None,
        },
        _ => None,
    }
}

fn cloned_str_field(v: &JsonValue, key: &str) -> (r: Option<String>)
    ensures
        r.deep_view() == spec_str_field(*v, key@),
{
    match v.str_field(key) {
        Some(s) => Some(s.clone()),
        None => None,
    }
}

fn info_str_field(json: &JsonValue, latest_info: Option<&JsonValue>, key: &str) -> (r: Option<
    String,
>)
    requires
        match latest_info {
            Some(info) => spec_latest_info(*json) == Some(*info),
            None => spec_latest_info(*json) is None,
        },
    ensures
        r.deep_view() == spec_info_str_field(*json, key@),
{
    let from_latest = match latest_info {
        Some(info) => cloned_str_field(info, key),
        None => None,
    };
    match from_latest {
        Some(s) => Some(s),
        None => cloned_str_field(json, key),
    }
}

/// Assembles what the boundary shows of one package from its parsed
/// manifest: the current version and its details, every recorded version
/// newest first, and the descriptive fields with their fallbacks.
#[verifier::loop_isolation(false)]
pub fn read_package_info(json: &JsonValue, name: &str) -> (r: PackageInfo)
    ensures
        r.name@ == name@,
        r.version@ == spec_latest(*json),
        r.description.deep_view() == spec_info_str_field(*json, "description"@),
        r.author.deep_view() == spec_author(*json),
        r.license.deep_view() == spec_info_str_field(*json, "license"@),
        r.versions.deep_view().to_multiset() == spec_version_keys(*json).to_multiset(),
        r.versions@.len() == spec_version_keys(*json).len(),
        sorted_versions_desc(r.versions.deep_view()),
        r.keywords.deep_view() == spec_keywords(*json),
        r.homepage.deep_view() == (match spec_latest_info(*json) {
            Some(info) => spec_str_field(info, "homepage"@),
            None => None,
        }),
        r.repository.deep_view() == spec_repository(*json),
        r.created.deep_view() == spec_time_field(*json, "created"@),
        r.modified.deep_view() == spec_time_field(*json, "modified"@),
{
    let latest: String = match json.get("dist-tags") {
        Some(dt) => match dt.str_field("latest") {
            Some(s) => s.clone(),
            None => "0.0.0".to_owned(),
        },
        None => "0.0.0".to_owned(),
    };
    let latest_info: Option<&JsonValue> = match json.get("versions") {
        Some(vs) => vs.get(latest.as_str()),
        None => None,
    };
    let mut keys: Vec<String> = Vec::new();
    match json.get("versions") {
        Some(vs) => {
            match vs.as_object() {
                Some(fields) => {
                    let n = fields.len();
                    let mut i: usize = 0;
                    proof {
                        assert(keys.deep_view() =~= spec_obj_keys(fields@.subrange(0, 0)));
                    }
                    while i < n
                        invariant
                            i <= n,
                            n == fields@.len(),
                            keys.deep_view() == spec_obj_keys(fields@.subrange(0, i as int)),
                        decreases n - i,
                    {
                        let ghost dv0 = keys.deep_view();
                        keys.push(fields[i].0.clone());
                        proof {
                            assert(keys.deep_view() =~= dv0.push(fields@[i as int].0@));
                            assert(keys.deep_view() =~= spec_obj_keys(
                                fields@.subrange(0, i + 1 as int),
                            ));
                        }
                        i += 1;
                    }
                    proof {
                        assert(fields@.subrange(0, n as int) =~= fields@);
                    }
                },
                None => {},
            }
        },
        None => {},
    }
    let versions = sort_versions_desc(keys);
    let author_from_latest: Option<String> = match latest_info {
        Some(info) => match info.get("author") {
            Some(a) => parse_author(a),
            None => None,
        },
        None => None,
    };
    let author: Option<String> = match author_from_latest {
        Some(a) => Some(a),
        None => match json.get("author") {
            Some(a) => parse_author(a),
            None => None,
        },
    };
    let mut keywords: Vec<String> = Vec::new();
    match latest_info {
        Some(info) => {
            match info.get("keywords") {
                Some(k) => {
                    match k.as_array() {
                        Some(items) => {
                            let n = items.len();
                            let mut i: usize = 0;
                            while i < n
                                invariant
                                    i <= n,
                                    n == items@.len(),
                                    keywords.deep_view() == spec_str_items(
                                        items@.subrange(0, i as int),
                                    ),
                                decreases n - i,
                            {
                                let ghost dv0 = keywords.deep_view();
                                proof {
                                    assert(items@.subrange(0, i + 1 as int).drop_last()
                                        =~= items@.subrange(0, i as int));
                                }
                                match items[i].as_str() {
                                    Some(s) => {
                                        keywords.push(s.clone());
                                        proof {
                                            assert(keywords.deep_view() =~= dv0.push(s@));
                                        }
                                    },
                                    None => {},
                                }
                                i += 1;
                            }
                            proof {
                                assert(items@.subrange(0, n as int) =~= items@);
                            }
                        },
                        None => {},
                    }
                },
                None => {},
            }
        },
        None => {},
    }
    let homepage: Option<String> = match latest_info {
        Some(info) => cloned_str_field(info, "homepage"),
        None => None,
    };
    let repository: Option<String> = match latest_info {
        Some(info) => match info.get("repository") {
            Some(v) => parse_repository(v),
            None => None,
        },
        None => None,
    };
    let description = info_str_field(json, latest_info, "description");
    let license = info_str_field(json, latest_info, "license");
    let created: Option<String> = match json.get("time") {
        Some(t) => cloned_str_field(t, "created"),
        None => None,
    };
    let modified: Option<String> = match json.get("time") {
        Some(t) => cloned_str_field(t, "modified"),
        None => None,
    };
    PackageInfo {
        name: name.to_owned(),
        version: latest,
        description,
        author,
        license,
        versions,
        keywords,
        homepage,
        repository,
        created,
        modified,
    }
}

/// The version a manifest names, or a placeholder when it names none.
pub fn version_from_manifest(json: &JsonValue) -> (r: String)
    ensures
        r@ == (match spec_str_field(*json, "version"@) {
            Some(s) => s,
            None => "unknown"@,
        }),
{
    match json.str_field("version") {
        Some(s) => s.clone(),
        None => "unknown".to_owned(),
    }
}

/// How many deletions succeeded.
pub open spec fn spec_ok_count(o: Seq<(Seq<char>, Option<Seq<char>>)>) -> int
    decreases o.len(),
{
    if o.len() == 0 {
        0
    } else {
        spec_ok_count(o.drop_last()) + if o.last().1 is None {
            1int
        } else {
            0int
        }
    }
}

/// The failure notes of a deletion run, one `name: detail` piece each.
pub open spec fn spec_error_parts(o: Seq<(Seq<char>, Option<Seq<char>>)>) -> Seq<Seq<char>>
    decreases o.len(),
{
    if o.len() == 0 {
        Seq::empty()
    } else {
        let prev = spec_error_parts(o.drop_last());
        match o.last().1 {
            Some(e) => prev.push(o.last().0 + ": "@ + e),
            None => prev,
        }
    }
}

/// The pieces joined with a separator.
pub open spec fn spec_join(parts: Seq<Seq<char>>, sep: Seq<char>) -> Seq<char>
    decreases parts.len(),
{
    if parts.len() == 0 {
        Seq::empty()
    } else if parts.len() == 1 {
        parts[0]
    } else {
        spec_join(parts.drop_last(), sep) + sep + parts.last()
    }
}

proof fn lemma_ok_count_bounds(o: Seq<(Seq<char>, Option<Seq<char>>)>)
    ensures
        0 <= spec_ok_count(o) <= o.len(),
    decreases o.len(),
{
    if o.len() > 0 {
        lemma_ok_count_bounds(o.drop_last());
    }
}

/// Sums up a batch deletion, each package with its failure detail when it
/// had one: the whole run fails only when nothing was deleted and at least
/// one error came, and then the message joins every failure note.
#[verifier::loop_isolation(false)]
pub fn summarize_deletions(outcomes: &Vec<(String, Option<String>)>) -> (r: Result<usize, String>)
    ensures
        ({
            let o = outcomes.deep_view();
            if spec_ok_count(o) == 0 && spec_error_parts(o).len() > 0 {
                r matches Err(m) && m@ == "Failed to delete: "@ + spec_join(
                    spec_error_parts(o),
                    ", "@,
                )
            } else {
                r == Ok::<usize, String>(spec_ok_count(o) as usize)
            }
        }),
{
    let ghost o = outcomes.deep_view();
    let n = outcomes.len();
    let mut count: usize = 0;
    let mut parts: Vec<String> = Vec::new();
    let mut i: usize = 0;
    proof {
        assert(o.subrange(0, 0) =~= Seq::<(Seq<char>, Option<Seq<char>>)>::empty());
        lemma_ok_count_bounds(o);
    }
    while i < n
        invariant
            i <= n,
            n == outcomes@.len(),
            count <= i,
            count as int == spec_ok_count(o.subrange(0, i as int)),
            parts.deep_view() == spec_error_parts(o.subrange(0, i as int)),
        decreases n - i,
    {
        proof {
            assert(o.subrange(0, i + 1 as int).drop_last() =~= o.subrange(0, i as int));
            assert(o.subrange(0, i + 1 as int).last() == o[i as int]);
        }
        let pair = &outcomes[i];
        match &pair.1 {
            None => {
                count += 1;
            },
            Some(detail) => {
                let ghost dv0 = parts.deep_view();
                let piece = pair.0.clone().concat(": ").concat(detail.as_str());
                proof {
                    assert(piece@ =~= o[i as int].0 + ": "@ + o[i as int].1->Some_0);
                }
                parts.push(piece);
                proof {
                    assert(parts.deep_view() =~= dv0.push(piece@));
                }
            },
        }
        i += 1;
    }
    proof {
        assert(o.subrange(0, n as int) =~= o);
    }
    if count == 0 && parts.len() > 0 {
        let mut msg = "Failed to delete: ".to_owned();
        let ghost pv = parts.deep_view();
        let mut j: usize = 0;
        let mut body = String::new();
        while j < parts.len()
            invariant
                j <= parts@.len(),
                pv == parts.deep_view(),
                j > 0 ==> body@ == spec_join(pv.subrange(0, j as int), ", "@),
                j == 0 ==> body@ == Seq::<char>::empty(),
            decreases parts@.len() - j,
        {
            if j > 0 {
                body.append(", ");
            }
            body.append(parts[j].as_str());
            proof {
                assert(pv.subrange(0, j + 1 as int).drop_last() =~= pv.subrange(0, j as int));
                assert(pv.subrange(0, j + 1 as int).last() == pv[j as int]);
                assert(body@ =~= spec_join(pv.subrange(0, j + 1 as int), ", "@));
            }
            j += 1;
        }
        proof {
            assert(pv.subrange(0, pv.len() as int) =~= pv);
        }
        msg.append(body.as_str());
        Err(msg)
    } else {
        Ok(count)
    }
}

/// The package names of the registry's own listing, when every item names
/// one; the parse fails as a whole otherwise, as the boundary reports it.
pub open spec fn spec_api_names(items: Seq<JsonValue>) -> Option<Seq<Seq<char>>>
    decreases items.len(),
{
    if items.len() == 0 {
        Some(Seq::empty())
    } else {
        match spec_api_names(items.drop_last()) {
            Some(prev) => match spec_str_field(items.last(), "name"@) {
                Some(n) => Some(prev.push(n)),
                None => None,
            },
            None => None,
        }
    }
}

proof fn lemma_api_names_missing(items: Seq<JsonValue>, i: int)
    requires
        0 <= i < items.len(),
        spec_str_field(items[i], "name"@) is None,
    ensures
        spec_api_names(items) is None,
    decreases items.len(),
{
    if i < items.len() - 1 {
        lemma_api_names_missing(items.drop_last(), i);
    }
}

/// Extracts the package names from the registry's own package listing.
#[verifier::loop_isolation(false)]
pub fn package_names_from_api(items: &Vec<JsonValue>) -> (r: Result<Vec<String>, String>)
    ensures
        (match spec_api_names(items@) {
            Some(names) => r matches Ok(v) && v.deep_view() == names,
            None => r matches Err(m) && m@ == "Failed to parse response"@,
        }),
{
    let n = items.len();
    let mut names: Vec<String> = Vec::new();
    let mut i: usize = 0;
    proof {
        assert(items@.subrange(0, 0) =~= Seq::<JsonValue>::empty());
    }
    while i < n
        invariant
            i <= n,
            n == items@.len(),
            spec_api_names(items@.subrange(0, i as int)) == Some(names.deep_view()),
        decreases n - i,
    {
        proof {
            assert(items@.subrange(0, i + 1 as int).drop_last() =~= items@.subrange(0, i as int));
            assert(items@.subrange(0, i + 1 as int).last() == items@[i as int]);
        }
        match items[i].str_field("name") {
            Some(s) => {
                let ghost dv0 = names.deep_view();
                names.push(s.clone());
                proof {
                    assert(names.deep_view() =~= dv0.push(s@));
                }
            },
            None => {
                proof {
                    lemma_api_names_missing(items@, i as int);
                }
                return Err("Failed to parse response".to_owned());
            },
        }
        i += 1;
    }
    proof {
        assert(items@.subrange(0, n as int) =~= items@);
    }
    Ok(names)
}

} // verus!
