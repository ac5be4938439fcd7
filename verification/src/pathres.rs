//! The unique-path resolver and output-name builder.
//!
//! Paths are plain strings here.  The file name is everything after the last
//! `/`; within the file name, a `.` after the first character separates the
//! stem from the extension, taking the last such dot.  A numbered variant of
//! a path rewrites its file name as `<stem>_<count>.<ext>`, or `<stem>_<count>`
//! when there is no extension.  The caller supplies a listing of the paths
//! that currently exist; resolution picks the first candidate not in it.

use vstd::prelude::*;
use vstd::string::StrSliceExecFns;
use vstd::string::StringExecFns;

use crate::errors::RmbgError;

verus! {

/// Where the file name starts: the index right after the last `/`, or `0`
/// when the path has no `/`.
pub open spec fn file_name_start(s: Seq<char>) -> int
    decreases s.len(),
{
    if s.len() == 0 {
        0
    } else if s[s.len() - 1] == '/' {
        s.len() as int
    } else {
        file_name_start(s.drop_last())
    }
}

/// Whether the path has a non-empty file name, and with it an extractable
/// stem: numbered variants can only be formed of such a path.
pub open spec fn has_file_stem(s: Seq<char>) -> bool {
    file_name_start(s) < s.len()
}

/// The index, within a file name, of the dot that separates stem from
/// extension: the last `.` that does not stand first, if any.
pub open spec fn ext_dot(f: Seq<char>) -> Option<int>
    decreases f.len(),
{
    if f.len() <= 1 {
        None
    } else if f[f.len() - 1] == '.' {
        Some(f.len() - 1)
    } else {
        ext_dot(f.drop_last())
    }
}

/// The decimal digit character for `d < 10`.
pub open spec fn digit_char(d: nat) -> char {
    if d == 0 {
        '0'
    } else if d == 1 {
        '1'
    } else if d == 2 {
        '2'
    } else if d == 3 {
        '3'
    } else if d == 4 {
        '4'
    } else if d == 5 {
        '5'
    } else if d == 6 {
        '6'
    } else if d == 7 {
        '7'
    } else if d == 8 {
        '8'
    } else {
        '9'
    }
}

/// The numeric value a decimal digit character stands for.
pub open spec fn char_digit(c: char) -> nat {
    if c == '0' {
        0
    } else if c == '1' {
        1
    } else if c == '2' {
        2
    } else if c == '3' {
        3
    } else if c == '4' {
        4
    } else if c == '5' {
        5
    } else if c == '6' {
        6
    } else if c == '7' {
        7
    } else if c == '8' {
        8
    } else {
        9
    }
}

/// The decimal rendering of `n`, most significant digit first, without
/// leading zeros (except for `n == 0` itself).
pub open spec fn dec_digits(n: nat) -> Seq<char>
    decreases n,
{
    if n < 10 {
        seq![digit_char(n)]
    } else {
        dec_digits(n / 10) + seq![digit_char(n % 10)]
    }
}

/// The number a digit sequence denotes, most significant digit first.
pub open spec fn dec_value(s: Seq<char>) -> nat
    decreases s.len(),
{
    if s.len() == 0 {
        0
    } else {
        dec_value(s.drop_last()) * 10 + char_digit(s.last())
    }
}

/// The `n`-th candidate for a path: the path itself for `n == 0`, and the
/// path with its file name rewritten to `<stem>_<n>.<ext>` (or `<stem>_<n>`
/// without an extension) for `n >= 1`.
pub open spec fn nth_candidate(path: Seq<char>, n: nat) -> Seq<char> {
    if n == 0 {
        path
    } else {
        let fns = file_name_start(path);
        let f = path.subrange(fns, path.len() as int);
        match ext_dot(f) {
            Some(d) => path.subrange(0, fns + d) + seq!['_'] + dec_digits(n) + seq!['.']
                + f.subrange(d + 1, f.len() as int),
            None => path + seq!['_'] + dec_digits(n),
        }
    }
}

/// Whether some string of the listing reads as `p`.
pub open spec fn in_listing(listing: Seq<String>, p: Seq<char>) -> bool {
    exists|i: int| 0 <= i < listing.len() && listing[i]@ == p
}

/// The file-name start lies in the path, nothing after it is a `/`, and a
/// `/` stands right before it unless it is the path's start.
pub proof fn lemma_file_name_start_props(s: Seq<char>)
    ensures
        0 <= file_name_start(s) <= s.len(),
        forall|j: int| file_name_start(s) <= j < s.len() ==> s[j] != '/',
        file_name_start(s) > 0 ==> s[file_name_start(s) - 1] == '/',
    decreases s.len(),
{
    if s.len() == 0 {
    } else if s[s.len() - 1] == '/' {
    } else {
        lemma_file_name_start_props(s.drop_last());
        assert(forall|j: int|
            file_name_start(s) <= j < s.len() - 1 ==> s.drop_last()[j] == s[j] && s[j] != '/');
    }
}

/// Any index with the properties of `lemma_file_name_start_props` is the
/// file-name start.
pub proof fn lemma_file_name_start_unique(s: Seq<char>, i: int)
    requires
        0 <= i <= s.len(),
        forall|j: int| i <= j < s.len() ==> s[j] != '/',
        i > 0 ==> s[i - 1] == '/',
    ensures
        i == file_name_start(s),
{
    lemma_file_name_start_props(s);
    let fns = file_name_start(s);
    if i < fns {
        assert(s[fns - 1] == '/');
    } else if i > fns {
        assert(s[i - 1] != '/');
    }
}

/// The separating dot, when there is one, is a non-leading `.` with no dot
/// after it; otherwise the file name has no non-leading dot.
pub proof fn lemma_ext_dot_props(f: Seq<char>)
    ensures
        match ext_dot(f) {
            Some(d) => {
                &&& 1 <= d < f.len()
                &&& f[d] == '.'
                &&& forall|j: int| d < j < f.len() ==> f[j] != '.'
            },
            None => forall|j: int| 1 <= j < f.len() ==> f[j] != '.',
        },
    decreases f.len(),
{
    if f.len() <= 1 {
    } else if f[f.len() - 1] == '.' {
    } else {
        lemma_ext_dot_props(f.drop_last());
        assert(forall|j: int| 0 <= j < f.len() - 1 ==> f.drop_last()[j] == f[j]);
    }
}

/// Any index with the properties of `lemma_ext_dot_props` is the separating
/// dot.
pub proof fn lemma_ext_dot_unique(f: Seq<char>, d: int)
    requires
        1 <= d < f.len(),
        f[d] == '.',
        forall|j: int| d < j < f.len() ==> f[j] != '.',
    ensures
        ext_dot(f) == Some(d),
{
    lemma_ext_dot_props(f);
    match ext_dot(f) {
        Some(d2) => {
            if d2 < d {
                assert(f[d] != '.');
            } else if d2 > d {
                assert(f[d2] != '.');
            }
        },
        None => {
            assert(f[d] != '.');
        },
    }
}

/// A file name without any non-leading dot has no separating dot.
pub proof fn lemma_ext_dot_none(f: Seq<char>)
    requires
        forall|j: int| 1 <= j < f.len() ==> f[j] != '.',
    ensures
        ext_dot(f) is None,
{
    lemma_ext_dot_props(f);
    match ext_dot(f) {
        Some(d) => {
            assert(f[d] != '.');
        },
        None => {},
    }
}

/// Decimal renderings decode to the number they render.
pub proof fn lemma_dec_digits_value(n: nat)
    ensures
        dec_value(dec_digits(n)) == n,
    decreases n,
{
    if n < 10 {
        assert(dec_digits(n) == seq![digit_char(n)]);
        assert(dec_digits(n).drop_last() =~= Seq::<char>::empty());
        assert(dec_value(Seq::<char>::empty()) == 0);
        assert(char_digit(digit_char(n)) == n);
        assert(dec_digits(n).last() == digit_char(n));
    } else {
        lemma_dec_digits_value(n / 10);
        assert(dec_digits(n).drop_last() =~= dec_digits(n / 10));
        assert(dec_digits(n).last() == digit_char(n % 10));
        assert(char_digit(digit_char(n % 10)) == n % 10);
    }
}

/// A decimal rendering holds at least one character.
pub proof fn lemma_dec_digits_len(n: nat)
    ensures
        dec_digits(n).len() >= 1,
    decreases n,
{
    if n >= 10 {
        lemma_dec_digits_len(n / 10);
    }
}

/// Equal decimal renderings come from equal numbers.
pub proof fn lemma_dec_digits_injective(n: nat, m: nat)
    requires
        dec_digits(n) == dec_digits(m),
    ensures
        n == m,
{
    lemma_dec_digits_value(n);
    lemma_dec_digits_value(m);
}

/// A numbered variant is one underscore and one decimal rendering longer
/// than the path it was formed of.
pub proof fn lemma_candidate_len(path: Seq<char>, n: nat)
    requires
        has_file_stem(path),
        n >= 1,
    ensures
        nth_candidate(path, n).len() == path.len() + 1 + dec_digits(n).len(),
{
    lemma_file_name_start_props(path);
    let fns = file_name_start(path);
    let f = path.subrange(fns, path.len() as int);
    lemma_ext_dot_props(f);
}

/// Distinct counts give distinct numbered variants of one path.
pub proof fn lemma_candidate_injective(path: Seq<char>, n: nat, m: nat)
    requires
        has_file_stem(path),
        n >= 1,
        m >= 1,
        nth_candidate(path, n) == nth_candidate(path, m),
    ensures
        n == m,
{
    lemma_file_name_start_props(path);
    let fns = file_name_start(path);
    let f = path.subrange(fns, path.len() as int);
    lemma_ext_dot_props(f);
    lemma_candidate_len(path, n);
    lemma_candidate_len(path, m);
    let kn = dec_digits(n).len() as int;
    let km = dec_digits(m).len() as int;
    assert(kn == km);
    let a = match ext_dot(f) {
        Some(d) => fns + d + 1,
        None => path.len() as int + 1,
    };
    assert(dec_digits(n) =~= nth_candidate(path, n).subrange(a, a + kn));
    assert(dec_digits(m) =~= nth_candidate(path, m).subrange(a, a + km));
    lemma_dec_digits_injective(n, m);
}

/// With the base path taken and the first `count` numbered variants all
/// present in the listing, the listing holds at least `count + 1` entries:
/// the variants of one path are pairwise distinct.
pub proof fn lemma_candidates_bound(path: Seq<char>, listing: Seq<String>, count: nat)
    requires
        has_file_stem(path),
        in_listing(listing, path),
        forall|m: nat| 1 <= m <= count ==> in_listing(listing, #[trigger] nth_candidate(path, m)),
    ensures
        count + 1 <= listing.len(),
{
    broadcast use vstd::seq_lib::seq_to_set_is_finite;

    let f = |m: int| nth_candidate(path, m as nat);
    let dom = vstd::set_lib::set_int_range(0, count as int + 1);
    vstd::set_lib::lemma_int_range(0, count as int + 1);
    assert forall|m1: int, m2: int|
        dom.contains(m1) && dom.contains(m2) && #[trigger] f(m1) == #[trigger] f(m2) implies m1
        == m2 by {
        if m1 >= 1 && m2 >= 1 {
            lemma_candidate_injective(path, m1 as nat, m2 as nat);
        } else if m1 == 0 && m2 >= 1 {
            lemma_candidate_len(path, m2 as nat);
            lemma_dec_digits_len(m2 as nat);
        } else if m2 == 0 && m1 >= 1 {
            lemma_candidate_len(path, m1 as nat);
            lemma_dec_digits_len(m1 as nat);
        }
    };
    assert(vstd::relations::injective_on(f, dom));
    let img = dom.map(f);
    vstd::set_lib::lemma_map_size(dom, img, f);
    let vs = Seq::new(listing.len(), |i: int| listing[i]@);
    assert forall|x: Seq<char>| img.contains(x) implies vs.to_set().contains(x) by {
        let m = choose|m: int| dom.contains(m) && x == f(m);
        assert(in_listing(listing, nth_candidate(path, m as nat)));
        let i = choose|i: int| 0 <= i < listing.len() && listing[i]@ == x;
        assert(vs[i] == x);
        assert(vs.to_set().contains(vs[i]));
    };
    vstd::set_lib::lemma_len_subset(img, vs.to_set());
    vs.lemma_cardinality_of_set();
}

/// Finds where the file name starts: the index right after the last `/`.
fn find_file_name_start(path: &str) -> (r: usize)
    ensures
        r as int == file_name_start(path@),
{
    let n = path.unicode_len();
    let mut i = n;
    while i > 0
        invariant
            i <= n,
            n == path@.len(),
            forall|j: int| i <= j < n ==> path@[j] != '/',
        decreases i,
    {
        if path.get_char(i - 1) == '/' {
            proof {
                lemma_file_name_start_unique(path@, i as int);
            }
            return i;
        }
        i = i - 1;
    }
    proof {
        lemma_file_name_start_unique(path@, 0);
    }
    0
}

/// Finds the dot separating stem from extension, as an index into the path,
/// given where the file name starts.
fn find_ext_dot(path: &str, fns: usize) -> (r: Option<usize>)
    requires
        fns as int == file_name_start(path@),
        fns < path@.len(),
    ensures
        ({
            let f = path@.subrange(fns as int, path@.len() as int);
            match r {
                Some(k) => fns < k < path@.len() && ext_dot(f) == Some(k - fns),
                None => ext_dot(f) is None,
            }
        }),
{
    let n = path.unicode_len();
    let mut i = n;
    while i > fns + 1
        invariant
            fns + 1 <= i <= n,
            n == path@.len(),
            fns < n,
            forall|j: int| i <= j < n ==> path@[j] != '.',
        decreases i,
    {
        if path.get_char(i - 1) == '.' {
            proof {
                let f = path@.subrange(fns as int, n as int);
                assert(f[i - 1 - fns] == path@[i - 1]);
                assert(forall|j: int|
                    i - fns <= j < f.len() ==> f[j] == path@[fns + j] && f[j] != '.');
                lemma_ext_dot_unique(f, i - 1 - fns);
            }
            return Some(i - 1);
        }
        i = i - 1;
    }
    proof {
        let f = path@.subrange(fns as int, n as int);
        assert(forall|j: int| 1 <= j < f.len() ==> f[j] == path@[fns + j] && f[j] != '.');
        lemma_ext_dot_none(f);
    }
    None
}

/// The one-character string for a decimal digit.
fn digit_str(d: u64) -> (r: &'static str)
    requires
        d < 10,
    ensures
        r@ == seq![digit_char(d as nat)],
{
    if d == 0 {
        proof {
            reveal_strlit("0");
            assert("0"@ =~= seq![digit_char(d as nat)]);
        }
        "0"
    } else if d == 1 {
        proof {
            reveal_strlit("1");
            assert("1"@ =~= seq![digit_char(d as nat)]);
        }
        "1"
    } else if d == 2 {
        proof {
            reveal_strlit("2");
            assert("2"@ =~= seq![digit_char(d as nat)]);
        }
        "2"
    } else if d == 3 {
        proof {
            reveal_strlit("3");
            assert("3"@ =~= seq![digit_char(d as nat)]);
        }
        "3"
    } else if d == 4 {
        proof {
            reveal_strlit("4");
            assert("4"@ =~= seq![digit_char(d as nat)]);
        }
        "4"
    } else if d == 5 {
        proof {
            reveal_strlit("5");
            assert("5"@ =~= seq![digit_char(d as nat)]);
        }
        "5"
    } else if d == 6 {
        proof {
            reveal_strlit("6");
            assert("6"@ =~= seq![digit_char(d as nat)]);
        }
        "6"
    } else if d == 7 {
        proof {
            reveal_strlit("7");
            assert("7"@ =~= seq![digit_char(d as nat)]);
        }
        "7"
    } else if d == 8 {
        proof {
            reveal_strlit("8");
            assert("8"@ =~= seq![digit_char(d as nat)]);
        }
        "8"
    } else {
        proof {
            reveal_strlit("9");
            assert("9"@ =~= seq![digit_char(d as nat)]);
        }
        "9"
    }
}

/// Appends the decimal rendering of `n`, most significant digit first.
fn append_decimal(out: &mut String, n: u64)
    ensures
        final(out)@ == old(out)@ + dec_digits(n as nat),
    decreases n,
{
    if n < 10 {
        out.append(digit_str(n));
        proof {
            assert(final(out)@ =~= old(out)@ + dec_digits(n as nat));
        }
    } else {
        append_decimal(out, n / 10);
        out.append(digit_str(n % 10));
        proof {
            assert(final(out)@ =~= old(out)@ + dec_digits(n as nat));
        }
    }
}

/// Builds the `count`-numbered variant of a path: its file name rewritten to
/// `<stem>_<count>.<ext>`, or `<stem>_<count>` without an extension.  Fails
/// with `PathError` exactly when the path has no file name to rewrite.
pub fn build_candidate(path: &String, count: u64) -> (r: Result<String, RmbgError>)
    requires
        count >= 1,
    ensures
        match r {
            Ok(c) => has_file_stem(path@) && c@ == nth_candidate(path@, count as nat),
            Err(e) => e == RmbgError::PathError && !has_file_stem(path@),
        },
{
    let n = path.as_str().unicode_len();
    let fns = find_file_name_start(path.as_str());
    proof {
        lemma_file_name_start_props(path@);
    }
    if fns == n {
        return Err(RmbgError::PathError);
    }
    match find_ext_dot(path.as_str(), fns) {
        Some(k) => {
            let mut out = String::from_str(path.as_str().substring_char(0, k));
            out.append("_");
            append_decimal(&mut out, count);
            out.append(".");
            out.append(path.as_str().substring_char(k + 1, n));
            proof {
                reveal_strlit("_");
                reveal_strlit(".");
                assert("_"@ =~= seq!['_']);
                assert("."@ =~= seq!['.']);
                let f = path@.subrange(fns as int, n as int);
                assert(f.subrange(k - fns + 1, f.len() as int) =~= path@.subrange(
                    k + 1,
                    n as int,
                ));
                assert(out@ =~= nth_candidate(path@, count as nat));
            }
            Ok(out)
        },
        None => {
            let mut out = String::from_str(path.as_str());
            out.append("_");
            append_decimal(&mut out, count);
            proof {
                reveal_strlit("_");
                assert("_"@ =~= seq!['_']);
                assert(out@ =~= nth_candidate(path@, count as nat));
            }
            Ok(out)
        },
    }
}

/// Whether the listing holds a string that reads as `p`.
fn contains_path(existing: &Vec<String>, p: &String) -> (r: bool)
    ensures
        r == in_listing(existing@, p@),
{
    let mut i: usize = 0;
    while i < existing.len()
        invariant
            i <= existing@.len(),
            forall|j: int| 0 <= j < i ==> existing@[j]@ != p@,
        decreases existing@.len() - i,
    {
        if existing[i] == *p {
            proof {
                assert(existing@[i as int]@ == p@);
            }
            return true;
        }
        i = i + 1;
    }
    false
}

/// The unique-path resolver: returns the given path when no entry of the
/// listing reads as it; otherwise the first numbered variant
/// `<stem>_<count>.<ext>` (counting from 1) that no entry reads as.  Fails
/// with `PathError` exactly when the path itself is taken and its file name
/// is empty, so that no variant can be formed.
pub fn get_unique_file_path(path: &String, existing: &Vec<String>) -> (r: Result<
    String,
    RmbgError,
>)
    ensures
        r matches Ok(p) ==> {
            &&& !in_listing(existing@, p@)
            &&& (!in_listing(existing@, path@) ==> p@ == path@)
            &&& (in_listing(existing@, path@) ==> exists|n: nat|
                1 <= n && p@ == nth_candidate(path@, n) && (forall|m: nat|
                    1 <= m < n ==> in_listing(existing@, #[trigger] nth_candidate(path@, m))))
        },
        r matches Err(e) ==> e == RmbgError::PathError,
        r is Err <==> (in_listing(existing@, path@) && !has_file_stem(path@)),
{
    if !contains_path(existing, path) {
        return Ok(path.clone());
    }
    let total = existing.len();
    let mut count: usize = 1;
    loop
        invariant
            total == existing@.len(),
            1 <= count <= existing@.len(),
            in_listing(existing@, path@),
            forall|m: nat|
                1 <= m < count ==> in_listing(existing@, #[trigger] nth_candidate(path@, m)),
        decreases existing@.len() - count,
    {
        match build_candidate(path, count as u64) {
            Err(e) => {
                return Err(e);
            },
            Ok(cand) => {
                if !contains_path(existing, &cand) {
                    proof {
                        assert(1 <= count as nat && cand@ == nth_candidate(path@, count as nat)
                            && (forall|m: nat|
                            1 <= m < count as nat ==> in_listing(
                                existing@,
                                #[trigger] nth_candidate(path@, m),
                            )));
                    }
                    return Ok(cand);
                }
                proof {
                    assert(forall|m: nat|
                        1 <= m <= count as nat ==> in_listing(
                            existing@,
                            #[trigger] nth_candidate(path@, m),
                        ));
                    lemma_candidates_bound(path@, existing@, count as nat);
                }
                count = count + 1;
            },
        }
    }
}

/// A directory and a file name joined with `/`, which is not doubled when
/// the directory already ends in one.
pub open spec fn joined(dir: Seq<char>, name: Seq<char>) -> Seq<char> {
    if dir.len() == 0 || dir.last() == '/' {
        dir + name
    } else {
        dir + seq!['/'] + name
    }
}

/// The output file name derived from an input path: its stem followed by
/// `-rmbg.png`.
pub open spec fn output_name(input: Seq<char>) -> Seq<char> {
    let fns = file_name_start(input);
    let f = input.subrange(fns, input.len() as int);
    let stem = match ext_dot(f) {
        Some(d) => f.subrange(0, d),
        None => f,
    };
    stem + "-rmbg.png"@
}

/// Builds the candidate output path: the input's stem plus `-rmbg.png`,
/// joined onto the output directory.  Fails with `PathError` exactly when
/// the input path has no file name, and with it no stem.
pub fn build_output_candidate(dir: &str, input: &str) -> (r: Result<String, RmbgError>)
    ensures
        match r {
            Ok(c) => has_file_stem(input@) && c@ == joined(dir@, output_name(input@)),
            Err(e) => e == RmbgError::PathError && !has_file_stem(input@),
        },
{
    let n = input.unicode_len();
    let fns = find_file_name_start(input);
    proof {
        lemma_file_name_start_props(input@);
    }
    if fns == n {
        return Err(RmbgError::PathError);
    }
    let stem_end = match find_ext_dot(input, fns) {
        Some(k) => k,
        None => n,
    };
    let mut out = String::from_str(dir);
    let dn = dir.unicode_len();
    if dn > 0 && dir.get_char(dn - 1) != '/' {
        out.append("/");
    }
    out.append(input.substring_char(fns, stem_end));
    out.append("-rmbg.png");
    proof {
        reveal_strlit("/");
        assert("/"@ =~= seq!['/']);
        let f = input@.subrange(fns as int, n as int);
        assert(f.subrange(0, stem_end - fns) =~= input@.subrange(fns as int, stem_end as int));
        assert(out@ =~= joined(dir@, output_name(input@)));
    }
    Ok(out)
}

/// When the base path and its first `taken` numbered variants are all in the
/// listing and variant `taken + 1` is free, a result meeting the resolver's
/// contract is exactly variant `taken + 1`.
pub proof fn lemma_resolver_picks_next(
    path: Seq<char>,
    listing: Seq<String>,
    res: Seq<char>,
    taken: nat,
)
    requires
        in_listing(listing, path),
        forall|m: nat| 1 <= m <= taken ==> in_listing(listing, #[trigger] nth_candidate(path, m)),
        !in_listing(listing, nth_candidate(path, (taken + 1) as nat)),
        !in_listing(listing, res),
        exists|n: nat|
            1 <= n && res == nth_candidate(path, n) && (forall|m: nat|
                1 <= m < n ==> in_listing(listing, #[trigger] nth_candidate(path, m))),
    ensures
        res == nth_candidate(path, (taken + 1) as nat),
{
    let n = choose|n: nat|
        1 <= n && res == nth_candidate(path, n) && (forall|m: nat|
            1 <= m < n ==> in_listing(listing, #[trigger] nth_candidate(path, m)));
    if n <= taken {
        assert(in_listing(listing, nth_candidate(path, n)));
    } else if n > taken + 1 {
        assert(in_listing(listing, nth_candidate(path, (taken + 1) as nat)));
    }
}

} // verus!
