//! The kit store's data handling: normalising repository input, laying out
//! the store list, building request URLs and formatting sizes. Fetching and
//! downloading themselves are the embedding program's job.

use vstd::prelude::*;

use vstd::string::StrSliceExecFns;
use vstd::string::StringExecFns;

use crate::text::chars_starts_with_at;
use crate::text::digit_char;
use crate::text::dec_u64;
use crate::text::spec_dec;
use crate::text::str_to_chars;

verus! {

/// ASCII whitespace, as trimmed from repository input.
pub open spec fn spec_is_space(c: char) -> bool {
    c == ' ' || c == '\t' || c == '\n' || c == '\r'
}

/// The sequence with leading whitespace removed.
pub open spec fn spec_trim_front(s: Seq<char>) -> Seq<char>
    decreases s.len(),
{
    if s.len() > 0 && spec_is_space(s[0]) {
        spec_trim_front(s.skip(1))
    } else {
        s
    }
}

/// The sequence with trailing whitespace removed.
pub open spec fn spec_trim_back(s: Seq<char>) -> Seq<char>
    decreases s.len(),
{
    if s.len() > 0 && spec_is_space(s.last()) {
        spec_trim_back(s.drop_last())
    } else {
        s
    }
}

/// The sequence with one copy of `prefix` removed from the front, when it
/// starts with it.
pub open spec fn spec_strip_prefix(s: Seq<char>, prefix: Seq<char>) -> Seq<char> {
    if s.len() >= prefix.len() && s.take(prefix.len() as int) == prefix {
        s.skip(prefix.len() as int)
    } else {
        s
    }
}

/// The sequence with every trailing `c` removed.
pub open spec fn spec_strip_trailing(s: Seq<char>, c: char) -> Seq<char>
    decreases s.len(),
{
    if s.len() > 0 && s.last() == c {
        spec_strip_trailing(s.drop_last(), c)
    } else {
        s
    }
}

/// How many times `c` occurs in the sequence.
pub open spec fn spec_count_char(s: Seq<char>, c: char) -> nat
    decreases s.len(),
{
    if s.len() == 0 {
        0
    } else {
        spec_count_char(s.drop_last(), c) + (if s.last() == c {
            1nat
        } else {
            0nat
        })
    }
}

/// What normalising repository input yields: trim whitespace, drop an
/// `https://` or `http://` scheme, a `www.` prefix and a `github.com/`
/// prefix, drop trailing slashes, and accept exactly an `owner/repo` pair —
/// one slash, neither side empty.
pub open spec fn spec_normalize_repo(s: Seq<char>) -> Option<Seq<char>> {
    let t = spec_trim_back(spec_trim_front(s));
    let t = spec_strip_prefix(t, "https://"@);
    let t = spec_strip_prefix(t, "http://"@);
    let t = spec_strip_prefix(t, "www."@);
    let t = spec_strip_prefix(t, "github.com/"@);
    let t = spec_strip_trailing(t, '/');
    if spec_count_char(t, '/') == 1 && t.len() > 0 && t[0] != '/' && t.last() != '/' {
        Some(t)
    } else {
        None
    }
}

/// Normalise user input into `owner/repo` form: accepts plain `owner/repo`,
/// `github.com/owner/repo` and full URLs, with or without a trailing slash.
/// Returns nothing when what remains is not exactly one `owner/repo` pair.
#[verifier::rlimit(100)]
pub fn normalize_repo_input(raw: &str) -> (r: Option<String>)
    ensures
        match r {
            Some(out) => spec_normalize_repo(raw@) == Some(out@),
            None => spec_normalize_repo(raw@) is None,
        },
{
    let chars = str_to_chars(raw);
    let n = chars.len();
    let ghost full = chars@;
    proof {
        assert(full.skip(0) =~= full);
    }

    // Trim leading whitespace.
    let mut a: usize = 0;
    while a < n && (chars[a] == ' ' || chars[a] == '\t' || chars[a] == '\n' || chars[a] == '\r')
        invariant
            a <= n,
            n == full.len(),
            full == chars@,
            spec_trim_front(full) == spec_trim_front(full.skip(a as int)),
        decreases n - a,
    {
        proof {
            assert(full.skip(a as int)[0] == full[a as int]);
            assert(full.skip(a as int).skip(1) =~= full.skip(a + 1));
        }
        a = a + 1;
    }
    proof {
        if a == n {
            assert(full.skip(a as int) =~= Seq::<char>::empty());
        }
        assert(spec_trim_front(full) == full.skip(a as int));
    }

    // Trim trailing whitespace.
    let ghost fronted = full.skip(a as int);
    let mut b: usize = n;
    proof {
        assert(full.subrange(a as int, n as int) =~= fronted);
    }
    while b > a && (chars[b - 1] == ' ' || chars[b - 1] == '\t' || chars[b - 1] == '\n' || chars[b
        - 1] == '\r')
        invariant
            a <= b <= n,
            n == full.len(),
            full == chars@,
            fronted == full.skip(a as int),
            spec_trim_back(fronted) == spec_trim_back(full.subrange(a as int, b as int)),
        decreases b,
    {
        proof {
            let cur = full.subrange(a as int, b as int);
            assert(cur.last() == full[b - 1]);
            assert(cur.drop_last() =~= full.subrange(a as int, b - 1));
        }
        b = b - 1;
    }
    proof {
        let cur = full.subrange(a as int, b as int);
        if b == a {
            assert(cur =~= Seq::<char>::empty());
        }
        assert(spec_trim_back(fronted) == cur);
        assert(spec_trim_back(spec_trim_front(full)) == full.subrange(a as int, b as int));
    }

    // Strip the scheme, `www.` and `github.com/` prefixes.
    if chars_starts_with_at(&chars, a, b, "https://") {
        let skip = "https://".unicode_len();
        proof {
            assert(full.subrange(a as int, b as int).skip("https://"@.len() as int)
                =~= full.subrange(a + "https://"@.len(), b as int));
        }
        a = a + skip;
    }
    proof {
        assert(full.subrange(a as int, b as int) == spec_strip_prefix(
            spec_trim_back(spec_trim_front(full)),
            "https://"@,
        ));
    }
    let ghost after_https = full.subrange(a as int, b as int);
    if chars_starts_with_at(&chars, a, b, "http://") {
        let skip = "http://".unicode_len();
        proof {
            assert(full.subrange(a as int, b as int).skip("http://"@.len() as int)
                =~= full.subrange(a + "http://"@.len(), b as int));
        }
        a = a + skip;
    }
    proof {
        assert(full.subrange(a as int, b as int) == spec_strip_prefix(after_https, "http://"@));
    }
    let ghost after_http = full.subrange(a as int, b as int);
    if chars_starts_with_at(&chars, a, b, "www.") {
        let skip = "www.".unicode_len();
        proof {
            assert(full.subrange(a as int, b as int).skip("www."@.len() as int) =~= full.subrange(
                a + "www."@.len(),
                b as int,
            ));
        }
        a = a + skip;
    }
    proof {
        assert(full.subrange(a as int, b as int) == spec_strip_prefix(after_http, "www."@));
    }
    let ghost after_www = full.subrange(a as int, b as int);
    if chars_starts_with_at(&chars, a, b, "github.com/") {
        let skip = "github.com/".unicode_len();
        proof {
            assert(full.subrange(a as int, b as int).skip("github.com/"@.len() as int)
                =~= full.subrange(a + "github.com/"@.len(), b as int));
        }
        a = a + skip;
    }
    proof {
        assert(full.subrange(a as int, b as int) == spec_strip_prefix(
            after_www,
            "github.com/"@,
        ));
    }
    let ghost stripped = full.subrange(a as int, b as int);

    // Strip trailing slashes.
    proof {
        assert(spec_strip_trailing(stripped, '/') == spec_strip_trailing(
            full.subrange(a as int, b as int),
            '/',
        ));
    }
    while b > a && chars[b - 1] == '/'
        invariant
            a <= b <= n,
            n == full.len(),
            full == chars@,
            spec_strip_trailing(stripped, '/') == spec_strip_trailing(
                full.subrange(a as int, b as int),
                '/',
            ),
        decreases b,
    {
        proof {
            let cur = full.subrange(a as int, b as int);
            assert(cur.last() == full[b - 1]);
            assert(cur.drop_last() =~= full.subrange(a as int, b - 1));
        }
        b = b - 1;
    }
    let ghost t = full.subrange(a as int, b as int);
    proof {
        if b == a {
            assert(t =~= Seq::<char>::empty());
        }
        assert(spec_strip_trailing(stripped, '/') == t);
    }

    // Exactly one slash, with a non-empty owner and repository around it.
    let mut slashes: usize = 0;
    let mut i: usize = a;
    proof {
        assert(full.subrange(a as int, a as int) =~= Seq::<char>::empty());
    }
    while i < b
        invariant
            a <= i <= b <= n,
            n == full.len(),
            full == chars@,
            t == full.subrange(a as int, b as int),
            slashes == spec_count_char(full.subrange(a as int, i as int), '/'),
            slashes <= i - a,
        decreases b - i,
    {
        proof {
            let cur = full.subrange(a as int, i + 1);
            assert(cur.drop_last() =~= full.subrange(a as int, i as int));
            assert(cur.last() == full[i as int]);
        }
        if chars[i] == '/' {
            slashes = slashes + 1;
        }
        i = i + 1;
    }
    proof {
        assert(full.subrange(a as int, b as int) == t);
        assert(slashes == spec_count_char(t, '/'));
    }
    if slashes != 1 || b == a || chars[a] == '/' || chars[b - 1] == '/' {
        return None;
    }
    proof {
        assert(t[0] == full[a as int]);
        assert(t.last() == full[b - 1]);
    }
    let out = raw.substring_char(a, b).to_owned();
    proof {
        assert(out@ =~= t);
    }
    Some(out)
}

/// A kit available for download from a remote repository.
#[derive(Debug, Clone, PartialEq)]
pub struct RemoteKit {
    pub name: String,
    pub repo: String,
    pub file_count: usize,
    pub total_bytes: u64,
    pub installed: bool,
}

/// A row in the kit store list: a repository header, or an index into the
/// kit list.
#[derive(Debug, Clone, PartialEq)]
pub enum StoreRow {
    RepoHeader(String),
    Kit(usize),
}

/// The rows the store list shows for a list of kits: each kit in order, with
/// a header row inserted wherever the repository changes.
pub open spec fn spec_store_rows(kits: Seq<RemoteKit>) -> Seq<StoreRow>
    decreases kits.len(),
{
    if kits.len() == 0 {
        Seq::<StoreRow>::empty()
    } else {
        let prev = spec_store_rows(kits.drop_last());
        let i = kits.len() - 1;
        if i == 0 || kits[i - 1].repo@ != kits[i].repo@ {
            prev + seq![
                StoreRow::RepoHeader(kits[i].repo),
                StoreRow::Kit(i as usize),
            ]
        } else {
            prev.push(StoreRow::Kit(i as usize))
        }
    }
}

/// Build the flat store list: kits in order, with a header row wherever the
/// repository changes from the previous kit's.
pub fn build_store_rows(kits: &[RemoteKit]) -> (rows: Vec<StoreRow>)
    ensures
        rows@ == spec_store_rows(kits@),
{
    let mut rows: Vec<StoreRow> = Vec::new();
    let mut i: usize = 0;
    proof {
        assert(kits@.take(0) =~= Seq::<RemoteKit>::empty());
    }
    while i < kits.len()
        invariant
            i <= kits@.len(),
            rows@ == spec_store_rows(kits@.take(i as int)),
        decreases kits@.len() - i,
    {
        proof {
            assert(kits@.take(i + 1).drop_last() =~= kits@.take(i as int));
            assert(kits@.take(i + 1).last() == kits@[i as int]);
            if i > 0 {
                assert(kits@.take(i + 1)[i - 1] == kits@[i - 1]);
            }
        }
        let header = if i == 0 {
            true
        } else {
            kits[i - 1].repo != kits[i].repo
        };
        if header {
            rows.push(StoreRow::RepoHeader(kits[i].repo.clone()));
        }
        rows.push(StoreRow::Kit(i));
        proof {
            assert(rows@ =~= spec_store_rows(kits@.take(i + 1)));
        }
        i = i + 1;
    }
    proof {
        assert(kits@.take(kits@.len() as int) =~= kits@);
    }
    rows
}

/// The GitHub Trees API address that lists a repository's files.
pub fn tree_url(repo: &str) -> (r: String)
    ensures
        r@ == "https://api.github.com/repos/"@ + repo@ + "/git/trees/main?recursive=1"@,
{
    let s = String::from_str("https://api.github.com/repos/");
    let s = s.concat(repo);
    s.concat("/git/trees/main?recursive=1")
}

/// The raw-content base address of a repository's main branch.
pub fn raw_base(repo: &str) -> (r: String)
    ensures
        r@ == "https://raw.githubusercontent.com/"@ + repo@ + "/main"@,
{
    let s = String::from_str("https://raw.githubusercontent.com/");
    let s = s.concat(repo);
    s.concat("/main")
}

/// A byte count shown with one decimal digit of the given unit, rounding
/// half to even as the standard library's float formatting does.
pub open spec fn spec_fixed1(bytes: nat, unit: nat) -> Seq<char> {
    let num = bytes * 10;
    let q = num / unit;
    let r = num % unit;
    let v = if 2 * r > unit {
        q + 1
    } else if 2 * r < unit {
        q
    } else if q % 2 == 0 {
        q
    } else {
        q + 1
    };
    spec_dec(v / 10) + "."@ + seq![digit_char(v % 10)]
}

/// How a byte count is displayed: bytes below 1024, otherwise KB with one
/// decimal, otherwise MB with one decimal.
pub open spec fn spec_format_size(bytes: u64) -> Seq<char> {
    if bytes < 1024 {
        spec_dec(bytes as nat) + " B"@
    } else if bytes < 1048576 {
        spec_fixed1(bytes as nat, 1024) + " KB"@
    } else {
        spec_fixed1(bytes as nat, 1048576) + " MB"@
    }
}

/// One decimal digit of the given unit, rounding half to even.
fn fixed1(bytes: u64, unit: u64) -> (r: String)
    requires
        unit > 0,
    ensures
        r@ == spec_fixed1(bytes as nat, unit as nat),
{
    let num: u128 = bytes as u128 * 10;
    let unit128: u128 = unit as u128;
    let q: u128 = num / unit128;
    let rem: u128 = num % unit128;
    proof {
        assert(bytes as u128 * 10 == bytes as nat * 10) by (nonlinear_arith);
        assert(q == (bytes as nat * 10) / (unit as nat) && rem == (bytes as nat * 10) % (
        unit as nat)) by (nonlinear_arith)
            requires
                num == bytes as nat * 10,
                unit128 == unit as nat,
                unit > 0,
                q == num / unit128,
                rem == num % unit128,
        ;
        assert(q <= num) by (nonlinear_arith)
            requires unit128 >= 1 && q == num / unit128 && num >= 0;
    }
    let v: u128 = if 2 * rem > unit128 {
        q + 1
    } else if 2 * rem < unit128 {
        q
    } else if q % 2 == 0 {
        q
    } else {
        q + 1
    };
    let whole: u64 = (v / 10) as u64;
    let tenth: u64 = (v % 10) as u64;
    proof {
        assert(v / 10 <= v);
        assert(v <= num + 1);
    }
    let s = dec_u64(whole);
    let s = s.concat(".");
    let digit = dec_u64(tenth);
    let s = s.concat(digit.as_str());
    proof {
        reveal_strlit(".");
        assert(spec_dec(tenth as nat) =~= seq![digit_char(v as nat % 10)]);
        assert(s@ =~= spec_fixed1(bytes as nat, unit as nat));
    }
    s
}

/// Format a byte count as a human-readable size: `512 B`, `1.5 KB`, `2.0 MB`.
pub fn format_size(bytes: u64) -> (r: String)
    ensures
        r@ == spec_format_size(bytes),
{
    if bytes < 1024 {
        let s = dec_u64(bytes);
        s.concat(" B")
    } else if bytes < 1048576 {
        let s = fixed1(bytes, 1024);
        s.concat(" KB")
    } else {
        let s = fixed1(bytes, 1048576);
        s.concat(" MB")
    }
}

} // verus!
