//! The repository a working copy points at, and the parsing of its remote URL.

use vstd::prelude::*;

verus! {

/// Owner, repository name and current branch of the working copy.
#[derive(Debug, Clone)]
pub struct GitInfo {
    pub owner: String,
    pub repo: String,
    pub branch: String,
}

/// Why a remote URL names no repository of the platform.
#[derive(Debug, Clone, Copy, PartialEq, Eq, Structural)]
pub enum RemoteUrlError {
    /// Neither the HTTPS nor the SSH form of the platform's URLs.
    UnsupportedFormat,
    /// The path is not of the form `owner/repo`.
    UnparsablePath,
}

pub open spec fn https_prefix() -> Seq<char> {
    "https://github.com/"@
}

pub open spec fn ssh_prefix() -> Seq<char> {
    "git@github.com:"@
}

pub open spec fn starts_with(s: Seq<char>, p: Seq<char>) -> bool {
    p.len() <= s.len() && s.take(p.len() as int) == p
}

/// The path after the host part of the URL.
pub open spec fn path_of(url: Seq<char>) -> Option<Seq<char>> {
    if starts_with(url, https_prefix()) {
        Some(url.skip(https_prefix().len() as int))
    } else if starts_with(url, ssh_prefix()) {
        Some(url.skip(ssh_prefix().len() as int))
    } else {
        None
    }
}

/// Unicode white space.
pub open spec fn is_space(c: char) -> bool {
    ('\t' <= c && c <= '\r') || c == ' ' || c == '\u{85}' || c == '\u{A0}' || c == '\u{1680}'
        || ('\u{2000}' <= c && c <= '\u{200A}') || c == '\u{2028}' || c == '\u{2029}'
        || c == '\u{202F}' || c == '\u{205F}' || c == '\u{3000}'
}

pub open spec fn trim_start(s: Seq<char>) -> Seq<char>
    decreases s.len(),
{
    if s.len() > 0 && is_space(s[0]) {
        trim_start(s.skip(1))
    } else {
        s
    }
}

pub open spec fn trim_end(s: Seq<char>) -> Seq<char>
    decreases s.len(),
{
    if s.len() > 0 && is_space(s.last()) {
        trim_end(s.drop_last())
    } else {
        s
    }
}

pub open spec fn ends_with_git(s: Seq<char>) -> bool {
    s.len() >= 4 && s[s.len() - 4] == '.' && s[s.len() - 3] == 'g' && s[s.len() - 2] == 'i'
        && s[s.len() - 1] == 't'
}

/// Every trailing `.git` removed.
pub open spec fn trim_git(s: Seq<char>) -> Seq<char>
    decreases s.len(),
{
    if ends_with_git(s) {
        trim_git(s.take(s.len() - 4))
    } else {
        s
    }
}

/// `k` is the position of the one `/` in `s`.
pub open spec fn sole_slash(s: Seq<char>, k: int) -> bool {
    &&& 0 <= k < s.len()
    &&& s[k] == '/'
    &&& forall|j: int| 0 <= j < s.len() && j != k ==> s[j] != '/'
}

/// Owner and repository name of a remote URL.
pub open spec fn owner_and_repo(url: Seq<char>) -> Result<(Seq<char>, Seq<char>), RemoteUrlError> {
    match path_of(url) {
        None => Err(RemoteUrlError::UnsupportedFormat),
        Some(p) => {
            let r = trim_git(trim_end(trim_start(p)));
            if exists|k: int| sole_slash(r, k) {
                let k = choose|k: int| sole_slash(r, k);
                Ok((r.take(k), r.skip(k + 1)))
            } else {
                Err(RemoteUrlError::UnparsablePath)
            }
        },
    }
}

fn space(c: char) -> (r: bool)
    ensures
        r == is_space(c),
{
    ('\t' <= c && c <= '\r') || c == ' ' || c == '\u{85}' || c == '\u{A0}' || c == '\u{1680}'
        || ('\u{2000}' <= c && c <= '\u{200A}') || c == '\u{2028}' || c == '\u{2029}'
        || c == '\u{202F}' || c == '\u{205F}' || c == '\u{3000}'
}

fn has_prefix(s: &str, p: &str) -> (r: bool)
    ensures
        r == starts_with(s@, p@),
{
    let n = s.unicode_len();
    let m = p.unicode_len();
    if m > n {
        return false;
    }
    let mut i: usize = 0;
    while i < m
        invariant
            m <= n,
            n == s@.len(),
            m == p@.len(),
            i <= m,
            forall|j: int| 0 <= j < i ==> s@[j] == p@[j],
        decreases m - i,
    {
        if s.get_char(i) != p.get_char(i) {
            assert(s@.take(m as int)[i as int] != p@[i as int]);
            return false;
        }
        i = i + 1;
    }
    assert(s@.take(m as int) =~= p@);
    true
}

/// Splits a remote URL of the form `https://github.com/owner/repo` or
/// `git@github.com:owner/repo`, with surrounding white space and trailing
/// `.git` removed, into its owner and repository name.
pub fn parse_remote_url(url: &str) -> (r: Result<(String, String), RemoteUrlError>)
    ensures
        match r {
            Ok((owner, repo)) => owner_and_repo(url@) == Ok::<_, RemoteUrlError>((owner@, repo@)),
            Err(e) => owner_and_repo(url@) == Err::<(Seq<char>, Seq<char>), _>(e),
        },
{
    let n = url.unicode_len();
    let https = "https://github.com/";
    let ssh = "git@github.com:";
    let start: usize;
    if has_prefix(url, https) {
        start = https.unicode_len();
    } else if has_prefix(url, ssh) {
        start = ssh.unicode_len();
    } else {
        return Err(RemoteUrlError::UnsupportedFormat);
    }
    let ghost path = url@.skip(start as int);
    assert(path_of(url@) == Some(path));
    let mut lo = start;
    assert(url@.subrange(lo as int, n as int) =~= path);
    while lo < n && space(url.get_char(lo))
        invariant
            start <= lo <= n,
            n == url@.len(),
            trim_start(path) == trim_start(url@.subrange(lo as int, n as int)),
        decreases n - lo,
    {
        assert(url@.subrange(lo as int, n as int).skip(1) =~= url@.subrange(lo + 1, n as int));
        lo = lo + 1;
    }
    let mut hi = n;
    assert(trim_start(path) == url@.subrange(lo as int, hi as int));
    while hi > lo && space(url.get_char(hi - 1))
        invariant
            start <= lo <= hi <= n,
            n == url@.len(),
            trim_end(trim_start(path)) == trim_end(url@.subrange(lo as int, hi as int)),
        decreases hi,
    {
        assert(url@.subrange(lo as int, hi as int).drop_last() =~= url@.subrange(
            lo as int,
            hi - 1,
        ));
        hi = hi - 1;
    }
    assert(trim_end(trim_start(path)) == url@.subrange(lo as int, hi as int));
    while hi - lo >= 4 && url.get_char(hi - 4) == '.' && url.get_char(hi - 3) == 'g'
        && url.get_char(hi - 2) == 'i' && url.get_char(hi - 1) == 't'
        invariant
            start <= lo <= hi <= n,
            n == url@.len(),
            trim_git(trim_end(trim_start(path))) == trim_git(url@.subrange(lo as int, hi as int)),
        decreases hi,
    {
        assert(url@.subrange(lo as int, hi as int).take(hi - lo - 4) =~= url@.subrange(
            lo as int,
            hi - 4,
        ));
        hi = hi - 4;
    }
    let ghost rest = url@.subrange(lo as int, hi as int);
    assert(trim_git(trim_end(trim_start(path))) == rest);
    let mut slash: Option<usize> = None;
    let mut j: usize = lo;
    while j < hi
        invariant
            lo <= j <= hi <= n,
            n == url@.len(),
            rest == url@.subrange(lo as int, hi as int),
            path_of(url@) == Some(path),
            trim_git(trim_end(trim_start(path))) == rest,
            match slash {
                None => forall|x: int| lo <= x < j ==> url@[x] != '/',
                Some(k) => lo <= k < j && url@[k as int] == '/' && forall|x: int|
                    lo <= x < j && x != k ==> url@[x] != '/',
            },
        decreases hi - j,
    {
        if url.get_char(j) == '/' {
            match slash {
                None => {
                    slash = Some(j);
                },
                Some(k) => {
                    proof {
                        assert forall|q: int| !sole_slash(rest, q) by {
                            if sole_slash(rest, q) {
                                let a: int = k - lo;
                                let b: int = j - lo;
                                assert(rest[a] == url@[k as int]);
                                assert(rest[b] == url@[j as int]);
                                assert(a != q || b != q);
                            }
                        }
                        assert(owner_and_repo(url@) == Err::<(Seq<char>, Seq<char>), _>(
                            RemoteUrlError::UnparsablePath,
                        ));
                    }
                    return Err(RemoteUrlError::UnparsablePath);
                },
            }
        }
        j = j + 1;
    }
    match slash {
        None => {
            proof {
                assert forall|q: int| !sole_slash(rest, q) by {
                    if sole_slash(rest, q) {
                        assert(url@[lo + q] == '/');
                    }
                }
            }
            Err(RemoteUrlError::UnparsablePath)
        },
        Some(k) => {
            let ghost kk = k - lo;
            assert(sole_slash(rest, kk)) by {
                assert forall|x: int| 0 <= x < rest.len() && x != kk implies rest[x] != '/' by {
                    assert(rest[x] == url@[lo + x]);
                }
            }
            let ghost c = choose|q: int| sole_slash(rest, q);
            assert(c == kk) by {
                if c != kk {
                    assert(rest[c] == '/');
                }
            }
            let owner = url.substring_char(lo, k);
            let repo = url.substring_char(k + 1, hi);
            assert(owner@ =~= rest.take(kk));
            assert(repo@ =~= rest.skip(kk + 1));
            Ok((String::from_str(owner), String::from_str(repo)))
        },
    }
}

} // verus!
