//! Path text handling: the file-name component of a path, joining a folder
//! with a file name, and trimming the whitespace a caller may leave around a
//! typed directory.
//!
//! Paths are opaque identifiers to the engine; this module is the one place
//! that looks inside their text. A path's file name is its final segment,
//! found the way `std::path::Path::file_name` finds it: trailing separators
//! and trailing `.` (current-directory) segments are ignored, and there is
//! no usable name when nothing is left or the path ends in a `..`
//! (parent-directory) segment.

use vstd::prelude::*;

use vstd::string::StrSliceExecFns;
use vstd::string::StringExecFns;

verus! {

/// The whitespace trimmed from the ends of a typed directory: the Unicode
/// white-space characters, the set `char::is_whitespace` recognizes.
pub open spec fn is_space_char(c: char) -> bool {
    c == ' ' || c == '\t' || c == '\n' || c == '\u{000B}' || c == '\u{000C}' || c == '\r'
        || c == '\u{0085}' || c == '\u{00A0}' || c == '\u{1680}' || (0x2000 <= c as u32 && c
        as u32 <= 0x200A) || c == '\u{2028}' || c == '\u{2029}' || c == '\u{202F}'
        || c == '\u{205F}' || c == '\u{3000}'
}

/// `s` without its leading whitespace.
pub open spec fn trim_front(s: Seq<char>) -> Seq<char>
    decreases s.len(),
{
    if s.len() > 0 && is_space_char(s.first()) {
        trim_front(s.drop_first())
    } else {
        s
    }
}

/// `s` without its trailing whitespace.
pub open spec fn trim_back(s: Seq<char>) -> Seq<char>
    decreases s.len(),
{
    if s.len() > 0 && is_space_char(s.last()) {
        trim_back(s.drop_last())
    } else {
        s
    }
}

/// `s` without leading and trailing whitespace.
pub open spec fn trimmed(s: Seq<char>) -> Seq<char> {
    trim_back(trim_front(s))
}

proof fn lemma_trim_front_is_suffix(s: Seq<char>, a: int)
    requires
        0 <= a <= s.len(),
        forall|j: int| 0 <= j < a ==> is_space_char(s[j]),
        a < s.len() ==> !is_space_char(s[a]),
    ensures
        trim_front(s) == s.subrange(a, s.len() as int),
    decreases a,
{
    if a == 0 {
        assert(s.subrange(0, s.len() as int) =~= s);
    } else {
        let t = s.drop_first();
        assert(is_space_char(s.first()));
        lemma_trim_front_is_suffix(t, a - 1);
        assert(t.subrange(a - 1, t.len() as int) =~= s.subrange(a, s.len() as int));
    }
}

proof fn lemma_trim_back_is_prefix(t: Seq<char>, k: int)
    requires
        0 <= k <= t.len(),
        forall|j: int| k <= j < t.len() ==> is_space_char(t[j]),
        k > 0 ==> !is_space_char(t[k - 1]),
    ensures
        trim_back(t) == t.subrange(0, k),
    decreases t.len(),
{
    if k == t.len() {
        assert(t.subrange(0, t.len() as int) =~= t);
    } else {
        assert(is_space_char(t.last()));
        lemma_trim_back_is_prefix(t.drop_last(), k);
        assert(t.drop_last().subrange(0, k) =~= t.subrange(0, k));
    }
}

/// Whether `c` is one of the whitespace characters [`trim`] removes.
pub fn is_space(c: char) -> (r: bool)
    ensures
        r == is_space_char(c),
{
    c == ' ' || c == '\t' || c == '\n' || c == '\u{000B}' || c == '\u{000C}' || c == '\r'
        || c == '\u{0085}' || c == '\u{00A0}' || c == '\u{1680}' || (0x2000 <= c as u32 && c
        as u32 <= 0x200A) || c == '\u{2028}' || c == '\u{2029}' || c == '\u{202F}'
        || c == '\u{205F}' || c == '\u{3000}'
}

/// Returns `s` without leading and trailing whitespace.
pub fn trim(s: &str) -> (r: String)
    ensures
        r@ == trimmed(s@),
{
    let n = s.unicode_len();
    let mut a: usize = 0;
    while a < n && is_space(s.get_char(a))
        invariant
            0 <= a <= n,
            n == s@.len(),
            forall|j: int| 0 <= j < a ==> is_space_char(s@[j]),
        decreases n - a,
    {
        a = a + 1;
    }
    let mut b: usize = n;
    while b > a && is_space(s.get_char(b - 1))
        invariant
            a <= b <= n,
            n == s@.len(),
            forall|j: int| b <= j < n ==> is_space_char(s@[j]),
        decreases b,
    {
        b = b - 1;
    }
    proof {
        lemma_trim_front_is_suffix(s@, a as int);
        let t = s@.subrange(a as int, n as int);
        assert(forall|j: int| b - a <= j < t.len() ==> is_space_char(#[trigger] t[j]));
        lemma_trim_back_is_prefix(t, b - a);
        assert(t.subrange(0, b - a) =~= s@.subrange(a as int, b as int));
    }
    s.substring_char(a, b).to_owned()
}

/// The index where the final segment of `p` starts: the position just
/// after the last `/`, or zero when `p` holds none.
pub open spec fn name_start(p: Seq<char>) -> int
    decreases p.len(),
{
    if p.len() == 0 {
        0
    } else if p.last() == '/' {
        p.len() as int
    } else {
        name_start(p.drop_last())
    }
}

/// The file-name component of `p`, found the way `std::path::Path::file_name`
/// finds it: the final path segment, ignoring trailing separators and
/// trailing `.` (current-directory) segments. The result is empty when
/// nothing is left, and is `..` when the path ends in a parent-directory
/// segment; in both cases `p` has no usable file name (see
/// [`is_valid_file_name`]).
pub open spec fn file_name_of(p: Seq<char>) -> Seq<char>
    decreases p.len(),
{
    if p.len() == 0 {
        Seq::empty()
    } else if p.last() == '/' {
        file_name_of(p.drop_last())
    } else if p.subrange(name_start(p), p.len() as int) == seq!['.'] {
        file_name_of(p.drop_last())
    } else {
        p.subrange(name_start(p), p.len() as int)
    }
}

/// Whether a file-name component actually names an entry: it is non-empty
/// and is neither the current-directory nor the parent-directory marker.
pub open spec fn is_valid_file_name(n: Seq<char>) -> bool {
    n.len() > 0 && n != seq!['.'] && n != seq!['.', '.']
}

proof fn lemma_name_start_characterized(p: Seq<char>, k: int)
    requires
        0 <= k <= p.len(),
        forall|j: int| k <= j < p.len() ==> p[j] != '/',
        k > 0 ==> p[k - 1] == '/',
    ensures
        name_start(p) == k,
    decreases p.len(),
{
    if p.len() == 0 {
    } else if p.last() == '/' {
        assert(k == p.len());
    } else {
        assert(k < p.len());
        lemma_name_start_characterized(p.drop_last(), k);
    }
}

/// Returns the file-name component of `p`, or `None` when `p` has no usable
/// one (nothing is left once trailing separators and `.` segments are
/// ignored, or the path ends in a `..` segment).
pub fn file_name(p: &str) -> (r: Option<String>)
    ensures
        r is Some <==> is_valid_file_name(file_name_of(p@)),
        r matches Some(n) ==> n@ == file_name_of(p@),
{
    let n = p.unicode_len();
    let mut end: usize = n;
    proof {
        assert(p@.subrange(0, n as int) =~= p@);
    }
    loop
        invariant
            end <= n,
            n == p@.len(),
            file_name_of(p@) == file_name_of(p@.subrange(0, end as int)),
        decreases end,
    {
        if end == 0 {
            proof {
                assert(p@.subrange(0, 0) =~= Seq::<char>::empty());
            }
            return None;
        }
        if p.get_char(end - 1) == '/' {
            proof {
                let sub = p@.subrange(0, end as int);
                assert(sub.drop_last() =~= p@.subrange(0, end as int - 1));
            }
            end = end - 1;
        } else {
            let mut start: usize = 0;
            let mut i: usize = 0;
            while i < end
                invariant
                    start <= i <= end <= n,
                    n == p@.len(),
                    start > 0 ==> p@[start as int - 1] == '/',
                    forall|j: int| start <= j < i ==> p@[j] != '/',
                decreases end - i,
            {
                if p.get_char(i) == '/' {
                    start = i + 1;
                }
                i = i + 1;
            }
            proof {
                let sub = p@.subrange(0, end as int);
                assert(start < end);
                assert(forall|j: int| start <= j < end ==> sub[j] != '/');
                lemma_name_start_characterized(sub, start as int);
            }
            if end - start == 1 && p.get_char(start) == '.' {
                proof {
                    let sub = p@.subrange(0, end as int);
                    assert(sub.subrange(name_start(sub), sub.len() as int) =~= seq!['.']);
                    assert(sub.drop_last() =~= p@.subrange(0, end as int - 1));
                }
                end = end - 1;
            } else {
                let name = p.substring_char(start, end);
                proof {
                    let sub = p@.subrange(0, end as int);
                    assert(name@ =~= sub.subrange(name_start(sub), sub.len() as int));
                    if end - start == 1 {
                        assert(name@[0] == p@[start as int]);
                        assert(name@[0] != '.');
                        assert(name@ != seq!['.']);
                    } else {
                        assert(name@.len() != 1);
                    }
                }
                if end - start == 2 && p.get_char(start) == '.' && p.get_char(start + 1) == '.' {
                    proof {
                        assert(name@ =~= seq!['.', '.']);
                    }
                    return None;
                }
                proof {
                    if name@ == seq!['.', '.'] {
                        assert(name@.len() == 2 && name@[0] == '.' && name@[1] == '.');
                    }
                }
                return Some(name.to_owned());
            }
        }
    }
}

/// `folder` and `name` joined into one path: a `/` stands between them
/// unless `folder` already ends with one or is empty.
pub open spec fn joined(folder: Seq<char>, name: Seq<char>) -> Seq<char> {
    if folder.len() == 0 {
        name
    } else if folder.last() == '/' {
        folder + name
    } else {
        folder + seq!['/'] + name
    }
}

/// Returns `folder` and `name` joined into one path.
pub fn join(folder: &str, name: &str) -> (r: String)
    ensures
        r@ == joined(folder@, name@),
{
    let n = folder.unicode_len();
    if n == 0 {
        return name.to_owned();
    }
    let mut r = folder.to_owned();
    if folder.get_char(n - 1) != '/' {
        r.append("/");
        proof {
            reveal_strlit("/");
            assert("/"@ =~= seq!['/']);
        }
    }
    r.append(name);
    proof {
        if folder@.last() != '/' {
            assert(r@ =~= folder@ + seq!['/'] + name@);
        }
    }
    r
}

} // verus!
