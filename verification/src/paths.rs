//! Path text handling: the extension of a path-like literal, and the
//! validation of output paths.
//!
//! Paths are captured as plain text; nothing here touches a filesystem.
//! The extension of a path is read from its last `/`-separated component,
//! ignoring trailing slashes: the text after the component's last dot,
//! unless the component has no dot past its first character or is one of
//! the relative components `.` and `..`.

use vstd::prelude::*;
use vstd::string::*;

use crate::chars::chars_to_string;
use crate::chars::lower_chars;
use crate::chars::str_eq;
use crate::chars::str_to_lowercase;

verus! {

/// The path with its trailing slashes removed.
pub open spec fn strip_trailing_slashes(s: Seq<char>) -> Seq<char>
    decreases s.len(),
{
    if s.len() > 0 && s.last() == '/' {
        strip_trailing_slashes(s.drop_last())
    } else {
        s
    }
}

/// The index right after the last `/` of `t`, or zero if there is none.
pub open spec fn file_start(t: Seq<char>) -> int
    decreases t.len(),
{
    if t.len() == 0 {
        0
    } else if t[t.len() - 1] == '/' {
        t.len() as int
    } else {
        file_start(t.drop_last())
    }
}

/// The index of the last dot of `f`, or `-1` if there is none.
pub open spec fn last_dot(f: Seq<char>) -> int
    decreases f.len(),
{
    if f.len() == 0 {
        -1
    } else if f[f.len() - 1] == '.' {
        f.len() - 1
    } else {
        last_dot(f.drop_last())
    }
}

/// The extension of a path: the text after the last dot of its final
/// component, if that component has one past its first character.
pub open spec fn spec_extension(s: Seq<char>) -> Option<Seq<char>> {
    let t = strip_trailing_slashes(s);
    let f = t.skip(file_start(t));
    if f.len() == 0 || f == "."@ || f == ".."@ {
        Option::None
    } else {
        let d = last_dot(f);
        if d <= 0 {
            Option::None
        } else {
            Option::Some(f.skip(d + 1))
        }
    }
}

/// Whether the path text ends with a slash.
pub open spec fn spec_ends_with_slash(s: Seq<char>) -> bool {
    s.len() > 0 && s.last() == '/'
}

pub proof fn lemma_strip_trailing(s: Seq<char>, k: int)
    requires
        0 <= k <= s.len(),
        forall|x: int| k <= x < s.len() ==> s[x] == '/',
        k > 0 ==> s[k - 1] != '/',
    ensures
        strip_trailing_slashes(s) == s.take(k),
    decreases s.len(),
{
    if s.len() > 0 && s.last() == '/' {
        assert(k < s.len());
        lemma_strip_trailing(s.drop_last(), k);
        assert(s.drop_last().take(k) =~= s.take(k));
    } else {
        assert(k == s.len());
        assert(s.take(k) =~= s);
    }
}

pub proof fn lemma_file_start(t: Seq<char>, m: int)
    requires
        0 <= m <= t.len(),
        forall|x: int| m <= x < t.len() ==> t[x] != '/',
        m > 0 ==> t[m - 1] == '/',
    ensures
        file_start(t) == m,
    decreases t.len(),
{
    if t.len() == 0 {
    } else if t[t.len() - 1] == '/' {
        assert(m == t.len());
    } else {
        assert(m < t.len());
        lemma_file_start(t.drop_last(), m);
    }
}

pub proof fn lemma_last_dot(f: Seq<char>, d: int)
    requires
        -1 <= d < f.len(),
        forall|x: int| d < x < f.len() ==> f[x] != '.',
        d >= 0 ==> f[d] == '.',
    ensures
        last_dot(f) == d,
    decreases f.len(),
{
    if f.len() == 0 {
    } else if f[f.len() - 1] == '.' {
        assert(d == f.len() - 1);
    } else {
        assert(d < f.len() - 1);
        lemma_last_dot(f.drop_last(), d);
    }
}

/// The extension of the path text, if it has one.
pub fn path_extension(s: &str) -> (r: Option<String>)
    ensures
        crate::command::opt_string_view(r) == spec_extension(s@),
{
    let n = s.unicode_len();
    // drop trailing slashes
    let mut k: usize = n;
    while k > 0 && s.get_char(k - 1) == '/'
        invariant
            0 <= k <= n,
            n == s@.len(),
            forall|x: int| k <= x < n ==> s@[x] == '/',
        decreases k,
    {
        k = k - 1;
    }
    proof {
        lemma_strip_trailing(s@, k as int);
    }
    let ghost t = strip_trailing_slashes(s@);
    // find the start of the final component
    let mut m: usize = k;
    while m > 0 && s.get_char(m - 1) != '/'
        invariant
            0 <= m <= k <= n,
            n == s@.len(),
            t == s@.take(k as int),
            forall|x: int| m <= x < k ==> s@[x] != '/',
        decreases m,
    {
        m = m - 1;
    }
    proof {
        lemma_file_start(t, m as int);
    }
    let ghost f = t.skip(file_start(t));
    proof {
        assert(f =~= s@.subrange(m as int, k as int));
    }
    if k == m {
        return None;
    }
    if k - m == 1 && s.get_char(m) == '.' {
        proof {
            reveal_strlit(".");
            assert(f =~= "."@);
        }
        return None;
    }
    if k - m == 2 && s.get_char(m) == '.' && s.get_char(m + 1) == '.' {
        proof {
            reveal_strlit("..");
            assert(f =~= ".."@);
        }
        return None;
    }
    proof {
        reveal_strlit(".");
        reveal_strlit("..");
        assert(f != "."@ && f != ".."@) by {
            if f == "."@ {
                assert(f.len() == 1 && f[0] == '.');
            }
            if f == ".."@ {
                assert(f.len() == 2 && f[0] == '.' && f[1] == '.');
            }
        }
    }
    // find the last dot of the component
    let mut d: usize = k;
    while d > m && s.get_char(d - 1) != '.'
        invariant
            m <= d <= k <= n,
            n == s@.len(),
            t == s@.take(k as int),
            f == s@.subrange(m as int, k as int),
            forall|x: int| d <= x < k ==> s@[x] != '.',
        decreases d,
    {
        d = d - 1;
    }
    if d == m {
        // no dot in the component
        proof {
            lemma_last_dot(f, -1);
        }
        return None;
    }
    proof {
        lemma_last_dot(f, d - m - 1);
    }
    if d == m + 1 {
        // the only dot leads the component
        return None;
    }
    let mut ext: Vec<char> = Vec::new();
    let mut x: usize = d;
    while x < k
        invariant
            d <= x <= k <= n,
            n == s@.len(),
            ext@ == s@.subrange(d as int, x as int),
        decreases k - x,
    {
        let c = s.get_char(x);
        ext.push(c);
        proof {
            assert(s@.subrange(d as int, x + 1 as int) =~= s@.subrange(d as int, x as int).push(
                s@[x as int],
            ));
        }
        x = x + 1;
    }
    let r = chars_to_string(&ext);
    proof {
        assert(f.skip(last_dot(f) + 1) =~= s@.subrange(d as int, k as int));
    }
    Some(r)
}

/// Whether the path text ends with a slash.
pub fn ends_with_slash(s: &str) -> (r: bool)
    ensures
        r == spec_ends_with_slash(s@),
{
    let n = s.unicode_len();
    n > 0 && s.get_char(n - 1) == '/'
}

/// Whether the extension, lowercased, names a supported output format.
pub open spec fn spec_allowed_extension(e: Seq<char>) -> bool {
    let l = lower_chars(e);
    l == "mp4"@ || l == "mov"@ || l == "avi"@ || l == "mkv"@ || l == "webm"@ || l == "gif"@ || l
        == "svg"@ || l == "csv"@
}

/// Whether the extension names a supported output format, in any case.
pub fn is_allowed_extension(e: &str) -> (r: bool)
    ensures
        r == spec_allowed_extension(e@),
{
    let l = str_to_lowercase(e);
    let ls = l.as_str();
    str_eq(ls, "mp4") || str_eq(ls, "mov") || str_eq(ls, "avi") || str_eq(ls, "mkv") || str_eq(
        ls,
        "webm",
    ) || str_eq(ls, "gif") || str_eq(ls, "svg") || str_eq(ls, "csv")
}

/// The outcome of validating an output path: the path itself when its
/// extension names a supported format, and the complaint otherwise.
pub open spec fn spec_validate_output_path(p: Seq<char>) -> Result<Seq<char>, Seq<char>> {
    match spec_extension(p) {
        Option::None => Result::Err(
            "Output file '"@ + p
                + "' must have a valid extension. Allowed extensions: mp4, mov, avi, mkv, webm, gif, svg, csv"@,
        ),
        Option::Some(e) => if spec_allowed_extension(e) {
            Result::Ok(p)
        } else {
            Result::Err(
                "Unsupported output format '"@ + e
                    + "'. Allowed extensions: mp4, mov, avi, mkv, webm, gif, svg, csv"@,
            )
        },
    }
}

/// Check that an output path carries a supported video, image or data
/// extension; returns the path unchanged, or says what is wrong with it.
pub fn validate_output_path(path_str: &str) -> (r: Result<String, String>)
    ensures
        ({
            let v = spec_validate_output_path(path_str@);
            match r {
                Result::Ok(p) => v is Ok && p@ == v->Ok_0,
                Result::Err(m) => v is Err && m@ == v->Err_0,
            }
        }),
{
    match path_extension(path_str) {
        None => {
            let mut m = String::from_str("Output file '");
            m.append(path_str);
            m.append(
                "' must have a valid extension. Allowed extensions: mp4, mov, avi, mkv, webm, gif, svg, csv",
            );
            Err(m)
        },
        Some(ext) => {
            if is_allowed_extension(ext.as_str()) {
                Ok(String::from_str(path_str))
            } else {
                let mut m = String::from_str("Unsupported output format '");
                m.append(ext.as_str());
                m.append("'. Allowed extensions: mp4, mov, avi, mkv, webm, gif, svg, csv");
                Err(m)
            }
        },
    }
}

/// The arguments of a recording run: the tape script to read and the
/// output file to write.
#[derive(Debug, Clone, PartialEq, Eq)]
pub struct BurnArgs {
    /// Input tape file (`-` for standard input).
    pub input_file: String,
    /// File name of the video output.
    pub output_file: String,
}

} // verus!
