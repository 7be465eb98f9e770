//! A verified model of file paths as character strings.
//!
//! The file name is what follows the last `/`; its extension is what follows
//! the last `.` of the file name, provided that dot is not the file name's
//! first character (a leading dot marks a hidden file, not an extension); the
//! stem is the file name with the extension and its dot removed.  Rebuilding
//! a path keeps the directory part and the extension and swaps the stem.

use vstd::prelude::*;

verus! {

/// The index of the last occurrence of `c` in `s`, or -1 when `c` does not
/// occur.
pub open spec fn last_index_of(s: Seq<char>, c: char) -> int
    decreases s.len(),
{
    if s.len() == 0 {
        -1
    } else if s.last() == c {
        s.len() - 1
    } else {
        last_index_of(s.drop_last(), c)
    }
}

/// `last_index_of` points at an occurrence of `c` and nothing after it is
/// one.
pub proof fn lemma_last_index_of(s: Seq<char>, c: char)
    ensures
        -1 <= last_index_of(s, c) < s.len(),
        last_index_of(s, c) >= 0 ==> s[last_index_of(s, c)] == c,
        forall|j: int| last_index_of(s, c) < j < s.len() ==> s[j] != c,
    decreases s.len(),
{
    if s.len() == 0 {
    } else if s.last() == c {
    } else {
        lemma_last_index_of(s.drop_last(), c);
        assert(forall|j: int| 0 <= j < s.len() - 1 ==> s[j] == s.drop_last()[j]);
    }
}

/// Scanning from the end: while `c` is absent from `s[i..]`, the last
/// occurrence of `c` in `s` is the last occurrence in `s[..i]`.
pub proof fn lemma_last_index_of_scan(s: Seq<char>, c: char, i: int)
    requires
        0 <= i <= s.len(),
        forall|j: int| i <= j < s.len() ==> s[j] != c,
    ensures
        last_index_of(s, c) == last_index_of(s.take(i), c),
    decreases s.len() - i,
{
    if i == s.len() {
        assert(s.take(i) =~= s);
    } else {
        lemma_last_index_of_scan(s.drop_last(), c, i);
        assert(s.drop_last().take(i) =~= s.take(i));
    }
}

/// The length of the directory part of `p`, separator included: the index
/// just after the last `/`, or 0 when `p` holds none.
pub open spec fn dir_len(p: Seq<char>) -> int {
    last_index_of(p, '/') + 1
}

/// The directory part of `p`, up to and including the last `/`.
pub open spec fn dir_of(p: Seq<char>) -> Seq<char> {
    p.take(dir_len(p))
}

/// The file name of `p`: everything after the last `/`.
pub open spec fn file_name_of(p: Seq<char>) -> Seq<char> {
    p.skip(dir_len(p))
}

/// A file name carries an extension when it holds a `.` past its first
/// character.
pub open spec fn name_has_ext(f: Seq<char>) -> bool {
    last_index_of(f, '.') >= 1
}

/// The stem of a file name: what precedes the extension's dot, or the whole
/// name when there is no extension.
pub open spec fn stem_of_name(f: Seq<char>) -> Seq<char> {
    if name_has_ext(f) {
        f.take(last_index_of(f, '.'))
    } else {
        f
    }
}

/// The extension of a file name, without its dot.
pub open spec fn ext_of_name(f: Seq<char>) -> Option<Seq<char>> {
    if name_has_ext(f) {
        Some(f.skip(last_index_of(f, '.') + 1))
    } else {
        None
    }
}

/// The stem of the path's file name.
pub open spec fn stem_of(p: Seq<char>) -> Seq<char> {
    stem_of_name(file_name_of(p))
}

/// The extension of the path's file name.
pub open spec fn ext_of(p: Seq<char>) -> Option<Seq<char>> {
    ext_of_name(file_name_of(p))
}

/// A path has a stem when its file name is not empty.
pub open spec fn has_stem(p: Seq<char>) -> bool {
    file_name_of(p).len() > 0
}

/// The stem is empty exactly when the file name is: an extension's dot sits
/// past the file name's first character, so a named file keeps a non-empty
/// stem.
pub proof fn lemma_stem_empty_iff_no_stem(p: Seq<char>)
    ensures
        stem_of(p).len() == 0 <==> !has_stem(p),
{
    lemma_last_index_of(file_name_of(p), '.');
}

/// A directory part, a stem and an optional extension assembled into a path.
pub open spec fn joined(dir: Seq<char>, stem: Seq<char>, ext: Option<Seq<char>>) -> Seq<char> {
    match ext {
        Some(e) => dir + stem + seq!['.'] + e,
        None => dir + stem,
    }
}

/// `p` with its stem swapped for `new_stem`, directory part and extension
/// kept.
pub open spec fn rebuilt(p: Seq<char>, new_stem: Seq<char>) -> Seq<char> {
    joined(dir_of(p), new_stem, ext_of(p))
}

/// Rebuilding never touches the extension: a path with an extension keeps
/// exactly that extension under any new stem that is non-empty and free of
/// `/`.  (An empty new stem would turn the file name into a hidden one,
/// `.ext`, which carries no extension; a `/` would move text into the
/// directory part.)
pub proof fn lemma_extension_invariant(p: Seq<char>, new_stem: Seq<char>)
    requires
        ext_of(p) is Some,
        new_stem.len() > 0,
        forall|j: int| 0 <= j < new_stem.len() ==> new_stem[j] != '/',
    ensures
        ext_of(rebuilt(p, new_stem)) == ext_of(p),
{
    let f = file_name_of(p);
    let dl = dir_len(p);
    let ld = last_index_of(f, '.');
    let e = f.skip(ld + 1);
    let r = rebuilt(p, new_stem);
    lemma_last_index_of(p, '/');
    lemma_last_index_of(f, '.');
    assert(r =~= dir_of(p) + new_stem + seq!['.'] + e);
    assert(r.len() == dl + new_stem.len() + 1 + e.len());
    // Nothing at or after position dl in r is a '/': the new stem is free of
    // them, and the extension, taken from the file name, never held one.
    assert forall|j: int| dl <= j < r.len() implies r[j] != '/' by {
        if j < dl + new_stem.len() {
            assert(r[j] == new_stem[j - dl]);
        } else if j == dl + new_stem.len() {
            assert(r[j] == '.');
        } else {
            let jj = j - (dl + new_stem.len() + 1);
            assert(r[j] == e[jj]);
            assert(e[jj] == f[ld + 1 + jj]);
            assert(f[ld + 1 + jj] == p[dl + ld + 1 + jj]);
        }
    }
    lemma_last_index_of_scan(r, '/', dl);
    assert(r.take(dl) =~= dir_of(p));
    if dl > 0 {
        assert(dir_of(p).last() == p[dl - 1]);
        assert(p[dl - 1] == '/');
    } else {
        assert(dir_of(p).len() == 0);
    }
    assert(dir_len(r) == dl);
    let fr = file_name_of(r);
    assert(fr =~= new_stem + seq!['.'] + e);
    // Nothing after the inserted dot is another dot: the extension never
    // held one.
    assert forall|j: int| new_stem.len() + 1 <= j < fr.len() implies fr[j] != '.' by {
        let jj = j - (new_stem.len() + 1);
        assert(fr[j] == e[jj]);
        assert(e[jj] == f[ld + 1 + jj]);
    }
    lemma_last_index_of_scan(fr, '.', new_stem.len() as int + 1);
    assert(fr.take(new_stem.len() as int + 1).last() == '.');
    assert(last_index_of(fr, '.') == new_stem.len());
    assert(name_has_ext(fr));
    assert(fr.skip(new_stem.len() as int + 1) =~= e);
    assert(ext_of(r) == ext_of(p));
}

/// The view of an optional owned string.
pub open spec fn opt_view(o: Option<String>) -> Option<Seq<char>> {
    match o {
        Some(s) => Some(s@),
        None => None,
    }
}

/// A path taken apart into directory, stem and extension.
pub struct PathParts {
    pub dir: String,
    pub stem: String,
    pub ext: Option<String>,
}

fn rfind_char(s: &str, c: char, n: usize) -> (r: Option<usize>)
    requires
        n == s@.len(),
    ensures
        match r {
            Some(i) => last_index_of(s@, c) == i as int,
            None => last_index_of(s@, c) == -1,
        },
{
    let mut e: usize = n;
    loop
        invariant
            n == s@.len(),
            e <= n,
            forall|j: int| e <= j < n ==> s@[j] != c,
        decreases e,
    {
        if e == 0 {
            proof {
                lemma_last_index_of_scan(s@, c, 0);
                assert(s@.take(0).len() == 0);
            }
            return None;
        }
        if s.get_char(e - 1) == c {
            proof {
                lemma_last_index_of_scan(s@, c, e as int);
                assert(s@.take(e as int).last() == s@[e - 1]);
            }
            return Some(e - 1);
        }
        e -= 1;
    }
}

/// Take a path apart into its directory part, stem and extension.
pub fn split_path(p: &str) -> (parts: PathParts)
    ensures
        parts.dir@ == dir_of(p@),
        parts.stem@ == stem_of(p@),
        opt_view(parts.ext) == ext_of(p@),
{
    let n: usize = p.unicode_len();
    proof {
        lemma_last_index_of(p@, '/');
    }
    let d: usize = match rfind_char(p, '/', n) {
        Some(i) => i + 1,
        None => 0,
    };
    let dir = String::from_str(p.substring_char(0, d));
    let name = p.substring_char(d, n);
    proof {
        assert(dir@ =~= dir_of(p@));
        assert(name@ =~= file_name_of(p@));
        lemma_last_index_of(name@, '.');
    }
    let m: usize = n - d;
    match rfind_char(name, '.', m) {
        Some(k) => {
            if k >= 1 {
                let stem = String::from_str(name.substring_char(0, k));
                let ext = String::from_str(name.substring_char(k + 1, m));
                proof {
                    assert(stem@ =~= stem_of(p@));
                    assert(ext@ =~= ext_of(p@)->Some_0);
                }
                PathParts { dir, stem, ext: Some(ext) }
            } else {
                PathParts { dir, stem: String::from_str(name), ext: None }
            }
        },
        None => PathParts { dir, stem: String::from_str(name), ext: None },
    }
}

/// Assemble a path from a directory part, a stem and an optional extension.
pub fn join_path(dir: &str, stem: &str, ext: &Option<String>) -> (r: String)
    ensures
        r@ == joined(dir@, stem@, opt_view(*ext)),
{
    let mut out = String::from_str(dir);
    out.append(stem);
    match ext {
        Some(e) => {
            out.append(".");
            out.append(e.as_str());
            proof {
                reveal_strlit(".");
                assert("."@ =~= seq!['.']);
                assert(out@ =~= dir@ + stem@ + seq!['.'] + e@);
            }
        },
        None => {
            proof {
                assert(out@ =~= dir@ + stem@);
            }
        },
    }
    out
}

} // verus!
