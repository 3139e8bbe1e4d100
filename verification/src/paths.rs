//! Path arithmetic for the planner and the worker.
//!
//! Paths are held as plain strings. The planner needs the stem of a source
//! file (its name without the extension), the join of the output directory
//! with a file name, and from those the planned output path
//! `<dir>/<stem>.<format>`. The worker additionally normalizes a source path
//! to Unicode NFC and, where the caller asks for it, puts the extended-path
//! prefix in front of a drive-lettered path.

use vstd::prelude::*;
use vstd::string::*;
use unicode_normalization::UnicodeNormalization;

verus! {

/// A path separator: forward slash everywhere, backslash on drive-lettered
/// systems.
pub open spec fn is_separator(c: char) -> bool {
    c == '/' || c == '\\'
}

/// Index of the first character of the file name of `p`: the position just
/// after the last separator, or 0 when `p` holds no separator.
pub open spec fn file_name_start(p: Seq<char>) -> int
    decreases p.len(),
{
    if p.len() == 0 {
        0
    } else if is_separator(p.last()) {
        p.len() as int
    } else {
        file_name_start(p.drop_last())
    }
}

/// Index of the last `'.'` of `f`, or -1 when `f` holds none.
pub open spec fn last_dot(f: Seq<char>) -> int
    decreases f.len(),
{
    if f.len() == 0 {
        -1
    } else if f.last() == '.' {
        f.len() - 1
    } else {
        last_dot(f.drop_last())
    }
}

/// The stem of a bare file name: everything before the last `'.'`. A name
/// without a dot, or whose only dot opens it (a hidden file), is its own
/// stem.
pub open spec fn stem_of_name(f: Seq<char>) -> Seq<char> {
    let d = last_dot(f);
    if d <= 0 {
        f
    } else {
        f.subrange(0, d)
    }
}

/// The stem of a path: the stem of its file name. Total: a path that ends in
/// a separator, or is empty, has the empty stem.
pub open spec fn file_stem(p: Seq<char>) -> Seq<char> {
    stem_of_name(p.subrange(file_name_start(p), p.len() as int))
}

/// `dir` joined with `name`: a single separator is put between them unless
/// `dir` is empty or already ends in one.
pub open spec fn join_path(dir: Seq<char>, name: Seq<char>) -> Seq<char> {
    if dir.len() == 0 {
        name
    } else if is_separator(dir.last()) {
        dir + name
    } else {
        dir + seq!['/'] + name
    }
}

/// The planned output path of a source file: `<dir>/<stem>.<format>`.
pub open spec fn output_path(dir: Seq<char>, source: Seq<char>, format: Seq<char>) -> Seq<char> {
    join_path(dir, file_stem(source) + seq!['.'] + format)
}

proof fn lemma_file_name_start_bounds(p: Seq<char>)
    ensures
        0 <= file_name_start(p) <= p.len(),
    decreases p.len(),
{
    if p.len() == 0 {
    } else if is_separator(p.last()) {
    } else {
        lemma_file_name_start_bounds(p.drop_last());
    }
}

proof fn lemma_file_name_start_push(p: Seq<char>, c: char)
    ensures
        file_name_start(p.push(c)) == if is_separator(c) {
            p.len() + 1 as int
        } else {
            file_name_start(p)
        },
{
    assert(p.push(c).drop_last() =~= p);
    assert(p.push(c).last() == c);
}

proof fn lemma_last_dot_bounds(f: Seq<char>)
    ensures
        -1 <= last_dot(f) < f.len(),
    decreases f.len(),
{
    if f.len() == 0 {
    } else if f.last() == '.' {
    } else {
        lemma_last_dot_bounds(f.drop_last());
    }
}

proof fn lemma_last_dot_push(f: Seq<char>, c: char)
    ensures
        last_dot(f.push(c)) == if c == '.' {
            f.len() as int
        } else {
            last_dot(f)
        },
{
    assert(f.push(c).drop_last() =~= f);
    assert(f.push(c).last() == c);
}

/// Position just after the last separator of `p`, executably.
fn find_file_name_start(p: &str) -> (start: usize)
    ensures
        start == file_name_start(p@),
{
    let n = p.unicode_len();
    let mut start: usize = 0;
    let mut i: usize = 0;
    assert(p@.subrange(0, 0) =~= Seq::<char>::empty());
    while i < n
        invariant
            i <= n,
            n == p@.len(),
            start == file_name_start(p@.subrange(0, i as int)),
            start <= i,
        decreases n - i,
    {
        let c = p.get_char(i);
        proof {
            assert(p@.subrange(0, i + 1) =~= p@.subrange(0, i as int).push(p@[i as int]));
            lemma_file_name_start_push(p@.subrange(0, i as int), p@[i as int]);
        }
        if c == '/' || c == '\\' {
            start = i + 1;
        }
        i = i + 1;
    }
    assert(p@.subrange(0, n as int) =~= p@);
    start
}

/// End of the stem of `p`, as an absolute index: the index of the last dot
/// of the file name, unless that dot opens the file name or the name holds
/// none, in which case the whole file name belongs to the stem.
fn find_stem_end(p: &str, start: usize) -> (stem_end: usize)
    requires
        start == file_name_start(p@),
    ensures
        start <= stem_end <= p@.len(),
        p@.subrange(start as int, stem_end as int) == file_stem(p@),
{
    let n = p.unicode_len();
    proof {
        lemma_file_name_start_bounds(p@);
    }
    let ghost f = p@.subrange(start as int, n as int);
    let mut dot: usize = 0;
    let mut found = false;
    let mut i: usize = start;
    assert(f.subrange(0, 0) =~= Seq::<char>::empty());
    while i < n
        invariant
            start <= i <= n,
            n == p@.len(),
            f == p@.subrange(start as int, n as int),
            found ==> start < dot < i,
            last_dot(f.subrange(0, i - start)) == if found {
                dot - start
            } else if start < n && i > start && p@[start as int] == '.' {
                0
            } else {
                -1
            },
        decreases n - i,
    {
        let c = p.get_char(i);
        proof {
            assert(f.subrange(0, i + 1 - start) =~= f.subrange(0, i - start).push(f[i - start]));
            assert(f[i - start] == p@[i as int]);
            lemma_last_dot_push(f.subrange(0, i - start), f[i - start]);
        }
        if c == '.' && i > start {
            dot = i;
            found = true;
        }
        i = i + 1;
    }
    assert(f.subrange(0, n - start) =~= f);
    let stem_end = if found {
        dot
    } else {
        n
    };
    proof {
        lemma_last_dot_bounds(f);
        if found {
            assert(f.subrange(0, dot - start) =~= p@.subrange(start as int, dot as int));
        } else {
            assert(stem_of_name(f) == f);
        }
    }
    stem_end
}

/// The planned output path `<dir>/<stem of source>.<format>`.
pub fn output_path_of(dir: &String, source: &String, format: &String) -> (r: String)
    ensures
        r@ == output_path(dir@, source@, format@),
{
    let s = source.as_str();
    let start = find_file_name_start(s);
    let stem_end = find_stem_end(s, start);
    let stem = s.substring_char(start, stem_end);
    let mut name = String::from_str(stem);
    name.append(".");
    name.append(format.as_str());
    proof {
        reveal_strlit(".");
        assert("."@ =~= seq!['.']);
        assert(name@ =~= file_stem(source@) + seq!['.'] + format@);
    }
    join_with(dir, &name)
}

/// Joins `dir` with a file name, putting a separator between them where one
/// is needed.
pub fn join_with(dir: &String, name: &String) -> (r: String)
    ensures
        r@ == join_path(dir@, name@),
{
    let dn = dir.as_str().unicode_len();
    if dn == 0 {
        name.clone()
    } else {
        let last = dir.as_str().get_char(dn - 1);
        let mut r = dir.clone();
        if !(last == '/' || last == '\\') {
            r.append("/");
            proof {
                reveal_strlit("/");
                assert("/"@ =~= seq!['/']);
            }
        }
        r.append(name.as_str());
        proof {
            assert(dir@.last() == last);
            assert(r@ =~= join_path(dir@, name@));
        }
        r
    }
}

/// Whether `s` begins with the extended-path prefix `\\?\`.
pub open spec fn has_verbatim_prefix(s: Seq<char>) -> bool {
    s.len() >= 4 && s[0] == '\\' && s[1] == '\\' && s[2] == '?' && s[3] == '\\'
}

/// Whether `s` looks drive-lettered: its second character is a colon.
pub open spec fn has_drive_colon(s: Seq<char>) -> bool {
    s.len() >= 2 && s[1] == ':'
}

/// `s` with the extended-path prefix put in front of it, where it applies:
/// a drive-lettered path not already carrying the prefix.
pub open spec fn long_path(s: Seq<char>) -> Seq<char> {
    if !has_verbatim_prefix(s) && has_drive_colon(s) {
        seq!['\\', '\\', '?', '\\'] + s
    } else {
        s
    }
}

/// Puts the extended-path prefix in front of a drive-lettered path, so that
/// paths over the legacy length limit still reach the transcoder whole.
pub fn add_long_path_prefix(s: &String) -> (r: String)
    ensures
        r@ == long_path(s@),
{
    let n = s.as_str().unicode_len();
    let has_colon = n >= 2 && s.as_str().get_char(1) == ':';
    let has_prefix = n >= 4 && s.as_str().get_char(0) == '\\' && s.as_str().get_char(1) == '\\'
        && s.as_str().get_char(2) == '?' && s.as_str().get_char(3) == '\\';
    if !has_prefix && has_colon {
        let mut r = String::from_str("\\\\?\\");
        proof {
            reveal_strlit("\\\\?\\");
            assert("\\\\?\\"@ =~= seq!['\\', '\\', '?', '\\']);
        }
        r.append(s.as_str());
        proof {
            assert(r@ =~= long_path(s@));
        }
        r
    } else {
        s.clone()
    }
}

/// What `UnicodeNormalization::nfc` yields for a character sequence: its
/// Unicode Normalization Form C. A function of the characters alone.
pub uninterp spec fn nfc_of(s: Seq<char>) -> Seq<char>;

/// Relies on unicode_normalization's `UnicodeNormalization::nfc` for `&str`:
/// an iterator over the string in Unicode Normalization Form C, a
/// deterministic function of the input characters.
#[verifier::external_body]
fn normalize_nfc(s: &str) -> (r: String)
    ensures
        r@ == nfc_of(s@),
{
    s.nfc().collect::<String>()
}

/// The worker's input path for a source file: the source normalized to NFC
/// and, when `long_paths` is set, carried behind the extended-path prefix.
pub open spec fn prepared_input_path(source: Seq<char>, long_paths: bool) -> Seq<char> {
    if long_paths {
        long_path(nfc_of(source))
    } else {
        nfc_of(source)
    }
}

/// Normalizes a source path for handing to the transcoder.
pub fn prepare_input(source: &String, long_paths: bool) -> (r: String)
    ensures
        r@ == prepared_input_path(source@, long_paths),
{
    let n = normalize_nfc(source.as_str());
    if long_paths {
        add_long_path_prefix(&n)
    } else {
        n
    }
}

} // verus!
