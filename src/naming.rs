//! How a checkpoint gets its name.
use vstd::prelude::*;
use crate::clock::{Instant, stamp_of, stamp_text};

verus! {

/// A path with its trailing separators and trailing `.` components removed,
/// as `std::path::Path::components` normalizes them away.
pub open spec fn trimmed_path(p: Seq<char>) -> Seq<char>
    decreases p.len(),
{
    if p.len() == 0 {
        p
    } else if p.last() == '/' {
        trimmed_path(p.drop_last())
    } else if p.last() == '.' && (p.len() == 1 || p[p.len() - 2] == '/') {
        trimmed_path(p.drop_last())
    } else {
        p
    }
}

/// The final component of a path when it is a normal one, as
/// `std::path::Path::file_name` gives it on Unix: the text after the last `/`
/// once trailing separators and `.` components are dropped; none where that
/// is empty (the path is empty or a root) or is `..`.
pub open spec fn file_name_of(path: Seq<char>) -> Option<Seq<char>> {
    let t = trimmed_path(path);
    let piece = t.skip(last_index(t, '/') + 1);
    if piece.len() == 0 || piece == seq!['.', '.'] {
        None
    } else {
        Some(piece)
    }
}

/// Relies on `std::path::Path::file_name`: the final component of the path
/// when it is a normal one.
#[verifier::external_body]
fn final_component(path: &str) -> (r: Option<String>)
    ensures
        opt_view(r) == file_name_of(path@),
{
    match std::path::Path::new(path).file_name() {
        Some(n) => match n.to_str() {
            Some(t) => Some(t.to_string()),
            None => None,
        },
        None => None,
    }
}

/// The text of an optional string.
pub open spec fn opt_view(o: Option<String>) -> Option<Seq<char>> {
    match o {
        Some(s) => Some(s@),
        None => None,
    }
}

/// The index of the last `c` in `f`, or -1.
pub open spec fn last_index(f: Seq<char>, c: char) -> int
    decreases f.len(),
{
    if f.len() == 0 {
        -1
    } else if f.last() == c {
        f.len() - 1
    } else {
        last_index(f.drop_last(), c)
    }
}

/// A file name split into its stem and its extension, the extension with its
/// leading dot: at the last `.`, unless that is the first character or the
/// name is `..`.
pub open spec fn stem_and_extension(f: Seq<char>) -> (Seq<char>, Seq<char>) {
    let p = last_index(f, '.');
    if p <= 0 || f == seq!['.', '.'] {
        (f, Seq::empty())
    } else {
        (f.take(p), f.skip(p))
    }
}

/// The generated name of a checkpoint of the directory `target_dir`, whose file
/// name is `file_name`, taken at the instant written as `stamp`.
pub open spec fn auto_name_of(
    target_dir: Seq<char>,
    file_name: Option<Seq<char>>,
    stamp: Seq<char>,
) -> Seq<char> {
    let (stem, ext) = match file_name {
        Some(f) => stem_and_extension(f),
        None => (target_dir, Seq::empty()),
    };
    stem + seq!['_'] + stamp + ext
}

/// The name a checkpoint gets: the final component of the requested name
/// (none where it has none), or one made of the tracked directory's name and
/// the instant.
pub open spec fn resolved_name(requested: Option<Seq<char>>, target_dir: Seq<char>, now: Instant) -> Option<Seq<char>> {
    match requested {
        Some(n) => file_name_of(n),
        None => Some(auto_name_of(
            target_dir,
            file_name_of(target_dir),
            stamp_of(
                now.year as int,
                now.month as int,
                now.day as int,
                now.hour as int,
                now.minute as int,
                now.second as int,
            ),
        )),
    }
}

proof fn lemma_last_dot_bounds(f: Seq<char>)
    ensures
        -1 <= last_index(f, '.') < f.len(),
    decreases f.len(),
{
    if f.len() > 0 {
        lemma_last_dot_bounds(f.drop_last());
    }
}

/// Finds the last `.` of `f`.
fn find_last_dot(f: &str) -> (r: Option<usize>)
    ensures
        match r {
            Some(p) => p as int == last_index(f@, '.') && p < f@.len(),
            None => last_index(f@, '.') == -1,
        },
{
    let len = f.unicode_len();
    proof {
        lemma_last_dot_bounds(f@);
    }
    let mut i: usize = len;
    assert(f@.take(len as int) =~= f@);
    while i > 0
        invariant
            i <= len == f@.len(),
            last_index(f@, '.') == last_index(f@.take(i as int), '.'),
            last_index(f@, '.') < i,
        decreases i,
    {
        assert(f@.take(i as int).drop_last() =~= f@.take(i - 1));
        proof {
            lemma_last_dot_bounds(f@.take(i - 1));
        }
        if f.get_char(i - 1) == '.' {
            return Some(i - 1);
        }
        i = i - 1;
    }
    None
}

/// Splits a file name into its stem and its extension (with its dot).
pub fn split_extension(f: &str) -> (r: (String, String))
    ensures
        (r.0@, r.1@) == stem_and_extension(f@),
{
    proof {
        reveal_strlit("..");
    }
    let is_parent = f.unicode_len() == 2 && f.get_char(0) == '.' && f.get_char(1) == '.';
    assert(is_parent <==> f@ =~= seq!['.', '.']);
    match find_last_dot(f) {
        Some(p) => {
            if p == 0 || is_parent {
                (f.to_owned(), String::new())
            } else {
                let len = f.unicode_len();
                let stem = f.substring_char(0, p).to_owned();
                let ext = f.substring_char(p, len).to_owned();
                assert(f@.subrange(0, p as int) =~= f@.take(p as int));
                assert(f@.subrange(p as int, len as int) =~= f@.skip(p as int));
                (stem, ext)
            }
        },
        None => (f.to_owned(), String::new()),
    }
}

/// The generated name of a checkpoint: the stem of the tracked directory's
/// file name (`file_name`, as `Path::file_name` gives it), `_`, the instant
/// as `stamp`, and the file name's extension. Without a file name, the whole
/// of `target_dir` stands for the stem.
pub fn auto_name(target_dir: &str, file_name: Option<String>, stamp: &str) -> (r: String)
    ensures
        r@ == auto_name_of(target_dir@, opt_view(file_name), stamp@),
{
    let (stem, ext) = match file_name {
        Some(f) => split_extension(f.as_str()),
        None => (target_dir.to_owned(), String::new()),
    };
    proof {
        reveal_strlit("_");
    }
    let mut r = stem;
    r.append("_");
    r.append(stamp);
    r.append(ext.as_str());
    r
}

/// Resolves the name of a new checkpoint: the final component of `requested`,
/// none where it has none (`..`, `/`, `.`, the empty name), or, when no name is
/// requested, a name made of the tracked directory's name and the instant `now`.
pub fn resolve_name(requested: Option<String>, target_dir: &str, now: &Instant) -> (r: Option<String>)
    requires
        now.wf(),
    ensures
        opt_view(r) == resolved_name(opt_view(requested), target_dir@, *now),
{
    match requested {
        Some(n) => final_component(n.as_str()),
        None => {
            let stamp = stamp_text(now);
            Some(auto_name(target_dir, final_component(target_dir), stamp.as_str()))
        },
    }
}

} // verus!
