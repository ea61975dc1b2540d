//! From the path of a file to the namespace that the file stands for.
use crate::parser::lexical::literal;
use crate::text::{chars_of, string_of, strings_view};
use vstd::prelude::*;

verus! {

/// The segments of a path from `start` on, where `i` is the scanning
/// position and no `'/'` lies in `s[start..i]`. Segments are what stands
/// between the `'/'`; empty ones are left out.
pub open spec fn segments_from(s: Seq<char>, start: int, i: int) -> Seq<Seq<char>>
    decreases s.len() - i,
{
    if i >= s.len() {
        if start < s.len() {
            seq![s.subrange(start, s.len() as int)]
        } else {
            Seq::empty()
        }
    } else if s[i] == '/' {
        if start < i {
            seq![s.subrange(start, i)] + segments_from(s, i + 1, i + 1)
        } else {
            segments_from(s, i + 1, i + 1)
        }
    } else {
        segments_from(s, start, i + 1)
    }
}

/// The segments of a path whose segments `'/'` separates.
pub open spec fn path_segments(s: Seq<char>) -> Seq<Seq<char>> {
    segments_from(s, 0, 0)
}

/// Position of the last `'.'` before `n`, or `-1`.
pub open spec fn last_dot(s: Seq<char>, n: int) -> int
    decreases n,
{
    if n <= 0 || n > s.len() {
        -1
    } else if s[n - 1] == '.' {
        n - 1
    } else {
        last_dot(s, n - 1)
    }
}

/// A file name without its extension: what stands before the last `'.'`,
/// unless that `'.'` is the first character or there is none.
pub open spec fn stem(name: Seq<char>) -> Seq<char> {
    let d = last_dot(name, name.len() as int);
    if d > 0 {
        name.subrange(0, d)
    } else {
        name
    }
}

/// Whether a file of this name, extension removed, stands for the
/// directory that it lies in.
pub open spec fn is_index_name(name: Seq<char>) -> bool {
    name == "mod"@ || name == "lib"@
}

/// The namespace that a file's path stands for: the path's segments, the
/// last one without its extension; and without the last one altogether
/// where that is an index name, so that such a file fills the namespace of
/// its directory.
pub open spec fn namespace_segments(path: Seq<char>) -> Seq<Seq<char>> {
    let segments = path_segments(path);
    if segments.len() == 0 {
        segments
    } else {
        let last = stem(segments.last());
        if is_index_name(last) {
            segments.drop_last()
        } else {
            segments.drop_last().push(last)
        }
    }
}

/// The segments of `path`, in order.
pub fn path_iter(path: &str) -> (r: Vec<String>)
    ensures
        strings_view(r@) == path_segments(path@),
{
    let text = chars_of(path);
    let mut out: Vec<String> = Vec::new();
    let mut start: usize = 0;
    let mut i: usize = 0;
    assert(strings_view(out@) =~= Seq::empty());
    while i < text.len()
        invariant
            start <= i <= text@.len(),
            segments_from(text@, 0, 0) == strings_view(out@) + segments_from(
                text@,
                start as int,
                i as int,
            ),
        decreases text@.len() - i,
    {
        if text[i] == '/' {
            if start < i {
                let ghost before = strings_view(out@);
                let ghost rest = segments_from(text@, i + 1, i + 1);
                out.push(string_of(text.as_slice(), start, i));
                proof {
                    let seg = text@.subrange(start as int, i as int);
                    assert(strings_view(out@) =~= before.push(seg));
                    assert(before + (seq![seg] + rest) =~= before.push(seg) + rest);
                }
            }
            start = i + 1;
        }
        i += 1;
    }
    if start < text.len() {
        let ghost before = strings_view(out@);
        out.push(string_of(text.as_slice(), start, i));
        assert(strings_view(out@) =~= before + seq![
            text@.subrange(start as int, text@.len() as int),
        ]);
    } else {
        assert(strings_view(out@) + Seq::<Seq<char>>::empty() =~= strings_view(out@));
    }
    out
}

/// Finds the last `'.'` in `name`.
fn find_last_dot(name: &[char]) -> (r: Option<usize>)
    ensures
        match r {
            Some(d) => d == last_dot(name@, name@.len() as int) && d < name@.len(),
            None => last_dot(name@, name@.len() as int) == -1,
        },
{
    let mut n: usize = name.len();
    while n > 0
        invariant
            n <= name@.len(),
            last_dot(name@, name@.len() as int) == last_dot(name@, n as int),
        decreases n,
    {
        if name[n - 1] == '.' {
            return Some(n - 1);
        }
        n -= 1;
    }
    None
}

/// The namespace that the file at `file_path` stands for, as the names
/// from the root down.
pub fn namespace_path(file_path: &str) -> (r: Vec<String>)
    ensures
        strings_view(r@) == namespace_segments(file_path@),
{
    let mut segments = path_iter(file_path);
    let ghost all = strings_view(segments@);
    let last = match segments.pop() {
        Some(last) => last,
        None => {
            return segments;
        },
    };
    assert(strings_view(segments@) =~= all.drop_last());
    assert(last@ == all.last());
    let name = chars_of(last.as_str());
    let end = match find_last_dot(name.as_slice()) {
        Some(d) => if d > 0 {
            d
        } else {
            name.len()
        },
        None => name.len(),
    };
    assert(stem(name@) =~= name@.subrange(0, end as int));
    let is_mod = match literal(name.as_slice(), 0, "mod") {
        Some(e) => e == end,
        None => false,
    };
    let is_lib = match literal(name.as_slice(), 0, "lib") {
        Some(e) => e == end,
        None => false,
    };
    proof {
        let st = stem(name@);
        assert(is_mod == (st == "mod"@)) by {
            if st == "mod"@ {
                assert(st.len() == "mod"@.len());
                assert(name@.subrange(0, 0 + "mod"@.len() as int) =~= st);
            }
        }
        assert(is_lib == (st == "lib"@)) by {
            if st == "lib"@ {
                assert(st.len() == "lib"@.len());
                assert(name@.subrange(0, 0 + "lib"@.len() as int) =~= st);
            }
        }
    }
    if is_mod || is_lib {
        return segments;
    }
    let ghost before = strings_view(segments@);
    segments.push(string_of(name.as_slice(), 0, end));
    assert(strings_view(segments@) =~= before.push(stem(name@)));
    segments
}

/// Up to the last `'/'` of a path, its segments are those of what stands
/// before that `'/'`.
proof fn lemma_segments_of_directory(dir: Seq<char>, file: Seq<char>, start: int, i: int)
    requires
        0 <= start <= i <= dir.len(),
    ensures
        segments_from(dir + seq!['/'] + file, start, i) == segments_from(dir, start, i)
            + segments_from(dir + seq!['/'] + file, dir.len() as int + 1, dir.len() as int + 1),
    decreases dir.len() - i,
{
    let s = dir + seq!['/'] + file;
    let rest = segments_from(s, dir.len() as int + 1, dir.len() as int + 1);
    if i < dir.len() {
        assert(s[i] == dir[i]);
        if dir[i] == '/' {
            lemma_segments_of_directory(dir, file, i + 1, i + 1);
            if start < i {
                assert(s.subrange(start, i) =~= dir.subrange(start, i));
                let seg = dir.subrange(start, i);
                let more = segments_from(dir, i + 1, i + 1);
                assert(seq![seg] + (more + rest) =~= (seq![seg] + more) + rest);
            }
        } else {
            lemma_segments_of_directory(dir, file, start, i + 1);
        }
    } else {
        assert(s[i] == '/');
        if start < i {
            assert(s.subrange(start, i) =~= dir.subrange(start, dir.len() as int));
        } else {
            assert(Seq::<Seq<char>>::empty() + rest =~= rest);
        }
    }
}

/// Behind the last `'/'` of a path stands its last segment.
proof fn lemma_segments_of_file(dir: Seq<char>, file: Seq<char>, i: int)
    requires
        dir.len() as int + 1 <= i <= dir.len() as int + 1 + file.len(),
        file.len() > 0,
        forall|j: int| 0 <= j < file.len() ==> file[j] != '/',
    ensures
        segments_from(dir + seq!['/'] + file, dir.len() as int + 1, i) == seq![file],
    decreases dir.len() as int + 1 + file.len() - i,
{
    let s = dir + seq!['/'] + file;
    if i < s.len() {
        assert(s[i] == file[i - dir.len() as int - 1]);
        lemma_segments_of_file(dir, file, i + 1);
    } else {
        assert(s.subrange(dir.len() as int + 1, s.len() as int) =~= file);
    }
}

/// A file in a directory stands for the namespace of the directory where
/// its name, extension removed, is an index name, and else for the
/// namespace of that name within the namespace of the directory.
pub proof fn law_file_in_directory(dir: Seq<char>, file: Seq<char>)
    requires
        file.len() > 0,
        forall|j: int| 0 <= j < file.len() ==> file[j] != '/',
    ensures
        namespace_segments(dir + seq!['/'] + file) == if is_index_name(stem(file)) {
            path_segments(dir)
        } else {
            path_segments(dir).push(stem(file))
        },
{
    let s = dir + seq!['/'] + file;
    lemma_segments_of_directory(dir, file, 0, 0);
    lemma_segments_of_file(dir, file, dir.len() as int + 1);
    let segments = path_segments(s);
    assert(segments == path_segments(dir) + seq![file]);
    assert(segments.last() == file);
    assert(segments.drop_last() =~= path_segments(dir));
}

/// The files `mod.rs` and `lib.rs` of a directory stand for the namespace of
/// the directory itself.
pub proof fn law_index_file_names_its_directory(dir: Seq<char>)
    ensures
        namespace_segments(dir + seq!['/'] + "mod.rs"@) == path_segments(dir),
        namespace_segments(dir + seq!['/'] + "lib.rs"@) == path_segments(dir),
{
    reveal_strlit("mod.rs");
    reveal_strlit("lib.rs");
    reveal_strlit("mod");
    reveal_strlit("lib");
    let m = "mod.rs"@;
    let l = "lib.rs"@;
    reveal_with_fuel(last_dot, 4);
    assert(last_dot(m, 6) == 3);
    assert(last_dot(l, 6) == 3);
    assert(stem(m) =~= "mod"@);
    assert(stem(l) =~= "lib"@);
    law_file_in_directory(dir, m);
    law_file_in_directory(dir, l);
}

} // verus!
