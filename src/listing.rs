//! Image lists of the dataset splits: a `.txt` file of image paths, one per line,
//! and a `.shapes` file of `width height` pairs on the matching lines.
use crate::dataset::{join_path, joined};
use crate::text::{all_digits, decimal, is_digit};
use vstd::prelude::*;
use vstd::string::{StrSliceExecFns, StringExecFns};

verus! {

/// Whether a character is white space, as Unicode defines it.
pub uninterp spec fn white_space(c: char) -> bool;

/// Relies on `char::is_whitespace`: whether a character is white space depends on
/// the character alone.
#[verifier::external_body]
fn is_white_space(c: char) -> (r: bool)
    ensures
        r == white_space(c),
{
    c.is_whitespace()
}

/// The start and end of each maximal run of non-white-space characters among the
/// first `n` characters of `s`, in order.
pub open spec fn spans(s: Seq<char>, n: int) -> Seq<(int, int)>
    decreases n,
{
    if n <= 0 {
        Seq::empty()
    } else {
        let prev = spans(s, n - 1);
        if white_space(s[n - 1]) {
            prev
        } else if n >= 2 && !white_space(s[n - 2]) {
            prev.update(prev.len() - 1, (prev.last().0, n))
        } else {
            prev.push((n - 1, n))
        }
    }
}

/// The white-space separated tokens of `s`.
pub open spec fn tokens(s: Seq<char>) -> Seq<Seq<char>> {
    spans(s, s.len() as int).map_values(|p: (int, int)| s.subrange(p.0, p.1))
}

/// The value of an unsigned decimal text with an optional leading `+`, if it fits in `usize`.
pub open spec fn usize_text(t: Seq<char>) -> Option<usize> {
    let d = if t.len() > 0 && t[0] == '+' {
        t.drop_first()
    } else {
        t
    };
    if d.len() > 0 && all_digits(d) && decimal(d) <= usize::MAX {
        Some(decimal(d) as usize)
    } else {
        None
    }
}

/// The (height, width) of a shape line `width height`: exactly two tokens, both unsigned.
pub open spec fn shape_of(line: Seq<char>) -> Option<(usize, usize)> {
    let t = tokens(line);
    if t.len() == 2 && usize_text(t[0]) is Some && usize_text(t[1]) is Some {
        Some((usize_text(t[1])->Some_0, usize_text(t[0])->Some_0))
    } else {
        None
    }
}

proof fn lemma_spans_nonempty(s: Seq<char>, n: int)
    requires
        1 <= n <= s.len(),
        !white_space(s[n - 1]),
    ensures
        spans(s, n).len() >= 1,
        spans(s, n).last().1 == n,
    decreases n,
{
    if n >= 2 && !white_space(s[n - 2]) {
        lemma_spans_nonempty(s, n - 1);
    }
}

proof fn lemma_spans_bounded(s: Seq<char>, n: int)
    requires
        0 <= n <= s.len(),
    ensures
        forall|k: int| 0 <= k < spans(s, n).len() ==> 0 <= #[trigger] spans(s, n)[k].0 <= spans(s, n)[k].1 <= n,
    decreases n,
{
    if n > 0 {
        lemma_spans_bounded(s, n - 1);
        let prev = spans(s, n - 1);
        if !white_space(s[n - 1]) && n >= 2 && !white_space(s[n - 2]) {
            lemma_spans_nonempty(s, n - 1);
            let cur = spans(s, n);
            assert forall|k: int| 0 <= k < cur.len() implies 0 <= #[trigger] cur[k].0 <= cur[k].1 <= n by {
                if k < prev.len() - 1 {
                    assert(cur[k] == prev[k]);
                } else {
                    assert(prev[prev.len() - 1].0 <= prev[prev.len() - 1].1);
                }
            }
        } else if !white_space(s[n - 1]) {
            let cur = spans(s, n);
            assert forall|k: int| 0 <= k < cur.len() implies 0 <= #[trigger] cur[k].0 <= cur[k].1 <= n by {
                if k < prev.len() {
                    assert(cur[k] == prev[k]);
                }
            }
        }
    }
}

/// The spans of the tokens of `s`.
fn token_spans(s: &str) -> (r: Vec<(usize, usize)>)
    ensures
        r@.len() == spans(s@, s@.len() as int).len(),
        forall|k: int| 0 <= k < r@.len() ==> #[trigger] r@[k].0 as int == spans(s@, s@.len() as int)[k].0 && r@[k].1 as int == spans(s@, s@.len() as int)[k].1,
{
    let n = s.unicode_len();
    let mut out: Vec<(usize, usize)> = Vec::new();
    let mut prev_white = true;
    let mut i: usize = 0;
    while i < n
        invariant
            n == s@.len(),
            i <= n,
            prev_white == (i == 0 || white_space(s@[i - 1])),
            out@.len() == spans(s@, i as int).len(),
            forall|k: int| 0 <= k < out@.len() ==> #[trigger] out@[k].0 as int == spans(s@, i as int)[k].0 && out@[k].1 as int == spans(s@, i as int)[k].1,
        decreases n - i,
    {
        let c = s.get_char(i);
        let white = is_white_space(c);
        if !white {
            if prev_white {
                out.push((i, i + 1));
            } else {
                proof {
                    lemma_spans_nonempty(s@, i as int);
                }
                let k = out.len() - 1;
                let start = out[k].0;
                out.set(k, (start, i + 1));
            }
        }
        prev_white = white;
        i = i + 1;
    }
    out
}

/// Parses an unsigned decimal text with an optional leading `+`.
pub fn parse_usize(t: &str) -> (r: Option<usize>)
    ensures
        r == usize_text(t@),
{
    let n = t.unicode_len();
    let mut i: usize = 0;
    if n > 0 && t.get_char(0) == '+' {
        i = 1;
    }
    let start = i;
    let ghost d = t@.subrange(start as int, n as int);
    assert(d =~= (if t@.len() > 0 && t@[0] == '+' { t@.drop_first() } else { t@ }));
    if i >= n {
        return None;
    }
    let mut value: usize = 0;
    let mut over = false;
    while i < n
        invariant
            n == t@.len(),
            start <= i <= n,
            d == t@.subrange(start as int, n as int),
            d == (if t@.len() > 0 && t@[0] == '+' { t@.drop_first() } else { t@ }),
            d.len() > 0,
            all_digits(t@.subrange(start as int, i as int)),
            !over ==> value as int == decimal(t@.subrange(start as int, i as int)),
            over ==> decimal(t@.subrange(start as int, i as int)) > usize::MAX,
        decreases n - i,
    {
        let c = t.get_char(i);
        let ghost prev = t@.subrange(start as int, i as int);
        let ghost next = t@.subrange(start as int, i + 1);
        if c < '0' || c > '9' {
            assert(!is_digit(d[i - start]));
            return None;
        }
        assert(next.drop_last() =~= prev);
        assert(all_digits(next)) by {
            assert forall|k: int| 0 <= k < next.len() implies is_digit(#[trigger] next[k]) by {
                if k < prev.len() {
                    assert(next[k] == prev[k]);
                }
            }
        }
        let digit = (c as u32 - '0' as u32) as u128;
        if !over {
            let following: u128 = value as u128 * 10 + digit;
            if following > usize::MAX as u128 {
                over = true;
            } else {
                value = following as usize;
            }
        }
        i = i + 1;
    }
    assert(t@.subrange(start as int, n as int) =~= d);
    if over {
        None
    } else {
        Some(value)
    }
}

/// The (height, width) of a shape line `width height`.
pub fn parse_shape_line(line: &str) -> (r: Option<(usize, usize)>)
    ensures
        r == shape_of(line@),
{
    let sp = token_spans(line);
    proof {
        lemma_spans_bounded(line@, line@.len() as int);
    }
    if sp.len() != 2 {
        return None;
    }
    let first = line.substring_char(sp[0].0, sp[0].1);
    let second = line.substring_char(sp[1].0, sp[1].1);
    let width = parse_usize(first);
    let height = parse_usize(second);
    match (width, height) {
        (Some(w), Some(h)) => Some((h, w)),
        _ => None,
    }
}

/// One image of a split: its path and its size in pixels.
#[derive(Clone, Debug, PartialEq, Eq, Hash)]
pub struct ImageMeta {
    pub path: String,
    pub height: usize,
    pub width: usize,
}

/// Why the image list of a split could not be read.
#[derive(Clone, Debug, PartialEq, Eq, Hash)]
pub enum ListError {
    /// A file of the split could not be read; its path.
    Io(String),
    /// The shape line at this position (from 0) is not `width height`.
    BadShapeLine(usize),
}

/// Whether the first `n` shape lines all read as `width height`.
pub open spec fn shapes_ok(shape_lines: Seq<String>, n: int) -> bool {
    forall|i: int| 0 <= i < n ==> (#[trigger] shape_of(shape_lines[i]@)) is Some
}

/// The images of a split, pairing the path lines of its list with the lines of its
/// shape file, as far as both go. A path line is joined onto `base_dir`.
pub fn load_from_list_shape(base_dir: &str, list_lines: &Vec<String>, shape_lines: &Vec<String>) -> (r: Result<Vec<ImageMeta>, ListError>)
    ensures
        ({
            let n = if list_lines@.len() < shape_lines@.len() { list_lines@.len() } else { shape_lines@.len() };
            &&& r is Ok <==> shapes_ok(shape_lines@, n as int)
            &&& r matches Ok(metas) ==> metas@.len() == n && forall|i: int| 0 <= i < n ==> {
                &&& (#[trigger] metas@[i]).path@ == joined(base_dir@, list_lines@[i]@)
                &&& shape_of(shape_lines@[i]@) == Some((metas@[i].height, metas@[i].width))
            }
            &&& r matches Err(e) ==> e matches ListError::BadShapeLine(k) && k < n && shape_of(shape_lines@[k as int]@) is None
                && shapes_ok(shape_lines@, k as int)
        }),
{
    let n = if list_lines.len() < shape_lines.len() { list_lines.len() } else { shape_lines.len() };
    let mut metas: Vec<ImageMeta> = Vec::new();
    let mut i: usize = 0;
    while i < n
        invariant
            n <= list_lines@.len(),
            n <= shape_lines@.len(),
            i <= n,
            metas@.len() == i,
            shapes_ok(shape_lines@, i as int),
            forall|j: int| 0 <= j < i ==> {
                &&& (#[trigger] metas@[j]).path@ == joined(base_dir@, list_lines@[j]@)
                &&& shape_of(shape_lines@[j]@) == Some((metas@[j].height, metas@[j].width))
            },
        decreases n - i,
    {
        match parse_shape_line(shape_lines[i].as_str()) {
            Some((height, width)) => {
                let path = join_path(base_dir, list_lines[i].as_str());
                metas.push(ImageMeta { path, height, width });
            },
            None => return Err(ListError::BadShapeLine(i)),
        }
        i = i + 1;
    }
    Ok(metas)
}

/// The name of the `k`-th split whose image list `load` reads.
pub open spec fn split_name(k: int) -> Seq<char> {
    if k == 0 {
        "train2017"@
    } else if k == 1 {
        "test-dev2017"@
    } else {
        "val2017"@
    }
}

/// The list file and the shape file of each split under `dir`, in split order.
pub fn split_files(dir: &str) -> (r: Vec<(String, String)>)
    ensures
        r@.len() == 3,
        forall|k: int| 0 <= k < 3 ==> (#[trigger] r@[k]).0@ == joined(dir@, split_name(k) + ".txt"@)
            && r@[k].1@ == joined(dir@, split_name(k) + ".shapes"@),
{
    let names = ["train2017", "test-dev2017", "val2017"];
    let mut out: Vec<(String, String)> = Vec::new();
    let mut k: usize = 0;
    while k < 3
        invariant
            k <= 3,
            out@.len() == k,
            names@ == seq!["train2017", "test-dev2017", "val2017"],
            forall|j: int| 0 <= j < k ==> (#[trigger] out@[j]).0@ == joined(dir@, split_name(j) + ".txt"@)
                && out@[j].1@ == joined(dir@, split_name(j) + ".shapes"@),
        decreases 3 - k,
    {
        let mut list_name = names[k].to_owned();
        list_name.append(".txt");
        let mut shape_name = names[k].to_owned();
        shape_name.append(".shapes");
        out.push((join_path(dir, list_name.as_str()), join_path(dir, shape_name.as_str())));
        k = k + 1;
    }
    out
}

/// Whether every shape line of a split that has a matching list line reads as `width height`.
pub open spec fn split_ok(lines: (Vec<String>, Vec<String>)) -> bool {
    let n = if lines.0@.len() < lines.1@.len() {
        lines.0@.len()
    } else {
        lines.1@.len()
    };
    shapes_ok(lines.1@, n as int)
}

/// Checks the image lists of every split under `dir`: `lines[k]` holds the lines of
/// the list file and of the shape file of the `k`-th split. It fails at the first
/// split with a shape line that is not `width height`.
pub fn load(dir: &str, lines: &Vec<(Vec<String>, Vec<String>)>) -> (r: Result<(), ListError>)
    ensures
        r is Ok <==> forall|k: int| 0 <= k < lines@.len() ==> #[trigger] split_ok(lines@[k]),
{
    let mut k: usize = 0;
    while k < lines.len()
        invariant
            k <= lines@.len(),
            forall|j: int| 0 <= j < k ==> #[trigger] split_ok(lines@[j]),
        decreases lines@.len() - k,
    {
        match load_from_list_shape(dir, &lines[k].0, &lines[k].1) {
            Ok(_) => {},
            Err(e) => {
                proof {
                    if let ListError::BadShapeLine(bad) = e {
                        assert(shape_of(lines@[k as int].1@[bad as int]@) is None);
                        assert(!split_ok(lines@[k as int]));
                    }
                }
                return Err(e);
            },
        }
        k = k + 1;
    }
    Ok(())
}

} // verus!
