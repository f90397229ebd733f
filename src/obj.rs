use vstd::prelude::*;
use crate::json::is_digit;
use crate::settings::decimal_value;
use crate::text::{chars_of, is_unicode_whitespace, is_unicode_ws, string_of};

verus! {

/// One corner of a face: 1-based indices of its position, normal and texture
/// coordinates, 0 where the face gives none.
#[derive(Debug, Clone, Copy, PartialEq, Eq, Structural)]
pub struct FaceVertex {
    pub vi: usize,
    pub ni: usize,
    pub ti: usize,
}

/// What a line of a mesh file declares.
#[derive(Debug, Clone, Copy, PartialEq, Eq, Structural)]
pub enum ObjLine {
    Position,
    TexCoord,
    Normal,
    Face,
    Other,
}

/// The kind of a line, by its first characters: `v ` a position, `vt`
/// texture coordinates, `vn` a normal, `f` a face.
pub open spec fn line_kind_spec(s: Seq<char>) -> ObjLine {
    if s.len() >= 2 && s[0] == 'v' && s[1] == ' ' {
        ObjLine::Position
    } else if s.len() >= 2 && s[0] == 'v' && s[1] == 't' {
        ObjLine::TexCoord
    } else if s.len() >= 2 && s[0] == 'v' && s[1] == 'n' {
        ObjLine::Normal
    } else if s.len() >= 1 && s[0] == 'f' {
        ObjLine::Face
    } else {
        ObjLine::Other
    }
}

pub fn line_kind(line: &str) -> (r: ObjLine)
    ensures
        r == line_kind_spec(line@),
{
    let c = chars_of(line);
    if c.len() >= 2 && c[0] == 'v' && c[1] == ' ' {
        ObjLine::Position
    } else if c.len() >= 2 && c[0] == 'v' && c[1] == 't' {
        ObjLine::TexCoord
    } else if c.len() >= 2 && c[0] == 'v' && c[1] == 'n' {
        ObjLine::Normal
    } else if c.len() >= 1 && c[0] == 'f' {
        ObjLine::Face
    } else {
        ObjLine::Other
    }
}

/// The maximal runs of characters of `s` from `i` on that are separated by
/// `sep`, given the run `cur` under way and the runs `acc` found before `i`.
/// Where `keep_empty` holds, every separator ends a run, empty ones too, and
/// the run under way at the end is kept; otherwise only non-empty runs count.
pub open spec fn runs_from(
    s: Seq<char>,
    i: int,
    sep: spec_fn(char) -> bool,
    keep_empty: bool,
    cur: Seq<char>,
    acc: Seq<Seq<char>>,
) -> Seq<Seq<char>>
    decreases s.len() - i,
{
    if i >= s.len() {
        if keep_empty || cur.len() > 0 {
            acc.push(cur)
        } else {
            acc
        }
    } else if sep(s[i]) {
        if keep_empty || cur.len() > 0 {
            runs_from(s, i + 1, sep, keep_empty, Seq::empty(), acc.push(cur))
        } else {
            runs_from(s, i + 1, sep, keep_empty, Seq::empty(), acc)
        }
    } else {
        runs_from(s, i + 1, sep, keep_empty, cur.push(s[i]), acc)
    }
}

/// The words of a line: its non-empty runs between whitespace.
pub open spec fn words(s: Seq<char>) -> Seq<Seq<char>> {
    runs_from(s, 0, |c: char| is_unicode_ws(c), false, Seq::empty(), Seq::empty())
}

/// The parts of a text between slashes, empty ones included.
pub open spec fn slash_parts(s: Seq<char>) -> Seq<Seq<char>> {
    runs_from(s, 0, |c: char| c == '/', true, Seq::empty(), Seq::empty())
}

pub open spec fn texts(v: Seq<String>) -> Seq<Seq<char>> {
    v.map_values(|x: String| x@)
}

/// Splits `c` at the characters that `sep` marks (see `runs_from`).
fn split_runs(c: &Vec<char>, sep_slash: bool) -> (r: Vec<String>)
    ensures
        texts(r@) == runs_from(
            c@,
            0,
            if sep_slash {
                |ch: char| ch == '/'
            } else {
                |ch: char| is_unicode_ws(ch)
            },
            sep_slash,
            Seq::empty(),
            Seq::empty(),
        ),
{
    let ghost sep = if sep_slash {
        |ch: char| ch == '/'
    } else {
        |ch: char| is_unicode_ws(ch)
    };
    let mut result: Vec<String> = Vec::new();
    let mut cur: Vec<char> = Vec::new();
    let mut i: usize = 0;
    assert(texts(result@) =~= Seq::empty());
    while i < c.len()
        invariant
            i <= c.len(),
            runs_from(c@, 0, sep, sep_slash, Seq::empty(), Seq::empty()) == runs_from(
                c@,
                i as int,
                sep,
                sep_slash,
                cur@,
                texts(result@),
            ),
            sep == (if sep_slash {
                |ch: char| ch == '/'
            } else {
                |ch: char| is_unicode_ws(ch)
            }),
        decreases c.len() - i,
    {
        let ch = c[i];
        let is_sep = if sep_slash {
            ch == '/'
        } else {
            is_unicode_whitespace(ch)
        };
        assert(is_sep == sep(ch));
        if is_sep {
            if sep_slash || cur.len() > 0 {
                let ghost before = result@;
                result.push(string_of(&cur));
                assert(texts(result@) =~= texts(before).push(cur@));
            }
            cur = Vec::new();
            assert(cur@ =~= Seq::<char>::empty());
        } else {
            cur.push(ch);
        }
        i = i + 1;
    }
    if sep_slash || cur.len() > 0 {
        let ghost before = result@;
        result.push(string_of(&cur));
        assert(texts(result@) =~= texts(before).push(cur@));
    }
    result
}

/// The words of a line, in order.
pub fn split_line(line: &str) -> (r: Vec<String>)
    ensures
        texts(r@) == words(line@),
{
    split_runs(&chars_of(line), false)
}

pub open spec fn all_digits(d: Seq<char>) -> bool {
    forall|i: int| 0 <= i < d.len() ==> is_digit(#[trigger] d[i])
}

/// An index as written in a mesh file: an optional `+`, then one or more
/// decimal digits, of a value that fits in `usize`.
pub open spec fn index_value(t: Seq<char>) -> Option<usize> {
    let d = if t.len() > 0 && t[0] == '+' {
        t.subrange(1, t.len() as int)
    } else {
        t
    };
    if d.len() > 0 && all_digits(d) && decimal_value(d) <= usize::MAX {
        Some(decimal_value(d) as usize)
    } else {
        None
    }
}

proof fn lemma_decimal_prefix(d: Seq<char>, k: int)
    requires
        0 <= k <= d.len(),
        all_digits(d),
    ensures
        decimal_value(d.take(k)) <= decimal_value(d),
    decreases d.len(),
{
    if k < d.len() {
        let e = d.drop_last();
        assert(e.take(k) =~= d.take(k));
        assert(all_digits(e)) by {
            assert forall|i: int| 0 <= i < e.len() implies is_digit(#[trigger] e[i]) by {
                assert(e[i] == d[i]);
            }
        }
        lemma_decimal_prefix(e, k);
    } else {
        assert(d.take(k) =~= d);
    }
}

/// Reads an index (see `index_value`).
pub fn parse_index(text: &str) -> (r: Option<usize>)
    ensures
        r == index_value(text@),
{
    let c = chars_of(text);
    let ghost t = c@;
    let mut i: usize = 0;
    if c.len() > 0 && c[0] == '+' {
        i = 1;
    }
    let b: usize = i;
    let ghost d = t.subrange(b as int, t.len() as int);
    if b == c.len() {
        return None;
    }
    let mut acc: usize = 0;
    assert(d.take(0) =~= Seq::<char>::empty());
    assert(d =~= (if t.len() > 0 && t[0] == '+' {
        t.subrange(1, t.len() as int)
    } else {
        t
    }));
    while i < c.len()
        invariant
            t == c@,
            t == text@,
            d.len() > 0,
            d == (if t.len() > 0 && t[0] == '+' {
                t.subrange(1, t.len() as int)
            } else {
                t
            }),
            d == t.subrange(b as int, t.len() as int),
            b <= i <= c.len(),
            all_digits(d.take(i - b)),
            acc == decimal_value(d.take(i - b)),
        decreases c.len() - i,
    {
        let ch = c[i];
        let ghost k = i - b;
        if !('0' <= ch && ch <= '9') {
            assert(d[k] == ch);
            assert(!all_digits(d));
            return None;
        }
        let digit = (ch as u32 - '0' as u32) as usize;
        assert(d.take(k + 1).drop_last() =~= d.take(k));
        assert(all_digits(d.take(k + 1))) by {
            assert forall|j: int| 0 <= j < k + 1 implies is_digit(#[trigger] d.take(k + 1)[j]) by {
                if j < k {
                    assert(d.take(k + 1)[j] == d.take(k)[j]);
                }
            }
        }
        if acc > (usize::MAX - digit) / 10 {
            assert(decimal_value(d.take(k + 1)) > usize::MAX) by (nonlinear_arith)
                requires
                    acc > (usize::MAX - digit) / 10,
                    decimal_value(d.take(k + 1)) == acc * 10 + digit,
                    0 <= digit,
            ;
            proof {
                if all_digits(d) {
                    lemma_decimal_prefix(d, k + 1);
                }
            }
            return None;
        }
        assert(acc * 10 + digit <= usize::MAX) by (nonlinear_arith)
            requires
                acc <= (usize::MAX - digit) / 10,
                0 <= digit <= 9,
        ;
        acc = acc * 10 + digit;
        i = i + 1;
    }
    assert(d.take(i - b) =~= d);
    Some(acc)
}

/// A corner of a face as written in a mesh file: `v`, `v/t`, `v//n` or
/// `v/t/n`, an empty part meaning none.
pub open spec fn face_vertex_spec(t: Seq<char>) -> Option<FaceVertex> {
    let p = slash_parts(t);
    if p.len() == 0 || p.len() > 3 {
        None
    } else {
        let ti = if p.len() >= 2 && p[1].len() > 0 {
            index_value(p[1])
        } else {
            Some(0usize)
        };
        let ni = if p.len() >= 3 && p[2].len() > 0 {
            index_value(p[2])
        } else {
            Some(0usize)
        };
        match (index_value(p[0]), ti, ni) {
            (Some(vi), Some(ti), Some(ni)) => Some(FaceVertex { vi, ni, ti }),
            _ => None,
        }
    }
}

/// Reads one corner of a face; `None` where the text is not one.
fn try_read_face_vertex(token: &str) -> (r: Option<FaceVertex>)
    ensures
        r == face_vertex_spec(token@),
{
    let parts = split_runs(&chars_of(token), true);
    let ghost p = texts(parts@);
    assert(p == slash_parts(token@));
    if parts.len() == 0 || parts.len() > 3 {
        return None;
    }
    assert(p[0] == parts@[0]@);
    let vi = match parse_index(parts[0].as_str()) {
        Some(v) => v,
        None => {
            return None;
        },
    };
    let mut ti: usize = 0;
    if parts.len() >= 2 {
        assert(p[1] == parts@[1]@);
        if parts[1].as_str().unicode_len() > 0 {
            match parse_index(parts[1].as_str()) {
                Some(v) => {
                    ti = v;
                },
                None => {
                    return None;
                },
            }
        }
    }
    let mut ni: usize = 0;
    if parts.len() >= 3 {
        assert(p[2] == parts@[2]@);
        if parts[2].as_str().unicode_len() > 0 {
            match parse_index(parts[2].as_str()) {
                Some(v) => {
                    ni = v;
                },
                None => {
                    return None;
                },
            }
        }
    }
    Some(FaceVertex { vi, ni, ti })
}

/// A face line: a keyword and exactly three corners.
pub open spec fn face_spec(s: Seq<char>) -> Option<Seq<FaceVertex>> {
    let w = words(s);
    if w.len() != 4 {
        None
    } else {
        match (face_vertex_spec(w[1]), face_vertex_spec(w[2]), face_vertex_spec(w[3])) {
            (Some(a), Some(b), Some(c)) => Some(seq![a, b, c]),
            _ => None,
        }
    }
}

/// Reads a face line into its three corners; `None` where it has another
/// number of corners or a corner is not valid.
fn try_read_face(line: &str) -> (r: Option<Vec<FaceVertex>>)
    ensures
        match face_spec(line@) {
            Some(f) => r is Some && r->0@ == f,
            None => r is None,
        },
{
    let tokens = split_line(line);
    let ghost w = texts(tokens@);
    if tokens.len() != 4 {
        return None;
    }
    assert(w[1] == tokens@[1]@ && w[2] == tokens@[2]@ && w[3] == tokens@[3]@);
    let v1 = match try_read_face_vertex(tokens[1].as_str()) {
        Some(v) => v,
        None => {
            return None;
        },
    };
    let v2 = match try_read_face_vertex(tokens[2].as_str()) {
        Some(v) => v,
        None => {
            return None;
        },
    };
    let v3 = match try_read_face_vertex(tokens[3].as_str()) {
        Some(v) => v,
        None => {
            return None;
        },
    };
    let r = vec![v1, v2, v3];
    assert(r@ =~= seq![v1, v2, v3]);
    Some(r)
}

/// Whether a 1-based index refers to one of `count` entries; 0 refers to none
/// and is always in range.
pub open spec fn index_in_range(index: usize, count: usize) -> bool {
    index <= count
}

/// Whether every corner of a face refers to entries that exist: positions,
/// normals and texture coordinates, each counted.
pub open spec fn face_in_range_spec(
    face: Seq<FaceVertex>,
    positions: usize,
    normals: usize,
    tex_coords: usize,
) -> bool {
    forall|i: int|
        0 <= i < face.len() ==> {
            &&& index_in_range(#[trigger] face[i].vi, positions)
            &&& index_in_range(face[i].ni, normals)
            &&& index_in_range(face[i].ti, tex_coords)
        }
}

/// Checks that a face refers only to entries that exist.
pub fn face_in_range(
    face: &Vec<FaceVertex>,
    positions: usize,
    normals: usize,
    tex_coords: usize,
) -> (r: bool)
    ensures
        r == face_in_range_spec(face@, positions, normals, tex_coords),
{
    let mut i: usize = 0;
    while i < face.len()
        invariant
            i <= face.len(),
            face_in_range_spec(face@.take(i as int), positions, normals, tex_coords),
        decreases face.len() - i,
    {
        let v = face[i];
        if v.vi > positions || v.ni > normals || v.ti > tex_coords {
            assert(!(index_in_range(face@[i as int].vi, positions) && index_in_range(
                face@[i as int].ni,
                normals,
            ) && index_in_range(face@[i as int].ti, tex_coords)));
            return false;
        }
        assert forall|j: int| 0 <= j < i + 1 implies {
            &&& index_in_range(#[trigger] face@.take(i + 1)[j].vi, positions)
            &&& index_in_range(face@.take(i + 1)[j].ni, normals)
            &&& index_in_range(face@.take(i + 1)[j].ti, tex_coords)
        } by {
            if j < i {
                assert(face@.take(i + 1)[j] == face@.take(i as int)[j]);
            }
        }
        i = i + 1;
    }
    assert(face@.take(i as int) =~= face@);
    true
}

/// Whether a text is one corner of a face (see `face_vertex_spec`).
pub fn is_face_vertex(token: &str) -> (r: bool)
    ensures
        r == face_vertex_spec(token@) is Some,
{
    try_read_face_vertex(token).is_some()
}

/// Reads one corner of a face; only for a valid one (`is_face_vertex` tells).
pub fn read_face_vertex(token: &str) -> (r: FaceVertex)
    requires
        face_vertex_spec(token@) is Some,
    ensures
        face_vertex_spec(token@) == Some(r),
{
    match try_read_face_vertex(token) {
        Some(v) => v,
        None => unreached(),
    }
}

/// Whether a line is a face of exactly three valid corners (see `face_spec`).
pub fn is_face(line: &str) -> (r: bool)
    ensures
        r == face_spec(line@) is Some,
{
    try_read_face(line).is_some()
}

/// Reads a face line into its three corners; only for a valid face line
/// (`is_face` tells).
pub fn read_face(line: &str) -> (r: Vec<FaceVertex>)
    requires
        face_spec(line@) is Some,
    ensures
        face_spec(line@) == Some(r@),
{
    match try_read_face(line) {
        Some(v) => v,
        None => unreached(),
    }
}

} // verus!
