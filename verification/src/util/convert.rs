//! Conversions from configuration text into runtime values.

use vstd::prelude::*;
use crate::input::keyboard::Key;
use crate::math::IVec2;

verus! {

/// Whitespace as the pair grammar accepts it.
pub open spec fn spec_is_ws(c: char) -> bool {
    c == ' ' || c == '\n' || c == '\t' || c == '\r'
}

/// A decimal digit.
pub open spec fn spec_is_digit(c: char) -> bool {
    '0' <= c <= '9'
}

/// First position at or after `i` that holds no whitespace.
pub open spec fn spec_ws_end(s: Seq<char>, i: int) -> int
    decreases s.len() - i when 0 <= i
{
    if i < s.len() && spec_is_ws(s[i]) {
        spec_ws_end(s, i + 1)
    } else {
        i
    }
}

/// First position at or after `i` that holds no digit.
pub open spec fn spec_digits_end(s: Seq<char>, i: int) -> int
    decreases s.len() - i when 0 <= i
{
    if i < s.len() && spec_is_digit(s[i]) {
        spec_digits_end(s, i + 1)
    } else {
        i
    }
}

/// Value of the digit run `s[i..j)`, read in base ten.
pub open spec fn spec_digits_value(s: Seq<char>, i: int, j: int) -> int
    decreases j - i when i <= j
{
    if i >= j {
        0
    } else {
        spec_digits_value(s, i, j - 1) * 10 + (s[j - 1] as int - '0' as int)
    }
}

/// What `into_vec2` makes of its input: after optional whitespace the
/// text must open with `(`, hold two digit runs that each fit an `i32`,
/// separated by a comma, and close with `)`; whitespace may stand around
/// every token and anything may follow the closing parenthesis. Each
/// failing stage has its own message.
pub open spec fn spec_parse_vec2(s: Seq<char>) -> Result<IVec2, Seq<char>> {
    let p0 = spec_ws_end(s, 0);
    if !(p0 < s.len() && s[p0] == '(') {
        Err("expected '('"@)
    } else {
        let x0 = spec_ws_end(s, p0 + 1);
        let x1 = spec_digits_end(s, x0);
        if x1 == x0 || spec_digits_value(s, x0, x1) > i32::MAX {
            Err("expected number"@)
        } else {
            let c0 = spec_ws_end(s, x1);
            if !(c0 < s.len() && s[c0] == ',') {
                Err("expected ','"@)
            } else {
                let y0 = spec_ws_end(s, c0 + 1);
                let y1 = spec_digits_end(s, y0);
                if y1 == y0 || spec_digits_value(s, y0, y1) > i32::MAX {
                    Err("expected number"@)
                } else {
                    let p1 = spec_ws_end(s, y1);
                    if !(p1 < s.len() && s[p1] == ')') {
                        Err("expected ')'"@)
                    } else {
                        Ok(IVec2 {
                            x: spec_digits_value(s, x0, x1) as i32,
                            y: spec_digits_value(s, y0, y1) as i32,
                        })
                    }
                }
            }
        }
    }
}

/// First position at or after `i` in `s` holding no whitespace.
fn skip_whitespace(s: &str, i: usize) -> (r: usize)
    requires
        i <= s@.len(),
    ensures
        i <= r <= s@.len(),
        r == spec_ws_end(s@, i as int),
{
    let n = s.unicode_len();
    let mut j = i;
    while j < n
        invariant
            n == s@.len(),
            i <= j <= n,
            spec_ws_end(s@, i as int) == spec_ws_end(s@, j as int),
        decreases n - j,
    {
        let c = s.get_char(j);
        if !(c == ' ' || c == '\n' || c == '\t' || c == '\r') {
            return j;
        }
        j += 1;
    }
    j
}

/// Reads the digit run starting at `i`: its end, and its value where it
/// is nonempty and fits an `i32`.
fn parse_num(s: &str, i: usize) -> (r: (usize, Result<i32, ()>))
    requires
        i <= s@.len(),
    ensures
        r.0 == spec_digits_end(s@, i as int),
        i <= r.0 <= s@.len(),
        match r.1 {
            Ok(v) => r.0 > i && spec_digits_value(s@, i as int, r.0 as int) == v,
            Err(_) => r.0 == i || spec_digits_value(s@, i as int, r.0 as int) > i32::MAX,
        },
{
    let n = s.unicode_len();
    let mut j = i;
    let mut acc: u64 = 0;
    let mut over: bool = false;
    while j < n
        invariant
            n == s@.len(),
            i <= j <= n,
            spec_digits_end(s@, i as int) == spec_digits_end(s@, j as int),
            forall|k: int| i <= k < j ==> spec_is_digit(s@[k]),
            !over ==> acc == spec_digits_value(s@, i as int, j as int) && acc <= i32::MAX,
            over ==> spec_digits_value(s@, i as int, j as int) > i32::MAX,
        decreases n - j,
    {
        let c = s.get_char(j);
        if !('0' <= c && c <= '9') {
            if j == i || over {
                return (j, Err(()));
            }
            return (j, Ok(acc as i32));
        }
        let d: u64 = (c as u32 as u64) - ('0' as u32 as u64);
        proof {
            assert(spec_digits_value(s@, i as int, j + 1)
                == spec_digits_value(s@, i as int, j as int) * 10 + (s@[j as int] as int
                    - '0' as int));
        }
        if !over {
            let next = acc * 10 + d;
            if next > 0x7fffffff {
                over = true;
            } else {
                acc = next;
            }
            proof {
                if over {
                    assert(spec_digits_value(s@, i as int, j + 1) > i32::MAX);
                }
            }
        } else {
            proof {
                let v = spec_digits_value(s@, i as int, j as int);
                assert(v * 10 + (s@[j as int] as int - '0' as int) > i32::MAX)
                    by (nonlinear_arith)
                    requires
                        v > i32::MAX,
                        s@[j as int] as int - '0' as int >= 0,
                {}
            }
        }
        j += 1;
    }
    if j == i || over {
        (j, Err(()))
    } else {
        (j, Ok(acc as i32))
    }
}

/// Parses a pair written as `(x, y)`, whitespace being no issue, into a
/// vector of two integers; see `spec_parse_vec2` for the exact grammar
/// and the message each malformed input earns.
pub fn into_vec2(s: &str) -> (r: Result<IVec2, String>)
    ensures
        match r {
            Ok(v) => spec_parse_vec2(s@) == Ok::<IVec2, Seq<char>>(v),
            Err(m) => spec_parse_vec2(s@) == Err::<IVec2, Seq<char>>(m@),
        },
{
    let n = s.unicode_len();
    let p0 = skip_whitespace(s, 0);
    if !(p0 < n && s.get_char(p0) == '(') {
        return Err(String::from_str("expected '('"));
    }
    let x0 = skip_whitespace(s, p0 + 1);
    let (x1, xr) = parse_num(s, x0);
    let x = match xr {
        Ok(v) => v,
        Err(_) => {
            return Err(String::from_str("expected number"));
        },
    };
    let c0 = skip_whitespace(s, x1);
    if !(c0 < n && s.get_char(c0) == ',') {
        return Err(String::from_str("expected ','"));
    }
    let y0 = skip_whitespace(s, c0 + 1);
    let (y1, yr) = parse_num(s, y0);
    let y = match yr {
        Ok(v) => v,
        Err(_) => {
            return Err(String::from_str("expected number"));
        },
    };
    let p1 = skip_whitespace(s, y1);
    if !(p1 < n && s.get_char(p1) == ')') {
        return Err(String::from_str("expected ')'"));
    }
    Ok(IVec2::new(x, y))
}

/// Whether two pieces of text read the same.
fn str_eq(a: &str, b: &str) -> (r: bool)
    ensures
        r == (a@ == b@),
{
    let av: String = a.to_owned();
    let bv: String = b.to_owned();
    av == bv
}

/// The key a configuration word names, if any.
pub open spec fn spec_key_of(s: Seq<char>) -> Option<Key> {
    if s == "a"@ { Some(Key::A) }
    else if s == "b"@ { Some(Key::B) }
    else if s == "c"@ { Some(Key::C) }
    else if s == "d"@ { Some(Key::D) }
    else if s == "e"@ { Some(Key::E) }
    else if s == "f"@ { Some(Key::F) }
    else if s == "g"@ { Some(Key::G) }
    else if s == "h"@ { Some(Key::H) }
    else if s == "i"@ { Some(Key::I) }
    else if s == "j"@ { Some(Key::J) }
    else if s == "k"@ { Some(Key::K) }
    else if s == "l"@ { Some(Key::L) }
    else if s == "m"@ { Some(Key::M) }
    else if s == "n"@ { Some(Key::N) }
    else if s == "o"@ { Some(Key::O) }
    else if s == "p"@ { Some(Key::P) }
    else if s == "q"@ { Some(Key::Q) }
    else if s == "r"@ { Some(Key::R) }
    else if s == "s"@ { Some(Key::S) }
    else if s == "t"@ { Some(Key::T) }
    else if s == "u"@ { Some(Key::U) }
    else if s == "v"@ { Some(Key::V) }
    else if s == "w"@ { Some(Key::W) }
    else if s == "x"@ { Some(Key::X) }
    else if s == "y"@ { Some(Key::Y) }
    else if s == "z"@ { Some(Key::Z) }
    else if s == "esc"@ { Some(Key::Escape) }
    else if s == "space"@ { Some(Key::Space) }
    else if s == "up"@ { Some(Key::UpArrow) }
    else if s == "down"@ { Some(Key::DownArrow) }
    else if s == "left"@ { Some(Key::LeftArrow) }
    else if s == "right"@ { Some(Key::RightArrow) }
    else { None }
}

/// The key named by a configuration word; a word outside the table is
/// an error naming the word.
pub fn into_key(value: &str) -> (r: Result<Key, String>)
    ensures
        match r {
            Ok(k) => spec_key_of(value@) == Some(k),
            Err(m) => spec_key_of(value@) is None
                && m@ == "key '"@ + value@ + "' does not have string mapping"@,
        },
{
    if str_eq(value, "a") { Ok(Key::A) }
    else if str_eq(value, "b") { Ok(Key::B) }
    else if str_eq(value, "c") { Ok(Key::C) }
    else if str_eq(value, "d") { Ok(Key::D) }
    else if str_eq(value, "e") { Ok(Key::E) }
    else if str_eq(value, "f") { Ok(Key::F) }
    else if str_eq(value, "g") { Ok(Key::G) }
    else if str_eq(value, "h") { Ok(Key::H) }
    else if str_eq(value, "i") { Ok(Key::I) }
    else if str_eq(value, "j") { Ok(Key::J) }
    else if str_eq(value, "k") { Ok(Key::K) }
    else if str_eq(value, "l") { Ok(Key::L) }
    else if str_eq(value, "m") { Ok(Key::M) }
    else if str_eq(value, "n") { Ok(Key::N) }
    else if str_eq(value, "o") { Ok(Key::O) }
    else if str_eq(value, "p") { Ok(Key::P) }
    else if str_eq(value, "q") { Ok(Key::Q) }
    else if str_eq(value, "r") { Ok(Key::R) }
    else if str_eq(value, "s") { Ok(Key::S) }
    else if str_eq(value, "t") { Ok(Key::T) }
    else if str_eq(value, "u") { Ok(Key::U) }
    else if str_eq(value, "v") { Ok(Key::V) }
    else if str_eq(value, "w") { Ok(Key::W) }
    else if str_eq(value, "x") { Ok(Key::X) }
    else if str_eq(value, "y") { Ok(Key::Y) }
    else if str_eq(value, "z") { Ok(Key::Z) }
    else if str_eq(value, "esc") { Ok(Key::Escape) }
    else if str_eq(value, "space") { Ok(Key::Space) }
    else if str_eq(value, "up") { Ok(Key::UpArrow) }
    else if str_eq(value, "down") { Ok(Key::DownArrow) }
    else if str_eq(value, "left") { Ok(Key::LeftArrow) }
    else if str_eq(value, "right") { Ok(Key::RightArrow) }
    else {
        Err(
            String::from_str("key '")
                .concat(value)
                .concat("' does not have string mapping"),
        )
    }
}

/// The views of a list of owned path components.
pub open spec fn spec_texts(v: Seq<String>) -> Seq<Seq<char>> {
    v.map_values(|s: String| s@)
}

/// A path separator: forward or backward slash.
pub open spec fn spec_is_path_sep(c: char) -> bool {
    c == '/' || c == '\\'
}

/// Position of the first path separator at or after `i`; the length
/// when there is none.
pub open spec fn spec_first_path_sep(s: Seq<char>, i: int) -> int
    decreases s.len() - i when 0 <= i
{
    if i < s.len() {
        if spec_is_path_sep(s[i]) {
            i
        } else {
            spec_first_path_sep(s, i + 1)
        }
    } else {
        i
    }
}

/// The path's components: the maximal non-empty runs between
/// separators.
pub open spec fn spec_path_components(s: Seq<char>) -> Seq<Seq<char>>
    decreases s.len(),
{
    if s.len() == 0 {
        Seq::empty()
    } else {
        let p = spec_first_path_sep(s, 0);
        if p == 0 {
            spec_path_components(s.skip(1))
        } else if 0 < p < s.len() {
            seq![s.take(p)] + spec_path_components(s.skip(p + 1))
        } else {
            seq![s]
        }
    }
}

/// Position of the rightmost dot at or before `i` that could mark an
/// extension — never the first character, where a dot starts a hidden
/// name instead; zero when there is none.
pub open spec fn spec_last_dot(name: Seq<char>, i: int) -> int
    decreases i when i < name.len()
{
    if i < 1 {
        0
    } else if name[i] == '.' {
        i
    } else {
        spec_last_dot(name, i - 1)
    }
}

/// A file name without its extension.
pub open spec fn spec_stem(name: Seq<char>) -> Seq<char> {
    let d = spec_last_dot(name, name.len() - 1);
    if d >= 1 {
        name.take(d)
    } else {
        name
    }
}

/// A Windows drive designator: one upper-case letter and a colon.
pub open spec fn spec_is_drive(c: Seq<char>) -> bool {
    c.len() == 2 && 'A' <= c[0] <= 'Z' && c[1] == ':'
}

/// The parts joined with single dots.
pub open spec fn spec_join_dots(parts: Seq<Seq<char>>) -> Seq<char>
    decreases parts.len(),
{
    if parts.len() == 0 {
        Seq::empty()
    } else if parts.len() == 1 {
        parts[0]
    } else {
        spec_join_dots(parts.drop_last()) + seq!['.'] + parts.last()
    }
}

/// What `into_id` makes of a path: its components with the last one's
/// extension stripped, joined with dots; a rooted path, or one opening
/// with a drive designator reduced to its letter, gains a leading dot.
/// A path with no components at all maps to the empty id.
pub open spec fn spec_path_id(s: Seq<char>) -> Seq<char> {
    let comps = spec_path_components(s);
    if comps.len() == 0 {
        Seq::empty()
    } else {
        let rooted = spec_is_path_sep(s[0]);
        let drive = !rooted && spec_is_drive(comps[0]);
        let based = if drive {
            comps.update(0, comps[0].take(1))
        } else {
            comps
        };
        let stemmed = based.update(based.len() - 1, spec_stem(based[based.len() - 1]));
        if rooted || drive {
            spec_join_dots(seq![Seq::<char>::empty()] + stemmed)
        } else {
            spec_join_dots(stemmed)
        }
    }
}

/// Scanning past non-separator characters does not move the first
/// separator.
proof fn lemma_first_sep_scan(s: Seq<char>, i: int, j: int)
    requires
        0 <= i <= j <= s.len(),
        forall|k: int| i <= k < j ==> !spec_is_path_sep(s[k]),
    ensures
        spec_first_path_sep(s, i) == spec_first_path_sep(s, j),
    decreases j - i,
{
    if i < j {
        lemma_first_sep_scan(s, i + 1, j);
    }
}

/// Splits a path into its non-empty components, in order.
fn split_path(s: &str) -> (r: Vec<String>)
    ensures
        spec_texts(r@) == spec_path_components(s@),
{
    let n = s.unicode_len();
    let mut comps: Vec<String> = Vec::new();
    let mut start: usize = 0;
    let mut i: usize = 0;
    proof {
        assert(s@.skip(0) =~= s@);
        assert(spec_texts(comps@) =~= Seq::<Seq<char>>::empty());
        assert(spec_texts(comps@) + spec_path_components(s@) =~= spec_path_components(s@));
    }
    while i < n
        invariant
            n == s@.len(),
            start <= i <= n,
            forall|k: int| start <= k < i ==> !spec_is_path_sep(s@[k]),
            spec_path_components(s@) == spec_texts(comps@)
                + spec_path_components(s@.skip(start as int)),
        decreases n - i,
    {
        let c = s.get_char(i);
        if c == '/' || c == '\\' {
            let ghost t = s@.skip(start as int);
            let ghost p = i - start as int;
            proof {
                assert forall|k: int| 0 <= k < p implies !spec_is_path_sep(t[k]) by {
                    assert(t[k] == s@[start + k]);
                }
                lemma_first_sep_scan(t, 0, p);
                assert(spec_is_path_sep(t[p]));
                assert(spec_first_path_sep(t, 0) == p);
            }
            if i > start {
                let piece = s.substring_char(start, i).to_owned();
                let ghost before = comps@;
                comps.push(piece);
                proof {
                    assert(t.skip(p + 1) =~= s@.skip(i + 1));
                    assert(spec_path_components(t) == seq![t.take(p)]
                        + spec_path_components(s@.skip(i + 1)));
                    assert(comps@.last()@ =~= t.take(p));
                    assert(spec_texts(comps@) =~= spec_texts(before).push(t.take(p)));
                    assert(spec_texts(before) + (seq![t.take(p)]
                        + spec_path_components(s@.skip(i + 1)))
                        =~= spec_texts(comps@) + spec_path_components(s@.skip(i + 1)));
                }
            } else {
                proof {
                    assert(p == 0);
                    assert(t.skip(1) =~= s@.skip(i + 1));
                    assert(spec_path_components(t) == spec_path_components(s@.skip(i + 1)));
                }
            }
            start = i + 1;
        }
        i += 1;
    }
    let ghost t = s@.skip(start as int);
    if start < n {
        proof {
            assert forall|k: int| 0 <= k < t.len() implies !spec_is_path_sep(t[k]) by {
                assert(t[k] == s@[start + k]);
            }
            lemma_first_sep_scan(t, 0, t.len() as int);
            assert(spec_first_path_sep(t, 0) == t.len());
        }
        let piece = s.substring_char(start, n).to_owned();
        let ghost before = comps@;
        comps.push(piece);
        proof {
            assert(comps@.last()@ =~= t);
            assert(spec_path_components(t) =~= seq![t]);
            assert(spec_texts(comps@) =~= spec_texts(before).push(t));
            assert(spec_texts(before) + spec_path_components(t) =~= spec_texts(comps@));
            assert(spec_texts(comps@) == spec_path_components(s@));
        }
    } else {
        proof {
            assert(t.len() == 0);
            assert(spec_path_components(t) =~= Seq::<Seq<char>>::empty());
            assert(spec_texts(comps@) + spec_path_components(t) =~= spec_texts(comps@));
            assert(spec_texts(comps@) == spec_path_components(s@));
        }
    }
    comps
}

/// Position of the rightmost extension dot of a name; zero when the
/// name carries no extension.
fn last_dot(name: &str) -> (r: usize)
    ensures
        r == spec_last_dot(name@, name@.len() - 1),
        r < name@.len() || r == 0,
{
    let n = name.unicode_len();
    if n == 0 {
        return 0;
    }
    let mut j: usize = n - 1;
    while j >= 1
        invariant
            n == name@.len(),
            j <= n - 1,
            spec_last_dot(name@, n - 1) == spec_last_dot(name@, j as int),
        decreases j,
    {
        if name.get_char(j) == '.' {
            return j;
        }
        j -= 1;
    }
    0
}

/// Turns a file path into a dotted identifier: components joined with
/// dots, the last one stripped of its extension, a rooted or
/// drive-qualified path opening with a dot. See `spec_path_id` for the
/// exact shape.
pub fn into_id(path: &str) -> (r: String)
    ensures
        r@ == spec_path_id(path@),
{
    let mut comps = split_path(path);
    if comps.len() == 0 {
        proof {
            assert(spec_path_components(path@).len() == 0);
        }
        return String::new();
    }
    proof {
        if path@.len() == 0 {
            assert(spec_path_components(path@) =~= Seq::<Seq<char>>::empty());
        }
    }
    let c0 = path.get_char(0);
    let rooted = c0 == '/' || c0 == '\\';
    let mut drive = false;
    if !rooted {
        if comps[0].as_str().unicode_len() == 2 {
            let a = comps[0].as_str().get_char(0);
            let b = comps[0].as_str().get_char(1);
            if 'A' <= a && a <= 'Z' && b == ':' {
                drive = true;
            }
        }
    }
    proof {
        assert(drive == (!rooted && spec_is_drive(comps@[0]@)));
    }
    let ghost raw = spec_texts(comps@);
    if drive {
        let letter = comps[0].as_str().substring_char(0, 1).to_owned();
        comps.set(0, letter);
        proof {
            assert(comps@[0]@ =~= raw[0].take(1));
            assert(spec_texts(comps@) =~= raw.update(0, raw[0].take(1)));
        }
    }
    let ghost based = spec_texts(comps@);
    let li = comps.len() - 1;
    let last_comp = comps[li].clone();
    let d = last_dot(last_comp.as_str());
    if d >= 1 {
        comps.set(li, last_comp.as_str().substring_char(0, d).to_owned());
        proof {
            assert(comps@[li as int]@ =~= spec_stem(based[li as int]));
        }
    }
    proof {
        assert(spec_texts(comps@) =~= based.update(li as int, spec_stem(based[li as int])));
    }
    if rooted || drive {
        comps.insert(0, String::new());
    }
    let ghost parts = spec_texts(comps@);
    proof {
        if rooted || drive {
            assert(parts =~= seq![Seq::<char>::empty()]
                + based.update(li as int, spec_stem(based[li as int])));
        }
        assert(spec_path_id(path@) == spec_join_dots(parts));
    }

    let mut out = String::new();
    let m = comps.len();
    let mut j: usize = 0;
    proof {
        assert(parts.take(0) =~= Seq::<Seq<char>>::empty());
    }
    while j < m
        invariant
            m == comps@.len(),
            j <= m,
            parts == spec_texts(comps@),
            out@ == spec_join_dots(parts.take(j as int)),
        decreases m - j,
    {
        if j > 0 {
            out.append(".");
        }
        out.append(comps[j].as_str());
        proof {
            reveal_strlit(".");
            let t2 = parts.take(j + 1);
            assert(t2.last() == parts[j as int]);
            assert(t2.drop_last() =~= parts.take(j as int));
            if j == 0 {
                assert(t2.len() == 1);
                assert(out@ =~= t2[0]);
                assert(out@ == spec_join_dots(t2));
            } else {
                assert("."@ =~= seq!['.']);
                assert(out@ =~= spec_join_dots(parts.take(j as int)) + seq!['.']
                    + parts[j as int]);
                assert(out@ == spec_join_dots(t2));
            }
        }
        j += 1;
    }
    proof {
        assert(parts.take(m as int) =~= parts);
    }
    out
}

} // verus!
