//! Shader bookkeeping: named GLSL sources contributed by plugins, named
//! vertex/fragment pairs, and the archive of fully resolved programs.
//!
//! A source line of the form `#import "name"` pulls another registered
//! source in verbatim; resolution detects circular imports and skips
//! sources already imported once. What comes out is plain text; handing it
//! to a graphics context stays outside this crate.

use vstd::prelude::*;
use crate::util::logging::Logger;
use crate::util::storage::NameMap;

verus! {

/// Whitespace as the import grammar accepts it.
pub open spec fn spec_is_space(c: char) -> bool {
    c == ' ' || c == '\t' || c == '\r' || c == '\n'
}

/// Characters allowed in an imported source name: ASCII letters,
/// digits, underscore, hyphen and dot. Names are ASCII by convention;
/// a directive whose name steps outside simply matches no source.
pub open spec fn spec_is_word_char(c: char) -> bool {
    ||| 'a' <= c <= 'z'
    ||| 'A' <= c <= 'Z'
    ||| '0' <= c <= '9'
    ||| c == '_'
    ||| c == '-'
    ||| c == '.'
}

/// First position at or after `i` that does not hold whitespace.
pub open spec fn spec_skip_spaces(s: Seq<char>, i: int) -> int
    decreases s.len() - i when 0 <= i
{
    if i < s.len() && spec_is_space(s[i]) {
        spec_skip_spaces(s, i + 1)
    } else {
        i
    }
}

/// First position at or after `i` that does not hold a word character.
pub open spec fn spec_word_end(s: Seq<char>, i: int) -> int
    decreases s.len() - i when 0 <= i
{
    if i < s.len() && spec_is_word_char(s[i]) {
        spec_word_end(s, i + 1)
    } else {
        i
    }
}

/// What an import line denotes: a line of the shape
/// `# import "name"` — any amount of whitespace around the tokens, the
/// name nonempty and made of word characters — denotes that name;
/// any other line denotes nothing.
pub open spec fn spec_import_of(s: Seq<char>) -> Option<Seq<char>> {
    let h = spec_skip_spaces(s, 0);
    if h < s.len() && s[h] == '#' {
        let kw = spec_skip_spaces(s, h + 1);
        if kw + 6 <= s.len() && s[kw] == 'i' && s[kw + 1] == 'm' && s[kw + 2] == 'p'
            && s[kw + 3] == 'o' && s[kw + 4] == 'r' && s[kw + 5] == 't' {
            let q = spec_skip_spaces(s, kw + 6);
            if q < s.len() && s[q] == '"' {
                let e = spec_word_end(s, q + 1);
                if e > q + 1 && e < s.len() && s[e] == '"' && spec_skip_spaces(s, e + 1) == s.len() {
                    Some(s.subrange(q + 1, e))
                } else {
                    None
                }
            } else {
                None
            }
        } else {
            None
        }
    } else {
        None
    }
}

/// First position at or after `i` in `s` that holds no whitespace.
fn skip_spaces(s: &str, i: usize) -> (r: usize)
    requires
        i <= s@.len(),
    ensures
        i <= r <= s@.len(),
        r == spec_skip_spaces(s@, i as int),
{
    let n = s.unicode_len();
    let mut j = i;
    while j < n
        invariant
            n == s@.len(),
            i <= j <= n,
            spec_skip_spaces(s@, i as int) == spec_skip_spaces(s@, j as int),
        decreases n - j,
    {
        let c = s.get_char(j);
        if !(c == ' ' || c == '\t' || c == '\r' || c == '\n') {
            return j;
        }
        j += 1;
    }
    j
}

/// First position at or after `i` in `s` that holds no word character.
fn word_end(s: &str, i: usize) -> (r: usize)
    requires
        i <= s@.len(),
    ensures
        i <= r <= s@.len(),
        r == spec_word_end(s@, i as int),
{
    let n = s.unicode_len();
    let mut j = i;
    while j < n
        invariant
            n == s@.len(),
            i <= j <= n,
            spec_word_end(s@, i as int) == spec_word_end(s@, j as int),
        decreases n - j,
    {
        let c = s.get_char(j);
        if !(('a' <= c && c <= 'z') || ('A' <= c && c <= 'Z') || ('0' <= c && c <= '9')
            || c == '_' || c == '-' || c == '.') {
            return j;
        }
        j += 1;
    }
    j
}

/// The source name an `# import "name"` line asks for, if the line is
/// such an import directive; the name is returned without its quotes.
pub fn parse_import_line(line: &str) -> (r: Option<String>)
    ensures
        match r {
            Some(f) => spec_import_of(line@) == Some(f@),
            None => spec_import_of(line@) is None,
        },
{
    let n = line.unicode_len();
    let h = skip_spaces(line, 0);
    if h >= n {
        return None;
    }
    if line.get_char(h) != '#' {
        return None;
    }
    let kw = skip_spaces(line, h + 1);
    if n - kw < 6 {
        return None;
    }
    if line.get_char(kw) != 'i' || line.get_char(kw + 1) != 'm' || line.get_char(kw + 2) != 'p'
        || line.get_char(kw + 3) != 'o' || line.get_char(kw + 4) != 'r'
        || line.get_char(kw + 5) != 't' {
        return None;
    }
    let q = skip_spaces(line, kw + 6);
    if q >= n {
        return None;
    }
    if line.get_char(q) != '"' {
        return None;
    }
    let e = word_end(line, q + 1);
    if e <= q + 1 {
        return None;
    }
    if e >= n {
        return None;
    }
    if line.get_char(e) != '"' {
        return None;
    }
    let t = skip_spaces(line, e + 1);
    if t != n {
        return None;
    }
    Some(line.substring_char(q + 1, e).to_owned())
}

/// The views of a list of owned strings.
pub open spec fn spec_views(v: Seq<String>) -> Seq<Seq<char>> {
    v.map_values(|s: String| s@)
}

/// Whether `name` occurs in `seen`.
pub open spec fn spec_mem(seen: Seq<Seq<char>>, name: Seq<char>) -> bool {
    exists|j: int| 0 <= j < seen.len() && seen[j] == name
}

/// Position of the first line feed at or after `i`; the length when
/// there is none.
pub open spec fn spec_first_nl(s: Seq<char>, i: int) -> int
    decreases s.len() - i when 0 <= i
{
    if i < s.len() {
        if s[i] == '\n' {
            i
        } else {
            spec_first_nl(s, i + 1)
        }
    } else {
        i
    }
}

/// A line with a carriage return directly before its line feed loses it.
pub open spec fn spec_strip_cr(line: Seq<char>) -> Seq<char> {
    if line.len() > 0 && line.last() == '\r' {
        line.drop_last()
    } else {
        line
    }
}

/// The lines of `s`: split at line feeds, a carriage return before a
/// line feed belonging to the ending; text after the last line feed is
/// a final line, kept as it stands.
pub open spec fn spec_split_lines(s: Seq<char>) -> Seq<Seq<char>>
    decreases s.len(),
{
    if s.len() == 0 {
        Seq::empty()
    } else {
        let p = spec_first_nl(s, 0);
        if 0 <= p < s.len() {
            seq![spec_strip_cr(s.take(p))] + spec_split_lines(s.skip(p + 1))
        } else {
            seq![s]
        }
    }
}

/// The parts joined with single line feeds.
pub open spec fn spec_join(parts: Seq<Seq<char>>) -> Seq<char>
    decreases parts.len(),
{
    if parts.len() == 0 {
        Seq::empty()
    } else if parts.len() == 1 {
        parts[0]
    } else {
        spec_join(parts.drop_last()) + seq!['\n'] + parts.last()
    }
}

/// Why resolution failed: a name no source is registered under, or an
/// import that closed a cycle — the latter carrying the source being
/// processed and the import that closed the loop. A propagated failure
/// keeps the cause found deepest in the import chain.
pub enum ResolveFailure {
    UnknownSource(Seq<char>),
    CircularImport(Seq<char>, Seq<char>),
}

/// The message each resolution failure carries.
pub open spec fn spec_failure_text(e: ResolveFailure) -> Seq<char> {
    match e {
        ResolveFailure::UnknownSource(id) => "unknown shader source: "@ + id,
        ResolveFailure::CircularImport(src, imp) =>
            "circular dependency detected processing: "@ + src
                + " | this dependency requires current source: "@ + imp,
    }
}

/// Passes a resolution outcome on with `parts0` prepended to its parts.
pub open spec fn spec_prepend(
    parts0: Seq<Seq<char>>,
    r: Result<(Seq<Seq<char>>, Seq<Seq<char>>), ResolveFailure>,
) -> Result<(Seq<Seq<char>>, Seq<Seq<char>>), ResolveFailure> {
    match r {
        Ok(pd) => Ok((parts0 + pd.0, pd.1)),
        Err(e) => Err(e),
    }
}

/// What resolving the source named `id` denotes: its resolved text and
/// the expanded-source set afterwards, or the failure met first.
/// `visited` is the active chain, which must not hold `id` itself;
/// `done` is what was expanded before. `depth` bounds the chain; only
/// an ever-growing chain exhausts it, so running out counts as a cycle,
/// and with any depth beyond the number of registered sources that
/// case never arises.
pub open spec fn spec_resolve_source(
    sources: NameMap<String>,
    id: Seq<char>,
    visited: Seq<Seq<char>>,
    done: Seq<Seq<char>>,
    depth: nat,
) -> Result<(Seq<char>, Seq<Seq<char>>), ResolveFailure>
    decreases depth, 0nat, 0nat,
{
    if !sources.has_key(id) {
        Err(ResolveFailure::UnknownSource(id))
    } else if depth == 0 {
        Err(ResolveFailure::CircularImport(id, id))
    } else {
        let lines = spec_split_lines(sources.spec_get(id)->Some_0@);
        match spec_resolve_lines(sources, id, lines, visited.push(id), done, (depth - 1) as nat) {
            Ok(pd) => Ok((spec_join(pd.0), pd.1)),
            Err(e) => Err(e),
        }
    }
}

/// Resolves the lines of the source named `id`: a non-import line
/// stands as it is, an import of a source on the active chain is a
/// cycle, an already-expanded import is skipped, and any other import
/// is replaced by that source's resolved text, which joins the
/// expanded set.
pub open spec fn spec_resolve_lines(
    sources: NameMap<String>,
    id: Seq<char>,
    lines: Seq<Seq<char>>,
    visited: Seq<Seq<char>>,
    done: Seq<Seq<char>>,
    depth: nat,
) -> Result<(Seq<Seq<char>>, Seq<Seq<char>>), ResolveFailure>
    decreases depth, lines.len(), 1nat,
{
    if lines.len() == 0 {
        Ok((Seq::empty(), done))
    } else {
        match spec_import_of(lines[0]) {
            Some(import) => {
                if spec_mem(visited, import) {
                    Err(ResolveFailure::CircularImport(id, import))
                } else if spec_mem(done, import) {
                    spec_resolve_lines(sources, id, lines.drop_first(), visited, done, depth)
                } else {
                    match spec_resolve_source(sources, import, visited, done, depth) {
                        Ok(cd) => spec_prepend(
                            seq![cd.0],
                            spec_resolve_lines(
                                sources,
                                id,
                                lines.drop_first(),
                                visited,
                                cd.1.push(import),
                                depth,
                            ),
                        ),
                        Err(e) => Err(e),
                    }
                }
            },
            None => spec_prepend(
                seq![lines[0]],
                spec_resolve_lines(sources, id, lines.drop_first(), visited, done, depth),
            ),
        }
    }
}

/// Scanning past non-line-feed characters does not move the first line
/// feed.
proof fn lemma_first_nl_scan(s: Seq<char>, i: int, j: int)
    requires
        0 <= i <= j <= s.len(),
        forall|k: int| i <= k < j ==> s[k] != '\n',
    ensures
        spec_first_nl(s, i) == spec_first_nl(s, j),
    decreases j - i,
{
    if i < j {
        lemma_first_nl_scan(s, i + 1, j);
    }
}

/// Splits text into its lines: a line ends at a line feed, and a
/// carriage return directly before the line feed belongs to the ending,
/// not to the line. Text after the last line feed is a final line.
fn split_lines(s: &str) -> (r: Vec<String>)
    ensures
        spec_views(r@) == spec_split_lines(s@),
{
    let n = s.unicode_len();
    let mut lines: Vec<String> = Vec::new();
    let mut start: usize = 0;
    let mut i: usize = 0;
    proof {
        assert(s@.skip(0) =~= s@);
        assert(spec_views(lines@) =~= Seq::<Seq<char>>::empty());
        assert(spec_views(lines@) + spec_split_lines(s@) =~= spec_split_lines(s@));
    }
    while i < n
        invariant
            n == s@.len(),
            start <= i <= n,
            forall|k: int| start <= k < i ==> s@[k] != '\n',
            spec_split_lines(s@) == spec_views(lines@) + spec_split_lines(s@.skip(start as int)),
        decreases n - i,
    {
        if s.get_char(i) == '\n' {
            let ghost t = s@.skip(start as int);
            let ghost p = i - start as int;
            proof {
                assert forall|k: int| 0 <= k < p implies t[k] != '\n' by {
                    assert(t[k] == s@[start + k]);
                }
                lemma_first_nl_scan(t, 0, p);
                assert(t[p] == '\n');
                assert(spec_first_nl(t, 0) == p);
            }
            let mut end = i;
            if end > start && s.get_char(end - 1) == '\r' {
                end = end - 1;
            }
            let piece = s.substring_char(start, end).to_owned();
            proof {
                assert(piece@ =~= spec_strip_cr(t.take(p)));
            }
            lines.push(piece);
            start = i + 1;
            proof {
                assert(t.skip(p + 1) =~= s@.skip(start as int));
                assert(spec_split_lines(t) == seq![spec_strip_cr(t.take(p))]
                    + spec_split_lines(s@.skip(start as int)));
                assert(spec_views(lines@) =~= spec_views(lines@.drop_last()).push(piece@));
                assert(spec_views(lines@.drop_last()) + (seq![spec_strip_cr(t.take(p))]
                    + spec_split_lines(s@.skip(start as int)))
                    =~= spec_views(lines@) + spec_split_lines(s@.skip(start as int)));
            }
        }
        i += 1;
    }
    let ghost t = s@.skip(start as int);
    if start < n {
        proof {
            assert forall|k: int| 0 <= k < t.len() implies t[k] != '\n' by {
                assert(t[k] == s@[start + k]);
            }
            lemma_first_nl_scan(t, 0, t.len() as int);
            assert(spec_first_nl(t, 0) == t.len());
        }
        let piece = s.substring_char(start, n).to_owned();
        let ghost before = lines@;
        lines.push(piece);
        proof {
            assert(piece@ =~= t);
            assert(spec_split_lines(t) =~= seq![t]);
            assert(spec_views(lines@) =~= spec_views(before).push(piece@));
            assert(spec_views(before) + spec_split_lines(t) =~= spec_views(lines@));
            assert(spec_views(lines@) == spec_split_lines(s@));
        }
    } else {
        proof {
            assert(t.len() == 0);
            assert(spec_split_lines(t) =~= Seq::<Seq<char>>::empty());
            assert(spec_views(lines@) + spec_split_lines(t) =~= spec_views(lines@));
            assert(spec_views(lines@) == spec_split_lines(s@));
        }
    }
    lines
}

/// Whether some entry of `v` reads `s`.
fn vec_contains_str(v: &Vec<String>, s: &str) -> (r: bool)
    ensures
        r == exists|j: int| 0 <= j < v@.len() && v@[j]@ == s@,
{
    let wanted: String = s.to_owned();
    let n = v.len();
    let mut i: usize = 0;
    while i < n
        invariant
            n == v@.len(),
            i <= n,
            wanted@ == s@,
            forall|j: int| 0 <= j < i ==> v@[j]@ != s@,
        decreases n - i,
    {
        if v[i] == wanted {
            assert(v@[i as int]@ == s@);
            return true;
        }
        i += 1;
    }
    false
}

/// Distinct names that all key a map cannot outnumber its entries.
proof fn lemma_files_bound(sources: NameMap<String>, files: Seq<String>)
    requires
        sources.wf(),
        forall|p: int, q: int| 0 <= p < q < files.len() ==> files[p]@ != files[q]@,
        forall|p: int| 0 <= p < files.len() ==> sources.has_key(files[p]@),
    ensures
        files.len() <= sources.len(),
{
    let idxs = Seq::new(files.len(), |p: int| sources.idx_of(files[p]@));
    assert forall|p: int| 0 <= p < idxs.len() implies
        0 <= idxs[p] < sources.len() && sources.key_at(idxs[p]) == files[p]@ by {
        assert(sources.has_key(files[p]@));
    }
    assert(idxs.no_duplicates()) by {
        assert forall|p: int, q: int| 0 <= p < idxs.len() && 0 <= q < idxs.len() && p != q
            implies idxs[p] != idxs[q] by {
            if idxs[p] == idxs[q] {
                assert(sources.key_at(idxs[p]) == files[p]@);
                assert(sources.key_at(idxs[q]) == files[q]@);
            }
        }
    }
    idxs.unique_seq_to_set();
    vstd::seq_lib::seq_to_set_is_finite(idxs);
    assert(idxs.to_set().subset_of(vstd::set_lib::set_int_range(0, sources.len() as int))) by {
        assert forall|x: int| idxs.to_set().contains(x) implies
            vstd::set_lib::set_int_range(0, sources.len() as int).contains(x) by {
            let p = choose|p: int| 0 <= p < idxs.len() && idxs[p] == x;
        }
    }
    vstd::set_lib::lemma_int_range(0, sources.len() as int);
    vstd::set_lib::lemma_len_subset(
        idxs.to_set(),
        vstd::set_lib::set_int_range(0, sources.len() as int),
    );
}

/// Lexicographic order on text, by character code: the order program
/// names come back from `list` in.
pub open spec fn spec_str_lt(a: Seq<char>, b: Seq<char>) -> bool
    decreases a.len(),
{
    if b.len() == 0 {
        false
    } else if a.len() == 0 {
        true
    } else if a[0] == b[0] {
        spec_str_lt(a.drop_first(), b.drop_first())
    } else {
        a[0] < b[0]
    }
}

/// Two texts neither of which precedes the other are equal.
proof fn lemma_str_lt_total(a: Seq<char>, b: Seq<char>)
    requires
        !spec_str_lt(a, b),
        !spec_str_lt(b, a),
    ensures
        a == b,
    decreases a.len(),
{
    if a.len() == 0 {
        assert(b.len() == 0);
        assert(a =~= b);
    } else if b.len() == 0 {
        assert(spec_str_lt(b, a));
    } else if a[0] == b[0] {
        lemma_str_lt_total(a.drop_first(), b.drop_first());
        assert(a =~= seq![a[0]] + a.drop_first());
        assert(b =~= seq![b[0]] + b.drop_first());
    }
}

/// Lexicographic order is transitive.
proof fn lemma_str_lt_trans(a: Seq<char>, b: Seq<char>, c: Seq<char>)
    requires
        spec_str_lt(a, b),
        spec_str_lt(b, c),
    ensures
        spec_str_lt(a, c),
    decreases a.len(),
{
    if c.len() == 0 {
        assert(!spec_str_lt(b, c));
    } else if a.len() == 0 {
    } else {
        assert(b.len() > 0);
        if a[0] == b[0] && b[0] == c[0] {
            lemma_str_lt_trans(a.drop_first(), b.drop_first(), c.drop_first());
        }
    }
}

/// Whether `a` precedes `b` in the order `spec_str_lt` states.
fn str_lt(a: &str, b: &str) -> (r: bool)
    ensures
        r == spec_str_lt(a@, b@),
{
    let na = a.unicode_len();
    let nb = b.unicode_len();
    let mut i: usize = 0;
    proof {
        assert(a@.skip(0) =~= a@);
        assert(b@.skip(0) =~= b@);
    }
    while i < na && i < nb
        invariant
            na == a@.len(),
            nb == b@.len(),
            i <= na,
            i <= nb,
            spec_str_lt(a@, b@) == spec_str_lt(a@.skip(i as int), b@.skip(i as int)),
        decreases na - i,
    {
        let ca = a.get_char(i);
        let cb = b.get_char(i);
        proof {
            assert(a@.skip(i as int)[0] == a@[i as int]);
            assert(b@.skip(i as int)[0] == b@[i as int]);
            assert(a@.skip(i as int).drop_first() =~= a@.skip(i + 1));
            assert(b@.skip(i as int).drop_first() =~= b@.skip(i + 1));
        }
        if ca != cb {
            return ca < cb;
        }
        i += 1;
    }
    proof {
        if i >= na {
            assert(a@.skip(i as int).len() == 0);
        }
        if i >= nb {
            assert(b@.skip(i as int).len() == 0);
        }
    }
    na < nb
}

/// First position in the ascending list `v` whose entry `key` precedes;
/// the length when `key` belongs at the end.
fn insert_pos(v: &Vec<String>, key: &str) -> (r: usize)
    ensures
        r <= v@.len(),
        forall|p: int| 0 <= p < r ==> !spec_str_lt(key@, #[trigger] v@[p]@),
        r < v@.len() ==> spec_str_lt(key@, v@[r as int]@),
{
    let n = v.len();
    let mut j: usize = 0;
    while j < n
        invariant
            n == v@.len(),
            j <= n,
            forall|p: int| 0 <= p < j ==> !spec_str_lt(key@, #[trigger] v@[p]@),
        decreases n - j,
    {
        if str_lt(key, v[j].as_str()) {
            return j;
        }
        j += 1;
    }
    j
}

/// A named vertex/fragment source pair, before import resolution.
pub struct ShaderSource {
    pub(crate) vertex: String,
    pub(crate) fragment: String,
}

impl ShaderSource {
    pub closed spec fn spec_vertex(self) -> Seq<char> {
        self.vertex@
    }

    pub closed spec fn spec_fragment(self) -> Seq<char> {
        self.fragment@
    }

    fn duplicate(&self) -> (r: Self)
        ensures
            r == *self,
    {
        ShaderSource { vertex: self.vertex.clone(), fragment: self.fragment.clone() }
    }
}

/// A shader program as the runtime sees it: both sources with every
/// import resolved, ready for the graphics backend to compile.
pub struct Program {
    pub vertex: String,
    pub fragment: String,
}

/// Sources and program definitions contributed by a single plugin; each
/// source name is qualified with the plugin's prefix.
pub struct ShaderSourceArchive {
    prefix: String,
    pub(crate) sources: NameMap<String>,
    pub(crate) shaders: NameMap<ShaderSource>,
}

impl ShaderSourceArchive {
    pub closed spec fn spec_prefix(self) -> Seq<char> {
        self.prefix@
    }

    pub closed spec fn wf(self) -> bool {
        self.sources.wf() && self.shaders.wf()
    }

    pub closed spec fn spec_sources(self) -> NameMap<String> {
        self.sources
    }

    pub closed spec fn spec_shaders(self) -> NameMap<ShaderSource> {
        self.shaders
    }

    pub fn new(prefix: String) -> (r: Self)
        ensures
            r.wf(),
            r.spec_prefix() == prefix@,
            r.spec_sources().len() == 0,
            r.spec_shaders().len() == 0,
    {
        ShaderSourceArchive {
            prefix,
            sources: NameMap::new(),
            shaders: NameMap::new(),
        }
    }
}

impl crate::gfx::ShaderLoader for ShaderSourceArchive {
    /// Registers a source under `prefix.id`.
    fn register(&mut self, id: &str, src: &str)
        ensures
            final(self).spec_prefix() == old(self).spec_prefix(),
            final(self).spec_shaders() == old(self).spec_shaders(),
            old(self).wf() ==> ({
                let key = old(self).spec_prefix() + "."@ + id@;
                &&& final(self).wf()
                &&& final(self).spec_sources().has_key(key)
                &&& final(self).spec_sources().spec_get(key) matches Some(s) && s@ == src@
                &&& forall|k: Seq<char>| k != key ==> final(self).spec_sources().spec_get(k)
                    == old(self).spec_sources().spec_get(k)
            }),
    {
        let name = self.prefix.clone().concat(".").concat(id);
        proof {
            assert(name@ == self.prefix@ + "."@ + id@);
        }
        self.sources.insert(name, src.to_owned());
    }

    /// Registers a program definition under its own, unprefixed name.
    fn register_shader(&mut self, id: &str, vertex_id: &str, fragment_id: &str)
        ensures
            final(self).spec_prefix() == old(self).spec_prefix(),
            final(self).spec_sources() == old(self).spec_sources(),
            old(self).wf() ==> {
                &&& final(self).wf()
                &&& final(self).spec_shaders().has_key(id@)
                &&& final(self).spec_shaders().spec_get(id@) matches Some(s)
                    && s.spec_vertex() == vertex_id@ && s.spec_fragment() == fragment_id@
                &&& forall|k: Seq<char>| k != id@ ==> final(self).spec_shaders().spec_get(k)
                    == old(self).spec_shaders().spec_get(k)
            },
    {
        let source = ShaderSource { vertex: vertex_id.to_owned(), fragment: fragment_id.to_owned() };
        self.shaders.insert(id.to_owned(), source);
    }
}

/// All shader sources and program definitions gathered from plugins, and
/// the programs resolved out of them.
pub struct ShaderProgramArchive {
    sources: NameMap<String>,
    shaders: NameMap<ShaderSource>,
    programs: NameMap<std::rc::Rc<Program>>,
}

impl ShaderProgramArchive {
    pub closed spec fn wf(self) -> bool {
        self.sources.wf() && self.shaders.wf() && self.programs.wf()
    }

    pub closed spec fn spec_sources(self) -> NameMap<String> {
        self.sources
    }

    pub closed spec fn spec_shaders(self) -> NameMap<ShaderSource> {
        self.shaders
    }

    pub closed spec fn spec_programs(self) -> NameMap<std::rc::Rc<Program>> {
        self.programs
    }

    pub open spec fn has_program(self, name: Seq<char>) -> bool {
        self.spec_programs().has_key(name)
    }

    pub open spec fn program_of(self, name: Seq<char>) -> std::rc::Rc<Program> {
        self.spec_programs().spec_get(name)->Some_0
    }

    pub fn new() -> (r: Self)
        ensures
            r.wf(),
            r.spec_sources().len() == 0,
            r.spec_shaders().len() == 0,
            r.spec_programs().len() == 0,
    {
        ShaderProgramArchive {
            sources: NameMap::new(),
            shaders: NameMap::new(),
            programs: NameMap::new(),
        }
    }

    /// Takes over every source and program definition of a plugin's
    /// archive; an entry with an already-known name replaces it.
    pub fn add_source_archive(&mut self, archive: ShaderSourceArchive)
        requires
            old(self).wf(),
            archive.wf(),
        ensures
            final(self).wf(),
            final(self).spec_programs() == old(self).spec_programs(),
            forall|k: Seq<char>| final(self).spec_sources().spec_get(k) == if archive.spec_sources().has_key(k) {
                archive.spec_sources().spec_get(k)
            } else {
                old(self).spec_sources().spec_get(k)
            },
            forall|k: Seq<char>| final(self).spec_shaders().spec_get(k) == if archive.spec_shaders().has_key(k) {
                archive.spec_shaders().spec_get(k)
            } else {
                old(self).spec_shaders().spec_get(k)
            },
    {
        let n = archive.sources.count();
        let mut i: usize = 0;
        while i < n
            invariant
                self.wf(),
                archive.wf(),
                n == archive.spec_sources().len(),
                i <= n,
                self.shaders == old(self).spec_shaders(),
                self.programs == old(self).spec_programs(),
                forall|k: Seq<char>| self.spec_sources().spec_get(k) == if exists|j: int|
                    0 <= j < i && archive.spec_sources().key_at(j) == k {
                    archive.spec_sources().spec_get(k)
                } else {
                    old(self).spec_sources().spec_get(k)
                },
            decreases n - i,
        {
            let key = archive.sources.key_index(i).clone();
            let value = archive.sources.val_index(i).clone();
            proof {
                archive.spec_sources().lemma_idx_unique(key@, i as int);
            }
            let ghost prev = *self;
            self.sources.insert(key, value);
            proof {
                assert forall|k: Seq<char>| self.spec_sources().spec_get(k) == if exists|j: int|
                    0 <= j < i + 1 && archive.spec_sources().key_at(j) == k {
                    archive.spec_sources().spec_get(k)
                } else {
                    old(self).spec_sources().spec_get(k)
                } by {
                    if k == key@ {
                        assert(archive.spec_sources().key_at(i as int) == k);
                    } else {
                        assert(self.spec_sources().spec_get(k) == prev.spec_sources().spec_get(k));
                        if exists|j: int| 0 <= j < i + 1 && archive.spec_sources().key_at(j) == k {
                            let j = choose|j: int| 0 <= j < i + 1 && archive.spec_sources().key_at(j) == k;
                            assert(j != i);
                            assert(0 <= j < i && archive.spec_sources().key_at(j) == k);
                        }
                    }
                }
            }
            i += 1;
        }
        proof {
            assert forall|k: Seq<char>| self.spec_sources().spec_get(k) == if archive.spec_sources().has_key(k) {
                archive.spec_sources().spec_get(k)
            } else {
                old(self).spec_sources().spec_get(k)
            } by {
                assert((exists|j: int| 0 <= j < n && archive.spec_sources().key_at(j) == k)
                    == archive.spec_sources().has_key(k));
            }
        }
        let m = archive.shaders.count();
        let mut i2: usize = 0;
        while i2 < m
            invariant
                self.wf(),
                archive.wf(),
                m == archive.spec_shaders().len(),
                i2 <= m,
                self.programs == old(self).spec_programs(),
                forall|k: Seq<char>| self.spec_sources().spec_get(k) == if archive.spec_sources().has_key(k) {
                    archive.spec_sources().spec_get(k)
                } else {
                    old(self).spec_sources().spec_get(k)
                },
                forall|k: Seq<char>| self.spec_shaders().spec_get(k) == if exists|j: int|
                    0 <= j < i2 && archive.spec_shaders().key_at(j) == k {
                    archive.spec_shaders().spec_get(k)
                } else {
                    old(self).spec_shaders().spec_get(k)
                },
            decreases m - i2,
        {
            let key = archive.shaders.key_index(i2).clone();
            let value = archive.shaders.val_index(i2).duplicate();
            proof {
                archive.spec_shaders().lemma_idx_unique(key@, i2 as int);
            }
            let ghost prev = *self;
            self.shaders.insert(key, value);
            proof {
                assert(self.spec_sources() == prev.spec_sources());
                assert forall|k: Seq<char>| self.spec_sources().spec_get(k) == if archive.spec_sources().has_key(k) {
                    archive.spec_sources().spec_get(k)
                } else {
                    old(self).spec_sources().spec_get(k)
                } by {
                    assert(self.spec_sources().spec_get(k) == prev.spec_sources().spec_get(k));
                }
                assert forall|k: Seq<char>| self.spec_shaders().spec_get(k) == if exists|j: int|
                    0 <= j < i2 + 1 && archive.spec_shaders().key_at(j) == k {
                    archive.spec_shaders().spec_get(k)
                } else {
                    old(self).spec_shaders().spec_get(k)
                } by {
                    if k == key@ {
                        assert(archive.spec_shaders().key_at(i2 as int) == k);
                    } else {
                        assert(self.spec_shaders().spec_get(k) == prev.spec_shaders().spec_get(k));
                        if exists|j: int| 0 <= j < i2 + 1 && archive.spec_shaders().key_at(j) == k {
                            let j = choose|j: int| 0 <= j < i2 + 1 && archive.spec_shaders().key_at(j) == k;
                            assert(j != i2);
                            assert(0 <= j < i2 && archive.spec_shaders().key_at(j) == k);
                        }
                    }
                }
            }
            i2 += 1;
        }
        proof {
            assert forall|k: Seq<char>| self.spec_shaders().spec_get(k) == if archive.spec_shaders().has_key(k) {
                archive.spec_shaders().spec_get(k)
            } else {
                old(self).spec_shaders().spec_get(k)
            } by {
                assert((exists|j: int| 0 <= j < m && archive.spec_shaders().key_at(j) == k)
                    == archive.spec_shaders().has_key(k));
            }
        }
    }

    /// Resolves every registered program definition: the vertex and the
    /// fragment source are each expanded import-by-import and the pair is
    /// stored as the program under the definition's name. A definition
    /// whose sources fail to resolve is logged and skipped.
    pub fn compile<L: Logger>(&mut self, logger: &L)
        requires
            old(self).wf(),
        ensures
            final(self).wf(),
            final(self).spec_sources() == old(self).spec_sources(),
            final(self).spec_shaders() == old(self).spec_shaders(),
            forall|k: Seq<char>| !old(self).spec_shaders().has_key(k) ==>
                final(self).spec_programs().spec_get(k)
                    == old(self).spec_programs().spec_get(k),
            forall|j: int| 0 <= j < old(self).spec_shaders().len() ==> ({
                let id = #[trigger] old(self).spec_shaders().key_at(j);
                let sh = old(self).spec_shaders().val_at(j);
                let d = (old(self).spec_sources().len() + 1) as nat;
                let v = spec_resolve_source(old(self).spec_sources(), sh.spec_vertex(),
                    Seq::empty(), Seq::empty(), d);
                let f = spec_resolve_source(old(self).spec_sources(), sh.spec_fragment(),
                    Seq::empty(), Seq::empty(), d);
                if v is Ok && f is Ok {
                    final(self).spec_programs().spec_get(id) matches Some(p)
                        && p.vertex@ == (v->Ok_0).0 && p.fragment@ == (f->Ok_0).0
                } else {
                    final(self).spec_programs().spec_get(id)
                        == old(self).spec_programs().spec_get(id)
                }
            }),
    {
        let m = self.shaders.count();
        let mut i: usize = 0;
        while i < m
            invariant
                self.wf(),
                m == self.spec_shaders().len(),
                i <= m,
                self.spec_sources() == old(self).spec_sources(),
                self.spec_shaders() == old(self).spec_shaders(),
                forall|k: Seq<char>| (forall|j: int| 0 <= j < m ==>
                    self.spec_shaders().key_at(j) != k) ==>
                    self.spec_programs().spec_get(k) == old(self).spec_programs().spec_get(k),
                forall|j: int| i <= j < m ==>
                    self.spec_programs().spec_get(#[trigger] self.spec_shaders().key_at(j))
                        == old(self).spec_programs().spec_get(self.spec_shaders().key_at(j)),
                forall|j: int| 0 <= j < i ==> ({
                    let id = #[trigger] self.spec_shaders().key_at(j);
                    let sh = self.spec_shaders().val_at(j);
                    let d = (self.spec_sources().len() + 1) as nat;
                    let v = spec_resolve_source(self.spec_sources(), sh.spec_vertex(),
                        Seq::empty(), Seq::empty(), d);
                    let f = spec_resolve_source(self.spec_sources(), sh.spec_fragment(),
                        Seq::empty(), Seq::empty(), d);
                    if v is Ok && f is Ok {
                        self.spec_programs().spec_get(id) matches Some(p)
                            && p.vertex@ == (v->Ok_0).0 && p.fragment@ == (f->Ok_0).0
                    } else {
                        self.spec_programs().spec_get(id)
                            == old(self).spec_programs().spec_get(id)
                    }
                }),
            decreases m - i,
        {
            let ghost idv = self.spec_shaders().key_at(i as int);
            let ghost shv = self.spec_shaders().val_at(i as int);
            let ghost d = (self.spec_sources().len() + 1) as nat;
            let ghost vspec = spec_resolve_source(self.spec_sources(), shv.spec_vertex(),
                Seq::empty(), Seq::empty(), d);
            let ghost fspec = spec_resolve_source(self.spec_sources(), shv.spec_fragment(),
                Seq::empty(), Seq::empty(), d);
            let id = self.shaders.key_index(i).clone();
            let source = self.shaders.val_index(i).duplicate();
            proof {
                assert(id@ == idv);
                assert(source.spec_vertex() == shv.spec_vertex());
                assert(source.spec_fragment() == shv.spec_fragment());
            }
            let mut chain: Vec<String> = Vec::new();
            let mut done: Vec<String> = Vec::new();
            proof {
                assert(spec_views(chain@) =~= Seq::<Seq<char>>::empty());
                assert(spec_views(done@) =~= Seq::<Seq<char>>::empty());
                assert((self.spec_sources().len() + 1 - chain@.len()) as nat == d);
            }
            let vertex_result = Self::load_source(
                logger,
                source.vertex.as_str(),
                &self.sources,
                &mut chain,
                &mut done,
            );
            match vertex_result {
                Ok(vertex) => {
                    proof {
                        assert(vspec matches Ok(cd) && vertex@ == cd.0);
                    }
                    let mut chain2: Vec<String> = Vec::new();
                    let mut done2: Vec<String> = Vec::new();
                    proof {
                        assert(spec_views(chain2@) =~= Seq::<Seq<char>>::empty());
                        assert(spec_views(done2@) =~= Seq::<Seq<char>>::empty());
                        assert((self.spec_sources().len() + 1 - chain2@.len()) as nat == d);
                    }
                    let fragment_result = Self::load_source(
                        logger,
                        source.fragment.as_str(),
                        &self.sources,
                        &mut chain2,
                        &mut done2,
                    );
                    match fragment_result {
                        Ok(fragment) => {
                            proof {
                                assert(fspec matches Ok(cd) && fragment@ == cd.0);
                            }
                            let ghost prev = *self;
                            self.programs.insert(
                                id,
                                std::rc::Rc::new(Program { vertex, fragment }),
                            );
                            proof {
                                assert forall|k: Seq<char>| (forall|j: int| 0 <= j < m ==>
                                    self.spec_shaders().key_at(j) != k) implies
                                    self.spec_programs().spec_get(k)
                                        == old(self).spec_programs().spec_get(k) by {
                                    assert(self.spec_shaders().key_at(i as int) != k);
                                    assert(self.spec_programs().spec_get(k)
                                        == prev.spec_programs().spec_get(k));
                                }
                                assert(self.spec_programs().spec_get(idv) matches Some(p)
                                    && p.vertex@ == (vspec->Ok_0).0
                                    && p.fragment@ == (fspec->Ok_0).0);
                                assert forall|j: int| i + 1 <= j < m implies
                                    self.spec_programs().spec_get(
                                        #[trigger] self.spec_shaders().key_at(j))
                                        == old(self).spec_programs().spec_get(
                                            self.spec_shaders().key_at(j)) by {
                                    self.spec_shaders().lemma_idx_unique(idv, i as int);
                                    assert(self.spec_shaders().key_at(j) != idv);
                                    assert(self.spec_programs().spec_get(
                                        self.spec_shaders().key_at(j))
                                        == prev.spec_programs().spec_get(
                                            self.spec_shaders().key_at(j)));
                                }
                                assert forall|j: int| 0 <= j < i implies ({
                                    let id2 = #[trigger] self.spec_shaders().key_at(j);
                                    let sh2 = self.spec_shaders().val_at(j);
                                    let v2 = spec_resolve_source(self.spec_sources(),
                                        sh2.spec_vertex(), Seq::empty(), Seq::empty(), d);
                                    let f2 = spec_resolve_source(self.spec_sources(),
                                        sh2.spec_fragment(), Seq::empty(), Seq::empty(), d);
                                    if v2 is Ok && f2 is Ok {
                                        self.spec_programs().spec_get(id2) matches Some(p)
                                            && p.vertex@ == (v2->Ok_0).0
                                            && p.fragment@ == (f2->Ok_0).0
                                    } else {
                                        self.spec_programs().spec_get(id2)
                                            == old(self).spec_programs().spec_get(id2)
                                    }
                                }) by {
                                    self.spec_shaders().lemma_idx_unique(idv, i as int);
                                    assert(self.spec_shaders().key_at(j) != idv);
                                    assert(self.spec_programs().spec_get(
                                        self.spec_shaders().key_at(j))
                                        == prev.spec_programs().spec_get(
                                            self.spec_shaders().key_at(j)));
                                }
                            }
                        },
                        Err(err) => {
                            proof {
                                assert(fspec is Err);
                            }
                            logger.error(
                                String::from_str("failed to load fragment shader for program ")
                                    .concat(id.as_str())
                                    .concat(": ")
                                    .concat(err.as_str()),
                            );
                        },
                    }
                },
                Err(err) => {
                    proof {
                        assert(vspec is Err);
                    }
                    logger.error(
                        String::from_str("failed to load vertex shader for program ")
                            .concat(id.as_str())
                            .concat(": ")
                            .concat(err.as_str()),
                    );
                },
            }
            i += 1;
        }
    }

    /// Resolves the source registered under `source_id`: every import
    /// line is replaced by the resolved text of the source it names, a
    /// source imported once before is skipped, and a cyclic or unknown
    /// import is an error. `imported_files` is the active resolution
    /// chain: the caller's entries must be distinct registered names not
    /// including `source_id`, and on success the chain is handed back as
    /// it came. `successful_imports` collects what has been expanded.
    /// The outcome is exactly what `spec_resolve_source` denotes.
    pub fn load_source<L: Logger>(
        logger: &L,
        source_id: &str,
        sources: &NameMap<String>,
        imported_files: &mut Vec<String>,
        successful_imports: &mut Vec<String>,
    ) -> (r: Result<String, String>)
        requires
            sources.wf(),
            forall|p: int, q: int| 0 <= p < q < old(imported_files)@.len() ==>
                old(imported_files)@[p]@ != old(imported_files)@[q]@,
            forall|p: int| 0 <= p < old(imported_files)@.len() ==>
                sources.has_key(old(imported_files)@[p]@),
            forall|p: int| 0 <= p < old(imported_files)@.len() ==>
                old(imported_files)@[p]@ != source_id@,
        ensures
            ({
                let res = spec_resolve_source(
                    *sources,
                    source_id@,
                    spec_views(old(imported_files)@),
                    spec_views(old(successful_imports)@),
                    (sources.len() + 1 - old(imported_files)@.len()) as nat,
                );
                match r {
                    Ok(code) => res matches Ok(cd) && code@ == cd.0
                        && spec_views(final(successful_imports)@) == cd.1
                        && final(imported_files)@ == old(imported_files)@,
                    Err(m) => res matches Err(e) && m@ == spec_failure_text(e),
                }
            }),
            !sources.has_key(source_id@) ==> r is Err,
        decreases sources.len() - imported_files@.len(),
    {
        let ghost visited0 = spec_views(old(imported_files)@);
        let ghost done0 = spec_views(old(successful_imports)@);
        proof {
            lemma_files_bound(*sources, old(imported_files)@);
        }
        let ghost depth = (sources.len() + 1 - old(imported_files)@.len()) as nat;

        let source_code = match sources.get(source_id) {
            Some(sc) => sc.clone(),
            None => {
                let msg = String::from_str("unknown shader source: ").concat(source_id);
                proof {
                    assert(msg@ == spec_failure_text(ResolveFailure::UnknownSource(source_id@)));
                }
                return Err(msg);
            },
        };

        // don't import self
        imported_files.push(source_id.to_owned());
        let ghost chain0 = imported_files@;
        proof {
            assert forall|p: int, q: int| 0 <= p < q < chain0.len() implies
                chain0[p]@ != chain0[q]@ by {}
            lemma_files_bound(*sources, chain0);
            assert(spec_views(chain0) =~= visited0.push(source_id@));
        }
        let ghost d1 = (depth - 1) as nat;

        let lines = split_lines(source_code.as_str());
        let ghost linesv = spec_views(lines@);
        let ghost target = spec_resolve_lines(
            *sources, source_id@, linesv, spec_views(chain0), done0, d1);
        proof {
            assert(linesv == spec_split_lines(sources.spec_get(source_id@)->Some_0@));
        }

        let mut out: Vec<String> = Vec::new();
        let n = lines.len();
        let mut i: usize = 0;
        proof {
            assert(linesv.skip(0) =~= linesv);
            assert(spec_views(out@) =~= Seq::<Seq<char>>::empty());
            match spec_resolve_lines(*sources, source_id@, linesv, spec_views(chain0), done0, d1) {
                Ok(pd) => {
                    assert(spec_views(out@) + pd.0 =~= pd.0);
                },
                Err(_) => {},
            }
        }
        while i < n
            invariant
                sources.wf(),
                n == lines@.len(),
                i <= n,
                linesv == spec_views(lines@),
                imported_files@ == chain0,
                chain0.len() == old(imported_files)@.len() + 1,
                chain0.len() <= sources.len(),
                forall|p: int, q: int| 0 <= p < q < chain0.len() ==> chain0[p]@ != chain0[q]@,
                forall|p: int| 0 <= p < chain0.len() ==> sources.has_key(chain0[p]@),
                d1 == sources.len() + 1 - chain0.len(),
                sources.has_key(source_id@),
                spec_views(chain0) == spec_views(old(imported_files)@).push(source_id@),
                linesv == spec_split_lines(sources.spec_get(source_id@)->Some_0@),
                done0 == spec_views(old(successful_imports)@),
                target == spec_resolve_lines(
                    *sources, source_id@, linesv, spec_views(chain0), done0, d1),
                spec_prepend(
                    spec_views(out@),
                    spec_resolve_lines(
                        *sources,
                        source_id@,
                        linesv.skip(i as int),
                        spec_views(chain0),
                        spec_views(successful_imports@),
                        d1,
                    ),
                ) == target,
            decreases n - i,
        {
            let ghost rest = linesv.skip(i as int);
            proof {
                assert(rest[0] == linesv[i as int]);
                assert(lines@[i as int]@ == linesv[i as int]);
                assert(rest.drop_first() =~= linesv.skip(i + 1));
            }
            let maybe_import = parse_import_line(lines[i].as_str());
            match maybe_import {
                Some(import) => {
                    if vec_contains_str(imported_files, import.as_str()) {
                        proof {
                            let j = choose|j: int| 0 <= j < chain0.len()
                                && chain0[j]@ == import@;
                            assert(spec_views(chain0)[j] == import@);
                            assert(spec_mem(spec_views(chain0), import@));
                        }
                        let ghost cause = ResolveFailure::CircularImport(source_id@, import@);
                        proof {
                            assert(spec_resolve_lines(
                                *sources, source_id@, rest, spec_views(chain0),
                                spec_views(successful_imports@), d1,
                            ) == Err::<(Seq<Seq<char>>, Seq<Seq<char>>), _>(cause));
                            assert(target == Err::<(Seq<Seq<char>>, Seq<Seq<char>>), _>(cause));
                            assert((sources.len() + 1 - old(imported_files)@.len()) as nat
                                == d1 + 1);
                        }
                        let msg = String::from_str("circular dependency detected processing: ")
                            .concat(source_id)
                            .concat(" | this dependency requires current source: ")
                            .concat(import.as_str());
                        proof {
                            assert(msg@ == spec_failure_text(cause));
                        }
                        return Err(msg);
                    }
                    proof {
                        assert forall|j: int| 0 <= j < spec_views(chain0).len() implies
                            spec_views(chain0)[j] != import@ by {
                            assert(spec_views(chain0)[j] == chain0[j]@);
                        }
                        assert(!spec_mem(spec_views(chain0), import@));
                    }
                    if vec_contains_str(successful_imports, import.as_str()) {
                        proof {
                            let j = choose|j: int| 0 <= j < successful_imports@.len()
                                && successful_imports@[j]@ == import@;
                            assert(spec_views(successful_imports@)[j] == import@);
                            assert(spec_mem(spec_views(successful_imports@), import@));
                        }
                        logger.debug(
                            String::from_str("already imported '")
                                .concat(import.as_str())
                                .concat("', skipping"),
                        );
                    } else {
                        proof {
                            assert forall|j: int| 0 <= j < spec_views(successful_imports@).len()
                                implies spec_views(successful_imports@)[j] != import@ by {
                                assert(spec_views(successful_imports@)[j]
                                    == successful_imports@[j]@);
                            }
                            assert(!spec_mem(spec_views(successful_imports@), import@));
                        }
                        let ghost done_pre = spec_views(successful_imports@);
                        let import_result = Self::load_source(
                            logger,
                            import.as_str(),
                            sources,
                            imported_files,
                            successful_imports,
                        );
                        let ghost inner = spec_resolve_source(
                            *sources, import@, spec_views(chain0), done_pre, d1);
                        proof {
                            assert((sources.len() + 1 - chain0.len()) as nat == d1);
                        }
                        let import_source = match import_result {
                            Ok(src) => src,
                            Err(e) => {
                                proof {
                                    assert(inner is Err);
                                    assert(spec_resolve_lines(
                                        *sources, source_id@, rest, spec_views(chain0),
                                        done_pre, d1,
                                    ) == Err::<(Seq<Seq<char>>, Seq<Seq<char>>), _>(
                                        inner->Err_0));
                                    assert(target == Err::<(Seq<Seq<char>>, Seq<Seq<char>>), _>(
                                        inner->Err_0));
                                    assert((sources.len() + 1
                                        - old(imported_files)@.len()) as nat == d1 + 1);
                                }
                                return Err(e);
                            },
                        };

                        // replace import line with import source
                        let ghost out_pre = spec_views(out@);
                        out.push(import_source);
                        successful_imports.push(import);
                        proof {
                            let cd = inner->Ok_0;
                            assert(spec_views(successful_imports@) =~= cd.1.push(import@));
                            assert(spec_views(out@) =~= out_pre.push(cd.0));
                            match spec_resolve_lines(
                                *sources, source_id@, linesv.skip(i + 1), spec_views(chain0),
                                spec_views(successful_imports@), d1,
                            ) {
                                Ok(pd) => {
                                    assert(out_pre + (seq![cd.0] + pd.0)
                                        =~= spec_views(out@) + pd.0);
                                },
                                Err(_) => {},
                            }
                        }
                    }
                },
                None => {
                    let ghost out_pre = spec_views(out@);
                    out.push(lines[i].clone());
                    proof {
                        assert(spec_views(out@) =~= out_pre.push(linesv[i as int]));
                        match spec_resolve_lines(
                            *sources, source_id@, linesv.skip(i + 1), spec_views(chain0),
                            spec_views(successful_imports@), d1,
                        ) {
                            Ok(pd) => {
                                assert(out_pre + (seq![linesv[i as int]] + pd.0)
                                    =~= spec_views(out@) + pd.0);
                            },
                            Err(_) => {},
                        }
                    }
                },
            }
            i += 1;
        }

        imported_files.pop();
        proof {
            assert(imported_files@ =~= old(imported_files)@);
            assert(linesv.skip(n as int).len() == 0);
            assert(spec_resolve_lines(
                *sources, source_id@, linesv.skip(n as int), spec_views(chain0),
                spec_views(successful_imports@), d1,
            ) == Ok::<_, ResolveFailure>((
                Seq::<Seq<char>>::empty(),
                spec_views(successful_imports@),
            )));
            assert(spec_views(out@) + Seq::<Seq<char>>::empty() =~= spec_views(out@));
            assert(target == Ok::<_, ResolveFailure>((
                spec_views(out@),
                spec_views(successful_imports@),
            )));
        }

        let mut code = String::new();
        let ghost parts = spec_views(out@);
        let m2 = out.len();
        let mut j: usize = 0;
        proof {
            assert(parts.take(0) =~= Seq::<Seq<char>>::empty());
        }
        while j < m2
            invariant
                m2 == out@.len(),
                j <= m2,
                parts == spec_views(out@),
                code@ == spec_join(parts.take(j as int)),
            decreases m2 - j,
        {
            if j > 0 {
                code.append("\n");
            }
            code.append(out[j].as_str());
            proof {
                reveal_strlit("\n");
                let t2 = parts.take(j + 1);
                assert(t2.last() == parts[j as int]);
                assert(t2.drop_last() =~= parts.take(j as int));
                if j == 0 {
                    assert(t2.len() == 1);
                    assert(code@ =~= t2[0]);
                    assert(code@ == spec_join(t2));
                } else {
                    assert("\n"@ =~= seq!['\n']);
                    assert(code@ =~= spec_join(parts.take(j as int)) + seq!['\n']
                        + parts[j as int]);
                    assert(code@ == spec_join(t2));
                }
            }
            j += 1;
        }
        proof {
            assert(parts.take(m2 as int) =~= parts);
            assert(code@ == spec_join(spec_views(out@)));
        }
        Ok(code)
    }

    /// The resolved program registered under `id`, if any.
    pub fn get(&self, id: &str) -> (r: Option<std::rc::Rc<Program>>)
        requires
            self.wf(),
        ensures
            match r {
                Some(p) => self.has_program(id@) && p == self.program_of(id@),
                None => !self.has_program(id@),
            },
    {
        match self.programs.get(id) {
            Some(p) => Some(crate::util::rc_clone(p)),
            None => None,
        }
    }

    /// The names of every registered program definition — every
    /// definition name exactly once — in ascending lexicographic order.
    pub fn list(&self) -> (r: Vec<String>)
        requires
            self.wf(),
        ensures
            r@.len() == self.spec_shaders().len(),
            forall|p: int| 0 <= p < r@.len() ==> self.spec_shaders().has_key(#[trigger] r@[p]@),
            forall|k: Seq<char>| #[trigger] self.spec_shaders().has_key(k) ==>
                exists|p: int| 0 <= p < r@.len() && r@[p]@ == k,
            forall|p: int, q: int| 0 <= p < q < r@.len() ==> spec_str_lt(r@[p]@, r@[q]@),
    {
        let mut ret: Vec<String> = Vec::new();
        let n = self.shaders.count();
        let mut i: usize = 0;
        while i < n
            invariant
                self.wf(),
                n == self.spec_shaders().len(),
                i <= n,
                ret@.len() == i,
                forall|p: int| 0 <= p < ret@.len() ==> exists|w: int| 0 <= w < i
                    && #[trigger] ret@[p]@ == self.spec_shaders().key_at(w),
                forall|w: int| 0 <= w < i ==> exists|p: int| 0 <= p < ret@.len()
                    && ret@[p]@ == #[trigger] self.spec_shaders().key_at(w),
                forall|p: int, q: int| 0 <= p < q < ret@.len() ==>
                    spec_str_lt(ret@[p]@, ret@[q]@),
            decreases n - i,
        {
            let key = self.shaders.key_index(i).clone();
            let pos = insert_pos(&ret, key.as_str());
            let ghost keyv = key@;
            let ghost before = ret@;
            let ghost posv = pos as int;
            ret.insert(pos, key);
            proof {
                let keys = self.spec_shaders();
                assert(keyv == keys.key_at(i as int));
                assert forall|p: int| 0 <= p < ret@.len() implies
                    ret@[p]@ == (if p < posv {
                        before[p]@
                    } else if p == posv {
                        keyv
                    } else {
                        before[p - 1]@
                    }) by {}

                // Everything left of the slot precedes the new key.
                assert forall|p: int| 0 <= p < posv implies
                    spec_str_lt(before[p]@, keyv) by {
                    let w = choose|w: int| 0 <= w < i && before[p]@ == keys.key_at(w);
                    assert(keys.key_at(w) != keys.key_at(i as int));
                    assert(before[p]@ != keyv);
                    if !spec_str_lt(before[p]@, keyv) {
                        lemma_str_lt_total(keyv, before[p]@);
                    }
                }

                // The list stays strictly ascending.
                assert forall|p: int, q: int| 0 <= p < q < ret@.len() implies
                    spec_str_lt(ret@[p]@, ret@[q]@) by {
                    if q < posv {
                    } else if q == posv {
                        assert(spec_str_lt(before[p]@, keyv));
                    } else if p < posv {
                        assert(p < q - 1);
                        assert(spec_str_lt(before[p]@, before[q - 1]@));
                    } else if p == posv {
                        assert(q - 1 >= posv);
                        assert(posv < before.len());
                        assert(spec_str_lt(keyv, before[posv]@));
                        if q - 1 > posv {
                            lemma_str_lt_trans(keyv, before[posv]@, before[q - 1]@);
                        }
                    }
                }

                // Each entry is a registered name seen so far.
                assert forall|p: int| 0 <= p < ret@.len() implies exists|w: int|
                    0 <= w < i + 1 && #[trigger] ret@[p]@ == keys.key_at(w) by {
                    if p == posv {
                        assert(ret@[p]@ == keys.key_at(i as int));
                    } else {
                        let po = if p < posv { p } else { p - 1 };
                        assert(ret@[p]@ == before[po]@);
                        let w = choose|w: int| 0 <= w < i && before[po]@ == keys.key_at(w);
                        assert(ret@[p]@ == keys.key_at(w));
                    }
                }

                // Every name seen so far has an entry.
                assert forall|w: int| 0 <= w < i + 1 implies exists|p: int|
                    0 <= p < ret@.len() && ret@[p]@ == #[trigger] keys.key_at(w) by {
                    if w == i {
                        assert(ret@[posv]@ == keys.key_at(w));
                    } else {
                        let p = choose|p: int| 0 <= p < before.len()
                            && before[p]@ == keys.key_at(w);
                        let pn = if p < posv { p } else { p + 1 };
                        assert(ret@[pn]@ == keys.key_at(w));
                    }
                }
            }
            i += 1;
        }
        proof {
            let keys = self.spec_shaders();
            assert forall|p: int| 0 <= p < ret@.len() implies
                keys.has_key(#[trigger] ret@[p]@) by {
                let w = choose|w: int| 0 <= w < n && ret@[p]@ == keys.key_at(w);
                assert(keys.key_at(w) == ret@[p]@);
            }
            assert forall|k: Seq<char>| #[trigger] keys.has_key(k) implies
                exists|p: int| 0 <= p < ret@.len() && ret@[p]@ == k by {
                let w = keys.idx_of(k);
                assert(0 <= w < n && keys.key_at(w) == k);
            }
        }
        ret
    }
}

} // verus!
