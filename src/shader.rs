//! Shader-source imports: a line `#import <name>` is replaced by the source
//! registered under `<name>`.
use vstd::prelude::*;

verus! {

/// Why a source could not be resolved.
#[derive(Clone, Copy, Debug, PartialEq, Eq, Structural)]
pub enum ImportError {
    /// A directive is not followed by the end of its line.
    MissingNewline,
    /// A directive names no registered import.
    UnknownImport,
}

/// The bytes of the directive `#import`.
pub open spec fn directive() -> Seq<u8> {
    seq![35u8, 105u8, 109u8, 112u8, 111u8, 114u8, 116u8]
}

/// A one-byte white-space character: tab, line feed, vertical tab, form feed,
/// carriage return or space.
pub open spec fn space1(b0: u8) -> bool {
    9 <= b0 <= 13 || b0 == 32
}

/// The UTF-8 encoding of a two-byte white-space character: U+0085 or U+00A0.
pub open spec fn space2(b0: u8, b1: u8) -> bool {
    b0 == 0xC2 && (b1 == 0x85 || b1 == 0xA0)
}

/// The UTF-8 encoding of a three-byte white-space character: U+1680,
/// U+2000 to U+200A, U+2028, U+2029, U+202F, U+205F or U+3000.
pub open spec fn space3(b0: u8, b1: u8, b2: u8) -> bool {
    ||| b0 == 0xE1 && b1 == 0x9A && b2 == 0x80
    ||| b0 == 0xE2 && b1 == 0x80 && (0x80 <= b2 <= 0x8A || b2 == 0xA8 || b2 == 0xA9 || b2 == 0xAF)
    ||| b0 == 0xE2 && b1 == 0x81 && b2 == 0x9F
    ||| b0 == 0xE3 && b1 == 0x80 && b2 == 0x80
}

/// The length of the white-space character (Unicode's White_Space property)
/// that `s` starts with, or 0.
pub open spec fn leading_space(s: Seq<u8>) -> int {
    if s.len() >= 1 && space1(s[0]) {
        1
    } else if s.len() >= 2 && space2(s[0], s[1]) {
        2
    } else if s.len() >= 3 && space3(s[0], s[1], s[2]) {
        3
    } else {
        0
    }
}

/// The length of the white-space character that `s` ends with, or 0.
pub open spec fn trailing_space(s: Seq<u8>) -> int {
    let n = s.len() as int;
    if n >= 1 && space1(s[n - 1]) {
        1
    } else if n >= 2 && space2(s[n - 2], s[n - 1]) {
        2
    } else if n >= 3 && space3(s[n - 3], s[n - 2], s[n - 1]) {
        3
    } else {
        0
    }
}

/// `s` without its trailing white space.
pub open spec fn trim_end(s: Seq<u8>) -> Seq<u8>
    decreases s.len(),
{
    let k = trailing_space(s);
    if k > 0 {
        trim_end(s.take(s.len() - k))
    } else {
        s
    }
}

/// `s` without its leading and trailing white space.
pub open spec fn trim(s: Seq<u8>) -> Seq<u8>
    decreases s.len(),
{
    let k = leading_space(s);
    if k > 0 {
        trim(s.skip(k))
    } else {
        trim_end(s)
    }
}

/// The first position at or after `from` where the directive starts.
pub open spec fn find_directive(s: Seq<u8>, from: int) -> Option<int>
    decreases s.len() - from,
{
    if from < 0 || from + 7 > s.len() {
        None
    } else if s.subrange(from, from + 7) == directive() {
        Some(from)
    } else {
        find_directive(s, from + 1)
    }
}

/// The first position at or after `from` that holds `b`.
pub open spec fn find_byte(s: Seq<u8>, b: u8, from: int) -> Option<int>
    decreases s.len() - from,
{
    if from < 0 || from >= s.len() {
        None
    } else if s[from] == b {
        Some(from)
    } else {
        find_byte(s, b, from + 1)
    }
}

/// The source of the first import named `name`.
pub open spec fn lookup(imports: Seq<(Seq<u8>, Seq<u8>)>, name: Seq<u8>) -> Option<Seq<u8>>
    decreases imports.len(),
{
    if imports.len() == 0 {
        None
    } else if imports[0].0 == name {
        Some(imports[0].1)
    } else {
        lookup(imports.skip(1), name)
    }
}

/// `src` from `pos` on with every directive line replaced by the import it
/// names; imported sources are inserted as they are.
pub open spec fn resolve_from(
    imports: Seq<(Seq<u8>, Seq<u8>)>,
    src: Seq<u8>,
    pos: int,
) -> Result<Seq<u8>, ImportError>
    decreases src.len() - pos,
    via resolve_from_decreases
{
    if pos < 0 || pos > src.len() {
        Err(ImportError::MissingNewline)
    } else {
        match find_directive(src, pos) {
            None => Ok(src.subrange(pos, src.len() as int)),
            Some(i) => match find_byte(src, 10u8, i + 7) {
                None => Err(ImportError::MissingNewline),
                Some(k) => match lookup(imports, trim(src.subrange(i + 7, k))) {
                    None => Err(ImportError::UnknownImport),
                    Some(text) => match resolve_from(imports, src, k + 1) {
                        Ok(rest) => Ok(src.subrange(pos, i) + text + rest),
                        Err(e) => Err(e),
                    },
                },
            },
        }
    }
}

/// A directive found from `from` on starts there or later and fits in `s`.
pub proof fn lemma_find_directive(s: Seq<u8>, from: int)
    ensures
        find_directive(s, from) matches Some(i) ==> from <= i && i + 7 <= s.len(),
    decreases s.len() - from,
{
    if 0 <= from && from + 7 <= s.len() && s.subrange(from, from + 7) != directive() {
        lemma_find_directive(s, from + 1);
    }
}

/// A byte found from `from` on is there or later and within `s`.
pub proof fn lemma_find_byte(s: Seq<u8>, b: u8, from: int)
    ensures
        find_byte(s, b, from) matches Some(k) ==> from <= k < s.len() && s[k] == b,
    decreases s.len() - from,
{
    if 0 <= from < s.len() && s[from] != b {
        lemma_find_byte(s, b, from + 1);
    }
}

#[via_fn]
proof fn resolve_from_decreases(imports: Seq<(Seq<u8>, Seq<u8>)>, src: Seq<u8>, pos: int) {
    lemma_find_directive(src, pos);
    if let Some(i) = find_directive(src, pos) {
        lemma_find_byte(src, 10u8, i + 7);
    }
}

/// Named shader sources that other sources import.
pub struct ShaderImports {
    imports: Vec<(Vec<u8>, Vec<u8>)>,
}

impl View for ShaderImports {
    type V = Seq<(Seq<u8>, Seq<u8>)>;

    closed spec fn view(&self) -> Seq<(Seq<u8>, Seq<u8>)> {
        Seq::new(self.imports@.len(), |i: int| (self.imports@[i].0@, self.imports@[i].1@))
    }
}

/// `a` and `b` hold the same bytes.
fn bytes_equal(a: &[u8], b: &[u8]) -> (r: bool)
    ensures
        r == (a@ == b@),
{
    if a.len() != b.len() {
        return false;
    }
    let mut i: usize = 0;
    while i < a.len()
        invariant
            a@.len() == b@.len(),
            i <= a@.len(),
            a@.subrange(0, i as int) == b@.subrange(0, i as int),
        decreases a@.len() - i,
    {
        if a[i] != b[i] {
            assert(a@.subrange(0, i + 1)[i as int] != b@.subrange(0, i + 1)[i as int]);
            return false;
        }
        assert(a@.subrange(0, i + 1) =~= a@.subrange(0, i as int).push(a@[i as int]));
        assert(b@.subrange(0, i + 1) =~= b@.subrange(0, i as int).push(b@[i as int]));
        i += 1;
    }
    assert(a@ =~= a@.subrange(0, a@.len() as int));
    assert(b@ =~= b@.subrange(0, b@.len() as int));
    true
}

/// Copies `s` into a new vector.
fn to_vec(s: &[u8]) -> (r: Vec<u8>)
    ensures
        r@ == s@,
{
    let mut r: Vec<u8> = Vec::new();
    let mut i: usize = 0;
    while i < s.len()
        invariant
            i <= s@.len(),
            r@ == s@.subrange(0, i as int),
        decreases s@.len() - i,
    {
        r.push(s[i]);
        assert(r@ =~= s@.subrange(0, i + 1));
        i += 1;
    }
    assert(r@ =~= s@);
    r
}

/// Appends `s[from..to]` to `out`.
fn extend_range(out: &mut Vec<u8>, s: &[u8], from: usize, to: usize)
    requires
        from <= to <= s@.len(),
    ensures
        final(out)@ == old(out)@ + s@.subrange(from as int, to as int),
{
    let mut i = from;
    while i < to
        invariant
            from <= i <= to <= s@.len(),
            out@ == old(out)@ + s@.subrange(from as int, i as int),
        decreases to - i,
    {
        out.push(s[i]);
        assert(out@ =~= old(out)@ + s@.subrange(from as int, i + 1));
        i += 1;
    }
}

/// The first position at or after `from` where the directive starts.
fn next_directive(s: &[u8], from: usize) -> (r: Option<usize>)
    ensures
        r matches Some(i) ==> from <= i && i + 7 <= s@.len(),
        r matches Some(i) ==> find_directive(s@, from as int) == Some(i as int),
        r is None ==> find_directive(s@, from as int) is None,
{
    let mut i = from;
    while i < s.len() && s.len() - i >= 7
        invariant
            from <= i,
            find_directive(s@, from as int) == find_directive(s@, i as int),
        decreases s@.len() - i,
    {
        if s[i] == 35 && s[i + 1] == 105 && s[i + 2] == 109 && s[i + 3] == 112 && s[i + 4] == 111
            && s[i + 5] == 114 && s[i + 6] == 116 {
            assert(s@.subrange(i as int, i + 7) =~= directive());
            return Some(i);
        }
        assert(s@.subrange(i as int, i + 7) != directive()) by {
            let d = directive();
            let w = s@.subrange(i as int, i + 7);
            if w == d {
                assert(w[0] == d[0] && w[1] == d[1] && w[2] == d[2] && w[3] == d[3]);
                assert(w[4] == d[4] && w[5] == d[5] && w[6] == d[6]);
            }
        }
        i += 1;
    }
    None
}

/// The first position at or after `from` that holds `b`.
fn next_byte(s: &[u8], b: u8, from: usize) -> (r: Option<usize>)
    ensures
        r matches Some(i) ==> from <= i < s@.len(),
        r matches Some(i) ==> find_byte(s@, b, from as int) == Some(i as int),
        r is None ==> find_byte(s@, b, from as int) is None,
{
    let mut i = from;
    while i < s.len()
        invariant
            from <= i,
            find_byte(s@, b, from as int) == find_byte(s@, b, i as int),
        decreases s@.len() - i,
    {
        if s[i] == b {
            return Some(i);
        }
        i += 1;
    }
    None
}

/// The length of the white-space character that `s[a..to]` starts with, or 0.
fn leading_space_at(s: &[u8], a: usize, to: usize) -> (r: usize)
    requires
        a <= to <= s@.len(),
    ensures
        r == leading_space(s@.subrange(a as int, to as int)),
{
    let n = to - a;
    if n >= 1 && ((9 <= s[a] && s[a] <= 13) || s[a] == 32) {
        1
    } else if n >= 2 && s[a] == 0xC2 && (s[a + 1] == 0x85 || s[a + 1] == 0xA0) {
        2
    } else if n >= 3 && ((s[a] == 0xE1 && s[a + 1] == 0x9A && s[a + 2] == 0x80) || (s[a] == 0xE2
        && s[a + 1] == 0x80 && ((0x80 <= s[a + 2] && s[a + 2] <= 0x8A) || s[a + 2] == 0xA8
        || s[a + 2] == 0xA9 || s[a + 2] == 0xAF)) || (s[a] == 0xE2 && s[a + 1] == 0x81 && s[a
        + 2] == 0x9F) || (s[a] == 0xE3 && s[a + 1] == 0x80 && s[a + 2] == 0x80)) {
        3
    } else {
        0
    }
}

/// The length of the white-space character that `s[a..b]` ends with, or 0.
fn trailing_space_at(s: &[u8], a: usize, b: usize) -> (r: usize)
    requires
        a <= b <= s@.len(),
    ensures
        r == trailing_space(s@.subrange(a as int, b as int)),
{
    let n = b - a;
    if n >= 1 && ((9 <= s[b - 1] && s[b - 1] <= 13) || s[b - 1] == 32) {
        1
    } else if n >= 2 && s[b - 2] == 0xC2 && (s[b - 1] == 0x85 || s[b - 1] == 0xA0) {
        2
    } else if n >= 3 && ((s[b - 3] == 0xE1 && s[b - 2] == 0x9A && s[b - 1] == 0x80) || (s[b - 3]
        == 0xE2 && s[b - 2] == 0x80 && ((0x80 <= s[b - 1] && s[b - 1] <= 0x8A) || s[b - 1] == 0xA8
        || s[b - 1] == 0xA9 || s[b - 1] == 0xAF)) || (s[b - 3] == 0xE2 && s[b - 2] == 0x81 && s[b
        - 1] == 0x9F) || (s[b - 3] == 0xE3 && s[b - 2] == 0x80 && s[b - 1] == 0x80)) {
        3
    } else {
        0
    }
}

/// The positions that bound `trim(s[from..to])`.
fn trim_range(s: &[u8], from: usize, to: usize) -> (r: (usize, usize))
    requires
        from <= to <= s@.len(),
    ensures
        from <= r.0 <= r.1 <= to,
        s@.subrange(r.0 as int, r.1 as int) == trim(s@.subrange(from as int, to as int)),
{
    let ghost whole = s@.subrange(from as int, to as int);
    let mut a = from;
    let mut k = leading_space_at(s, a, to);
    while k > 0
        invariant
            from <= a <= to <= s@.len(),
            k == leading_space(s@.subrange(a as int, to as int)),
            trim(whole) == trim(s@.subrange(a as int, to as int)),
        decreases to - a,
    {
        assert(s@.subrange(a as int, to as int).skip(k as int) =~= s@.subrange(a + k, to as int));
        a += k;
        k = leading_space_at(s, a, to);
    }
    assert(trim(whole) == trim_end(s@.subrange(a as int, to as int)));
    let mut b = to;
    let mut k = trailing_space_at(s, a, b);
    while k > 0
        invariant
            from <= a <= b <= to <= s@.len(),
            k == trailing_space(s@.subrange(a as int, b as int)),
            trim(whole) == trim_end(s@.subrange(a as int, b as int)),
        decreases b - a,
    {
        assert(s@.subrange(a as int, b as int).take(b - a - k) =~= s@.subrange(a as int, b - k));
        b -= k;
        k = trailing_space_at(s, a, b);
    }
    (a, b)
}

impl ShaderImports {
    /// No import registered.
    pub fn new() -> (r: ShaderImports)
        ensures
            r@ == Seq::<(Seq<u8>, Seq<u8>)>::empty(),
    {
        let r = ShaderImports { imports: Vec::new() };
        assert(r@ =~= Seq::<(Seq<u8>, Seq<u8>)>::empty());
        r
    }

    /// The source registered under `name`.
    fn find(&self, name: &[u8]) -> (r: Option<usize>)
        ensures
            r matches Some(i) ==> i < self@.len() && lookup(self@, name@) == Some(
                self@[i as int].1,
            ),
            r is None ==> lookup(self@, name@) is None,
    {
        let mut i: usize = 0;
        assert(self@.skip(0) =~= self@);
        while i < self.imports.len()
            invariant
                i <= self.imports@.len(),
                lookup(self@, name@) == lookup(self@.skip(i as int), name@),
            decreases self.imports@.len() - i,
        {
            assert(self@.skip(i as int)[0] == self@[i as int]);
            if bytes_equal(self.imports[i].0.as_slice(), name) {
                return Some(i);
            }
            assert(self@.skip(i as int).skip(1) =~= self@.skip(i + 1));
            i += 1;
        }
        None
    }

    /// Whether an import named `name` is registered.
    pub fn contains(&self, name: &[u8]) -> (r: bool)
        ensures
            r == lookup(self@, name@) is Some,
    {
        self.find(name).is_some()
    }

    /// Registers `source` under `name`, a name that is not registered yet.
    pub fn add(&mut self, name: &[u8], source: &[u8])
        requires
            lookup(old(self)@, name@) is None,
        ensures
            final(self)@ == old(self)@.push((name@, source@)),
    {
        self.imports.push((to_vec(name), to_vec(source)));
        assert(self@ =~= old(self)@.push((name@, source@)));
    }

    /// Why `src` cannot be resolved, or `None` when it can.
    pub fn resolve_error(&self, src: &[u8]) -> (r: Option<ImportError>)
        ensures
            r == match resolve_from(self@, src@, 0) {
                Ok(_) => None::<ImportError>,
                Err(e) => Some(e),
            },
    {
        match self.try_resolve(src) {
            Ok(_) => None,
            Err(e) => Some(e),
        }
    }

    /// `src` with every line `#import <name>` replaced by the source
    /// registered under `<name>` (white space around the name ignored). Every
    /// directive must end its line and name a registered import.
    pub fn resolve(&self, src: &[u8]) -> (r: Vec<u8>)
        requires
            resolve_from(self@, src@, 0) is Ok,
        ensures
            resolve_from(self@, src@, 0) == Ok::<Seq<u8>, ImportError>(r@),
    {
        match self.try_resolve(src) {
            Ok(v) => v,
            Err(_) => Vec::new(),
        }
    }

    /// `src` resolved, or why it cannot be.
    fn try_resolve(&self, src: &[u8]) -> (r: Result<Vec<u8>, ImportError>)
        ensures
            match r {
                Ok(v) => resolve_from(self@, src@, 0) == Ok::<Seq<u8>, ImportError>(v@),
                Err(e) => resolve_from(self@, src@, 0) == Err::<Seq<u8>, ImportError>(e),
            },
    {
        let mut out: Vec<u8> = Vec::new();
        let mut pos: usize = 0;
        let n = src.len();
        loop
            invariant
                n == src@.len(),
                pos <= src@.len(),
                resolve_from(self@, src@, 0) == match resolve_from(self@, src@, pos as int) {
                    Ok(rest) => Ok(out@ + rest),
                    Err(e) => Err(e),
                },
            decreases src@.len() - pos,
        {
            match next_directive(src, pos) {
                None => {
                    extend_range(&mut out, src, pos, src.len());
                    return Ok(out);
                },
                Some(i) => {
                    let k = match next_byte(src, 10, i + 7) {
                        None => {
                            return Err(ImportError::MissingNewline);
                        },
                        Some(k) => k,
                    };
                    let (a, b) = trim_range(src, i + 7, k);
                    let found = self.find(&src[a..b]);
                    let j = match found {
                        None => {
                            return Err(ImportError::UnknownImport);
                        },
                        Some(j) => j,
                    };
                    let ghost before = out@;
                    extend_range(&mut out, src, pos, i);
                    let text = self.imports[j].1.as_slice();
                    extend_range(&mut out, text, 0, text.len());
                    proof {
                        let name = trim(src@.subrange(i + 7, k as int));
                        assert(src@.subrange(a as int, b as int) == name);
                        assert(lookup(self@, name) == Some(text@));
                        assert(text@.subrange(0, text@.len() as int) =~= text@);
                        let piece = src@.subrange(pos as int, i as int);
                        match resolve_from(self@, src@, k + 1) {
                            Ok(rest) => {
                                assert(before + (piece + text@ + rest) =~= out@ + rest);
                            },
                            Err(e) => {},
                        }
                    }
                    pos = k + 1;
                },
            }
        }
    }
}

} // verus!
