use vstd::prelude::*;

verus! {

/// One interleaved vertex record: position, texture coordinates and
/// normal, each component held as the bit pattern of an IEEE-754
/// single-precision number, in the order the vertex buffer expects.
#[derive(Debug, Clone, Copy, PartialEq, Eq, Structural)]
pub struct Vertex {
    pub px: u32,
    pub py: u32,
    pub pz: u32,
    pub tu: u32,
    pub tv: u32,
    pub nx: u32,
    pub ny: u32,
    pub nz: u32,
}

/// A three-component vector of single-precision bit patterns.
#[derive(Debug, Clone, Copy, PartialEq, Eq, Structural)]
pub struct Vec3Bits {
    pub x: u32,
    pub y: u32,
    pub z: u32,
}

/// A two-component vector of single-precision bit patterns.
#[derive(Debug, Clone, Copy, PartialEq, Eq, Structural)]
pub struct Vec2Bits {
    pub x: u32,
    pub y: u32,
}

/// Everything a scan has accumulated: the element lists in file order,
/// and the interleaved vertices emitted by face lines.
pub ghost struct ObjModel {
    pub points: Seq<Vec3Bits>,
    pub texcoords: Seq<Vec2Bits>,
    pub normals: Seq<Vec3Bits>,
    pub vertices: Seq<Vertex>,
}

impl ObjModel {
    /// The state before any line has been read.
    pub open spec fn empty() -> ObjModel {
        ObjModel { points: seq![], texcoords: seq![], normals: seq![], vertices: seq![] }
    }
}

/// A scan position: the data so far and how many number fields the
/// scan has consumed from the reply list.
pub ghost struct ScanState {
    pub model: ObjModel,
    pub consumed: int,
}

/// Why a scan stopped early, at the spec level.
pub ghost enum ObjErrorSpec {
    /// A vertex-data line held a field that does not read as a number.
    BadFloat { token: Seq<u8> },
    /// A face vertex gave fewer than two `/`-separated fields.
    MissingIndex,
    /// A face index field does not read as an unsigned integer.
    BadIndex { token: Seq<u8> },
    /// A face index field read as zero; indices are one-based.
    ZeroIndex,
    /// A face named a position that no line so far has declared.
    MissingPosition { index: usize },
}

/// Why a scan stopped early.
#[derive(Debug, PartialEq, Eq)]
pub enum ObjError {
    /// A vertex-data line held a field that does not read as a number.
    BadFloat { token: Vec<u8> },
    /// A face vertex gave fewer than two `/`-separated fields.
    MissingIndex,
    /// A face index field does not read as an unsigned integer.
    BadIndex { token: Vec<u8> },
    /// A face index field read as zero; indices are one-based.
    ZeroIndex,
    /// A face named a position that no line so far has declared.
    MissingPosition { index: usize },
}

impl View for ObjError {
    type V = ObjErrorSpec;

    open spec fn view(&self) -> ObjErrorSpec {
        match self {
            ObjError::BadFloat { token } => ObjErrorSpec::BadFloat { token: token@ },
            ObjError::MissingIndex => ObjErrorSpec::MissingIndex,
            ObjError::BadIndex { token } => ObjErrorSpec::BadIndex { token: token@ },
            ObjError::ZeroIndex => ObjErrorSpec::ZeroIndex,
            ObjError::MissingPosition { index } => ObjErrorSpec::MissingPosition {
                index: *index,
            },
        }
    }
}

// ---------------------------------------------------------------------------
// Bytes: fields, separators, lines
// ---------------------------------------------------------------------------

/// The bytes that end a field inside a line: the ASCII whitespace
/// characters other than the line feed, which never occurs in a line.
pub open spec fn is_space(b: u8) -> bool {
    b == 32 || b == 9 || b == 11 || b == 12 || b == 13
}

/// Position of the first field-ending byte at or after `i`, or the end
/// of the line.
pub open spec fn token_end(s: Seq<u8>, i: int) -> int
    decreases s.len() - i,
{
    if i >= s.len() {
        s.len() as int
    } else if i < 0 {
        token_end(s, 0)
    } else if is_space(s[i]) {
        i
    } else {
        token_end(s, i + 1)
    }
}

/// The field starting at `i`: the bytes up to the first whitespace.
pub open spec fn token_at(s: Seq<u8>, i: int) -> Seq<u8> {
    s.subrange(i, token_end(s, i))
}

/// Where a scan resumes after the field at `i`: one past the
/// whitespace byte that ended it, or the end of the line.
pub open spec fn after_token(s: Seq<u8>, i: int) -> int {
    if token_end(s, i) < s.len() {
        token_end(s, i) + 1
    } else {
        s.len() as int
    }
}

/// How a line breaks at a separator byte: the pieces between the
/// separators, kept in order, empty pieces included.  There is always
/// at least one piece.
pub open spec fn split_at(s: Seq<u8>, sep: u8) -> Seq<Seq<u8>>
    decreases s.len(),
{
    if s.len() == 0 {
        seq![seq![]]
    } else if s.last() == sep {
        split_at(s.drop_last(), sep).push(seq![])
    } else {
        let r = split_at(s.drop_last(), sep);
        r.update(r.len() - 1, r.last().push(s.last()))
    }
}

/// A line terminated by a line feed sheds one trailing carriage
/// return, so that a file with CRLF endings reads as one with LF
/// endings.
pub open spec fn strip_cr(l: Seq<u8>) -> Seq<u8> {
    if l.len() > 0 && l.last() == 13 {
        l.drop_last()
    } else {
        l
    }
}

/// How `str::lines` cuts the input: pieces between line feeds, each
/// terminated piece shedding one trailing carriage return; a final
/// empty piece (input ending in a line feed, or empty input) yields no
/// line.
pub open spec fn lines_of(s: Seq<u8>) -> Seq<Seq<u8>> {
    let pieces = split_at(s, 10);
    let terminated = Seq::new((pieces.len() - 1) as nat, |i: int| strip_cr(pieces[i]));
    if pieces.last().len() == 0 {
        terminated
    } else {
        terminated.push(pieces.last())
    }
}

// ---------------------------------------------------------------------------
// Line classification
// ---------------------------------------------------------------------------

/// What a line contributes, read off its first two bytes as the
/// wavefront format defines the tags: `v `, `vn`, `vt` and `f `.
/// A line of two bytes or fewer, or one with any other tag, is skipped.
pub ghost enum LineKind {
    Point,
    Normal,
    Texcoord,
    Face,
    Other,
}

pub open spec fn line_kind(line: Seq<u8>) -> LineKind {
    if line.len() <= 2 {
        LineKind::Other
    } else if line[0] == 118 && line[1] == 32 {
        LineKind::Point
    } else if line[0] == 118 && line[1] == 110 {
        LineKind::Normal
    } else if line[0] == 118 && line[1] == 116 {
        LineKind::Texcoord
    } else if line[0] == 102 && line[1] == 32 {
        LineKind::Face
    } else {
        LineKind::Other
    }
}

/// Width in bytes of the UTF-8 character that starts with `b`.
pub open spec fn utf8_char_len(b: u8) -> int {
    if b < 128 {
        1
    } else if b < 224 {
        2
    } else if b < 240 {
        3
    } else {
        4
    }
}

/// Where the number fields of a `vn` or `vt` line begin: one
/// character after the two tag bytes is skipped, as the scan skips the
/// separating space there.
pub open spec fn skip_start(line: Seq<u8>) -> int
    recommends
        line.len() > 2,
{
    let s = 2 + utf8_char_len(line[2]);
    if s <= line.len() {
        s
    } else {
        line.len() as int
    }
}

// ---------------------------------------------------------------------------
// Number fields and the reply list
// ---------------------------------------------------------------------------

/// The reply for the `k`-th number field of the file.  The caller
/// hands the scan one reply per number field, in file order: the bit
/// pattern the field parses to, or `None` where it does not parse.
/// A missing reply reads as a field that does not parse.
pub open spec fn reply(floats: Seq<Option<u32>>, k: int) -> Option<u32> {
    if 0 <= k < floats.len() {
        floats[k]
    } else {
        None
    }
}

/// Reads `n` number fields from `line` starting at byte `i`, taking
/// their values from the replies at `k` onward: the values in order,
/// or the first field whose reply says it does not parse.
pub open spec fn read_floats(
    line: Seq<u8>,
    i: int,
    floats: Seq<Option<u32>>,
    k: int,
    n: nat,
) -> Result<Seq<u32>, ObjErrorSpec>
    decreases n,
{
    if n == 0 {
        Ok(seq![])
    } else {
        match reply(floats, k) {
            None => Err(ObjErrorSpec::BadFloat { token: token_at(line, i) }),
            Some(b) => match read_floats(
                line,
                after_token(line, i),
                floats,
                k + 1,
                (n - 1) as nat,
            ) {
                Ok(rest) => Ok(seq![b] + rest),
                Err(e) => Err(e),
            },
        }
    }
}

/// The `n` number fields of `line` starting at byte `i`, as bytes.
pub open spec fn line_tokens(line: Seq<u8>, i: int, n: nat) -> Seq<Seq<u8>>
    decreases n,
{
    if n == 0 {
        seq![]
    } else {
        seq![token_at(line, i)] + line_tokens(line, after_token(line, i), (n - 1) as nat)
    }
}

/// The number fields a single line demands: three for a position or
/// normal line, two for a texture-coordinate line, none otherwise.
pub open spec fn line_float_tokens(line: Seq<u8>) -> Seq<Seq<u8>> {
    match line_kind(line) {
        LineKind::Point => line_tokens(line, 2, 3),
        LineKind::Normal => line_tokens(line, skip_start(line), 3),
        LineKind::Texcoord => line_tokens(line, skip_start(line), 2),
        LineKind::Face => seq![],
        LineKind::Other => seq![],
    }
}

/// Every number field of the input, in the order the scan reads them.
pub open spec fn float_tokens_of_lines(lines: Seq<Seq<u8>>) -> Seq<Seq<u8>>
    decreases lines.len(),
{
    if lines.len() == 0 {
        seq![]
    } else {
        line_float_tokens(lines[0]) + float_tokens_of_lines(lines.drop_first())
    }
}

pub open spec fn float_tokens(input: Seq<u8>) -> Seq<Seq<u8>> {
    float_tokens_of_lines(lines_of(input))
}

// ---------------------------------------------------------------------------
// Unsigned decimal fields
// ---------------------------------------------------------------------------

/// An ASCII decimal digit.
pub open spec fn is_digit(b: u8) -> bool {
    48 <= b <= 57
}

/// The value of a sequence of decimal digit bytes.
pub open spec fn dec_value(s: Seq<u8>) -> nat
    decreases s.len(),
{
    if s.len() == 0 {
        0
    } else {
        dec_value(s.drop_last()) * 10 + (s.last() - 48) as nat
    }
}

/// The digit part of an unsigned decimal field: a single leading `+`
/// is allowed and dropped.
pub open spec fn digits_of(s: Seq<u8>) -> Seq<u8> {
    if s.len() >= 1 && s[0] == 43 {
        s.drop_first()
    } else {
        s
    }
}

/// How `str::parse::<usize>` reads a field: an optional `+`, then one
/// or more digits, whose value must fit in `usize`.
pub open spec fn usize_of(s: Seq<u8>) -> Option<usize> {
    let d = digits_of(s);
    if d.len() == 0 || (exists|i: int| 0 <= i < d.len() && !is_digit(d[i])) {
        None
    } else if dec_value(d) > usize::MAX {
        None
    } else {
        Some(dec_value(d) as usize)
    }
}

// ---------------------------------------------------------------------------
// Faces
// ---------------------------------------------------------------------------

/// Reads one face vertex from a `/`-separated piece of a face line
/// against the data read so far.  The first field must name a declared
/// position; the second must be a well-formed index, with an
/// out-of-range one reading as zero texture coordinates; a missing or
/// malformed third field reads as the largest index, so an absent
/// normal falls back to the zero vector.  All indices are one-based.
pub open spec fn face_vertex(m: ObjModel, piece: Seq<u8>) -> Result<Vertex, ObjErrorSpec> {
    let params = split_at(piece, 47);
    match usize_of(params[0]) {
        None => Err(ObjErrorSpec::BadIndex { token: params[0] }),
        Some(pi) => if pi == 0 {
            Err(ObjErrorSpec::ZeroIndex)
        } else if pi - 1 >= m.points.len() {
            Err(ObjErrorSpec::MissingPosition { index: pi })
        } else {
            let pos = m.points[pi - 1];
            if params.len() < 2 {
                Err(ObjErrorSpec::MissingIndex)
            } else {
                match usize_of(params[1]) {
                    None => Err(ObjErrorSpec::BadIndex { token: params[1] }),
                    Some(ti) => if ti == 0 {
                        Err(ObjErrorSpec::ZeroIndex)
                    } else {
                        let tex = if ti - 1 < m.texcoords.len() {
                            m.texcoords[ti - 1]
                        } else {
                            Vec2Bits { x: 0, y: 0 }
                        };
                        let ni = if params.len() < 3 {
                            usize::MAX
                        } else {
                            match usize_of(params[2]) {
                                Some(n) => n,
                                None => usize::MAX,
                            }
                        };
                        if ni == 0 {
                            Err(ObjErrorSpec::ZeroIndex)
                        } else {
                            let nor = if ni - 1 < m.normals.len() {
                                m.normals[ni - 1]
                            } else {
                                Vec3Bits { x: 0, y: 0, z: 0 }
                            };
                            Ok(Vertex {
                                px: pos.x,
                                py: pos.y,
                                pz: pos.z,
                                tu: tex.x,
                                tv: tex.y,
                                nx: nor.x,
                                ny: nor.y,
                                nz: nor.z,
                            })
                        }
                    },
                }
            }
        },
    }
}

/// Reads the space-separated pieces of a face line in order, each
/// appending one interleaved vertex, stopping at the first bad piece.
pub open spec fn parse_face(m: ObjModel, pieces: Seq<Seq<u8>>) -> Result<ObjModel, ObjErrorSpec>
    decreases pieces.len(),
{
    if pieces.len() == 0 {
        Ok(m)
    } else {
        match face_vertex(m, pieces[0]) {
            Err(e) => Err(e),
            Ok(v) => parse_face(
                ObjModel { vertices: m.vertices.push(v), ..m },
                pieces.drop_first(),
            ),
        }
    }
}

// ---------------------------------------------------------------------------
// Lines and the whole input
// ---------------------------------------------------------------------------

/// Reads one line: a tagged line appends to its element list or, for a
/// face line, emits vertices; every other line is skipped.
pub open spec fn parse_line(
    st: ScanState,
    line: Seq<u8>,
    floats: Seq<Option<u32>>,
) -> Result<ScanState, ObjErrorSpec> {
    match line_kind(line) {
        LineKind::Point => match read_floats(line, 2, floats, st.consumed, 3) {
            Err(e) => Err(e),
            Ok(f) => Ok(ScanState {
                model: ObjModel {
                    points: st.model.points.push(Vec3Bits { x: f[0], y: f[1], z: f[2] }),
                    ..st.model
                },
                consumed: st.consumed + 3,
            }),
        },
        LineKind::Normal => match read_floats(line, skip_start(line), floats, st.consumed, 3) {
            Err(e) => Err(e),
            Ok(f) => Ok(ScanState {
                model: ObjModel {
                    normals: st.model.normals.push(Vec3Bits { x: f[0], y: f[1], z: f[2] }),
                    ..st.model
                },
                consumed: st.consumed + 3,
            }),
        },
        LineKind::Texcoord => match read_floats(line, skip_start(line), floats, st.consumed, 2) {
            Err(e) => Err(e),
            Ok(f) => Ok(ScanState {
                model: ObjModel {
                    texcoords: st.model.texcoords.push(Vec2Bits { x: f[0], y: f[1] }),
                    ..st.model
                },
                consumed: st.consumed + 2,
            }),
        },
        LineKind::Face => match parse_face(
            st.model,
            split_at(line.subrange(2, line.len() as int), 32),
        ) {
            Err(e) => Err(e),
            Ok(m) => Ok(ScanState { model: m, consumed: st.consumed }),
        },
        LineKind::Other => Ok(st),
    }
}

/// Folds `parse_line` over the lines, stopping at the first error.
pub open spec fn parse_lines(
    st: ScanState,
    lines: Seq<Seq<u8>>,
    floats: Seq<Option<u32>>,
) -> Result<ScanState, ObjErrorSpec>
    decreases lines.len(),
{
    if lines.len() == 0 {
        Ok(st)
    } else {
        match parse_line(st, lines[0], floats) {
            Err(e) => Err(e),
            Ok(st2) => parse_lines(st2, lines.drop_first(), floats),
        }
    }
}

pub open spec fn initial_state() -> ScanState {
    ScanState { model: ObjModel::empty(), consumed: 0 }
}

/// What a whole scan yields: the accumulated data, or the first error
/// in line order.  `floats` answers the number fields in file order,
/// as `float_tokens` lists them.
pub open spec fn parse_obj(
    input: Seq<u8>,
    floats: Seq<Option<u32>>,
) -> Result<ObjModel, ObjErrorSpec> {
    match parse_lines(initial_state(), lines_of(input), floats) {
        Ok(st) => Ok(st.model),
        Err(e) => Err(e),
    }
}

proof fn lemma_dec_value_take_bound(d: Seq<u8>, k: int)
    requires
        0 <= k <= d.len(),
    ensures
        dec_value(d.take(k)) <= dec_value(d),
    decreases d.len() - k,
{
    if k < d.len() {
        assert(d.take(k + 1).drop_last() =~= d.take(k));
        assert(d.take(k + 1).last() == d[k]);
        assert(dec_value(d.take(k)) <= dec_value(d.take(k + 1)));
        lemma_dec_value_take_bound(d, k + 1);
    } else {
        assert(d.take(k) =~= d);
    }
}

/// Reads an unsigned decimal field as `str::parse::<usize>` does.
pub fn parse_index(s: &Vec<u8>) -> (r: Option<usize>)
    ensures
        r == usize_of(s@),
{
    let ghost d = digits_of(s@);
    let start: usize = if s.len() >= 1 && s[0] == 43 {
        1
    } else {
        0
    };
    assert(d =~= s@.subrange(start as int, s@.len() as int));
    if s.len() == start {
        return None;
    }
    let mut v: usize = 0;
    let mut i: usize = start;
    while i < s.len()
        invariant
            start <= i <= s@.len(),
            d == digits_of(s@),
            d == s@.subrange(start as int, s@.len() as int),
            forall|j: int| 0 <= j < i - start ==> is_digit(d[j]),
            v == dec_value(d.take(i - start)),
        decreases s@.len() - i,
    {
        let b = s[i];
        assert(d[i - start] == b);
        if b < 48 || b > 57 {
            proof {
                assert(0 <= i - start < digits_of(s@).len());
                assert(!is_digit(digits_of(s@)[i - start]));
                assert(exists|j: int|
                    0 <= j < digits_of(s@).len() && !is_digit(digits_of(s@)[j]));
                assert(usize_of(s@) is None);
            }
            return None;
        }
        let digit = (b - 48) as usize;
        let wide: u128 = v as u128 * 10 + digit as u128;
        proof {
            assert(d.take(i - start + 1).drop_last() =~= d.take(i - start));
            assert(d.take(i - start + 1).last() == d[i - start]);
        }
        if wide > usize::MAX as u128 {
            proof {
                assert(dec_value(d.take(i - start + 1)) == v * 10 + digit);
                lemma_dec_value_take_bound(d, i - start + 1);
                assert(dec_value(digits_of(s@)) > usize::MAX);
                assert(usize_of(s@) is None);
            }
            return None;
        }
        v = wide as usize;
        i = i + 1;
    }
    proof {
        assert(d.take(i - start) =~= d);
    }
    Some(v)
}

// ---------------------------------------------------------------------------
// Executable byte helpers
// ---------------------------------------------------------------------------

/// The views of a list of byte vectors.
pub open spec fn views_of(pieces: Seq<Vec<u8>>) -> Seq<Seq<u8>> {
    pieces.map_values(|p: Vec<u8>| p@)
}

fn is_space_byte(b: u8) -> (r: bool)
    ensures
        r == is_space(b),
{
    b == 32 || b == 9 || b == 11 || b == 12 || b == 13
}

/// Copies the field starting at `start` and reports where the scan
/// resumes after it.
fn next_token(line: &[u8], start: usize) -> (r: (Vec<u8>, usize))
    requires
        start <= line@.len(),
    ensures
        r.0@ == token_at(line@, start as int),
        r.1 == after_token(line@, start as int),
        start <= r.1 <= line@.len(),
{
    let mut j = start;
    while j < line.len() && !is_space_byte(line[j])
        invariant
            start <= j <= line@.len(),
            token_end(line@, start as int) == token_end(line@, j as int),
        decreases line@.len() - j,
    {
        j = j + 1;
    }
    assert(token_end(line@, start as int) == j);
    let mut tok: Vec<u8> = Vec::new();
    let mut t = start;
    while t < j
        invariant
            start <= t <= j <= line@.len(),
            tok@ == line@.subrange(start as int, t as int),
        decreases j - t,
    {
        tok.push(line[t]);
        proof {
            assert(tok@ =~= line@.subrange(start as int, t + 1));
        }
        t = t + 1;
    }
    let next = if j < line.len() {
        j + 1
    } else {
        j
    };
    (tok, next)
}

/// The reply for the `k`-th number field.
fn get_reply(floats: &Vec<Option<u32>>, k: usize) -> (r: Option<u32>)
    ensures
        r == reply(floats@, k as int),
{
    if k < floats.len() {
        floats[k]
    } else {
        None
    }
}

/// Cuts `s` from `from` onward at every separator byte, empty pieces
/// included.
fn split_bytes(s: &[u8], from: usize, sep: u8) -> (r: Vec<Vec<u8>>)
    requires
        from <= s@.len(),
    ensures
        views_of(r@) == split_at(s@.subrange(from as int, s@.len() as int), sep),
        r@.len() >= 1,
{
    let mut done: Vec<Vec<u8>> = Vec::new();
    let mut current: Vec<u8> = Vec::new();
    let mut i = from;
    proof {
        assert(s@.subrange(from as int, from as int) =~= Seq::<u8>::empty());
        assert(views_of(done@).push(current@) =~= split_at(
            s@.subrange(from as int, from as int),
            sep,
        ));
    }
    while i < s.len()
        invariant
            from <= i <= s@.len(),
            views_of(done@).push(current@) == split_at(s@.subrange(from as int, i as int), sep),
        decreases s@.len() - i,
    {
        let ghost prefix = s@.subrange(from as int, i as int);
        let b = s[i];
        proof {
            assert(s@.subrange(from as int, i + 1).drop_last() =~= prefix);
            assert(s@.subrange(from as int, i + 1).last() == b);
        }
        if b == sep {
            done.push(current);
            current = Vec::new();
            proof {
                assert(views_of(done@).push(current@) =~= split_at(
                    s@.subrange(from as int, i + 1),
                    sep,
                ));
            }
        } else {
            current.push(b);
            proof {
                let r0 = split_at(prefix, sep);
                assert(views_of(done@).push(current@) =~= r0.update(
                    r0.len() - 1,
                    r0.last().push(b),
                ));
            }
        }
        i = i + 1;
    }
    done.push(current);
    proof {
        assert(views_of(done@) =~= split_at(s@.subrange(from as int, s@.len() as int), sep));
    }
    done
}

/// Copies the first `m` bytes of a piece: a terminated line shedding
/// its carriage return keeps a prefix of itself.
fn prefix_bytes(v: &Vec<u8>, m: usize) -> (r: Vec<u8>)
    requires
        m <= v@.len(),
    ensures
        r@ == v@.subrange(0, m as int),
{
    let mut r: Vec<u8> = Vec::new();
    let mut t: usize = 0;
    while t < m
        invariant
            t <= m <= v@.len(),
            r@ == v@.subrange(0, t as int),
        decreases m - t,
    {
        r.push(v[t]);
        proof {
            assert(r@ =~= v@.subrange(0, t + 1));
        }
        t = t + 1;
    }
    r
}

// ---------------------------------------------------------------------------
// The scan itself
// ---------------------------------------------------------------------------

/// The growing element lists of a scan in progress.
pub struct ObjAccum {
    pub points: Vec<Vec3Bits>,
    pub texcoords: Vec<Vec2Bits>,
    pub normals: Vec<Vec3Bits>,
    pub vertices: Vec<Vertex>,
}

impl View for ObjAccum {
    type V = ObjModel;

    open spec fn view(&self) -> ObjModel {
        ObjModel {
            points: self.points@,
            texcoords: self.texcoords@,
            normals: self.normals@,
            vertices: self.vertices@,
        }
    }
}

impl ObjAccum {
    pub fn new() -> (r: ObjAccum)
        ensures
            r@ == ObjModel::empty(),
    {
        let r = ObjAccum {
            points: Vec::new(),
            texcoords: Vec::new(),
            normals: Vec::new(),
            vertices: Vec::new(),
        };
        proof {
            assert(r@.points =~= ObjModel::empty().points);
            assert(r@.texcoords =~= ObjModel::empty().texcoords);
            assert(r@.normals =~= ObjModel::empty().normals);
            assert(r@.vertices =~= ObjModel::empty().vertices);
        }
        r
    }
}

/// Reads one face vertex from a `/`-separated piece, as `face_vertex`
/// defines it.
fn face_piece_vertex(acc: &ObjAccum, piece: &Vec<u8>) -> (r: Result<Vertex, ObjError>)
    ensures
        match face_vertex(acc@, piece@) {
            Ok(v) => r is Ok && r->Ok_0 == v,
            Err(e) => r is Err && r->Err_0@ == e,
        },
{
    let params = split_bytes(piece.as_slice(), 0, 47);
    proof {
        assert(piece@.subrange(0, piece@.len() as int) =~= piece@);
    }
    let pi = match parse_index(&params[0]) {
        None => {
            let n = params[0].len();
            proof {
                assert(views_of(params@)[0] == params@[0]@);
                assert(params@[0]@.subrange(0, params@[0]@.len() as int) =~= params@[0]@);
            }
            return Err(ObjError::BadIndex { token: prefix_bytes(&params[0], n) });
        },
        Some(pi) => pi,
    };
    if pi == 0 {
        return Err(ObjError::ZeroIndex);
    }
    if pi - 1 >= acc.points.len() {
        return Err(ObjError::MissingPosition { index: pi });
    }
    let pos = acc.points[pi - 1];
    if params.len() < 2 {
        return Err(ObjError::MissingIndex);
    }
    let ti = match parse_index(&params[1]) {
        None => {
            let n = params[1].len();
            proof {
                assert(views_of(params@)[1] == params@[1]@);
                assert(params@[1]@.subrange(0, params@[1]@.len() as int) =~= params@[1]@);
            }
            return Err(ObjError::BadIndex { token: prefix_bytes(&params[1], n) });
        },
        Some(ti) => ti,
    };
    if ti == 0 {
        return Err(ObjError::ZeroIndex);
    }
    let tex = if ti - 1 < acc.texcoords.len() {
        acc.texcoords[ti - 1]
    } else {
        Vec2Bits { x: 0, y: 0 }
    };
    let ni = if params.len() < 3 {
        usize::MAX
    } else {
        match parse_index(&params[2]) {
            Some(n) => n,
            None => usize::MAX,
        }
    };
    if ni == 0 {
        return Err(ObjError::ZeroIndex);
    }
    let nor = if ni - 1 < acc.normals.len() {
        acc.normals[ni - 1]
    } else {
        Vec3Bits { x: 0, y: 0, z: 0 }
    };
    Ok(Vertex {
        px: pos.x,
        py: pos.y,
        pz: pos.z,
        tu: tex.x,
        tv: tex.y,
        nx: nor.x,
        ny: nor.y,
        nz: nor.z,
    })
}

/// Reads three number fields of `line` from `start`, advancing the
/// reply cursor, as `read_floats` defines it.
fn read3(
    line: &[u8],
    start: usize,
    consumed: &mut usize,
    floats: &Vec<Option<u32>>,
) -> (r: Result<(u32, u32, u32), ObjError>)
    requires
        start <= line@.len(),
        *old(consumed) <= floats@.len(),
    ensures
        match read_floats(line@, start as int, floats@, *old(consumed) as int, 3) {
            Ok(f) => r is Ok && f == seq![r->Ok_0.0, r->Ok_0.1, r->Ok_0.2]
                && *final(consumed) == *old(consumed) + 3
                && *final(consumed) <= floats@.len(),
            Err(e) => r is Err && r->Err_0@ == e,
        },
{
    let ghost k0 = *consumed as int;
    let flen: usize = floats.len();
    let (t1, p1) = next_token(line, start);
    let x = match get_reply(floats, *consumed) {
        None => {
            return Err(ObjError::BadFloat { token: t1 });
        },
        Some(x) => x,
    };
    proof {
        assert(*consumed < flen);
    }
    *consumed = *consumed + 1;
    let (t2, p2) = next_token(line, p1);
    let y = match get_reply(floats, *consumed) {
        None => {
            proof {
                assert(read_floats(line@, p1 as int, floats@, k0 + 1, 2) == Err::<
                    Seq<u32>,
                    ObjErrorSpec,
                >(ObjErrorSpec::BadFloat { token: t2@ }));
            }
            return Err(ObjError::BadFloat { token: t2 });
        },
        Some(y) => y,
    };
    proof {
        assert(*consumed < flen);
    }
    *consumed = *consumed + 1;
    let (t3, p3) = next_token(line, p2);
    let z = match get_reply(floats, *consumed) {
        None => {
            proof {
                assert(read_floats(line@, p2 as int, floats@, k0 + 2, 1) == Err::<
                    Seq<u32>,
                    ObjErrorSpec,
                >(ObjErrorSpec::BadFloat { token: t3@ }));
                assert(read_floats(line@, p1 as int, floats@, k0 + 1, 2) == Err::<
                    Seq<u32>,
                    ObjErrorSpec,
                >(ObjErrorSpec::BadFloat { token: t3@ }));
            }
            return Err(ObjError::BadFloat { token: t3 });
        },
        Some(z) => z,
    };
    proof {
        assert(*consumed < flen);
    }
    *consumed = *consumed + 1;
    proof {
        assert(read_floats(line@, p3 as int, floats@, k0 + 3, 0) == Ok::<Seq<u32>, ObjErrorSpec>(Seq::<u32>::empty()));
        assert(seq![z] + Seq::<u32>::empty() =~= seq![z]);
        assert(read_floats(line@, p2 as int, floats@, k0 + 2, 1) == Ok::<Seq<u32>, ObjErrorSpec>(seq![z]));
        assert(seq![y] + seq![z] =~= seq![y, z]);
        assert(read_floats(line@, p1 as int, floats@, k0 + 1, 2) == Ok::<Seq<u32>, ObjErrorSpec>(seq![y, z]));
        assert(seq![x] + seq![y, z] =~= seq![x, y, z]);
        assert(read_floats(line@, start as int, floats@, k0, 3) == Ok::<Seq<u32>, ObjErrorSpec>(seq![x, y, z]));
    }
    Ok((x, y, z))
}

/// Reads two number fields of `line` from `start`, advancing the
/// reply cursor, as `read_floats` defines it.
fn read2(
    line: &[u8],
    start: usize,
    consumed: &mut usize,
    floats: &Vec<Option<u32>>,
) -> (r: Result<(u32, u32), ObjError>)
    requires
        start <= line@.len(),
        *old(consumed) <= floats@.len(),
    ensures
        match read_floats(line@, start as int, floats@, *old(consumed) as int, 2) {
            Ok(f) => r is Ok && f == seq![r->Ok_0.0, r->Ok_0.1]
                && *final(consumed) == *old(consumed) + 2
                && *final(consumed) <= floats@.len(),
            Err(e) => r is Err && r->Err_0@ == e,
        },
{
    let ghost k0 = *consumed as int;
    let flen: usize = floats.len();
    let (t1, p1) = next_token(line, start);
    let x = match get_reply(floats, *consumed) {
        None => {
            return Err(ObjError::BadFloat { token: t1 });
        },
        Some(x) => x,
    };
    proof {
        assert(*consumed < flen);
    }
    *consumed = *consumed + 1;
    let (t2, p2) = next_token(line, p1);
    let y = match get_reply(floats, *consumed) {
        None => {
            proof {
                assert(read_floats(line@, p1 as int, floats@, k0 + 1, 1) == Err::<
                    Seq<u32>,
                    ObjErrorSpec,
                >(ObjErrorSpec::BadFloat { token: t2@ }));
            }
            return Err(ObjError::BadFloat { token: t2 });
        },
        Some(y) => y,
    };
    proof {
        assert(*consumed < flen);
    }
    *consumed = *consumed + 1;
    proof {
        assert(read_floats(line@, p2 as int, floats@, k0 + 2, 0) == Ok::<Seq<u32>, ObjErrorSpec>(Seq::<u32>::empty()));
        assert(seq![y] + Seq::<u32>::empty() =~= seq![y]);
        assert(read_floats(line@, p1 as int, floats@, k0 + 1, 1) == Ok::<Seq<u32>, ObjErrorSpec>(seq![y]));
        assert(seq![x] + seq![y] =~= seq![x, y]);
        assert(read_floats(line@, start as int, floats@, k0, 2) == Ok::<Seq<u32>, ObjErrorSpec>(seq![x, y]));
    }
    Ok((x, y))
}

/// Reads one line into the accumulator, as `parse_line` defines it.
fn apply_line(
    acc: &mut ObjAccum,
    consumed: &mut usize,
    line: &[u8],
    floats: &Vec<Option<u32>>,
) -> (r: Result<(), ObjError>)
    requires
        *old(consumed) <= floats@.len(),
    ensures
        match parse_line(
            ScanState { model: old(acc)@, consumed: *old(consumed) as int },
            line@,
            floats@,
        ) {
            Ok(st) => r is Ok && final(acc)@ == st.model
                && *final(consumed) as int == st.consumed
                && st.consumed <= floats@.len(),
            Err(e) => r is Err && r->Err_0@ == e,
        },
{
    let ghost st0 = ScanState { model: acc@, consumed: *consumed as int };
    if line.len() <= 2 {
        return Ok(());
    }
    let b0 = line[0];
    let b1 = line[1];
    if b0 == 118 && b1 == 32 {
        match read3(line, 2, consumed, floats) {
            Err(e) => Err(e),
            Ok((x, y, z)) => {
                acc.points.push(Vec3Bits { x, y, z });
                Ok(())
            },
        }
    } else if b0 == 118 && (b1 == 110 || b1 == 116) {
        let b2 = line[2];
        let w: usize = if b2 < 128 {
            1
        } else if b2 < 224 {
            2
        } else if b2 < 240 {
            3
        } else {
            4
        };
        let start = if 2 + w <= line.len() {
            2 + w
        } else {
            line.len()
        };
        assert(start as int == skip_start(line@));
        if b1 == 110 {
            match read3(line, start, consumed, floats) {
                Err(e) => Err(e),
                Ok((x, y, z)) => {
                    acc.normals.push(Vec3Bits { x, y, z });
                    Ok(())
                },
            }
        } else {
            match read2(line, start, consumed, floats) {
                Err(e) => Err(e),
                Ok((x, y)) => {
                    acc.texcoords.push(Vec2Bits { x, y });
                    Ok(())
                },
            }
        }
    } else if b0 == 102 && b1 == 32 {
        let pieces = split_bytes(line, 2, 32);
        let ghost fullviews = views_of(pieces@);
        proof {
            assert(fullviews.skip(0) =~= fullviews);
        }
        let mut idx: usize = 0;
        while idx < pieces.len()
            invariant
                idx <= pieces@.len(),
                fullviews == views_of(pieces@),
                fullviews == split_at(line@.subrange(2, line@.len() as int), 32),
                line_kind(line@) == LineKind::Face,
                st0.model == old(acc)@,
                st0.consumed == *old(consumed) as int,
                acc@.points == st0.model.points,
                acc@.texcoords == st0.model.texcoords,
                acc@.normals == st0.model.normals,
                *consumed as int == st0.consumed,
                *consumed <= floats@.len(),
                parse_face(st0.model, fullviews) == parse_face(acc@, fullviews.skip(idx as int)),
            decreases pieces@.len() - idx,
        {
            match face_piece_vertex(acc, &pieces[idx]) {
                Err(e) => {
                    proof {
                        assert(fullviews.skip(idx as int)[0] == fullviews[idx as int]);
                        assert(fullviews[idx as int] == pieces@[idx as int]@);
                    }
                    return Err(e);
                },
                Ok(v) => {
                    proof {
                        assert(fullviews.skip(idx as int)[0] == fullviews[idx as int]);
                        assert(fullviews[idx as int] == pieces@[idx as int]@);
                        assert(fullviews.skip(idx as int).drop_first() =~= fullviews.skip(
                            idx + 1,
                        ));
                    }
                    acc.vertices.push(v);
                },
            }
            idx = idx + 1;
        }
        proof {
            assert(fullviews.skip(pieces@.len() as int) =~= Seq::<Seq<u8>>::empty());
        }
        Ok(())
    } else {
        Ok(())
    }
}

/// Reads a whole wavefront source, with `floats` answering its number
/// fields in file order (`float_fields` lists them; a reply of `None`
/// marks a field that does not parse as a number).  Yields the
/// interleaved vertices of the face lines, `None` where no face line
/// produced any, or the first error in line order.
pub fn parse_wavefront(source: &[u8], floats: &Vec<Option<u32>>) -> (r: Result<
    Option<Vec<Vertex>>,
    ObjError,
>)
    ensures
        match parse_obj(source@, floats@) {
            Ok(m) => r is Ok && (if m.vertices.len() == 0 {
                r->Ok_0 is None
            } else {
                r->Ok_0 is Some && r->Ok_0->0@ == m.vertices
            }),
            Err(e) => r is Err && r->Err_0@ == e,
        },
{
    let pieces = split_bytes(source, 0, 10);
    proof {
        assert(source@.subrange(0, source@.len() as int) =~= source@);
    }
    let ghost all = lines_of(source@);
    let ghost fullviews = views_of(pieces@);
    let n = pieces.len();
    let mut acc = ObjAccum::new();
    let mut consumed: usize = 0;
    proof {
        assert(all.skip(0) =~= all);
    }
    let mut j: usize = 0;
    while j < n - 1
        invariant
            n == pieces@.len(),
            n >= 1,
            j <= n - 1,
            fullviews == views_of(pieces@),
            fullviews == split_at(source@, 10),
            all == lines_of(source@),
            consumed <= floats@.len(),
            parse_lines(initial_state(), all, floats@) == parse_lines(
                ScanState { model: acc@, consumed: consumed as int },
                all.skip(j as int),
                floats@,
            ),
        decreases n - 1 - j,
    {
        let pj_len = pieces[j].len();
        let m = if pj_len > 0 && pieces[j][pj_len - 1] == 13 {
            pj_len - 1
        } else {
            pj_len
        };
        let line = prefix_bytes(&pieces[j], m);
        proof {
            assert(fullviews[j as int] == pieces@[j as int]@);
            if pj_len > 0 && pieces@[j as int]@.last() == 13 {
                assert(pieces@[j as int]@.subrange(0, m as int) =~= pieces@[
                    j as int
                ]@.drop_last());
            } else {
                assert(pieces@[j as int]@.subrange(0, m as int) =~= pieces@[j as int]@);
            }
            assert(line@ == strip_cr(fullviews[j as int]));
            assert(all[j as int] == strip_cr(fullviews[j as int]));
            assert(j < all.len());
            assert(all.skip(j as int)[0] == all[j as int]);
        }
        match apply_line(&mut acc, &mut consumed, line.as_slice(), floats) {
            Err(e) => {
                return Err(e);
            },
            Ok(()) => {
                proof {
                    assert(all.skip(j as int).drop_first() =~= all.skip(j + 1));
                }
            },
        }
        j = j + 1;
    }
    let plast_len = pieces[n - 1].len();
    let ghost cur = ScanState { model: acc@, consumed: consumed as int };
    if plast_len > 0 {
        proof {
            assert(fullviews[n - 1] == pieces@[n - 1]@);
            assert(all.len() == n);
            assert(all[n - 1] == fullviews[n - 1]);
            assert(all.skip(n - 1)[0] == all[n - 1]);
        }
        match apply_line(&mut acc, &mut consumed, pieces[n - 1].as_slice(), floats) {
            Err(e) => {
                return Err(e);
            },
            Ok(()) => {
                proof {
                    let st2 = parse_line(cur, all[n - 1], floats@)->Ok_0;
                    assert(acc@ == st2.model);
                    assert(all.skip(n - 1).drop_first() =~= Seq::<Seq<u8>>::empty());
                    assert(parse_lines(st2, Seq::<Seq<u8>>::empty(), floats@) == Ok::<
                        ScanState,
                        ObjErrorSpec,
                    >(st2));
                    assert(parse_lines(cur, all.skip(n - 1), floats@) == Ok::<
                        ScanState,
                        ObjErrorSpec,
                    >(st2));
                    assert(parse_obj(source@, floats@) == Ok::<ObjModel, ObjErrorSpec>(
                        acc@,
                    ));
                }
            },
        }
    } else {
        proof {
            assert(all.len() == n - 1);
            assert(all.skip(n - 1) =~= Seq::<Seq<u8>>::empty());
            assert(parse_lines(cur, all.skip(n - 1), floats@) == Ok::<
                ScanState,
                ObjErrorSpec,
            >(cur));
            assert(parse_obj(source@, floats@) == Ok::<ObjModel, ObjErrorSpec>(acc@));
        }
    }
    let ObjAccum { vertices, points: _, texcoords: _, normals: _ } = acc;
    if vertices.len() == 0 {
        Ok(None)
    } else {
        Ok(Some(vertices))
    }
}

/// Appends the number fields this line demands, in scan order.
fn push_line_tokens(out: &mut Vec<Vec<u8>>, line: &[u8])
    ensures
        views_of(final(out)@) == views_of(old(out)@) + line_float_tokens(line@),
{
    let ghost before = views_of(out@);
    if line.len() <= 2 {
        proof {
            assert(before + line_float_tokens(line@) =~= before);
        }
        return ;
    }
    let b0 = line[0];
    let b1 = line[1];
    let is_point = b0 == 118 && b1 == 32;
    let is_normal = b0 == 118 && b1 == 110;
    let is_texcoord = b0 == 118 && b1 == 116;
    if !(is_point || is_normal || is_texcoord) {
        proof {
            assert(before + line_float_tokens(line@) =~= before);
        }
        return ;
    }
    let start: usize = if is_point {
        2
    } else {
        let b2 = line[2];
        let w: usize = if b2 < 128 {
            1
        } else if b2 < 224 {
            2
        } else if b2 < 240 {
            3
        } else {
            4
        };
        if 2 + w <= line.len() {
            2 + w
        } else {
            line.len()
        }
    };
    assert(is_point || start as int == skip_start(line@));
    let count: usize = if is_texcoord {
        2
    } else {
        3
    };
    let (t1, p1) = next_token(line, start);
    let (t2, p2) = next_token(line, p1);
    proof {
        assert(line_tokens(line@, p2 as int, 0) =~= Seq::<Seq<u8>>::empty());
        assert(line_tokens(line@, p1 as int, 1) =~= seq![t2@]);
        assert(line_tokens(line@, start as int, 2) =~= seq![t1@, t2@]);
    }
    if count == 2 {
        out.push(t1);
        out.push(t2);
        proof {
            assert(views_of(out@) =~= before + line_float_tokens(line@));
        }
    } else {
        let (t3, p3) = next_token(line, p2);
        proof {
            assert(line_tokens(line@, p3 as int, 0) =~= Seq::<Seq<u8>>::empty());
            assert(line_tokens(line@, p2 as int, 1) =~= seq![t3@]);
            assert(line_tokens(line@, p1 as int, 2) =~= seq![t2@, t3@]);
            assert(line_tokens(line@, start as int, 3) =~= seq![t1@, t2@, t3@]);
        }
        out.push(t1);
        out.push(t2);
        out.push(t3);
        proof {
            assert(views_of(out@) =~= before + line_float_tokens(line@));
        }
    }
}


// ---------------------------------------------------------------------------
// The reply protocol is complete
// ---------------------------------------------------------------------------

proof fn lemma_line_tokens_len(line: Seq<u8>, i: int, n: nat)
    ensures
        line_tokens(line, i, n).len() == n,
    decreases n,
{
    if n > 0 {
        lemma_line_tokens_len(line, after_token(line, i), (n - 1) as nat);
    }
}

proof fn lemma_read_floats_agree(
    line: Seq<u8>,
    i: int,
    f1: Seq<Option<u32>>,
    f2: Seq<Option<u32>>,
    k: int,
    n: nat,
)
    requires
        forall|j: int| k <= j < k + n ==> reply(f1, j) == reply(f2, j),
    ensures
        read_floats(line, i, f1, k, n) == read_floats(line, i, f2, k, n),
    decreases n,
{
    if n > 0 {
        assert(reply(f1, k) == reply(f2, k));
        if reply(f1, k) is Some {
            lemma_read_floats_agree(line, after_token(line, i), f1, f2, k + 1, (n - 1) as nat);
        }
    }
}

proof fn lemma_parse_line_consumed(st: ScanState, line: Seq<u8>, floats: Seq<Option<u32>>)
    requires
        parse_line(st, line, floats) is Ok,
    ensures
        (parse_line(st, line, floats)->Ok_0).consumed == st.consumed + line_float_tokens(
            line,
        ).len(),
{
    match line_kind(line) {
        LineKind::Point => lemma_line_tokens_len(line, 2, 3),
        LineKind::Normal => lemma_line_tokens_len(line, skip_start(line), 3),
        LineKind::Texcoord => lemma_line_tokens_len(line, skip_start(line), 2),
        LineKind::Face => {},
        LineKind::Other => {},
    }
}

proof fn lemma_parse_line_agree(
    st: ScanState,
    line: Seq<u8>,
    f1: Seq<Option<u32>>,
    f2: Seq<Option<u32>>,
)
    requires
        forall|j: int|
            st.consumed <= j < st.consumed + line_float_tokens(line).len() ==> reply(f1, j)
                == reply(f2, j),
    ensures
        parse_line(st, line, f1) == parse_line(st, line, f2),
{
    match line_kind(line) {
        LineKind::Point => {
            lemma_line_tokens_len(line, 2, 3);
            lemma_read_floats_agree(line, 2, f1, f2, st.consumed, 3);
        },
        LineKind::Normal => {
            lemma_line_tokens_len(line, skip_start(line), 3);
            lemma_read_floats_agree(line, skip_start(line), f1, f2, st.consumed, 3);
        },
        LineKind::Texcoord => {
            lemma_line_tokens_len(line, skip_start(line), 2);
            lemma_read_floats_agree(line, skip_start(line), f1, f2, st.consumed, 2);
        },
        LineKind::Face => {},
        LineKind::Other => {},
    }
}

proof fn lemma_parse_lines_agree(
    st: ScanState,
    lines: Seq<Seq<u8>>,
    f1: Seq<Option<u32>>,
    f2: Seq<Option<u32>>,
)
    requires
        forall|j: int|
            st.consumed <= j < st.consumed + float_tokens_of_lines(lines).len() ==> reply(
                f1,
                j,
            ) == reply(f2, j),
    ensures
        parse_lines(st, lines, f1) == parse_lines(st, lines, f2),
    decreases lines.len(),
{
    if lines.len() > 0 {
        lemma_parse_line_agree(st, lines[0], f1, f2);
        match parse_line(st, lines[0], f1) {
            Err(_) => {},
            Ok(st2) => {
                lemma_parse_line_consumed(st, lines[0], f1);
                lemma_parse_lines_agree(st2, lines.drop_first(), f1, f2);
            },
        }
    }
}

/// The scan reads no reply beyond the fields `float_fields` lists:
/// two reply lists that agree on those fields give the same outcome,
/// whatever they hold elsewhere.
pub proof fn lemma_parse_reads_only_listed_fields(
    input: Seq<u8>,
    f1: Seq<Option<u32>>,
    f2: Seq<Option<u32>>,
)
    requires
        forall|k: int| 0 <= k < float_tokens(input).len() ==> reply(f1, k) == reply(f2, k),
    ensures
        parse_obj(input, f1) == parse_obj(input, f2),
{
    lemma_parse_lines_agree(initial_state(), lines_of(input), f1, f2);
}


proof fn lemma_parse_lines_consumed(
    st: ScanState,
    lines: Seq<Seq<u8>>,
    floats: Seq<Option<u32>>,
)
    requires
        parse_lines(st, lines, floats) is Ok,
    ensures
        (parse_lines(st, lines, floats)->Ok_0).consumed == st.consumed + float_tokens_of_lines(
            lines,
        ).len(),
    decreases lines.len(),
{
    if lines.len() > 0 {
        match parse_line(st, lines[0], floats) {
            Err(_) => {},
            Ok(st2) => {
                lemma_parse_line_consumed(st, lines[0], floats);
                lemma_parse_lines_consumed(st2, lines.drop_first(), floats);
            },
        }
    }
}

/// A scan that succeeds consumes exactly the fields `float_fields`
/// lists: every listed field is read, and no more are demanded.
pub proof fn lemma_successful_scan_consumes_all_fields(input: Seq<u8>, floats: Seq<Option<u32>>)
    requires
        parse_lines(initial_state(), lines_of(input), floats) is Ok,
    ensures
        (parse_lines(initial_state(), lines_of(input), floats)->Ok_0).consumed == float_tokens(
            input,
        ).len(),
{
    lemma_parse_lines_consumed(initial_state(), lines_of(input), floats);
}

/// Lists every number field of the source in the order the scan reads
/// them: the fields whose parses a caller of `parse_wavefront` must
/// supply as replies.
pub fn float_fields(source: &[u8]) -> (r: Vec<Vec<u8>>)
    ensures
        views_of(r@) == float_tokens(source@),
{
    let pieces = split_bytes(source, 0, 10);
    proof {
        assert(source@.subrange(0, source@.len() as int) =~= source@);
    }
    let ghost all = lines_of(source@);
    let ghost fullviews = views_of(pieces@);
    let n = pieces.len();
    let mut out: Vec<Vec<u8>> = Vec::new();
    proof {
        assert(all.skip(0) =~= all);
        assert(views_of(out@) =~= Seq::<Seq<u8>>::empty());
    }
    let mut j: usize = 0;
    while j < n - 1
        invariant
            n == pieces@.len(),
            n >= 1,
            j <= n - 1,
            fullviews == views_of(pieces@),
            fullviews == split_at(source@, 10),
            all == lines_of(source@),
            float_tokens_of_lines(all) == views_of(out@) + float_tokens_of_lines(
                all.skip(j as int),
            ),
        decreases n - 1 - j,
    {
        let pj_len = pieces[j].len();
        let m = if pj_len > 0 && pieces[j][pj_len - 1] == 13 {
            pj_len - 1
        } else {
            pj_len
        };
        let line = prefix_bytes(&pieces[j], m);
        proof {
            assert(fullviews[j as int] == pieces@[j as int]@);
            if pj_len > 0 && pieces@[j as int]@.last() == 13 {
                assert(pieces@[j as int]@.subrange(0, m as int) =~= pieces@[
                    j as int
                ]@.drop_last());
            } else {
                assert(pieces@[j as int]@.subrange(0, m as int) =~= pieces@[j as int]@);
            }
            assert(line@ == strip_cr(fullviews[j as int]));
            assert(all[j as int] == strip_cr(fullviews[j as int]));
            assert(j < all.len());
            assert(all.skip(j as int)[0] == all[j as int]);
        }
        let ghost before = views_of(out@);
        push_line_tokens(&mut out, line.as_slice());
        proof {
            assert(all.skip(j as int).drop_first() =~= all.skip(j + 1));
            assert(before + (line_float_tokens(all[j as int]) + float_tokens_of_lines(
                all.skip(j + 1),
            )) =~= (before + line_float_tokens(all[j as int])) + float_tokens_of_lines(
                all.skip(j + 1),
            ));
        }
        j = j + 1;
    }
    let plast_len = pieces[n - 1].len();
    if plast_len > 0 {
        proof {
            assert(fullviews[n - 1] == pieces@[n - 1]@);
            assert(all.len() == n);
            assert(all[n - 1] == fullviews[n - 1]);
            assert(all.skip(n - 1)[0] == all[n - 1]);
        }
        let ghost before = views_of(out@);
        push_line_tokens(&mut out, pieces[n - 1].as_slice());
        proof {
            assert(all.skip(n - 1).drop_first() =~= all.skip(n as int));
            assert(all.skip(n as int) =~= Seq::<Seq<u8>>::empty());
            assert(float_tokens_of_lines(all.skip(n as int)) =~= Seq::<Seq<u8>>::empty());
            assert(before + (line_float_tokens(all[n - 1]) + float_tokens_of_lines(
                all.skip(n as int),
            )) =~= (before + line_float_tokens(all[n - 1])) + float_tokens_of_lines(
                all.skip(n as int),
            ));
            assert(views_of(out@) + float_tokens_of_lines(all.skip(n as int)) =~= views_of(
                out@,
            ));
        }
    } else {
        proof {
            assert(all.len() == n - 1);
            assert(all.skip(n - 1) =~= Seq::<Seq<u8>>::empty());
            assert(float_tokens_of_lines(all.skip(n - 1)) =~= Seq::<Seq<u8>>::empty());
            assert(views_of(out@) + float_tokens_of_lines(all.skip(n - 1)) =~= views_of(
                out@,
            ));
        }
    }
    out
}

} // verus!
