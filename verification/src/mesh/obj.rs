//! Reader of the model text format.
//!
//! A model is text, line by line. A line that starts with `v` places a vertex:
//! after the first word come three numbers. A line that starts with `f` lays
//! a triangle: after the first word come the numbers of three vertices,
//! counted from one. A line that starts with `#` is a comment; it and every
//! other line is passed over.
//!
//! The reader checks every word that it will need and finds where each number
//! of a vertex stands in the text. What value a number has is left to the
//! host, which hands the values back to `Model::build`.

use vstd::prelude::*;
use vstd::slice::slice_subrange;
use crate::maths::vec::Vec3d;
use crate::mesh::{Face, Mesh};

verus! {

/// A kind of byte that a run is made of.
#[derive(Clone, Copy, Debug, PartialEq, Eq, Structural)]
pub enum Class {
    /// Blank: a space, a tab, a line feed, a vertical tab, a form feed, a
    /// carriage return.
    Space,
    /// Anything but blank.
    Word,
    /// A decimal digit.
    Digit,
    /// Anything but a line feed.
    Line,
}

/// Why a model was turned down.
#[derive(Clone, Copy, Debug, PartialEq, Eq, Structural)]
pub enum Fault {
    /// A vertex or a face has fewer than three fields.
    MissingField,
    /// A field of a vertex is not a number.
    BadNumber,
    /// A field of a face is not the number of a vertex: not a whole number,
    /// zero, or too large for the machine.
    BadIndex,
    /// A face names a vertex that the model does not have.
    NoSuchVertex,
}

/// A model that was turned down: the line, counted from one, and the fault
/// found there.
#[derive(Clone, Copy, Debug, PartialEq, Eq, Structural)]
pub struct ParseError {
    pub line: usize,
    pub fault: Fault,
}

/// A stretch of text, from `start` up to and without `end`.
#[derive(Clone, Copy, Debug, PartialEq, Eq, Structural)]
pub struct Span {
    pub start: usize,
    pub end: usize,
}

/// What a line says.
#[derive(Clone, Copy, Debug, PartialEq, Eq, Structural)]
pub enum Record {
    /// Nothing.
    Skip,
    /// A vertex, with the places of its three numbers.
    Vertex(Span, Span, Span),
    /// A face, with the indices of its three vertices, counted from zero.
    Face(usize, usize, usize),
}

pub open spec fn is_space(b: u8) -> bool {
    b == 32 || (9 <= b && b <= 13)
}

pub open spec fn is_digit(b: u8) -> bool {
    48 <= b && b <= 57
}

pub open spec fn is_sign(b: u8) -> bool {
    b == 43 || b == 45
}

/// The byte is of the class.
pub open spec fn holds(class: Class, b: u8) -> bool {
    match class {
        Class::Space => is_space(b),
        Class::Word => !is_space(b),
        Class::Digit => is_digit(b),
        Class::Line => b != 10,
    }
}

/// Where the run of bytes of `class` that starts at `from` ends: the first
/// index from `from` on whose byte is not of the class, or the length.
pub open spec fn run_end(s: Seq<u8>, from: int, class: Class) -> int
    decreases s.len() - from,
{
    if from < 0 || from >= s.len() {
        s.len() as int
    } else if !holds(class, s[from]) {
        from
    } else {
        run_end(s, from + 1, class)
    }
}

/// Where field `k` of the line starts. Fields are the words of the line,
/// counted from zero; past the last word this is the length of the line.
pub open spec fn field_start(line: Seq<u8>, k: int) -> int
    decreases k,
{
    if k <= 0 {
        run_end(line, 0, Class::Space)
    } else {
        run_end(line, run_end(line, field_start(line, k - 1), Class::Word), Class::Space)
    }
}

/// Where field `k` of the line ends.
pub open spec fn field_end(line: Seq<u8>, k: int) -> int {
    run_end(line, field_start(line, k), Class::Word)
}

/// The place of field `k` in the line.
pub open spec fn field_span(line: Seq<u8>, k: int) -> Span {
    Span { start: field_start(line, k) as usize, end: field_end(line, k) as usize }
}

/// Field `k` of the line. It is empty where the line has no such field.
pub open spec fn field(line: Seq<u8>, k: int) -> Seq<u8> {
    line.subrange(field_start(line, k), field_end(line, k))
}

/// The value of a row of decimal digits.
pub open spec fn decimal(digits: Seq<u8>) -> nat
    decreases digits.len(),
{
    if digits.len() == 0 {
        0
    } else {
        decimal(digits.drop_last()) * 10 + (digits.last() - 48) as nat
    }
}

pub open spec fn all_digits(s: Seq<u8>) -> bool {
    forall|i: int| 0 <= i < s.len() ==> is_digit(#[trigger] s[i])
}

/// The word without a plus sign in front.
pub open spec fn unsigned_part(word: Seq<u8>) -> Seq<u8> {
    if word.len() > 0 && word[0] == 43 {
        word.subrange(1, word.len() as int)
    } else {
        word
    }
}

/// The vertex that the word names, counted from zero: the word is a row of
/// digits, with or without a plus sign in front, whose value is at least one
/// and fits the machine.
pub open spec fn index_of(word: Seq<u8>) -> Option<usize> {
    let digits = unsigned_part(word);
    if digits.len() > 0 && all_digits(digits) && 1 <= decimal(digits) <= usize::MAX {
        Some((decimal(digits) - 1) as usize)
    } else {
        None
    }
}

/// The letter in lower case; any other byte as it is.
pub open spec fn lower(b: u8) -> u8 {
    if 65 <= b && b <= 90 {
        (b + 32) as u8
    } else {
        b
    }
}

/// `s` is `word`, which is in lower case, in whatever case.
pub open spec fn spells(s: Seq<u8>, word: Seq<u8>) -> bool {
    s.len() == word.len() && forall|i: int| 0 <= i < s.len() ==> lower(#[trigger] s[i]) == word[i]
}

/// `inf`
pub open spec fn word_inf() -> Seq<u8> {
    seq![105u8, 110u8, 102u8]
}

/// `infinity`
pub open spec fn word_infinity() -> Seq<u8> {
    seq![105u8, 110u8, 102u8, 105u8, 110u8, 105u8, 116u8, 121u8]
}

/// `nan`
pub open spec fn word_nan() -> Seq<u8> {
    seq![110u8, 97u8, 110u8]
}

/// From `at` on, `s` is an exponent: the letter `e`, an optional sign, and at
/// least one digit up to the end.
pub open spec fn exponent(s: Seq<u8>, at: int) -> bool {
    let first = if at + 1 < s.len() && is_sign(s[at + 1]) {
        at + 2
    } else {
        at + 1
    };
    lower(s[at]) == 101 && first < s.len() && run_end(s, first, Class::Digit) == s.len()
}

/// `s` is a decimal number without a sign: digits with at most one point
/// among them, at least one digit in all, and then an optional exponent.
pub open spec fn number(s: Seq<u8>) -> bool {
    let whole_end = run_end(s, 0, Class::Digit);
    let pointed = whole_end < s.len() && s[whole_end] == 46;
    let mantissa_end = if pointed {
        run_end(s, whole_end + 1, Class::Digit)
    } else {
        whole_end
    };
    let digits = if pointed {
        mantissa_end - 1
    } else {
        mantissa_end
    };
    digits > 0 && (mantissa_end == s.len() || exponent(s, mantissa_end))
}

/// The word without a sign in front.
pub open spec fn unsigned_body(word: Seq<u8>) -> Seq<u8> {
    if word.len() > 0 && is_sign(word[0]) {
        word.subrange(1, word.len() as int)
    } else {
        word
    }
}

/// The word is a number as the model format writes one: an optional sign,
/// then a decimal number, or one of the words `inf`, `infinity` and `nan` in
/// whatever case.
pub open spec fn real_literal(word: Seq<u8>) -> bool {
    let body = unsigned_body(word);
    spells(body, word_inf()) || spells(body, word_infinity()) || spells(body, word_nan())
        || number(body)
}

/// A run ends no earlier than it starts and within the text; every byte of
/// it is of the class, and the byte that follows it, if any, is not.
pub proof fn run_end_is_first_other(s: Seq<u8>, from: int, class: Class)
    requires
        0 <= from <= s.len(),
    ensures
        from <= run_end(s, from, class) <= s.len(),
        forall|i: int| from <= i < run_end(s, from, class) ==> holds(class, #[trigger] s[i]),
        run_end(s, from, class) < s.len() ==> !holds(class, s[run_end(s, from, class)]),
    decreases s.len() - from,
{
    if from < s.len() && holds(class, s[from]) {
        run_end_is_first_other(s, from + 1, class);
    }
}

/// Tells whether the byte is of the class.
fn belongs(class: Class, b: u8) -> (r: bool)
    ensures
        r == holds(class, b),
{
    match class {
        Class::Space => b == 32 || (9 <= b && b <= 13),
        Class::Word => !(b == 32 || (9 <= b && b <= 13)),
        Class::Digit => 48 <= b && b <= 57,
        Class::Line => b != 10,
    }
}

/// Where the run of bytes of `class` that starts at `from` ends.
fn skip(s: &[u8], from: usize, class: Class) -> (end: usize)
    requires
        from <= s@.len(),
    ensures
        end == run_end(s@, from as int, class),
        from <= end <= s@.len(),
{
    let mut i: usize = from;
    while i < s.len() && belongs(class, s[i])
        invariant
            from <= i <= s@.len(),
            run_end(s@, i as int, class) == run_end(s@, from as int, class),
        decreases s.len() - i,
    {
        i += 1;
    }
    i
}

/// Tells whether `s` is `word` in whatever case.
fn spells_word(s: &[u8], word: &[u8]) -> (r: bool)
    ensures
        r == spells(s@, word@),
{
    if s.len() != word.len() {
        return false;
    }
    let mut i: usize = 0;
    while i < s.len()
        invariant
            i <= s@.len(),
            s@.len() == word@.len(),
            forall|j: int| 0 <= j < i ==> lower(#[trigger] s@[j]) == word@[j],
        decreases s.len() - i,
    {
        let b = s[i];
        let low = if 65 <= b && b <= 90 {
            b + 32
        } else {
            b
        };
        if low != word[i] {
            assert(lower(s@[i as int]) != word@[i as int]);
            return false;
        }
        i += 1;
    }
    true
}

/// Tells whether `s` is a decimal number without a sign.
fn is_number(s: &[u8]) -> (r: bool)
    ensures
        r == number(s@),
{
    let whole_end = skip(s, 0, Class::Digit);
    let pointed = whole_end < s.len() && s[whole_end] == 46;
    let mantissa_end = if pointed {
        skip(s, whole_end + 1, Class::Digit)
    } else {
        whole_end
    };
    let digits = if pointed {
        mantissa_end - 1
    } else {
        mantissa_end
    };
    if digits == 0 {
        return false;
    }
    if mantissa_end == s.len() {
        return true;
    }
    let b = s[mantissa_end];
    if b != 101 && b != 69 {
        return false;
    }
    let first = if mantissa_end + 1 < s.len() && (s[mantissa_end + 1] == 43 || s[mantissa_end + 1]
        == 45) {
        mantissa_end + 2
    } else {
        mantissa_end + 1
    };
    first < s.len() && skip(s, first, Class::Digit) == s.len()
}

/// Tells whether the word is a number as the model format writes one.
pub fn is_real_literal(word: &[u8]) -> (r: bool)
    ensures
        r == real_literal(word@),
{
    let start: usize = if word.len() > 0 && (word[0] == 43 || word[0] == 45) {
        1
    } else {
        0
    };
    let body = slice_subrange(word, start, word.len());
    assert(body@ =~= unsigned_body(word@));
    if is_number(body) {
        return true;
    }
    let inf: [u8; 3] = [105u8, 110u8, 102u8];
    let infinity: [u8; 8] = [105u8, 110u8, 102u8, 105u8, 110u8, 105u8, 116u8, 121u8];
    let nan: [u8; 3] = [110u8, 97u8, 110u8];
    assert(inf@ =~= word_inf());
    assert(infinity@ =~= word_infinity());
    assert(nan@ =~= word_nan());
    spells_word(body, inf.as_slice()) || spells_word(body, infinity.as_slice()) || spells_word(
        body,
        nan.as_slice(),
    )
}

/// The value of a row of digits is no less than that of any of its starts.
proof fn decimal_grows(s: Seq<u8>, i: int)
    requires
        all_digits(s),
        0 <= i <= s.len(),
    ensures
        decimal(s.subrange(0, i)) <= decimal(s),
    decreases s.len() - i,
{
    if i < s.len() {
        decimal_grows(s, i + 1);
        assert(s.subrange(0, i + 1).drop_last() =~= s.subrange(0, i));
        assert(is_digit(s[i]));
    } else {
        assert(s.subrange(0, i) =~= s);
    }
}

/// The vertex that the word names, counted from zero, if it names one.
pub fn parse_index(word: &[u8]) -> (r: Option<usize>)
    ensures
        r == index_of(word@),
{
    let start: usize = if word.len() > 0 && word[0] == 43 {
        1
    } else {
        0
    };
    let digits = slice_subrange(word, start, word.len());
    assert(digits@ =~= unsigned_part(word@));
    if digits.len() == 0 {
        return None;
    }
    let mut value: usize = 0;
    let mut i: usize = 0;
    while i < digits.len()
        invariant
            i <= digits@.len(),
            digits@ == unsigned_part(word@),
            value == decimal(digits@.subrange(0, i as int)),
            forall|j: int| 0 <= j < i ==> is_digit(#[trigger] digits@[j]),
        decreases digits.len() - i,
    {
        let b = digits[i];
        if !(48 <= b && b <= 57) {
            assert(!is_digit(digits@[i as int]));
            return None;
        }
        let d: usize = (b - 48) as usize;
        proof {
            assert(digits@.subrange(0, i + 1).drop_last() =~= digits@.subrange(0, i as int));
            assert(decimal(digits@.subrange(0, i + 1)) == value * 10 + d);
        }
        if value > (usize::MAX - d) / 10 {
            proof {
                if all_digits(digits@) {
                    decimal_grows(digits@, i + 1);
                }
            }
            return None;
        }
        value = value * 10 + d;
        i += 1;
    }
    assert(digits@.subrange(0, digits@.len() as int) =~= digits@);
    if value == 0 {
        None
    } else {
        Some(value - 1)
    }
}

/// What a line that starts with `v` says: the places of fields one to three,
/// each of which must be there and be a number.
pub open spec fn vertex_of(line: Seq<u8>) -> Result<Record, Fault> {
    if field(line, 1).len() == 0 {
        Err(Fault::MissingField)
    } else if !real_literal(field(line, 1)) {
        Err(Fault::BadNumber)
    } else if field(line, 2).len() == 0 {
        Err(Fault::MissingField)
    } else if !real_literal(field(line, 2)) {
        Err(Fault::BadNumber)
    } else if field(line, 3).len() == 0 {
        Err(Fault::MissingField)
    } else if !real_literal(field(line, 3)) {
        Err(Fault::BadNumber)
    } else {
        Ok(Record::Vertex(field_span(line, 1), field_span(line, 2), field_span(line, 3)))
    }
}

/// What a line that starts with `f` says: the vertices that fields one to
/// three name, each of which must be there and name one.
pub open spec fn face_of(line: Seq<u8>) -> Result<Record, Fault> {
    if field(line, 1).len() == 0 {
        Err(Fault::MissingField)
    } else if index_of(field(line, 1)).is_none() {
        Err(Fault::BadIndex)
    } else if field(line, 2).len() == 0 {
        Err(Fault::MissingField)
    } else if index_of(field(line, 2)).is_none() {
        Err(Fault::BadIndex)
    } else if field(line, 3).len() == 0 {
        Err(Fault::MissingField)
    } else if index_of(field(line, 3)).is_none() {
        Err(Fault::BadIndex)
    } else {
        Ok(
            Record::Face(
                index_of(field(line, 1)).unwrap(),
                index_of(field(line, 2)).unwrap(),
                index_of(field(line, 3)).unwrap(),
            ),
        )
    }
}

/// What a line says. Only its first byte tells a vertex or a face from the
/// lines that are passed over.
pub open spec fn record_of(line: Seq<u8>) -> Result<Record, Fault> {
    if line.len() == 0 {
        Ok(Record::Skip)
    } else if line[0] == 118 {
        vertex_of(line)
    } else if line[0] == 102 {
        face_of(line)
    } else {
        Ok(Record::Skip)
    }
}

/// The places of a vertex lie within the line, and what stands there are
/// numbers.
pub open spec fn spans_numbers(text: Seq<u8>, v: (Span, Span, Span)) -> bool {
    &&& v.0.start <= v.0.end <= text.len()
    &&& v.1.start <= v.1.end <= text.len()
    &&& v.2.start <= v.2.end <= text.len()
    &&& real_literal(text.subrange(v.0.start as int, v.0.end as int))
    &&& real_literal(text.subrange(v.1.start as int, v.1.end as int))
    &&& real_literal(text.subrange(v.2.start as int, v.2.end as int))
}

/// What the line says.
pub fn parse_line(line: &[u8]) -> (r: Result<Record, Fault>)
    ensures
        r == record_of(line@),
        r matches Ok(Record::Vertex(x, y, z)) ==> spans_numbers(line@, (x, y, z)),
{
    if line.len() == 0 {
        return Ok(Record::Skip);
    }
    let tag = line[0];
    if tag != 118 && tag != 102 {
        return Ok(Record::Skip);
    }
    let s0 = skip(line, 0, Class::Space);
    let e0 = skip(line, s0, Class::Word);
    assert(s0 == field_start(line@, 0) && e0 == field_end(line@, 0));
    let s1 = skip(line, e0, Class::Space);
    let e1 = skip(line, s1, Class::Word);
    assert(s1 == field_start(line@, 1) && e1 == field_end(line@, 1));
    let s2 = skip(line, e1, Class::Space);
    let e2 = skip(line, s2, Class::Word);
    assert(s2 == field_start(line@, 2) && e2 == field_end(line@, 2));
    let s3 = skip(line, e2, Class::Space);
    let e3 = skip(line, s3, Class::Word);
    assert(s3 == field_start(line@, 3) && e3 == field_end(line@, 3));
    let w1 = slice_subrange(line, s1, e1);
    let w2 = slice_subrange(line, s2, e2);
    let w3 = slice_subrange(line, s3, e3);
    if tag == 118 {
        if w1.len() == 0 {
            Err(Fault::MissingField)
        } else if !is_real_literal(w1) {
            Err(Fault::BadNumber)
        } else if w2.len() == 0 {
            Err(Fault::MissingField)
        } else if !is_real_literal(w2) {
            Err(Fault::BadNumber)
        } else if w3.len() == 0 {
            Err(Fault::MissingField)
        } else if !is_real_literal(w3) {
            Err(Fault::BadNumber)
        } else {
            Ok(
                Record::Vertex(
                    Span { start: s1, end: e1 },
                    Span { start: s2, end: e2 },
                    Span { start: s3, end: e3 },
                ),
            )
        }
    } else {
        if w1.len() == 0 {
            return Err(Fault::MissingField);
        }
        let a = match parse_index(w1) {
            Some(a) => a,
            None => {
                return Err(Fault::BadIndex);
            },
        };
        if w2.len() == 0 {
            return Err(Fault::MissingField);
        }
        let b = match parse_index(w2) {
            Some(b) => b,
            None => {
                return Err(Fault::BadIndex);
            },
        };
        if w3.len() == 0 {
            return Err(Fault::MissingField);
        }
        let c = match parse_index(w3) {
            Some(c) => c,
            None => {
                return Err(Fault::BadIndex);
            },
        };
        Ok(Record::Face(a, b, c))
    }
}

/// What a model text holds: where the numbers of its vertices stand, and its
/// faces over the vertices.
#[derive(Debug)]
pub struct Model {
    /// For each vertex, the places of its three numbers in the text.
    pub vertices: Vec<(Span, Span, Span)>,
    /// For each face, the indices of its three vertices, counted from zero.
    pub faces: Vec<(usize, usize, usize)>,
}

/// What a model holds.
pub struct ModelView {
    pub vertices: Seq<(Span, Span, Span)>,
    pub faces: Seq<(usize, usize, usize)>,
}

impl View for Model {
    type V = ModelView;

    open spec fn view(&self) -> ModelView {
        ModelView { vertices: self.vertices@, faces: self.faces@ }
    }
}

impl ModelView {
    /// Face `k` names three vertices of the model.
    pub open spec fn names_vertices(self, k: int) -> bool {
        &&& self.faces[k].0 < self.vertices.len()
        &&& self.faces[k].1 < self.vertices.len()
        &&& self.faces[k].2 < self.vertices.len()
    }

    /// Every face names three vertices of the model.
    pub open spec fn closed(self) -> bool {
        forall|k: int| 0 <= k < self.faces.len() ==> self.names_vertices(k)
    }

    /// The model was read from `text`: the places of its vertices lie within
    /// the text, and what stands there are numbers.
    pub open spec fn read_off(self, text: Seq<u8>) -> bool {
        forall|i: int|
            0 <= i < self.vertices.len() ==> spans_numbers(text, #[trigger] self.vertices[i])
    }

    /// The first face from `from` on that names a vertex which the model does
    /// not have, or the number of faces where there is none.
    pub open spec fn first_stray(self, from: int) -> int
        decreases self.faces.len() - from,
    {
        if from < 0 || from >= self.faces.len() {
            self.faces.len() as int
        } else if !self.names_vertices(from) {
            from
        } else {
            self.first_stray(from + 1)
        }
    }

    /// The faces of the model as faces of a mesh, none with a style.
    pub open spec fn mesh_faces(self) -> Seq<Face> {
        Seq::new(
            self.faces.len(),
            |k: int| (self.faces[k].0, self.faces[k].1, self.faces[k].2, None::<usize>),
        )
    }
}

/// What was read of a model, with the line of each face.
pub struct Draft {
    pub model: ModelView,
    pub face_lines: Seq<usize>,
}

/// The span moved `by` bytes on.
pub open spec fn shifted(span: Span, by: int) -> Span {
    Span { start: (span.start + by) as usize, end: (span.end + by) as usize }
}

impl Draft {
    /// Nothing read yet.
    pub open spec fn empty() -> Draft {
        Draft {
            model: ModelView { vertices: Seq::empty(), faces: Seq::empty() },
            face_lines: Seq::empty(),
        }
    }

    /// The draft after the record of line number `line`, which starts at byte
    /// `at` of the text.
    pub open spec fn with(self, record: Record, at: int, line: usize) -> Draft {
        match record {
            Record::Skip => self,
            Record::Vertex(x, y, z) => Draft {
                model: ModelView {
                    vertices: self.model.vertices.push(
                        (shifted(x, at), shifted(y, at), shifted(z, at)),
                    ),
                    ..self.model
                },
                ..self
            },
            Record::Face(a, b, c) => Draft {
                model: ModelView { faces: self.model.faces.push((a, b, c)), ..self.model },
                face_lines: self.face_lines.push(line),
            },
        }
    }

    /// The model of the draft, unless one of its faces names a vertex that it
    /// does not have: then the first such face is the fault.
    pub open spec fn settled(self) -> Result<ModelView, ParseError> {
        let k = self.model.first_stray(0);
        if k < self.model.faces.len() {
            Err(ParseError { line: self.face_lines[k], fault: Fault::NoSuchVertex })
        } else {
            Ok(self.model)
        }
    }
}

/// The number of the line after line number `line`.
pub open spec fn next_line(line: usize) -> usize {
    if line < usize::MAX {
        (line + 1) as usize
    } else {
        line
    }
}

/// What reading on from byte `from`, where line number `line` starts, makes
/// of `draft`. The first line that is at fault ends the reading.
pub open spec fn read_from(text: Seq<u8>, from: int, line: usize, draft: Draft) -> Result<
    Draft,
    ParseError,
>
    decreases text.len() - from,
{
    if from < 0 || from >= text.len() {
        Ok(draft)
    } else {
        let end = run_end(text, from, Class::Line);
        proof {
            run_end_is_first_other(text, from, Class::Line);
        }
        match record_of(text.subrange(from, end)) {
            Err(fault) => Err(ParseError { line: line, fault }),
            Ok(record) => if end < text.len() {
                read_from(text, end + 1, next_line(line), draft.with(record, from, line))
            } else {
                Ok(draft.with(record, from, line))
            },
        }
    }
}

/// What a model text holds, or the first fault in it. A line at fault comes
/// before a face that names a vertex which the model does not have, wherever
/// the two stand: whether a vertex is missing is known at the end only.
pub open spec fn parsed(text: Seq<u8>) -> Result<ModelView, ParseError> {
    match read_from(text, 0, 1, Draft::empty()) {
        Err(e) => Err(e),
        Ok(draft) => draft.settled(),
    }
}

/// Reading one line on: what `read_from` makes of a draft at the start of a
/// line is what the record of that line and the reading from the next line
/// on make of it.
proof fn read_one_line(text: Seq<u8>, from: int, line: usize, draft: Draft)
    requires
        0 <= from < text.len(),
    ensures
        read_from(text, from, line, draft) == match record_of(
            text.subrange(from, run_end(text, from, Class::Line)),
        ) {
            Err(fault) => Err::<Draft, ParseError>(ParseError { line: line, fault }),
            Ok(record) => read_from(
                text,
                run_end(text, from, Class::Line) + 1,
                next_line(line),
                draft.with(record, from, line),
            ),
        },
{
    run_end_is_first_other(text, from, Class::Line);
}

/// A place within a line, moved to where the line stands in the text, holds
/// the same bytes.
proof fn shifted_holds_same(text: Seq<u8>, from: int, end: int, span: Span)
    requires
        0 <= from <= end <= text.len(),
        span.start <= span.end <= end - from,
        end <= usize::MAX,
    ensures
        shifted(span, from).start == span.start + from,
        shifted(span, from).end == span.end + from,
        text.subrange(shifted(span, from).start as int, shifted(span, from).end as int)
            == text.subrange(from, end).subrange(span.start as int, span.end as int),
{
    assert(text.subrange(span.start + from, span.end + from) =~= text.subrange(from, end).subrange(
        span.start as int,
        span.end as int,
    ));
}

/// Reads a model text. Either the whole text is sound and the model holds all
/// of it, or there is no model, and the error names the line at fault.
pub fn parse_model(text: &[u8]) -> (r: Result<Model, ParseError>)
    ensures
        match r {
            Ok(model) => parsed(text@) == Ok::<ModelView, ParseError>(model@) && model@.closed()
                && model@.read_off(text@),
            Err(e) => parsed(text@) == Err::<ModelView, ParseError>(e),
        },
{
    let mut vertices: Vec<(Span, Span, Span)> = Vec::new();
    let mut faces: Vec<(usize, usize, usize)> = Vec::new();
    let mut face_lines: Vec<usize> = Vec::new();
    let mut start: usize = 0;
    let mut done: usize = 0;
    let ghost whole = read_from(text@, 0, 1, Draft::empty());
    while start < text.len()
        invariant
            start <= text@.len(),
            done <= start,
            whole == read_from(text@, 0, 1, Draft::empty()),
            face_lines@.len() == faces@.len(),
            read_from(
                text@,
                start as int,
                (done + 1) as usize,
                Draft {
                    model: ModelView { vertices: vertices@, faces: faces@ },
                    face_lines: face_lines@,
                },
            ) == whole,
            forall|i: int| 0 <= i < vertices@.len() ==> spans_numbers(text@, #[trigger] vertices@[i]),
        decreases text.len() - start,
    {
        let end = skip(text, start, Class::Line);
        let content = slice_subrange(text, start, end);
        let line = done + 1;
        let ghost draft = Draft {
            model: ModelView { vertices: vertices@, faces: faces@ },
            face_lines: face_lines@,
        };
        proof {
            read_one_line(text@, start as int, line, draft);
        }
        match parse_line(content) {
            Err(fault) => {
                return Err(ParseError { line, fault });
            },
            Ok(Record::Skip) => {},
            Ok(Record::Vertex(x, y, z)) => {
                proof {
                    shifted_holds_same(text@, start as int, end as int, x);
                    shifted_holds_same(text@, start as int, end as int, y);
                    shifted_holds_same(text@, start as int, end as int, z);
                }
                let placed = (
                    Span { start: start + x.start, end: start + x.end },
                    Span { start: start + y.start, end: start + y.end },
                    Span { start: start + z.start, end: start + z.end },
                );
                assert(placed == (
                    shifted(x, start as int),
                    shifted(y, start as int),
                    shifted(z, start as int),
                ));
                assert(spans_numbers(text@, placed));
                vertices.push(placed);
            },
            Ok(Record::Face(a, b, c)) => {
                faces.push((a, b, c));
                face_lines.push(line);
            },
        }
        if end < text.len() {
            start = end + 1;
            done = done + 1;
        } else {
            start = end;
        }
    }
    let model = Model { vertices, faces };
    let mut k: usize = 0;
    while k < model.faces.len()
        invariant
            k <= model.faces@.len(),
            face_lines@.len() == model.faces@.len(),
            whole == read_from(text@, 0, 1, Draft::empty()),
            whole == Ok::<Draft, ParseError>(Draft { model: model@, face_lines: face_lines@ }),
            model@.first_stray(k as int) == model@.first_stray(0),
            model@.read_off(text@),
            forall|j: int| 0 <= j < k ==> model@.names_vertices(j),
        decreases model.faces.len() - k,
    {
        let f = model.faces[k];
        let n = model.vertices.len();
        if !(f.0 < n && f.1 < n && f.2 < n) {
            return Err(ParseError { line: face_lines[k], fault: Fault::NoSuchVertex });
        }
        k += 1;
    }
    Ok(model)
}

impl Model {
    /// The mesh of the model, with `coords[i]` as vertex `i`. There is none
    /// unless there is one value for each vertex and every face names three
    /// of them.
    pub fn build(&self, coords: &Vec<Vec3d>) -> (mesh: Option<Mesh>)
        ensures
            mesh.is_some() == (coords@.len() == self@.vertices.len() && self@.closed()),
            mesh matches Some(m) ==> {
                &&& m@.vertices == coords@
                &&& m@.faces == self@.mesh_faces()
                &&& m@.unstyled()
                &&& m@.well_formed()
            },
    {
        if coords.len() != self.vertices.len() {
            return None;
        }
        let mut mesh = Mesh::new();
        let mut i: usize = 0;
        while i < coords.len()
            invariant
                i <= coords@.len(),
                mesh@.vertices == coords@.subrange(0, i as int),
                mesh@.faces.len() == 0,
                mesh@.unstyled(),
            decreases coords.len() - i,
        {
            mesh.add_vertex_force(&coords[i]);
            assert(mesh@.vertices =~= coords@.subrange(0, i + 1));
            i += 1;
        }
        assert(coords@.subrange(0, coords@.len() as int) =~= coords@);
        let mut k: usize = 0;
        while k < self.faces.len()
            invariant
                k <= self.faces@.len(),
                coords@.len() == self@.vertices.len(),
                mesh@.vertices == coords@,
                mesh@.faces.len() == k,
                forall|j: int| 0 <= j < k ==> #[trigger] mesh@.faces[j] == self@.mesh_faces()[j],
                forall|j: int| 0 <= j < k ==> self@.names_vertices(j),
                mesh@.unstyled(),
                mesh@.well_formed(),
            decreases self.faces.len() - k,
        {
            let f = self.faces[k];
            let n = coords.len();
            if !(f.0 < n && f.1 < n && f.2 < n) {
                assert(!self@.names_vertices(k as int));
                return None;
            }
            mesh.add_tri(f.0, f.1, f.2, &None);
            k += 1;
        }
        assert(mesh@.faces =~= self@.mesh_faces());
        Some(mesh)
    }
}

} // verus!
