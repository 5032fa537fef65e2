//! The pattern parser: turns a format pattern such as `"{}x{}"` into an
//! ordered sequence of pieces, each a literal to match exactly or a field
//! to decode.
//!
//! The grammar, processed left to right with a literal accumulator:
//! `{{` and `}}` are escapes for literal braces; `{` opens a field and a
//! second unescaped `{` before its `}` is an error, as is a `}` with no
//! open field and a field still open at the end of the pattern; the field
//! body splits at the first `:` into an argument reference and a numeric
//! spec. Parse errors carry the UTF-8 byte offset of the offending
//! character.

use vstd::prelude::*;
use vstd::string::StrSliceExecFns;
use crate::encoding::{byte_offset, lemma_byte_offset_step, lemma_encode_len_split};
use crate::radix::{parse_unsigned, spec_parse_int};

verus! {

/// Which numeric base a field selects for its decoder.
#[derive(Clone, Copy, Debug, PartialEq, Eq, Structural)]
pub enum NumericSpec {
    Default,
    Octal,
    LowerHex,
    UpperHex,
    Binary,
}

impl Default for NumericSpec {
    fn default() -> (r: Self)
        ensures
            r == NumericSpec::Default,
    {
        NumericSpec::Default
    }
}

/// How a field names its argument slot: the next unclaimed positional
/// slot, an explicit zero-based index, or an identifier.
#[derive(Clone, Debug, PartialEq, Eq)]
pub enum ArgumentRef {
    Implicit,
    Index(usize),
    Named(Vec<char>),
}

impl Default for ArgumentRef {
    fn default() -> (r: Self)
        ensures
            r == ArgumentRef::Implicit,
    {
        ArgumentRef::Implicit
    }
}

/// A field piece: its argument reference and its numeric spec.
#[derive(Clone, Debug, PartialEq, Eq)]
pub struct FieldDescriptor {
    pub arg: ArgumentRef,
    pub base: NumericSpec,
}

/// One piece of a compiled pattern: exact literal text or a field.
#[derive(Clone, Debug, PartialEq, Eq)]
pub enum Piece {
    Lit(Vec<char>),
    Field(FieldDescriptor),
}

/// Distinguishes how an out-of-range slot index arose.
#[derive(Clone, Copy, Debug, PartialEq, Eq, Structural)]
pub enum IndexKind {
    Implicit,
    Specified,
}

/// An error from compiling a pattern against an argument list.
#[derive(Clone, Debug, PartialEq, Eq)]
pub enum CompileError {
    UnterminatedField { offset: usize },
    UnmatchedBrace { offset: usize },
    InvalidSpecChar { found: char },
    UnknownArgumentName { name: Vec<char> },
    DuplicateArgumentName { name: Vec<char> },
    IndexOutOfBounds { kind: IndexKind, index: usize },
    SlotReferencedTwice { name: Vec<char> },
}

/// The mathematical form of an argument reference.
pub enum ArgModel {
    Implicit,
    Index(int),
    Named(Seq<char>),
}

/// The mathematical form of a field descriptor.
pub struct FieldModel {
    pub arg: ArgModel,
    pub base: NumericSpec,
}

/// The mathematical form of a pattern piece.
pub enum PieceModel {
    Lit(Seq<char>),
    Field(FieldModel),
}

/// The mathematical form of a compile error.
pub enum CompileErrorModel {
    UnterminatedField { offset: int },
    UnmatchedBrace { offset: int },
    InvalidSpecChar { found: char },
    UnknownArgumentName { name: Seq<char> },
    DuplicateArgumentName { name: Seq<char> },
    IndexOutOfBounds { kind: IndexKind, index: int },
    SlotReferencedTwice { name: Seq<char> },
}

impl View for ArgumentRef {
    type V = ArgModel;

    open spec fn view(&self) -> ArgModel {
        match self {
            ArgumentRef::Implicit => ArgModel::Implicit,
            ArgumentRef::Index(k) => ArgModel::Index(*k as int),
            ArgumentRef::Named(v) => ArgModel::Named(v@),
        }
    }
}

impl View for FieldDescriptor {
    type V = FieldModel;

    open spec fn view(&self) -> FieldModel {
        FieldModel { arg: self.arg@, base: self.base }
    }
}

impl View for Piece {
    type V = PieceModel;

    open spec fn view(&self) -> PieceModel {
        match self {
            Piece::Lit(v) => PieceModel::Lit(v@),
            Piece::Field(f) => PieceModel::Field(f@),
        }
    }
}

impl View for CompileError {
    type V = CompileErrorModel;

    open spec fn view(&self) -> CompileErrorModel {
        match self {
            CompileError::UnterminatedField { offset } => CompileErrorModel::UnterminatedField {
                offset: *offset as int,
            },
            CompileError::UnmatchedBrace { offset } => CompileErrorModel::UnmatchedBrace {
                offset: *offset as int,
            },
            CompileError::InvalidSpecChar { found } => CompileErrorModel::InvalidSpecChar {
                found: *found,
            },
            CompileError::UnknownArgumentName { name } => CompileErrorModel::UnknownArgumentName {
                name: name@,
            },
            CompileError::DuplicateArgumentName { name } => CompileErrorModel::DuplicateArgumentName {
                name: name@,
            },
            CompileError::IndexOutOfBounds { kind, index } => CompileErrorModel::IndexOutOfBounds {
                kind: *kind,
                index: *index as int,
            },
            CompileError::SlotReferencedTwice { name } => CompileErrorModel::SlotReferencedTwice {
                name: name@,
            },
        }
    }
}

/// The models of a sequence of pieces.
pub open spec fn pieces_model(ps: Seq<Piece>) -> Seq<PieceModel> {
    ps.map_values(|p: Piece| p@)
}

/// Well-formed piece sequence: every literal is non-empty and is
/// immediately followed by a field, so adjacent literals are impossible.
pub open spec fn wf_pieces(ps: Seq<PieceModel>) -> bool {
    forall|j: int|
        0 <= j < ps.len() && ps[j] is Lit ==> ps[j]->Lit_0.len() > 0 && (j + 1 < ps.len()
            ==> ps[j + 1] is Field)
}

/// The first position at or after `i` where `c` occurs in `s`, or
/// `s.len()` if it does not.
pub open spec fn first_at(s: Seq<char>, c: char, i: int) -> int
    decreases s.len() - i when 0 <= i <= s.len()
{
    if i >= s.len() {
        s.len() as int
    } else if s[i] == c {
        i
    } else {
        first_at(s, c, i + 1)
    }
}

/// The argument reference named by the part of a field body before the
/// colon: empty is implicit, a string parseable as a slot index is that
/// index, and anything else is taken verbatim as an identifier.
pub open spec fn spec_arg(left: Seq<char>) -> ArgModel {
    if left.len() == 0 {
        ArgModel::Implicit
    } else {
        match spec_parse_int(left, 10, false, 0, usize::MAX as int) {
            Ok(v) => ArgModel::Index(v),
            Err(_) => ArgModel::Named(left),
        }
    }
}

/// The numeric spec named by the part of a field body after the colon:
/// empty is the default, and exactly one of `o`, `x`, `X`, `b` selects a
/// base; anything else is an error naming the offending character.
pub open spec fn spec_base(right: Seq<char>) -> Result<NumericSpec, CompileErrorModel> {
    if right.len() == 0 {
        Ok(NumericSpec::Default)
    } else if !(right[0] == 'o' || right[0] == 'x' || right[0] == 'X' || right[0] == 'b') {
        Err(CompileErrorModel::InvalidSpecChar { found: right[0] })
    } else if right.len() > 1 {
        Err(CompileErrorModel::InvalidSpecChar { found: right[1] })
    } else if right[0] == 'o' {
        Ok(NumericSpec::Octal)
    } else if right[0] == 'x' {
        Ok(NumericSpec::LowerHex)
    } else if right[0] == 'X' {
        Ok(NumericSpec::UpperHex)
    } else {
        Ok(NumericSpec::Binary)
    }
}

/// What parsing the text between a field's braces yields.
pub open spec fn spec_field(body: Seq<char>) -> Result<FieldModel, CompileErrorModel> {
    if body.len() == 0 {
        Ok(FieldModel { arg: ArgModel::Implicit, base: NumericSpec::Default })
    } else {
        let colon = first_at(body, ':', 0);
        let left = body.take(colon);
        let right = if colon == body.len() {
            Seq::<char>::empty()
        } else {
            body.skip(colon + 1)
        };
        match spec_base(right) {
            Ok(base) => Ok(FieldModel { arg: spec_arg(left), base }),
            Err(e) => Err(e),
        }
    }
}

/// Append the pending literal accumulator, if non-empty, as a piece.
pub open spec fn flushed(pieces: Seq<PieceModel>, lit: Seq<char>) -> Seq<PieceModel> {
    if lit.len() == 0 {
        pieces
    } else {
        pieces.push(PieceModel::Lit(lit))
    }
}

/// One step per character of the pattern grammar, carrying the position,
/// the open brace (if any), the literal accumulator and the pieces built
/// so far. This is the reference meaning of pattern parsing.
pub open spec fn parse_loop(
    s: Seq<char>,
    i: int,
    brace: Option<int>,
    lit: Seq<char>,
    pieces: Seq<PieceModel>,
) -> Result<Seq<PieceModel>, CompileErrorModel>
    decreases s.len() - i when 0 <= i <= s.len()
{
    if i >= s.len() {
        match brace {
            Some(b) => Err(CompileErrorModel::UnterminatedField { offset: byte_offset(s, b) }),
            None => Ok(flushed(pieces, lit)),
        }
    } else if s[i] == '}' {
        if i + 1 < s.len() && s[i + 1] == '}' {
            parse_loop(s, i + 2, brace, lit.push('}'), pieces)
        } else {
            match brace {
                Some(b) => match spec_field(s.subrange(b + 1, i)) {
                    Ok(f) => parse_loop(
                        s,
                        i + 1,
                        None,
                        Seq::<char>::empty(),
                        flushed(pieces, lit).push(PieceModel::Field(f)),
                    ),
                    Err(e) => Err(e),
                },
                None => Err(CompileErrorModel::UnmatchedBrace { offset: byte_offset(s, i) }),
            }
        }
    } else if s[i] == '{' {
        match brace {
            Some(_) => Err(CompileErrorModel::UnterminatedField { offset: byte_offset(s, i) }),
            None => if i + 1 < s.len() && s[i + 1] == '{' {
                parse_loop(s, i + 2, None, lit.push('{'), pieces)
            } else {
                parse_loop(s, i + 1, Some(i), lit, pieces)
            },
        }
    } else if brace is Some {
        parse_loop(s, i + 1, brace, lit, pieces)
    } else {
        parse_loop(s, i + 1, brace, lit.push(s[i]), pieces)
    }
}

/// What parsing a whole pattern yields.
pub open spec fn spec_parse(s: Seq<char>) -> Result<Seq<PieceModel>, CompileErrorModel> {
    parse_loop(s, 0, None, Seq::<char>::empty(), Seq::<PieceModel>::empty())
}

/// `first_at` finds an occurrence, finds the first one, and stays within
/// bounds.
pub proof fn lemma_first_at_props(s: Seq<char>, c: char, i: int)
    requires
        0 <= i <= s.len(),
    ensures
        i <= first_at(s, c, i) <= s.len(),
        first_at(s, c, i) < s.len() ==> s[first_at(s, c, i)] == c,
        forall|k: int| i <= k < first_at(s, c, i) ==> s[k] != c,
    decreases s.len() - i,
{
    if i < s.len() && s[i] != c {
        lemma_first_at_props(s, c, i + 1);
    }
}

/// Parsing only ever produces well-formed piece sequences, given the
/// invariant the accumulators satisfy throughout: the pieces so far are
/// well-formed and never end in a literal.
pub proof fn lemma_parse_loop_wf(
    s: Seq<char>,
    i: int,
    brace: Option<int>,
    lit: Seq<char>,
    pieces: Seq<PieceModel>,
)
    requires
        0 <= i <= s.len(),
        wf_pieces(pieces),
        pieces.len() > 0 ==> pieces.last() is Field,
    ensures
        parse_loop(s, i, brace, lit, pieces) matches Ok(res) ==> wf_pieces(res),
    decreases s.len() - i,
{
    if i >= s.len() {
        if brace is None {
            assert(wf_pieces(flushed(pieces, lit)));
        }
    } else if s[i] == '}' {
        if i + 1 < s.len() && s[i + 1] == '}' {
            lemma_parse_loop_wf(s, i + 2, brace, lit.push('}'), pieces);
        } else {
            match brace {
                Some(b) => match spec_field(s.subrange(b + 1, i)) {
                    Ok(f) => {
                        let next = flushed(pieces, lit).push(PieceModel::Field(f));
                        assert(wf_pieces(next));
                        lemma_parse_loop_wf(s, i + 1, None, Seq::<char>::empty(), next);
                    },
                    Err(_) => {},
                },
                None => {},
            }
        }
    } else if s[i] == '{' {
        match brace {
            Some(_) => {},
            None => if i + 1 < s.len() && s[i + 1] == '{' {
                lemma_parse_loop_wf(s, i + 2, None, lit.push('{'), pieces);
            } else {
                lemma_parse_loop_wf(s, i + 1, Some(i), lit, pieces);
            },
        }
    } else if brace is Some {
        lemma_parse_loop_wf(s, i + 1, brace, lit, pieces);
    } else {
        lemma_parse_loop_wf(s, i + 1, brace, lit.push(s[i]), pieces);
    }
}

/// The first position of `c` in `s`, or the character count of `s` if it
/// does not occur.
pub fn find_char(s: &str, c: char) -> (idx: usize)
    ensures
        idx as int == first_at(s@, c, 0),
{
    let n = s.unicode_len();
    let mut j: usize = 0;
    while j < n
        invariant
            j <= n == s@.len(),
            first_at(s@, c, 0) == first_at(s@, c, j as int),
        decreases n - j,
    {
        if s.get_char(j) == c {
            return j;
        }
        proof {
            assert(first_at(s@, c, j as int) == first_at(s@, c, j as int + 1));
        }
        j += 1;
    }
    n
}

/// The characters of `s`, as a vector.
pub fn chars_vec(s: &str) -> (v: Vec<char>)
    ensures
        v@ == s@,
{
    let n = s.unicode_len();
    let mut v: Vec<char> = Vec::new();
    let mut j: usize = 0;
    while j < n
        invariant
            j <= n == s@.len(),
            v@ == s@.take(j as int),
        decreases n - j,
    {
        v.push(s.get_char(j));
        j += 1;
        proof {
            assert(v@ =~= s@.take(j as int));
        }
    }
    proof {
        assert(s@.take(n as int) =~= s@);
    }
    v
}

/// A copy of a character vector.
pub fn copy_chars(id: &Vec<char>) -> (v: Vec<char>)
    ensures
        v@ == id@,
{
    let n = id.len();
    let mut v: Vec<char> = Vec::new();
    let mut j: usize = 0;
    while j < n
        invariant
            j <= n == id@.len(),
            v@ == id@.take(j as int),
        decreases n - j,
    {
        v.push(id[j]);
        j += 1;
        proof {
            assert(v@ =~= id@.take(j as int));
        }
    }
    proof {
        assert(id@.take(n as int) =~= id@);
    }
    v
}

/// Parse the text between a field's braces, per `spec_field`.
pub fn parse_field_str(body: &str) -> (r: Result<FieldDescriptor, CompileError>)
    ensures
        match r {
            Ok(f) => spec_field(body@) == Ok::<FieldModel, CompileErrorModel>(f@),
            Err(e) => spec_field(body@) == Err::<FieldModel, CompileErrorModel>(e@),
        },
{
    let m = body.unicode_len();
    if m == 0 {
        return Ok(FieldDescriptor { arg: ArgumentRef::Implicit, base: NumericSpec::Default });
    }
    let colon = find_char(body, ':');
    proof {
        lemma_first_at_props(body@, ':', 0);
    }
    let base = if colon == m {
        NumericSpec::Default
    } else {
        let right = body.substring_char(colon + 1, m);
        proof {
            assert(right@ =~= body@.skip(colon as int + 1));
        }
        if right.unicode_len() == 0 {
            NumericSpec::Default
        } else {
            let c0 = right.get_char(0);
            if !(c0 == 'o' || c0 == 'x' || c0 == 'X' || c0 == 'b') {
                return Err(CompileError::InvalidSpecChar { found: c0 });
            }
            if right.unicode_len() > 1 {
                return Err(CompileError::InvalidSpecChar { found: right.get_char(1) });
            }
            if c0 == 'o' {
                NumericSpec::Octal
            } else if c0 == 'x' {
                NumericSpec::LowerHex
            } else if c0 == 'X' {
                NumericSpec::UpperHex
            } else {
                NumericSpec::Binary
            }
        }
    };
    let left = body.substring_char(0, colon);
    proof {
        assert(left@ =~= body@.take(colon as int));
    }
    let arg = if colon == 0 {
        ArgumentRef::Implicit
    } else {
        match parse_unsigned(left, 10, usize::MAX as u128) {
            Ok(v) => ArgumentRef::Index(v as usize),
            Err(_) => ArgumentRef::Named(chars_vec(left)),
        }
    };
    Ok(FieldDescriptor { arg, base })
}

/// The model of an optional open-brace position.
pub open spec fn opt_model(o: Option<usize>) -> Option<int> {
    match o {
        Some(b) => Some(b as int),
        None => None,
    }
}

/// Parse a whole pattern into pieces, per `spec_parse`. On success the
/// pieces are well-formed: literals are non-empty and never adjacent.
pub fn parse_pattern(pattern: &str) -> (r: Result<Vec<Piece>, CompileError>)
    ensures
        match r {
            Ok(pieces) => spec_parse(pattern@) == Ok::<Seq<PieceModel>, CompileErrorModel>(
                pieces_model(pieces@),
            ) && wf_pieces(pieces_model(pieces@)),
            Err(e) => spec_parse(pattern@) == Err::<Seq<PieceModel>, CompileErrorModel>(e@),
        },
{
    broadcast use vstd::slice::axiom_spec_len;

    let ghost s = pattern@;
    let n = pattern.unicode_len();
    let total = pattern.as_bytes().len();
    proof {
        assert(total as int == crate::encoding::encode_len(s));
        lemma_parse_loop_wf(s, 0, None, Seq::<char>::empty(), Seq::<PieceModel>::empty());
    }
    let mut pieces: Vec<Piece> = Vec::new();
    let mut lit: Vec<char> = Vec::new();
    let mut i: usize = 0;
    let mut off: usize = 0;
    let mut brace: Option<usize> = None;
    let mut brace_off: usize = 0;
    proof {
        assert(pieces_model(pieces@) =~= Seq::<PieceModel>::empty());
        assert(lit@ =~= Seq::<char>::empty());
        assert(s.take(0) =~= Seq::<char>::empty());
        assert(vstd::utf8::encode_utf8(Seq::<char>::empty()) =~= Seq::<u8>::empty());
    }
    while i < n
        invariant
            n == s.len(),
            s == pattern@,
            i <= n,
            total as int == crate::encoding::encode_len(s),
            off as int == byte_offset(s, i as int),
            brace matches Some(b) ==> b < i && brace_off as int == byte_offset(s, b as int),
            parse_loop(s, i as int, opt_model(brace), lit@, pieces_model(pieces@)) == spec_parse(
                s,
            ),
            wf_pieces(pieces_model(pieces@)),
            pieces@.len() > 0 ==> pieces_model(pieces@).last() is Field,
        decreases n - i,
    {
        let c = pattern.get_char(i);
        let l = crate::encoding::char_len_utf8(c);
        proof {
            lemma_byte_offset_step(s, i as int);
            lemma_encode_len_split(s, i as int + 1);
        }
        if c == '}' {
            let escaped = if i + 1 < n {
                pattern.get_char(i + 1) == '}'
            } else {
                false
            };
            if escaped {
                proof {
                    lemma_byte_offset_step(s, i as int + 1);
                    lemma_encode_len_split(s, i as int + 2);
                }
                let l2 = crate::encoding::char_len_utf8(pattern.get_char(i + 1));
                lit.push('}');
                proof {
                    assert(parse_loop(s, i as int + 2, opt_model(brace), lit@, pieces_model(
                        pieces@,
                    )) == spec_parse(s));
                }
                off = off + l + l2;
                i = i + 2;
            } else {
                match brace {
                    Some(b) => {
                        let body = pattern.substring_char(b + 1, i);
                        proof {
                            assert(body@ =~= s.subrange(b as int + 1, i as int));
                        }
                        let fd = match parse_field_str(body) {
                            Ok(fd) => fd,
                            Err(e) => {
                                return Err(e);
                            },
                        };
                        let ghost pm0 = pieces_model(pieces@);
                        let ghost lit0 = lit@;
                        let pending = lit;
                        lit = Vec::new();
                        if pending.len() > 0 {
                            pieces.push(Piece::Lit(pending));
                        }
                        proof {
                            assert(pieces_model(pieces@) =~= flushed(pm0, lit0));
                        }
                        pieces.push(Piece::Field(fd));
                        proof {
                            assert(pieces_model(pieces@) =~= flushed(pm0, lit0).push(
                                PieceModel::Field(fd@),
                            ));
                            assert(wf_pieces(pieces_model(pieces@)));
                        }
                        brace = None;
                        off = off + l;
                        i = i + 1;
                    },
                    None => {
                        return Err(CompileError::UnmatchedBrace { offset: off });
                    },
                }
            }
        } else if c == '{' {
            match brace {
                Some(_) => {
                    return Err(CompileError::UnterminatedField { offset: off });
                },
                None => {
                    let escaped = if i + 1 < n {
                        pattern.get_char(i + 1) == '{'
                    } else {
                        false
                    };
                    if escaped {
                        proof {
                            lemma_byte_offset_step(s, i as int + 1);
                            lemma_encode_len_split(s, i as int + 2);
                        }
                        let l2 = crate::encoding::char_len_utf8(pattern.get_char(i + 1));
                        lit.push('{');
                        proof {
                            assert(parse_loop(s, i as int + 2, opt_model(brace), lit@,
                            pieces_model(pieces@)) == spec_parse(s));
                        }
                        off = off + l + l2;
                        i = i + 2;
                    } else {
                        brace = Some(i);
                        brace_off = off;
                        off = off + l;
                        i = i + 1;
                    }
                },
            }
        } else if brace.is_some() {
            off = off + l;
            i = i + 1;
        } else {
            lit.push(c);
            off = off + l;
            i = i + 1;
        }
    }
    match brace {
        Some(_) => Err(CompileError::UnterminatedField { offset: brace_off }),
        None => {
            let ghost pm0 = pieces_model(pieces@);
            let ghost lit0 = lit@;
            if lit.len() > 0 {
                pieces.push(Piece::Lit(lit));
            }
            proof {
                assert(pieces_model(pieces@) =~= flushed(pm0, lit0));
            }
            Ok(pieces)
        },
    }
}

} // verus!
