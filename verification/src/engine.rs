//! The scan execution engine: walks a compiled plan over a live input,
//! consuming literal text exactly and delimiting each field before
//! handing its substring to the slot's decoder.
//!
//! The delimiter strategy per field looks at the piece that follows: the
//! last field consumes all remaining input; before a literal, the field
//! ends at the first occurrence of the literal's first character; before
//! another field, at the first character satisfying that field's
//! start-validity predicate. The lookahead is greedy-minimal and never
//! backtracks, so a permissive start predicate (text) can legitimately
//! starve the field before it.

use vstd::prelude::*;
use vstd::string::StrSliceExecFns;
use crate::encoding::{byte_offset, encode_len, lemma_byte_offset_step, lemma_encode_len_split};
use crate::pattern::{
    find_char, first_at, lemma_first_at_props, pieces_model, NumericSpec, Piece, PieceModel,
};
use crate::radix::{spec_parse_int, spec_start_num};
use crate::resolve::{
    lemma_num_fields_take_le, lemma_num_fields_take_step, num_fields, slots_model, CompiledPlan,
};
use crate::{
    lemma_prefix_bytes, DecodeError, Scan, ScanBinary, ScanError, ScanLowerHex, ScanOctal,
    ScanUpperHex,
};

verus! {

/// The decoder a slot uses: text or one of the integer widths.
#[derive(Clone, Copy, Debug, PartialEq, Eq, Structural)]
pub enum SlotKind {
    Text,
    I32,
    I64,
    U32,
    U64,
}

/// A decoded value, tagged by its slot kind.
#[derive(Clone, Debug, PartialEq, Eq)]
pub enum Value {
    Text(String),
    I32(i32),
    I64(i64),
    U32(u32),
    U64(u64),
}

/// The mathematical form of a decoded value.
pub enum ValueModel {
    Text(Seq<char>),
    I32(i32),
    I64(i64),
    U32(u32),
    U64(u64),
}

impl View for Value {
    type V = ValueModel;

    open spec fn view(&self) -> ValueModel {
        match self {
            Value::Text(s) => ValueModel::Text(s@),
            Value::I32(v) => ValueModel::I32(*v),
            Value::I64(v) => ValueModel::I64(*v),
            Value::U32(v) => ValueModel::U32(*v),
            Value::U64(v) => ValueModel::U64(*v),
        }
    }
}

/// The base a numeric spec selects.
pub open spec fn radix_of(base: NumericSpec) -> int {
    match base {
        NumericSpec::Default => 10,
        NumericSpec::Octal => 8,
        NumericSpec::Binary => 2,
        NumericSpec::LowerHex => 16,
        NumericSpec::UpperHex => 16,
    }
}

/// The start-validity predicate of a slot kind under a numeric spec;
/// text accepts any character (and ignores the spec).
pub open spec fn spec_start_ok(kind: SlotKind, base: NumericSpec, c: char) -> bool {
    match kind {
        SlotKind::Text => true,
        SlotKind::I32 | SlotKind::I64 => spec_start_num(
            c,
            radix_of(base),
            base is UpperHex,
            true,
        ),
        SlotKind::U32 | SlotKind::U64 => spec_start_num(
            c,
            radix_of(base),
            base is UpperHex,
            false,
        ),
    }
}

/// What decoding a field's substring yields for a slot kind under a
/// numeric spec: text is the substring itself; an integer is the radix
/// parse into the kind's range.
pub open spec fn decode_spec(kind: SlotKind, base: NumericSpec, s: Seq<char>) -> Result<
    ValueModel,
    DecodeError,
> {
    match kind {
        SlotKind::Text => Ok(ValueModel::Text(s)),
        SlotKind::I32 => match spec_parse_int(s, radix_of(base), true, i32::MIN as int, i32::MAX as int) {
            Ok(v) => Ok(ValueModel::I32(v as i32)),
            Err(e) => Err(e),
        },
        SlotKind::I64 => match spec_parse_int(s, radix_of(base), true, i64::MIN as int, i64::MAX as int) {
            Ok(v) => Ok(ValueModel::I64(v as i64)),
            Err(e) => Err(e),
        },
        SlotKind::U32 => match spec_parse_int(s, radix_of(base), false, 0, u32::MAX as int) {
            Ok(v) => Ok(ValueModel::U32(v as u32)),
            Err(e) => Err(e),
        },
        SlotKind::U64 => match spec_parse_int(s, radix_of(base), false, 0, u64::MAX as int) {
            Ok(v) => Ok(ValueModel::U64(v as u64)),
            Err(e) => Err(e),
        },
    }
}

/// The first position at or after `i` whose character satisfies the
/// start predicate, or the length of `s` if none does.
pub open spec fn first_start(s: Seq<char>, kind: SlotKind, base: NumericSpec, i: int) -> int
    decreases s.len() - i when 0 <= i <= s.len()
{
    if i >= s.len() {
        s.len() as int
    } else if spec_start_ok(kind, base, s[i]) {
        i
    } else {
        first_start(s, kind, base, i + 1)
    }
}

/// Where the field at piece `p` (field index `f`) ends in `input`:
/// `None` when the required lookahead never matches.
pub open spec fn spec_field_stop(
    pieces: Seq<PieceModel>,
    slots: Seq<int>,
    kinds: Seq<SlotKind>,
    p: int,
    f: int,
    input: Seq<char>,
) -> Option<int> {
    if p + 1 >= pieces.len() {
        Some(input.len() as int)
    } else {
        let stop = match pieces[p + 1] {
            PieceModel::Lit(t) => first_at(input, t[0], 0),
            PieceModel::Field(fd2) => first_start(input, kinds[slots[f + 1]], fd2.base, 0),
        };
        if stop == input.len() {
            None
        } else {
            Some(stop)
        }
    }
}

/// One step per piece of the compiled plan: literals must match exactly
/// (too little input is `LiteralNotFound`, disagreement is
/// `LiteralMismatch`), and each field is delimited, decoded and paired
/// with its slot. This is the reference meaning of scanning.
pub open spec fn run_plan(
    pieces: Seq<PieceModel>,
    slots: Seq<int>,
    kinds: Seq<SlotKind>,
    p: int,
    f: int,
    input: Seq<char>,
    acc: Seq<(int, ValueModel)>,
) -> Result<Seq<(int, ValueModel)>, ScanError>
    decreases pieces.len() - p when 0 <= p <= pieces.len()
{
    if p >= pieces.len() {
        Ok(acc)
    } else {
        match pieces[p] {
            PieceModel::Lit(t) => if t.is_prefix_of(input) {
                run_plan(pieces, slots, kinds, p + 1, f, input.skip(t.len() as int), acc)
            } else if encode_len(input) < encode_len(t) {
                Err(ScanError::LiteralNotFound)
            } else {
                Err(ScanError::LiteralMismatch)
            },
            PieceModel::Field(fd) => match spec_field_stop(pieces, slots, kinds, p, f, input) {
                None => Err(ScanError::Eof),
                Some(stop) => match decode_spec(kinds[slots[f]], fd.base, input.take(stop)) {
                    Err(e) => Err(ScanError::Decode(e)),
                    Ok(v) => run_plan(
                        pieces,
                        slots,
                        kinds,
                        p + 1,
                        f + 1,
                        input.skip(stop),
                        acc.push((slots[f], v)),
                    ),
                },
            },
        }
    }
}

/// The slot-ordered output: position `sl` holds the value of the field
/// resolved to slot `sl`, and `None` where no field was.
pub open spec fn fill(pairs: Seq<(int, ValueModel)>, n: int) -> Seq<Option<ValueModel>>
    decreases pairs.len(),
{
    if pairs.len() == 0 {
        Seq::new(n as nat, |i: int| None)
    } else {
        let prev = fill(pairs.drop_last(), n);
        if 0 <= pairs.last().0 < n {
            prev.update(pairs.last().0, Some(pairs.last().1))
        } else {
            prev
        }
    }
}

/// The models of an output vector.
pub open spec fn out_model(outs: Seq<Option<Value>>) -> Seq<Option<ValueModel>> {
    outs.map_values(
        |o: Option<Value>|
            match o {
                None => None,
                Some(v) => Some(v@),
            },
    )
}

/// Decide the start predicate for a slot kind under a numeric spec, by
/// the same per-type implementations the decoders use.
pub fn start_ok(kind: SlotKind, base: NumericSpec, c: char) -> (b: bool)
    ensures
        b == spec_start_ok(kind, base, c),
{
    match kind {
        SlotKind::Text => <String as Scan>::is_valid_start(c),
        SlotKind::I32 => match base {
            NumericSpec::Default => <i32 as Scan>::is_valid_start(c),
            NumericSpec::Octal => <i32 as ScanOctal>::is_valid_start(c),
            NumericSpec::Binary => <i32 as ScanBinary>::is_valid_start(c),
            NumericSpec::LowerHex => <i32 as ScanLowerHex>::is_valid_start(c),
            NumericSpec::UpperHex => <i32 as ScanUpperHex>::is_valid_start(c),
        },
        SlotKind::I64 => match base {
            NumericSpec::Default => <i64 as Scan>::is_valid_start(c),
            NumericSpec::Octal => <i64 as ScanOctal>::is_valid_start(c),
            NumericSpec::Binary => <i64 as ScanBinary>::is_valid_start(c),
            NumericSpec::LowerHex => <i64 as ScanLowerHex>::is_valid_start(c),
            NumericSpec::UpperHex => <i64 as ScanUpperHex>::is_valid_start(c),
        },
        SlotKind::U32 => match base {
            NumericSpec::Default => <u32 as Scan>::is_valid_start(c),
            NumericSpec::Octal => <u32 as ScanOctal>::is_valid_start(c),
            NumericSpec::Binary => <u32 as ScanBinary>::is_valid_start(c),
            NumericSpec::LowerHex => <u32 as ScanLowerHex>::is_valid_start(c),
            NumericSpec::UpperHex => <u32 as ScanUpperHex>::is_valid_start(c),
        },
        SlotKind::U64 => match base {
            NumericSpec::Default => <u64 as Scan>::is_valid_start(c),
            NumericSpec::Octal => <u64 as ScanOctal>::is_valid_start(c),
            NumericSpec::Binary => <u64 as ScanBinary>::is_valid_start(c),
            NumericSpec::LowerHex => <u64 as ScanLowerHex>::is_valid_start(c),
            NumericSpec::UpperHex => <u64 as ScanUpperHex>::is_valid_start(c),
        },
    }
}

/// The first position in `s` satisfying the start predicate, or the
/// character count of `s` if none does.
pub fn find_start(s: &str, kind: SlotKind, base: NumericSpec) -> (idx: usize)
    ensures
        idx as int == first_start(s@, kind, base, 0),
{
    let n = s.unicode_len();
    let mut j: usize = 0;
    while j < n
        invariant
            j <= n == s@.len(),
            first_start(s@, kind, base, 0) == first_start(s@, kind, base, j as int),
        decreases n - j,
    {
        if start_ok(kind, base, s.get_char(j)) {
            return j;
        }
        proof {
            assert(first_start(s@, kind, base, j as int) == first_start(
                s@,
                kind,
                base,
                j as int + 1,
            ));
        }
        j += 1;
    }
    n
}

/// Decode a field's substring for a slot kind under a numeric spec, by
/// the same per-type implementations `decode_spec` models.
pub fn decode_one(kind: SlotKind, base: NumericSpec, sub: &str) -> (r: Result<Value, ScanError>)
    ensures
        match (r, decode_spec(kind, base, sub@)) {
            (Ok(v), Ok(m)) => v@ == m,
            (Err(e), Err(de)) => e == ScanError::Decode(de),
            _ => false,
        },
{
    match kind {
        SlotKind::Text => match <String as Scan>::scan(sub) {
            Ok(v) => Ok(Value::Text(v)),
            Err(e) => Err(e),
        },
        SlotKind::I32 => {
            let rr: Result<i32, ScanError> = match base {
                NumericSpec::Default => <i32 as Scan>::scan(sub),
                NumericSpec::Octal => <i32 as ScanOctal>::scan(sub),
                NumericSpec::Binary => <i32 as ScanBinary>::scan(sub),
                NumericSpec::LowerHex => <i32 as ScanLowerHex>::scan(sub),
                NumericSpec::UpperHex => <i32 as ScanUpperHex>::scan(sub),
            };
            match rr {
                Ok(v) => Ok(Value::I32(v)),
                Err(e) => Err(e),
            }
        },
        SlotKind::I64 => {
            let rr: Result<i64, ScanError> = match base {
                NumericSpec::Default => <i64 as Scan>::scan(sub),
                NumericSpec::Octal => <i64 as ScanOctal>::scan(sub),
                NumericSpec::Binary => <i64 as ScanBinary>::scan(sub),
                NumericSpec::LowerHex => <i64 as ScanLowerHex>::scan(sub),
                NumericSpec::UpperHex => <i64 as ScanUpperHex>::scan(sub),
            };
            match rr {
                Ok(v) => Ok(Value::I64(v)),
                Err(e) => Err(e),
            }
        },
        SlotKind::U32 => {
            let rr: Result<u32, ScanError> = match base {
                NumericSpec::Default => <u32 as Scan>::scan(sub),
                NumericSpec::Octal => <u32 as ScanOctal>::scan(sub),
                NumericSpec::Binary => <u32 as ScanBinary>::scan(sub),
                NumericSpec::LowerHex => <u32 as ScanLowerHex>::scan(sub),
                NumericSpec::UpperHex => <u32 as ScanUpperHex>::scan(sub),
            };
            match rr {
                Ok(v) => Ok(Value::U32(v)),
                Err(e) => Err(e),
            }
        },
        SlotKind::U64 => {
            let rr: Result<u64, ScanError> = match base {
                NumericSpec::Default => <u64 as Scan>::scan(sub),
                NumericSpec::Octal => <u64 as ScanOctal>::scan(sub),
                NumericSpec::Binary => <u64 as ScanBinary>::scan(sub),
                NumericSpec::LowerHex => <u64 as ScanLowerHex>::scan(sub),
                NumericSpec::UpperHex => <u64 as ScanUpperHex>::scan(sub),
            };
            match rr {
                Ok(v) => Ok(Value::U64(v)),
                Err(e) => Err(e),
            }
        },
    }
}

/// A filled output always has one cell per argument slot.
pub proof fn lemma_fill_len(pairs: Seq<(int, ValueModel)>, n: int)
    requires
        n >= 0,
    ensures
        fill(pairs, n).len() == n,
    decreases pairs.len(),
{
    if pairs.len() > 0 {
        lemma_fill_len(pairs.drop_last(), n);
    }
}

/// `first_start` finds a satisfying position, finds the first one, and
/// stays within bounds.
pub proof fn lemma_first_start_props(s: Seq<char>, kind: SlotKind, base: NumericSpec, i: int)
    requires
        0 <= i <= s.len(),
    ensures
        i <= first_start(s, kind, base, i) <= s.len(),
        first_start(s, kind, base, i) < s.len() ==> spec_start_ok(
            kind,
            base,
            s[first_start(s, kind, base, i)],
        ),
        forall|k: int| i <= k < first_start(s, kind, base, i) ==> !spec_start_ok(kind, base, s[k]),
    decreases s.len() - i,
{
    if i < s.len() && !spec_start_ok(kind, base, s[i]) {
        lemma_first_start_props(s, kind, base, i + 1);
    }
}

/// Run a compiled plan over `input`, per `run_plan`: consume each
/// literal exactly, delimit and decode each field, and store each value
/// at its resolved slot. On success the output is ordered by slot index
/// (`None` where the pattern references no field for a slot); the first
/// failure aborts the scan.
#[verifier::loop_isolation(false)]
#[verifier::rlimit(100)]
pub fn scan_plan(plan: &CompiledPlan, kinds: &Vec<SlotKind>, input: &str) -> (r: Result<
    Vec<Option<Value>>,
    ScanError,
>)
    requires
        plan.wf(),
        kinds@.len() == plan.n_args,
    ensures
        ({
            let target = run_plan(
                pieces_model(plan.pieces@),
                slots_model(plan.slots@),
                kinds@,
                0,
                0,
                input@,
                Seq::<(int, ValueModel)>::empty(),
            );
            match (r, target) {
                (Ok(out), Ok(pairs)) => out@.len() == plan.n_args && out_model(out@) == fill(
                    pairs,
                    plan.n_args as int,
                ),
                (Err(e), Err(e2)) => e == e2,
                _ => false,
            }
        }),
{
    broadcast use vstd::slice::axiom_spec_len;

    let ghost pm = pieces_model(plan.pieces@);
    let ghost sm = slots_model(plan.slots@);
    let ghost km = kinds@;
    let ghost target = run_plan(pm, sm, km, 0, 0, input@, Seq::<(int, ValueModel)>::empty());
    let n_args = plan.n_args;
    let n_pieces = plan.pieces.len();
    let n_slots = plan.slots.len();

    let mut out: Vec<Option<Value>> = Vec::new();
    let mut t: usize = 0;
    while t < n_args
        invariant
            t <= n_args,
            out@.len() == t,
            forall|u: int| 0 <= u < t ==> out@[u] is None,
        decreases n_args - t,
    {
        out.push(None);
        t += 1;
    }
    let ghost mut accg: Seq<(int, ValueModel)> = Seq::<(int, ValueModel)>::empty();
    proof {
        lemma_fill_len(accg, n_args as int);
        assert(out_model(out@) =~= fill(accg, n_args as int));
        assert(pm.take(0) =~= Seq::<PieceModel>::empty());
    }
    let mut rem: &str = input;
    let mut p: usize = 0;
    let mut f: usize = 0;
    while p < n_pieces
        invariant
            plan.wf(),
            pm == pieces_model(plan.pieces@),
            sm == slots_model(plan.slots@),
            km == kinds@,
            n_args == plan.n_args,
            km.len() == n_args,
            n_pieces == pm.len(),
            p <= n_pieces,
            f as int == num_fields(pm.take(p as int)),
            n_slots == plan.slots@.len(),
            f <= n_slots,
            out@.len() == n_args,
            out_model(out@) == fill(accg, n_args as int),
            run_plan(pm, sm, km, p as int, f as int, rem@, accg) == target,
        decreases n_pieces - p,
    {
        proof {
            lemma_num_fields_take_step(pm, p as int);
            lemma_num_fields_take_le(pm, p as int + 1);
        }
        let piece = &plan.pieces[p];
        match piece {
            Piece::Lit(t2) => {
                proof {
                    assert(pm[p as int] == PieceModel::Lit(t2@));
                }
                let lt = t2.len();
                let rem_bytes = rem.as_bytes().len();
                let mut bytes: usize = 0;
                let mut k: usize = 0;
                let mut too_long: bool = false;
                proof {
                    assert(t2@.take(0) =~= Seq::<char>::empty());
                    assert(vstd::utf8::encode_utf8(Seq::<char>::empty()) =~= Seq::<u8>::empty());
                }
                while k < lt && !too_long
                    invariant
                        k <= lt == t2@.len(),
                        rem_bytes as int == encode_len(rem@),
                        !too_long ==> bytes as int == byte_offset(t2@, k as int) && bytes
                            <= rem_bytes,
                        too_long ==> encode_len(t2@) > rem_bytes,
                    decreases lt - k + (if too_long {
                        0int
                    } else {
                        1int
                    }),
                {
                    let l = crate::encoding::char_len_utf8(t2[k]);
                    proof {
                        lemma_byte_offset_step(t2@, k as int);
                        lemma_encode_len_split(t2@, k as int + 1);
                    }
                    match bytes.checked_add(l) {
                        None => {
                            too_long = true;
                        },
                        Some(nb) => {
                            if nb > rem_bytes {
                                too_long = true;
                            } else {
                                bytes = nb;
                            }
                        },
                    }
                    k += 1;
                }
                if too_long {
                    proof {
                        lemma_prefix_bytes(t2@, rem@);
                        assert(encode_len(rem@) < encode_len(t2@));
                        assert(!t2@.is_prefix_of(rem@));
                        assert(run_plan(pm, sm, km, p as int, f as int, rem@, accg) == Err::<
                            Seq<(int, ValueModel)>,
                            ScanError,
                        >(ScanError::LiteralNotFound));
                    }
                    return Err(ScanError::LiteralNotFound);
                }
                proof {
                    assert(t2@.take(lt as int) =~= t2@);
                    assert(encode_len(t2@) <= encode_len(rem@));
                }
                let m_rem = rem.unicode_len();
                if m_rem < lt {
                    proof {
                        assert(!t2@.is_prefix_of(rem@));
                        assert(run_plan(pm, sm, km, p as int, f as int, rem@, accg) == Err::<
                            Seq<(int, ValueModel)>,
                            ScanError,
                        >(ScanError::LiteralMismatch));
                    }
                    return Err(ScanError::LiteralMismatch);
                }
                let mut q: usize = 0;
                while q < lt
                    invariant
                        q <= lt == t2@.len(),
                        lt <= m_rem == rem@.len(),
                        encode_len(t2@) <= encode_len(rem@),
                        forall|w: int| 0 <= w < q ==> rem@[w] == t2@[w],
                    decreases lt - q,
                {
                    if rem.get_char(q) != t2[q] {
                        proof {
                            assert(rem@[q as int] != t2@[q as int]);
                            assert(!t2@.is_prefix_of(rem@)) by {
                                if t2@.is_prefix_of(rem@) {
                                    let pre = rem@.subrange(0, t2@.len() as int);
                                    assert(t2@[q as int] == pre[q as int]);
                                }
                            }
                            assert(run_plan(pm, sm, km, p as int, f as int, rem@, accg) == Err::<
                                Seq<(int, ValueModel)>,
                                ScanError,
                            >(ScanError::LiteralMismatch));
                        }
                        return Err(ScanError::LiteralMismatch);
                    }
                    q += 1;
                }
                proof {
                    assert(t2@.is_prefix_of(rem@)) by {
                        assert(t2@ =~= rem@.subrange(0, lt as int));
                    }
                }
                let new_rem = rem.substring_char(lt, m_rem);
                proof {
                    assert(new_rem@ =~= rem@.skip(lt as int));
                }
                rem = new_rem;
                p += 1;
            },
            Piece::Field(fd) => {
                proof {
                    assert(pm[p as int] == PieceModel::Field(fd@));
                }
                let m_rem = rem.unicode_len();
                let stop: usize = if p + 1 == n_pieces {
                    m_rem
                } else {
                    proof {
                        lemma_num_fields_take_step(pm, p as int + 1);
                        lemma_num_fields_take_le(pm, p as int + 2);
                    }
                    let next = &plan.pieces[p + 1];
                    let idx: usize = match next {
                        Piece::Lit(t3) => {
                            proof {
                                assert(pm[p as int + 1] == PieceModel::Lit(t3@));
                                assert(t3@.len() > 0);
                                lemma_first_at_props(rem@, t3@[0], 0);
                            }
                            find_char(rem, t3[0])
                        },
                        Piece::Field(fd2) => {
                            proof {
                                assert(pm[p as int + 1] == PieceModel::Field(fd2@));
                                assert(num_fields(pm.take(p as int + 2)) == f as int + 2);
                                assert(f as int + 2 <= n_slots as int);
                            }
                            let slot2 = plan.slots[f + 1];
                            let k2 = kinds[slot2];
                            proof {
                                lemma_first_start_props(rem@, k2, fd2.base, 0);
                            }
                            find_start(rem, k2, fd2.base)
                        },
                    };
                    if idx == m_rem {
                        return Err(ScanError::Eof);
                    }
                    idx
                };
                let sub = rem.substring_char(0, stop);
                proof {
                    assert(sub@ =~= rem@.take(stop as int));
                    assert(spec_field_stop(pm, sm, km, p as int, f as int, rem@) == Some(
                        stop as int,
                    ));
                }
                let slot = plan.slots[f];
                let kd = kinds[slot];
                match decode_one(kd, fd.base, sub) {
                    Err(e) => {
                        return Err(e);
                    },
                    Ok(v) => {
                        let ghost acc0 = accg;
                        let ghost vm = v@;
                        out.set(slot, Some(v));
                        proof {
                            accg = acc0.push((slot as int, vm));
                            lemma_fill_len(acc0, n_args as int);
                            lemma_fill_len(accg, n_args as int);
                            assert(accg.drop_last() =~= acc0);
                            assert(accg.drop_last() == acc0);
                            assert(fill(accg, n_args as int) == fill(acc0, n_args as int).update(
                                slot as int,
                                Some(vm),
                            ));
                            assert forall|u: int| 0 <= u < n_args implies out_model(out@)[u]
                                == fill(accg, n_args as int)[u] by {
                                if u != slot as int {
                                    assert(out_model(out@)[u] == fill(acc0, n_args as int)[u]);
                                }
                            }
                            assert(out_model(out@) =~= fill(accg, n_args as int));
                        }
                        let new_rem = rem.substring_char(stop, m_rem);
                        proof {
                            assert(new_rem@ =~= rem@.skip(stop as int));
                            assert(run_plan(pm, sm, km, p as int, f as int, rem@, acc0)
                                == run_plan(
                                pm,
                                sm,
                                km,
                                p as int + 1,
                                f as int + 1,
                                new_rem@,
                                accg,
                            ));
                        }
                        proof {
                            assert(f as int + 1 == num_fields(pm.take(p as int + 1)));
                            assert(f as int + 1 <= n_slots as int);
                        }
                        rem = new_rem;
                        f += 1;
                        p += 1;
                    },
                }
            },
        }
    }
    proof {
        assert(pm.take(n_pieces as int) =~= pm);
    }
    Ok(out)
}

} // verus!
