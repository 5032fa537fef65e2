//! The argument resolver: maps each field of a parsed pattern to a unique
//! slot index among the caller's argument identifiers.
//!
//! An implicit field takes the next unclaimed positional slot; an indexed
//! field names its slot outright; a named field is looked up among the
//! identifiers. Every slot must be in bounds, no slot may be referenced
//! twice, and the identifier list itself must be free of duplicates.

use vstd::prelude::*;
use vstd::string::StrSliceExecFns;
use crate::pattern::{
    chars_vec, parse_pattern, pieces_model, spec_parse, wf_pieces, ArgModel, CompileError,
    CompileErrorModel, IndexKind, Piece, PieceModel,
};

verus! {

/// The models of the caller's argument identifiers.
pub open spec fn names_model(ns: Seq<String>) -> Seq<Seq<char>> {
    ns.map_values(|n: String| n@)
}

/// The models of a slot-index vector.
pub open spec fn slots_model(sl: Seq<usize>) -> Seq<int> {
    sl.map_values(|u: usize| u as int)
}

/// How many pieces of `ps` are fields.
pub open spec fn num_fields(ps: Seq<PieceModel>) -> int
    decreases ps.len(),
{
    if ps.len() == 0 {
        0
    } else {
        (if ps[0] is Field {
            1int
        } else {
            0int
        }) + num_fields(ps.drop_first())
    }
}

/// Appending a piece adds one field when the piece is a field.
pub proof fn lemma_num_fields_push(ps: Seq<PieceModel>, x: PieceModel)
    ensures
        num_fields(ps.push(x)) == num_fields(ps) + (if x is Field {
            1int
        } else {
            0int
        }),
    decreases ps.len(),
{
    if ps.len() == 0 {
        assert(ps.push(x)[0] == x);
        assert(ps.push(x).drop_first() =~= Seq::<PieceModel>::empty());
        assert(num_fields(Seq::<PieceModel>::empty()) == 0);
    } else {
        assert(ps.push(x)[0] == ps[0]);
        assert(ps.push(x).drop_first() =~= ps.drop_first().push(x));
        lemma_num_fields_push(ps.drop_first(), x);
    }
}

/// `num_fields` over a prefix grows by the piece that enters it.
pub proof fn lemma_num_fields_take_step(ps: Seq<PieceModel>, p: int)
    requires
        0 <= p < ps.len(),
    ensures
        num_fields(ps.take(p + 1)) == num_fields(ps.take(p)) + (if ps[p] is Field {
            1int
        } else {
            0int
        }),
{
    assert(ps.take(p + 1) =~= ps.take(p).push(ps[p]));
    lemma_num_fields_push(ps.take(p), ps[p]);
}

/// A prefix never holds more fields than the whole.
pub proof fn lemma_num_fields_take_le(ps: Seq<PieceModel>, q: int)
    requires
        0 <= q <= ps.len(),
    ensures
        num_fields(ps.take(q)) <= num_fields(ps),
    decreases ps.len() - q,
{
    if q < ps.len() {
        lemma_num_fields_take_step(ps, q);
        lemma_num_fields_take_le(ps, q + 1);
    } else {
        assert(ps.take(q) =~= ps);
    }
}

/// The first position at or after `j` holding an identifier equal to an
/// earlier one, or `None` if the identifiers from `j` on add no duplicate.
pub open spec fn first_dup(names: Seq<Seq<char>>, j: int) -> Option<int>
    decreases names.len() - j when 0 <= j <= names.len()
{
    if j >= names.len() {
        None
    } else if exists|k: int| 0 <= k < j && names[k] == names[j] {
        Some(j)
    } else {
        first_dup(names, j + 1)
    }
}

/// The first position at or after `i` of identifier `id`, or the length
/// of the list if it does not occur.
pub open spec fn name_at(names: Seq<Seq<char>>, id: Seq<char>, i: int) -> int
    decreases names.len() - i when 0 <= i <= names.len()
{
    if i >= names.len() {
        names.len() as int
    } else if names[i] == id {
        i
    } else {
        name_at(names, id, i + 1)
    }
}

/// The slot index one field reference resolves to, given the implicit
/// counter; implicit and explicit indices are bounds-checked, identifiers
/// are looked up.
pub open spec fn resolve_one(arg: ArgModel, names: Seq<Seq<char>>, cnt: int) -> Result<
    int,
    CompileErrorModel,
> {
    match arg {
        ArgModel::Implicit => if cnt >= names.len() {
            Err(CompileErrorModel::IndexOutOfBounds { kind: IndexKind::Implicit, index: cnt })
        } else {
            Ok(cnt)
        },
        ArgModel::Index(k) => if k >= names.len() {
            Err(CompileErrorModel::IndexOutOfBounds { kind: IndexKind::Specified, index: k })
        } else {
            Ok(k)
        },
        ArgModel::Named(id) => {
            let pos = name_at(names, id, 0);
            if pos >= names.len() {
                Err(CompileErrorModel::UnknownArgumentName { name: id })
            } else {
                Ok(pos)
            }
        },
    }
}

/// Walk the pieces in pattern order, resolving each field and rejecting a
/// slot that was already claimed.
pub open spec fn resolve_loop(
    pieces: Seq<PieceModel>,
    names: Seq<Seq<char>>,
    p: int,
    cnt: int,
    acc: Seq<int>,
) -> Result<Seq<int>, CompileErrorModel>
    decreases pieces.len() - p when 0 <= p <= pieces.len()
{
    if p >= pieces.len() {
        Ok(acc)
    } else {
        match pieces[p] {
            PieceModel::Lit(_) => resolve_loop(pieces, names, p + 1, cnt, acc),
            PieceModel::Field(f) => match resolve_one(f.arg, names, cnt) {
                Err(e) => Err(e),
                Ok(idx) => {
                    let cnt2 = if f.arg is Implicit {
                        cnt + 1
                    } else {
                        cnt
                    };
                    if acc.contains(idx) {
                        Err(CompileErrorModel::SlotReferencedTwice { name: names[idx] })
                    } else {
                        resolve_loop(pieces, names, p + 1, cnt2, acc.push(idx))
                    }
                },
            },
        }
    }
}

/// What resolving a parsed pattern against an identifier list yields:
/// first the identifier list is rejected if it holds a duplicate, then
/// each field in pattern order gets its slot.
pub open spec fn spec_resolve(pieces: Seq<PieceModel>, names: Seq<Seq<char>>) -> Result<
    Seq<int>,
    CompileErrorModel,
> {
    match first_dup(names, 0) {
        Some(j) => Err(CompileErrorModel::DuplicateArgumentName { name: names[j] }),
        None => resolve_loop(pieces, names, 0, 0, Seq::<int>::empty()),
    }
}

/// What compiling a pattern against an identifier list yields: the parsed
/// pieces and one resolved slot per field.
pub open spec fn spec_compile(s: Seq<char>, names: Seq<Seq<char>>) -> Result<
    (Seq<PieceModel>, Seq<int>),
    CompileErrorModel,
> {
    match spec_parse(s) {
        Err(e) => Err(e),
        Ok(ps) => match spec_resolve(ps, names) {
            Err(e) => Err(e),
            Ok(sl) => Ok((ps, sl)),
        },
    }
}

/// A compiled plan: the pattern's pieces, the slot index of each field in
/// pattern order, and the number of argument slots. Immutable once built
/// and reusable across scans.
#[derive(Clone, Debug, PartialEq, Eq)]
pub struct CompiledPlan {
    pub pieces: Vec<Piece>,
    pub slots: Vec<usize>,
    pub n_args: usize,
}

impl CompiledPlan {
    /// Well-formedness: literals are non-empty and never adjacent, there
    /// is exactly one slot per field, and the slots are in bounds and
    /// pairwise distinct.
    pub open spec fn wf(&self) -> bool {
        &&& wf_pieces(pieces_model(self.pieces@))
        &&& self.slots@.len() == num_fields(pieces_model(self.pieces@))
        &&& forall|j: int| 0 <= j < self.slots@.len() ==> (self.slots@[j] as int) < self.n_args
        &&& forall|j: int, k: int|
            0 <= j < k < self.slots@.len() ==> self.slots@[j] != self.slots@[k]
    }
}

/// Whether `id` and `name` are the same identifier.
fn name_matches(id: &Vec<char>, name: &String) -> (b: bool)
    ensures
        b == (id@ == name@),
{
    let n = name.as_str().unicode_len();
    if id.len() != n {
        return false;
    }
    let mut k: usize = 0;
    while k < n
        invariant
            k <= n == name@.len(),
            id@.len() == n,
            forall|t: int| 0 <= t < k ==> id@[t] == name@[t],
        decreases n - k,
    {
        if id[k] != name.as_str().get_char(k) {
            return false;
        }
        k += 1;
    }
    proof {
        assert(id@ =~= name@);
    }
    true
}

/// Resolve each field of `pieces` to a slot among `names`, per
/// `spec_resolve`. On success there is one slot per field, each in
/// bounds, and no slot repeats.
pub fn resolve(pieces: &Vec<Piece>, names: &Vec<String>) -> (r: Result<Vec<usize>, CompileError>)
    ensures
        match r {
            Ok(slots) => {
                &&& spec_resolve(pieces_model(pieces@), names_model(names@)) == Ok::<
                    Seq<int>,
                    CompileErrorModel,
                >(slots_model(slots@))
                &&& slots@.len() == num_fields(pieces_model(pieces@))
                &&& forall|j: int| 0 <= j < slots@.len() ==> (slots@[j] as int) < names@.len()
                &&& forall|j: int, k: int|
                    0 <= j < k < slots@.len() ==> slots@[j] != slots@[k]
            },
            Err(e) => spec_resolve(pieces_model(pieces@), names_model(names@)) == Err::<
                Seq<int>,
                CompileErrorModel,
            >(e@),
        },
{
    let ghost pm = pieces_model(pieces@);
    let ghost nm = names_model(names@);
    let n_args = names.len();

    // Reject duplicate identifiers first.
    let mut j: usize = 0;
    while j < n_args
        invariant
            j <= n_args == nm.len(),
            nm == names_model(names@),
            first_dup(nm, 0) == first_dup(nm, j as int),
        decreases n_args - j,
    {
        let mut k: usize = 0;
        while k < j
            invariant
                k <= j < n_args == nm.len(),
                nm == names_model(names@),
                first_dup(nm, 0) == first_dup(nm, j as int),
                forall|t: int| 0 <= t < k ==> nm[t] != nm[j as int],
            decreases j - k,
        {
            let idk = chars_vec(names[k].as_str());
            let dup = name_matches(&idk, &names[j]);
            proof {
                assert(idk@ == nm[k as int]);
            }
            if dup {
                proof {
                    assert(nm[k as int] == nm[j as int]);
                    assert(first_dup(nm, j as int) == Some(j as int));
                    assert(nm[j as int] == names@[j as int]@);
                    assert(spec_resolve(pm, nm) == Err::<Seq<int>, CompileErrorModel>(
                        CompileErrorModel::DuplicateArgumentName { name: nm[j as int] },
                    ));
                }
                return Err(CompileError::DuplicateArgumentName {
                    name: chars_vec(names[j].as_str()),
                });
            }
            k += 1;
        }
        proof {
            assert(!(exists|t: int| 0 <= t < j && nm[t] == nm[j as int]));
            assert(first_dup(nm, j as int) == first_dup(nm, j as int + 1));
        }
        j += 1;
    }
    proof {
        assert(first_dup(nm, n_args as int) is None);
    }

    // Resolve the fields in pattern order.
    let mut slots: Vec<usize> = Vec::new();
    let mut seen: Vec<bool> = Vec::new();
    let mut t: usize = 0;
    while t < n_args
        invariant
            t <= n_args,
            seen@.len() == t,
            forall|u: int| 0 <= u < t ==> seen@[u] == false,
        decreases n_args - t,
    {
        seen.push(false);
        t += 1;
    }
    let mut p: usize = 0;
    let mut cnt: usize = 0;
    let n_pieces = pieces.len();
    proof {
        assert(slots_model(slots@) =~= Seq::<int>::empty());
        assert(pm.take(0) =~= Seq::<PieceModel>::empty());
    }
    while p < n_pieces
        invariant
            p <= n_pieces == pm.len(),
            pm == pieces_model(pieces@),
            nm == names_model(names@),
            n_args == nm.len(),
            first_dup(nm, 0) is None,
            cnt <= n_args,
            seen@.len() == n_args,
            forall|u: int|
                0 <= u < n_args ==> seen@[u] == slots_model(slots@).contains(u),
            forall|j2: int| 0 <= j2 < slots@.len() ==> (slots@[j2] as int) < n_args,
            forall|j2: int, k2: int|
                0 <= j2 < k2 < slots@.len() ==> slots@[j2] != slots@[k2],
            slots@.len() == num_fields(pm.take(p as int)),
            resolve_loop(pm, nm, p as int, cnt as int, slots_model(slots@)) == resolve_loop(
                pm,
                nm,
                0,
                0,
                Seq::<int>::empty(),
            ),
        decreases n_pieces - p,
    {
        let ghost acc0 = slots_model(slots@);
        proof {
            lemma_num_fields_take_step(pm, p as int);
        }
        let piece = &pieces[p];
        match piece {
            Piece::Lit(_) => {
                p += 1;
            },
            Piece::Field(fd) => {
                proof {
                    assert(pm[p as int] == PieceModel::Field(fd@));
                }
                let ghost fm = fd@;
                let ghost cnt0 = cnt as int;
                let idx: usize = match &fd.arg {
                    crate::pattern::ArgumentRef::Implicit => {
                        if cnt >= n_args {
                            proof {
                                assert(resolve_loop(pm, nm, p as int, cnt0, acc0) == Err::<
                                    Seq<int>,
                                    CompileErrorModel,
                                >(CompileErrorModel::IndexOutOfBounds {
                                    kind: IndexKind::Implicit,
                                    index: cnt0,
                                }));
                            }
                            return Err(CompileError::IndexOutOfBounds {
                                kind: IndexKind::Implicit,
                                index: cnt,
                            });
                        }
                        let c = cnt;
                        cnt += 1;
                        c
                    },
                    crate::pattern::ArgumentRef::Index(k) => {
                        if *k >= n_args {
                            proof {
                                assert(resolve_loop(pm, nm, p as int, cnt0, acc0) == Err::<
                                    Seq<int>,
                                    CompileErrorModel,
                                >(CompileErrorModel::IndexOutOfBounds {
                                    kind: IndexKind::Specified,
                                    index: *k as int,
                                }));
                            }
                            return Err(CompileError::IndexOutOfBounds {
                                kind: IndexKind::Specified,
                                index: *k,
                            });
                        }
                        *k
                    },
                    crate::pattern::ArgumentRef::Named(id) => {
                        let mut pos: usize = 0;
                        let mut found: bool = false;
                        while pos < n_args && !found
                            invariant
                                pos <= n_args == nm.len(),
                                nm == names_model(names@),
                                found ==> pos < n_args && nm[pos as int] == id@ && name_at(
                                    nm,
                                    id@,
                                    0,
                                ) == pos as int,
                                !found ==> name_at(nm, id@, 0) == name_at(nm, id@, pos as int),
                            decreases n_args - pos + (if found {
                                0int
                            } else {
                                1int
                            }),
                        {
                            if name_matches(id, &names[pos]) {
                                proof {
                                    assert(nm[pos as int] == id@);
                                    assert(name_at(nm, id@, pos as int) == pos as int);
                                }
                                found = true;
                            } else {
                                proof {
                                    assert(nm[pos as int] != id@);
                                    assert(name_at(nm, id@, pos as int) == name_at(
                                        nm,
                                        id@,
                                        pos as int + 1,
                                    ));
                                }
                                pos += 1;
                            }
                        }
                        if !found {
                            proof {
                                assert(name_at(nm, id@, n_args as int) == n_args as int);
                                assert(resolve_loop(pm, nm, p as int, cnt0, acc0) == Err::<
                                    Seq<int>,
                                    CompileErrorModel,
                                >(CompileErrorModel::UnknownArgumentName { name: id@ }));
                            }
                            return Err(CompileError::UnknownArgumentName {
                                name: crate::pattern::copy_chars(id),
                            });
                        }
                        pos
                    },
                };
                proof {
                    assert(resolve_one(fm.arg, nm, cnt0) == Ok::<int, CompileErrorModel>(
                        idx as int,
                    ));
                }
                if seen[idx] {
                    proof {
                        assert(acc0.contains(idx as int));
                        assert(nm[idx as int] == names@[idx as int]@);
                        assert(resolve_loop(pm, nm, p as int, cnt0, acc0) == Err::<
                            Seq<int>,
                            CompileErrorModel,
                        >(CompileErrorModel::SlotReferencedTwice { name: nm[idx as int] }));
                    }
                    return Err(CompileError::SlotReferencedTwice {
                        name: chars_vec(names[idx].as_str()),
                    });
                }
                proof {
                    assert(!acc0.contains(idx as int));
                }
                seen.set(idx, true);
                slots.push(idx);
                proof {
                    let accn = slots_model(slots@);
                    assert(accn =~= acc0.push(idx as int));
                    assert forall|u: int| 0 <= u < n_args implies seen@[u] == accn.contains(
                        u,
                    ) by {
                        if u == idx as int {
                            assert(accn[accn.len() - 1] == u);
                            assert(accn.contains(u));
                        } else {
                            if accn.contains(u) {
                                let w = choose|w: int| 0 <= w < accn.len() && accn[w] == u;
                                assert(acc0[w] == u);
                                assert(acc0.contains(u));
                            }
                            if acc0.contains(u) {
                                let w = choose|w: int| 0 <= w < acc0.len() && acc0[w] == u;
                                assert(accn[w] == u);
                                assert(accn.contains(u));
                            }
                        }
                    }
                    assert forall|j2: int, k2: int|
                        0 <= j2 < k2 < slots@.len() implies slots@[j2] != slots@[k2] by {
                        if k2 == slots@.len() - 1 {
                            assert(acc0[j2] == slots@[j2] as int);
                            assert(!acc0.contains(idx as int));
                        }
                    }
                    assert(resolve_loop(pm, nm, p as int, cnt0, acc0) == resolve_loop(
                        pm,
                        nm,
                        p as int + 1,
                        cnt as int,
                        accn,
                    ));
                }
                p += 1;
            },
        }
    }
    proof {
        assert(pm.take(n_pieces as int) =~= pm);
    }
    Ok(slots)
}

/// Compile `pattern` against the caller's argument identifiers: parse it
/// into pieces and resolve every field to a unique slot, per
/// `spec_compile`. The plan is well-formed on success.
pub fn compile(pattern: &str, names: &Vec<String>) -> (r: Result<CompiledPlan, CompileError>)
    ensures
        match r {
            Ok(plan) => {
                &&& plan.wf()
                &&& plan.n_args == names@.len()
                &&& spec_compile(pattern@, names_model(names@)) == Ok::<
                    (Seq<PieceModel>, Seq<int>),
                    CompileErrorModel,
                >((pieces_model(plan.pieces@), slots_model(plan.slots@)))
            },
            Err(e) => spec_compile(pattern@, names_model(names@)) == Err::<
                (Seq<PieceModel>, Seq<int>),
                CompileErrorModel,
            >(e@),
        },
{
    let pieces = match parse_pattern(pattern) {
        Ok(ps) => ps,
        Err(e) => {
            return Err(e);
        },
    };
    let slots = match resolve(&pieces, names) {
        Ok(sl) => sl,
        Err(e) => {
            return Err(e);
        },
    };
    Ok(CompiledPlan { pieces, slots, n_args: names.len() })
}

} // verus!
