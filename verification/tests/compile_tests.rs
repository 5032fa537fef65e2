use scanfmt::pattern::{
    parse_pattern, ArgumentRef, CompileError, FieldDescriptor, IndexKind, NumericSpec, Piece,
};
use scanfmt::resolve::compile;

fn ids(list: &[&str]) -> Vec<String> {
    list.iter().map(|s| s.to_string()).collect()
}

fn text(s: &str) -> Vec<char> {
    s.chars().collect()
}

#[test]
fn parses_literals_and_fields() {
    let pieces = parse_pattern("{}x{}").unwrap();
    assert_eq!(pieces.len(), 3);
    assert_eq!(
        pieces[0],
        Piece::Field(FieldDescriptor {
            arg: ArgumentRef::Implicit,
            base: NumericSpec::Default,
        })
    );
    assert_eq!(pieces[1], Piece::Lit(text("x")));
    assert_eq!(
        pieces[2],
        Piece::Field(FieldDescriptor {
            arg: ArgumentRef::Implicit,
            base: NumericSpec::Default,
        })
    );
}

#[test]
fn escapes_merge_into_literals() {
    let pieces = parse_pattern("{{literal}}").unwrap();
    assert_eq!(pieces, vec![Piece::Lit(text("{literal}"))]);

    let pieces = parse_pattern("a{{b}}c").unwrap();
    assert_eq!(pieces, vec![Piece::Lit(text("a{b}c"))]);
}

#[test]
fn field_bodies_select_reference_and_base() {
    let pieces = parse_pattern("{3:o}{name}{:X}").unwrap();
    assert_eq!(
        pieces[0],
        Piece::Field(FieldDescriptor {
            arg: ArgumentRef::Index(3),
            base: NumericSpec::Octal,
        })
    );
    assert_eq!(
        pieces[1],
        Piece::Field(FieldDescriptor {
            arg: ArgumentRef::Named(text("name")),
            base: NumericSpec::Default,
        })
    );
    assert_eq!(
        pieces[2],
        Piece::Field(FieldDescriptor {
            arg: ArgumentRef::Implicit,
            base: NumericSpec::UpperHex,
        })
    );
}

#[test]
fn invalid_spec_char_is_named() {
    assert_eq!(
        parse_pattern("{:q}"),
        Err(CompileError::InvalidSpecChar { found: 'q' })
    );
    assert_eq!(
        parse_pattern("{:ox}"),
        Err(CompileError::InvalidSpecChar { found: 'x' })
    );
}

#[test]
fn brace_errors_carry_byte_offsets() {
    assert_eq!(
        parse_pattern("a}b"),
        Err(CompileError::UnmatchedBrace { offset: 1 })
    );
    assert_eq!(
        parse_pattern("{x"),
        Err(CompileError::UnterminatedField { offset: 0 })
    );
    assert_eq!(
        parse_pattern("{a{b}"),
        Err(CompileError::UnterminatedField { offset: 2 })
    );
    // Multi-byte characters count in bytes, not characters.
    assert_eq!(
        parse_pattern("\u{e9}\u{e9}}"),
        Err(CompileError::UnmatchedBrace { offset: 4 })
    );
}

#[test]
fn duplicate_slot_reference_is_rejected() {
    assert_eq!(
        compile("{0}{0}", &ids(&["x"])),
        Err(CompileError::SlotReferencedTwice { name: text("x") })
    );
    // Also across reference styles: the implicit counter claims slot 0.
    assert_eq!(
        compile("{}{0}", &ids(&["x", "y"])),
        Err(CompileError::SlotReferencedTwice { name: text("x") })
    );
}

#[test]
fn out_of_bounds_indices_are_rejected() {
    assert_eq!(
        compile("{5}", &ids(&["a", "b"])),
        Err(CompileError::IndexOutOfBounds {
            kind: IndexKind::Specified,
            index: 5,
        })
    );
    assert_eq!(
        compile("{}{}{}", &ids(&["a", "b"])),
        Err(CompileError::IndexOutOfBounds {
            kind: IndexKind::Implicit,
            index: 2,
        })
    );
}

#[test]
fn name_resolution_errors() {
    assert_eq!(
        compile("{zz}", &ids(&["a"])),
        Err(CompileError::UnknownArgumentName { name: text("zz") })
    );
    assert_eq!(
        compile("{}", &ids(&["x", "x"])),
        Err(CompileError::DuplicateArgumentName { name: text("x") })
    );
}

#[test]
fn compiled_plan_resolves_slots_in_pattern_order() {
    let plan = compile("{b}x{a}", &ids(&["a", "b"])).unwrap();
    assert_eq!(plan.slots, vec![1, 0]);
    assert_eq!(plan.n_args, 2);

    let plan = compile("{}x{}", &ids(&["x", "y"])).unwrap();
    assert_eq!(plan.slots, vec![0, 1]);
}

#[test]
fn empty_pattern_compiles_to_nothing() {
    let plan = compile("", &ids(&[])).unwrap();
    assert_eq!(plan.pieces.len(), 0);
    assert_eq!(plan.slots.len(), 0);
}

#[test]
fn huge_explicit_index_falls_back_to_a_name() {
    // An index too large for a slot number is taken verbatim as an
    // identifier, and then fails name resolution.
    assert_eq!(
        parse_pattern("{99999999999999999999999999}").unwrap()[0],
        Piece::Field(FieldDescriptor {
            arg: ArgumentRef::Named(text("99999999999999999999999999")),
            base: NumericSpec::Default,
        })
    );
}

#[test]
fn escaped_brace_inside_field_body() {
    // A "}}" between braces is consumed as an escape (feeding the literal
    // accumulator) while staying part of the raw field body.
    let pieces = parse_pattern("{a}}b}").unwrap();
    assert_eq!(pieces.len(), 2);
    assert_eq!(pieces[0], Piece::Lit(text("}")));
    assert_eq!(
        pieces[1],
        Piece::Field(FieldDescriptor {
            arg: ArgumentRef::Named(text("a}}b")),
            base: NumericSpec::Default,
        })
    );
}

#[test]
fn empty_spec_after_colon_is_default() {
    let pieces = parse_pattern("{a:}").unwrap();
    assert_eq!(
        pieces[0],
        Piece::Field(FieldDescriptor {
            arg: ArgumentRef::Named(text("a")),
            base: NumericSpec::Default,
        })
    );
}

#[test]
fn defaults_are_implicit_and_decimal() {
    assert_eq!(NumericSpec::default(), NumericSpec::Default);
    assert_eq!(ArgumentRef::default(), ArgumentRef::Implicit);
}
