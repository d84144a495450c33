use rpdf_text::content::{operator_from_name, ArrayItem, FontEntry, FontMap, Operand, Operation, Operator, TextError};
use rpdf_text::fixed::{Affine, Point, UNIT};
use rpdf_text::page::{GraphicsObject, PageRenderer};
use rpdf_text::text::{Interpreter, TextIter, TextObject};

fn op(name: &str, operands: Vec<Operand>) -> Operation {
    Operation { operator: name.as_bytes().to_vec(), operands }
}

fn integer(n: i64) -> Operand {
    Operand::Integer(n)
}

fn name(s: &str) -> Operand {
    Operand::Name(s.as_bytes().to_vec())
}

fn string(s: &str) -> Operand {
    Operand::Str(s.as_bytes().to_vec())
}

/// A font whose every code is 0.5 wide but for `H` (0.722) and `i` (0.278),
/// with glyph index `code + 1`, and a glyph name for `A` only.
fn font(n: &str) -> FontEntry {
    let mut widths = vec![UNIT / 2; 256];
    widths[b'H' as usize] = 722_000;
    widths[b'i' as usize] = 278_000;
    let mut name_glyphs = vec![None; 256];
    name_glyphs[b'A' as usize] = Some(900);
    FontEntry {
        name: n.as_bytes().to_vec(),
        name_glyphs,
        char_glyphs: (0..256u32).map(|c| c + 1).collect(),
        widths,
    }
}

fn fonts() -> FontMap {
    FontMap { fonts: vec![font("F1")] }
}

fn run_all(ops: Vec<Operation>) -> Vec<Result<TextObject, TextError>> {
    let mut iter = TextIter::decode(fonts(), ops);
    let mut out = Vec::new();
    while let Some(item) = iter.next() {
        out.push(item);
    }
    out
}

fn objects(ops: Vec<Operation>) -> Vec<TextObject> {
    run_all(ops).into_iter().map(|r| r.expect("interpretation failed")).collect()
}

#[test]
fn scenario_hello_on_letter_page() {
    let ops = vec![
        op("BT", vec![]),
        op("Tf", vec![name("F1"), integer(12)]),
        op("Td", vec![integer(100), integer(700)]),
        op("Tj", vec![string("Hi")]),
        op("ET", vec![]),
    ];
    let objs = objects(ops);
    assert_eq!(objs.len(), 1);
    assert_eq!(objs[0].fragments.len(), 1);
    let fr = &objs[0].fragments[0];
    assert_eq!(fr.font_name, b"F1".to_vec());
    assert_eq!(fr.font_size, 12 * UNIT);
    assert_eq!(fr.glyphs.len(), 2);
    assert_eq!(fr.glyphs[0].origin, Point { x: 100 * UNIT, y: 700 * UNIT });
    assert_eq!(fr.glyphs[0].index, b'H' as u32 + 1);
    assert_eq!(fr.glyphs[0].advance, 8_664_000);
    assert_eq!(fr.glyphs[1].origin, Point { x: 100 * UNIT + 8_664_000, y: 700 * UNIT });

    let page = PageRenderer::new(792 * UNIT, 612 * UNIT);
    let loadable = vec![b"F1".to_vec()];
    let prims = page.render_text(UNIT, &loadable, &objs[0]);
    assert_eq!(prims.len(), 1);
    assert_eq!(prims[0].glyphs[0].point, Point { x: 100 * UNIT, y: 92 * UNIT });
    assert_eq!(prims[0].glyphs[1].point, Point { x: 100 * UNIT + 8_664_000, y: 92 * UNIT });
    assert_eq!(prims[0].font_size, 12 * UNIT);
}

#[test]
fn bracket_without_show_is_empty() {
    let ops = vec![
        op("BT", vec![]),
        op("Tc", vec![integer(1)]),
        op("Td", vec![integer(3), integer(4)]),
        op("TL", vec![Operand::Real(2 * UNIT)]),
        op("ET", vec![]),
    ];
    let objs = objects(ops);
    assert_eq!(objs.len(), 1);
    assert!(objs[0].fragments.is_empty());
}

#[test]
fn fragments_outside_brackets_are_dropped_at_the_end() {
    let ops = vec![
        op("BT", vec![]),
        op("ET", vec![]),
        op("Tf", vec![name("F1"), integer(10)]),
        op("Tj", vec![string("x")]),
    ];
    let objs = objects(ops);
    assert_eq!(objs.len(), 1);
    assert!(objs[0].fragments.is_empty());
}

#[test]
fn identity_matrix_shows_at_origin() {
    let ops = vec![
        op("BT", vec![]),
        op("Tf", vec![name("F1"), integer(10)]),
        op("Td", vec![integer(50), integer(60)]),
        op("Tm", vec![integer(1), integer(0), integer(0), integer(1), integer(0), integer(0)]),
        op("Tj", vec![string("ab")]),
        op("ET", vec![]),
    ];
    let objs = objects(ops);
    let fr = &objs[0].fragments[0];
    assert_eq!(fr.transform, Affine::identity());
    assert_eq!(fr.glyphs[0].origin, Point { x: 0, y: 0 });
    assert_eq!(fr.glyphs[1].origin, Point { x: 5 * UNIT, y: 0 });
}

#[test]
fn two_moves_add_up() {
    let ops = vec![
        op("BT", vec![]),
        op("Tf", vec![name("F1"), integer(10)]),
        op("Td", vec![integer(10), integer(20)]),
        op("Td", vec![integer(5), integer(7)]),
        op("Tj", vec![string("a")]),
        op("ET", vec![]),
    ];
    let objs = objects(ops);
    let t = objs[0].fragments[0].transform;
    assert_eq!((t.e, t.f), (15 * UNIT, 27 * UNIT));
}

fn shown_after(setup: Vec<Operation>) -> Affine {
    let mut ops = vec![op("BT", vec![]), op("Tf", vec![name("F1"), integer(10)])];
    ops.extend(setup);
    ops.push(op("Tj", vec![string("a")]));
    ops.push(op("ET", vec![]));
    objects(ops)[0].fragments[0].transform
}

#[test]
fn next_line_after_real_leading_is_a_move() {
    let a = shown_after(vec![op("TL", vec![Operand::Real(12 * UNIT)]), op("T*", vec![])]);
    let b = shown_after(vec![op("TL", vec![Operand::Real(12 * UNIT)]), op("Td", vec![integer(0), integer(12)])]);
    assert_eq!(a, b);
    assert_eq!(a.f, 12 * UNIT);
}

#[test]
fn integer_leading_is_taken_off() {
    let a = shown_after(vec![op("TL", vec![integer(12)]), op("T*", vec![])]);
    assert_eq!(a.f, -12 * UNIT);
    let b = shown_after(vec![op("TL", vec![Operand::Real(3 * UNIT)]), op("TL", vec![integer(1)]), op("T*", vec![])]);
    assert_eq!(b.f, 2 * UNIT);
}

#[test]
fn move_and_set_leading() {
    let a = shown_after(vec![op("TD", vec![integer(0), integer(-14)]), op("T*", vec![])]);
    assert_eq!(a.f, 0);
    let frs = objects(vec![
        op("BT", vec![]),
        op("Tf", vec![name("F1"), integer(10)]),
        op("TD", vec![integer(0), integer(-14)]),
        op("Tj", vec![string("a")]),
        op("ET", vec![]),
    ]);
    assert_eq!(frs[0].fragments[0].line_height, 14 * UNIT);
}

#[test]
fn array_adjustment_shifts_right() {
    let ops = vec![
        op("BT", vec![]),
        op("Tf", vec![name("F1"), integer(10)]),
        op(
            "TJ",
            vec![Operand::Array(vec![
                ArrayItem::Str(b"A".to_vec()),
                ArrayItem::Number(-250 * UNIT),
                ArrayItem::Other,
                ArrayItem::Str(b"B".to_vec()),
            ])],
        ),
        op("ET", vec![]),
    ];
    let objs = objects(ops);
    let frs = &objs[0].fragments;
    assert_eq!(frs.len(), 2);
    assert_eq!(frs[0].glyphs[0].index, 900);
    assert_eq!(frs[0].glyphs[0].advance, 5 * UNIT);
    assert_eq!(frs[1].transform.e, 5 * UNIT + 2_500_000);
    assert_eq!(frs[1].glyphs[0].index, b'B' as u32 + 1);
}

#[test]
fn spacing_and_scaling_enter_the_advance() {
    let ops = vec![
        op("BT", vec![]),
        op("Tf", vec![name("F1"), integer(10)]),
        op("Tc", vec![integer(1)]),
        op("Tw", vec![integer(2)]),
        op("Tz", vec![integer(50)]),
        op("Tj", vec![string("ab")]),
        op("ET", vec![]),
    ];
    let objs = objects(ops);
    let g = &objs[0].fragments[0].glyphs;
    assert_eq!(g[0].advance, 4 * UNIT);
    assert_eq!(g[1].origin.x, 4 * UNIT);
}

#[test]
fn quote_operators_move_to_next_line() {
    let ops = vec![
        op("BT", vec![]),
        op("Tf", vec![name("F1"), integer(10)]),
        op("TL", vec![Operand::Real(-12 * UNIT)]),
        op("'", vec![string("a")]),
        op("\"", vec![integer(1), integer(2), string("b")]),
        op("ET", vec![]),
    ];
    let objs = objects(ops);
    let frs = &objs[0].fragments;
    assert_eq!(frs[0].transform.f, -12 * UNIT);
    assert_eq!(frs[1].transform.f, -24 * UNIT);
    assert_eq!(frs[1].transform.e, 0);
    assert_eq!(frs[1].glyphs[0].advance, 8 * UNIT);
}

#[test]
fn passes_are_independent() {
    let ops = vec![
        op("BT", vec![]),
        op("Tf", vec![name("F1"), integer(10)]),
        op("Tj", vec![string("Hi")]),
        op("ET", vec![]),
        op("BT", vec![]),
        op("Tj", vec![string("a")]),
        op("ET", vec![]),
    ];
    let first = run_all(ops.clone());
    let second = run_all(ops);
    assert_eq!(first, second);
    assert_eq!(first.len(), 2);
}

#[test]
fn leading_with_array_operand_fails() {
    let ops = vec![op("BT", vec![]), op("TL", vec![Operand::Array(vec![])]), op("ET", vec![])];
    let out = run_all(ops);
    assert_eq!(out.len(), 1);
    assert_eq!(out[0], Err(TextError::OperandError));

    let mut it = interpreter_with_font();
    assert_eq!(
        it.handle_text_state_operation(&op("TL", vec![Operand::Array(vec![])])),
        Err(TextError::OperandError)
    );
    assert_eq!(it.state.leading, 7 * UNIT);
}

#[test]
fn wrong_operands_fail() {
    assert_eq!(run_all(vec![op("Tc", vec![])]), vec![Err(TextError::OperandError)]);
    assert_eq!(run_all(vec![op("Tf", vec![integer(1), integer(2)])]), vec![Err(TextError::OperandError)]);
    assert_eq!(run_all(vec![op("Tj", vec![integer(1)])]), vec![Err(TextError::OperandError)]);
    assert_eq!(run_all(vec![op("Tm", vec![integer(1), integer(0), integer(0), integer(1), integer(0)])]), vec![Err(TextError::OperandError)]);
}

#[test]
fn missing_font_fails_its_object_only() {
    let ops = vec![
        op("BT", vec![]),
        op("Tf", vec![name("F1"), integer(10)]),
        op("Tj", vec![string("a")]),
        op("Tf", vec![name("F9"), integer(10)]),
        op("Tj", vec![string("b")]),
        op("Tj", vec![string("c")]),
        op("ET", vec![]),
        op("BT", vec![]),
        op("Tf", vec![name("F1"), integer(10)]),
        op("Tj", vec![string("d")]),
        op("ET", vec![]),
    ];
    let out = run_all(ops);
    assert_eq!(out.len(), 2);
    assert_eq!(out[0], Err(TextError::MissingFontError));
    let second = out[1].as_ref().unwrap();
    assert_eq!(second.fragments.len(), 1);
    assert_eq!(second.fragments[0].glyphs[0].index, b'd' as u32 + 1);
}

#[test]
fn fragments_before_a_bracket_are_dropped() {
    let ops = vec![
        op("Tf", vec![name("F1"), integer(10)]),
        op("Tj", vec![string("x")]),
        op("BT", vec![]),
        op("ET", vec![]),
        op("Tj", vec![string("y")]),
        op("BT", vec![]),
        op("Tj", vec![string("z")]),
        op("ET", vec![]),
    ];
    let objs = objects(ops);
    assert_eq!(objs.len(), 2);
    assert!(objs[0].fragments.is_empty());
    assert_eq!(objs[1].fragments.len(), 1);
    assert_eq!(objs[1].fragments[0].glyphs[0].index, b'z' as u32 + 1);
}

fn interpreter_with_font() -> Interpreter {
    let mut it = Interpreter::new();
    it.handle_text_state_operation(&op("Tf", vec![name("F1"), integer(10)])).unwrap();
    it.handle_text_state_operation(&op("TL", vec![Operand::Real(7 * UNIT)])).unwrap();
    it.step(&fonts(), &op("Td", vec![integer(3), integer(4)])).unwrap();
    it
}

fn snapshot(it: &Interpreter) -> (Vec<i64>, Vec<u8>, Affine, Affine, usize) {
    let s = &it.state;
    (
        vec![s.char_spacing, s.word_spacing, s.horizontal_scaling, s.font_size, s.leading],
        s.font.clone(),
        it.text_matrix,
        it.line_matrix,
        it.fragments.len(),
    )
}

#[test]
fn failed_operations_leave_the_state_alone() {
    let map = fonts();
    let failing = vec![
        op("TL", vec![Operand::Array(vec![])]),
        op("Tf", vec![name("F1")]),
        op("Td", vec![integer(1)]),
        op("TD", vec![integer(1), Operand::Real(i64::MIN)]),
        op("Tj", vec![]),
        op("\"", vec![integer(1), integer(2), integer(3)]),
    ];
    for f in failing {
        let mut it = interpreter_with_font();
        let before = snapshot(&it);
        assert!(it.step(&map, &f).is_err());
        assert_eq!(snapshot(&it), before);
    }
    // The third string of this array overflows after two were shown.
    let mut it = interpreter_with_font();
    it.handle_text_state_operation(&op("Tf", vec![name("F1"), Operand::Real(4_000_000_000_000_000_000)])).unwrap();
    let before = snapshot(&it);
    let a = || ArrayItem::Str(b"a".to_vec());
    let tj = op("TJ", vec![Operand::Array(vec![a(), ArrayItem::Number(-1000 * UNIT), a(), a()])]);
    assert_eq!(it.step(&map, &tj), Err(TextError::OverflowError));
    assert_eq!(snapshot(&it), before);

    let mut it = interpreter_with_font();
    it.handle_text_state_operation(&op("Tf", vec![name("F9"), integer(10)])).unwrap();
    let before = snapshot(&it);
    assert_eq!(it.step(&map, &op("\"", vec![integer(1), integer(2), string("ab")])), Err(TextError::MissingFontError));
    assert_eq!(snapshot(&it), before);
    assert_eq!(it.step(&map, &op("'", vec![string("ab")])), Err(TextError::MissingFontError));
    assert_eq!(snapshot(&it), before);
}

#[test]
fn incomplete_font_is_missing() {
    let mut map = fonts();
    map.fonts[0].widths.truncate(10);
    let ops = vec![op("Tf", vec![name("F1"), integer(10)]), op("Tj", vec![string("a")])];
    let mut iter = TextIter::decode(map, ops);
    assert_eq!(iter.next(), Some(Err(TextError::MissingFontError)));
    assert_eq!(iter.next(), None);
}

#[test]
fn huge_number_overflows() {
    assert_eq!(run_all(vec![op("Tc", vec![integer(i64::MAX)])]), vec![Err(TextError::OverflowError)]);
}

#[test]
fn operator_names() {
    assert_eq!(operator_from_name(&b"BT".to_vec()), Operator::BeginText);
    assert_eq!(operator_from_name(&b"T*".to_vec()), Operator::NextLine);
    assert_eq!(operator_from_name(&b"'".to_vec()), Operator::NextLineShow);
    assert_eq!(operator_from_name(&b"\"".to_vec()), Operator::SpacingNextLineShow);
    assert_eq!(operator_from_name(&b"re".to_vec()), Operator::Ignored);
    assert_eq!(operator_from_name(&b"Tjx".to_vec()), Operator::Ignored);
}

#[test]
fn other_operators_are_ignored() {
    let ops = vec![op("BT", vec![]), op("re", vec![integer(1)]), op("q", vec![]), op("ET", vec![])];
    let objs = objects(ops);
    assert_eq!(objs.len(), 1);
    assert!(objs[0].fragments.is_empty());
}

#[test]
fn projection_flips_and_scales() {
    let ops = vec![
        op("BT", vec![]),
        op("Tf", vec![name("F1"), integer(10)]),
        op("Td", vec![integer(10), integer(700)]),
        op("Tj", vec![string("a")]),
        op("ET", vec![]),
        op("BT", vec![]),
        op("Tf", vec![name("F2"), integer(10)]),
        op("ET", vec![]),
    ];
    let objs = objects(ops);
    let page = PageRenderer::new(792 * UNIT, 612 * UNIT);
    let loadable = vec![b"F1".to_vec()];
    let prims = page.render_text(2 * UNIT, &loadable, &objs[0]);
    assert_eq!(prims[0].glyphs[0].point, Point { x: 20 * UNIT, y: 184 * UNIT });
    assert_eq!(prims[0].font_size, 20 * UNIT);
    let b = prims[0].bounds;
    assert_eq!((b.x, b.y, b.width, b.height), (20 * UNIT, 154 * UNIT, 1224 * UNIT, 120 * UNIT));
    // Un-mirroring the projected y, before scaling, gives the document y back.
    assert_eq!(792 * UNIT - prims[0].glyphs[0].point.y / 2, 700 * UNIT);

    let none = page.render_text(UNIT, &vec![], &objs[0]);
    assert!(none.is_empty());

    let page_objs = vec![GraphicsObject::Text(objs[0].clone()), GraphicsObject::Text(objs[0].clone())];
    assert_eq!(page.render(UNIT, &loadable, &page_objs).len(), 2);
}

#[test]
fn identity_matrix_shows_array_at_origin() {
    let ops = vec![
        op("BT", vec![]),
        op("Tf", vec![name("F1"), integer(10)]),
        op("Td", vec![integer(50), integer(60)]),
        op("Tm", vec![integer(1), integer(0), integer(0), integer(1), integer(0), integer(0)]),
        op("TJ", vec![Operand::Array(vec![ArrayItem::Str(b"ab".to_vec()), ArrayItem::Str(b"c".to_vec())])]),
        op("ET", vec![]),
    ];
    let objs = objects(ops);
    let fr = &objs[0].fragments[0];
    assert_eq!(fr.transform, Affine::identity());
    assert_eq!(fr.glyphs[0].origin, Point { x: 0, y: 0 });
    assert_eq!(objs[0].fragments[1].transform.e, 10 * UNIT);
}
