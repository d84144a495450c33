//! The text-operator interpreter: a fold over decoded operations that keeps
//! the text state and the two text matrices, and yields one text object per
//! `BT`/`ET` bracket.

use vstd::prelude::*;
use crate::content::{
    complete, glyph_of, name_of, name_operand, number_of, number_operand, operator_from_name,
    operator_of, string_of, string_operand, usable_font, ArrayItem, FontEntry, FontMap, Operand,
    Operation, Operator, TextError,
};
use crate::fixed::{
    fit, fx_mul, identity, lemma_identity_translate, mul_fx, mul_wide, narrow, origin_of,
    pre_translate, translation, Affine, Point, UNIT,
};

verus! {

/// One glyph of a fragment: its origin is where the text matrix stood
/// before the glyph's own advance.
#[derive(Clone, Copy, Debug, PartialEq, Eq, Structural)]
pub struct TextGlyph {
    pub index: u32,
    pub origin: Point,
    pub advance: i64,
}

/// The glyphs shown by one string, with the state they were shown in.
#[derive(Clone, Debug, PartialEq, Eq)]
pub struct TextFragment {
    /// The text matrix when the string began.
    pub transform: Affine,
    pub font_name: Vec<u8>,
    pub font_size: i64,
    pub line_height: i64,
    pub glyphs: Vec<TextGlyph>,
}

/// A fragment as a mathematical value.
pub struct FragmentView {
    pub transform: Affine,
    pub font_name: Seq<u8>,
    pub font_size: i64,
    pub line_height: i64,
    pub glyphs: Seq<TextGlyph>,
}

impl View for TextFragment {
    type V = FragmentView;

    open spec fn view(&self) -> FragmentView {
        FragmentView {
            transform: self.transform,
            font_name: self.font_name@,
            font_size: self.font_size,
            line_height: self.line_height,
            glyphs: self.glyphs@,
        }
    }
}

/// The fragments of one `BT`/`ET` bracket.
#[derive(Clone, Debug, PartialEq, Eq)]
pub struct TextObject {
    pub fragments: Vec<TextFragment>,
}

/// The views of a sequence of fragments.
pub open spec fn fragments_view(v: Seq<TextFragment>) -> Seq<FragmentView> {
    v.map_values(|f: TextFragment| f@)
}

impl View for TextObject {
    type V = Seq<FragmentView>;

    open spec fn view(&self) -> Seq<FragmentView> {
        fragments_view(self.fragments@)
    }
}

/// The text-state parameters. Spacings, sizes and leading are in fixed
/// point; the horizontal scaling is a fraction (one unit is 100%).
#[derive(Clone, Debug, PartialEq, Eq)]
pub struct TextState {
    pub char_spacing: i64,
    pub word_spacing: i64,
    pub horizontal_scaling: i64,
    pub font: Vec<u8>,
    pub font_size: i64,
    pub leading: i64,
}

/// Everything an interpretation pass carries from one operation to the next.
pub struct StateView {
    pub char_spacing: i64,
    pub word_spacing: i64,
    pub horizontal_scaling: i64,
    pub font: Seq<u8>,
    pub font_size: i64,
    pub leading: i64,
    pub text_matrix: Affine,
    pub line_matrix: Affine,
    /// The fragments shown since the last `ET`.
    pub fragments: Seq<FragmentView>,
}

/// The state at the start of a stream.
pub open spec fn initial() -> StateView {
    StateView {
        char_spacing: 0,
        word_spacing: 0,
        horizontal_scaling: crate::fixed::UNIT,
        font: seq![],
        font_size: 0,
        leading: 0,
        text_matrix: identity(),
        line_matrix: identity(),
        fragments: seq![],
    }
}

/// The advance of code `c`:
/// `(width * font_size + char_spacing + word_spacing) * horizontal_scaling`.
pub open spec fn advance_of(f: FontEntry, s: StateView, c: u8) -> Option<i64> {
    match fit(fx_mul(f.widths@[c as int] as int, s.font_size as int) + s.char_spacing
        + s.word_spacing) {
        Some(w) => fit(fx_mul(w as int, s.horizontal_scaling as int)),
        None => None,
    }
}

/// The glyphs of the first `k` codes of `chars` shown in font `f` from state
/// `s`, with the text matrix after them.
pub open spec fn glyph_run(f: FontEntry, s: StateView, chars: Seq<u8>, k: int) -> Option<
    (Seq<TextGlyph>, Affine),
>
    decreases k,
{
    if k <= 0 {
        Some((seq![], s.text_matrix))
    } else {
        match glyph_run(f, s, chars, k - 1) {
            Some((gs, tm)) => match advance_of(f, s, chars[k - 1]) {
                Some(adv) => match pre_translate(tm, adv as int, 0) {
                    Some(next) => Some(
                        (
                            gs.push(
                                TextGlyph {
                                    index: glyph_of(f, chars[k - 1]),
                                    origin: origin_of(tm),
                                    advance: adv,
                                },
                            ),
                            next,
                        ),
                    ),
                    None => None,
                },
                None => None,
            },
            None => None,
        }
    }
}

/// Showing `chars`: one fragment more, and the text matrix moved past it.
pub open spec fn flush(fonts: Seq<FontEntry>, s: StateView, chars: Seq<u8>) -> Result<
    StateView,
    TextError,
> {
    match usable_font(fonts, s.font) {
        None => Err(TextError::MissingFontError),
        Some(f) => match glyph_run(f, s, chars, chars.len() as int) {
            None => Err(TextError::OverflowError),
            Some((gs, tm)) => Ok(
                StateView {
                    text_matrix: tm,
                    fragments: s.fragments.push(
                        FragmentView {
                            transform: s.text_matrix,
                            font_name: s.font,
                            font_size: s.font_size,
                            line_height: s.leading,
                            glyphs: gs,
                        },
                    ),
                    ..s
                },
            ),
        },
    }
}

/// A new line at `(tx, ty)` from the start of the current one: both
/// matrices become `translate(tx, ty)` followed by the line matrix.
pub open spec fn move_line(s: StateView, tx: int, ty: int) -> Result<StateView, TextError> {
    match pre_translate(s.line_matrix, tx, ty) {
        Some(m) => Ok(StateView { text_matrix: m, line_matrix: m, ..s }),
        None => Err(TextError::OverflowError),
    }
}

/// A `TJ` adjustment: the text matrix moves by
/// `-(amount / 1000) * font_size * horizontal_scaling` along x.
pub open spec fn adjust(s: StateView, amount: i64) -> Result<StateView, TextError> {
    match fit(fx_mul(amount as int / 1000, s.font_size as int)) {
        Some(t) => match fit(fx_mul(t as int, s.horizontal_scaling as int)) {
            Some(tx) => match pre_translate(s.text_matrix, -tx, 0) {
                Some(m) => Ok(StateView { text_matrix: m, ..s }),
                None => Err(TextError::OverflowError),
            },
            None => Err(TextError::OverflowError),
        },
        None => Err(TextError::OverflowError),
    }
}

/// The effect of a text-state operator.
pub open spec fn state_step(s: StateView, op: Operation) -> Result<StateView, TextError> {
    let args = op.operands@;
    match operator_of(op.operator@) {
        Operator::CharSpacing => match number_of(args, 0) {
            Ok(v) => Ok(StateView { char_spacing: v, ..s }),
            Err(e) => Err(e),
        },
        Operator::WordSpacing => match number_of(args, 0) {
            Ok(v) => Ok(StateView { word_spacing: v, ..s }),
            Err(e) => Err(e),
        },
        Operator::Scaling => match number_of(args, 0) {
            Ok(v) => Ok(StateView { horizontal_scaling: (v as int / 100) as i64, ..s }),
            Err(e) => Err(e),
        },
        // A real operand sets the leading; an integer one is taken off it.
        Operator::Leading => if args.len() == 0 {
            Err(TextError::OperandError)
        } else {
            match args[0] {
                Operand::Real(v) => Ok(StateView { leading: v, ..s }),
                Operand::Integer(n) => match fit(s.leading - n * crate::fixed::UNIT) {
                    Some(l) => Ok(StateView { leading: l, ..s }),
                    None => Err(TextError::OverflowError),
                },
                _ => Err(TextError::OperandError),
            }
        },
        Operator::Font => match name_of(args, 0) {
            Ok(name) => match number_of(args, 1) {
                Ok(size) => Ok(StateView { font: name, font_size: size, ..s }),
                Err(e) => Err(e),
            },
            Err(e) => Err(e),
        },
        _ => Ok(s),
    }
}

/// The effect of a text-positioning operator.
pub open spec fn position_step(s: StateView, op: Operation) -> Result<StateView, TextError> {
    let args = op.operands@;
    match operator_of(op.operator@) {
        Operator::Move => match (number_of(args, 0), number_of(args, 1)) {
            (Ok(x), Ok(y)) => move_line(s, x as int, y as int),
            (Err(e), _) => Err(e),
            (_, Err(e)) => Err(e),
        },
        Operator::MoveSetLeading => match (number_of(args, 0), number_of(args, 1)) {
            (Ok(x), Ok(y)) => match move_line(s, x as int, y as int) {
                Ok(s2) => match fit(-y) {
                    Some(l) => Ok(StateView { leading: l, ..s2 }),
                    None => Err(TextError::OverflowError),
                },
                Err(e) => Err(e),
            },
            (Err(e), _) => Err(e),
            (_, Err(e)) => Err(e),
        },
        Operator::SetMatrix => match matrix_of(args) {
            Ok(m) => Ok(StateView { text_matrix: m, line_matrix: m, ..s }),
            Err(e) => Err(e),
        },
        Operator::NextLine => move_line(s, 0, s.leading as int),
        _ => Ok(s),
    }
}

/// The six numbers of `Tm`, read in order.
pub open spec fn matrix_of(args: Seq<Operand>) -> Result<Affine, TextError> {
    match (
        number_of(args, 0),
        number_of(args, 1),
        number_of(args, 2),
        number_of(args, 3),
        number_of(args, 4),
        number_of(args, 5),
    ) {
        (Ok(a), Ok(b), Ok(c), Ok(d), Ok(e), Ok(f)) => Ok(Affine { a, b, c, d, e, f }),
        (Err(x), _, _, _, _, _) => Err(x),
        (_, Err(x), _, _, _, _) => Err(x),
        (_, _, Err(x), _, _, _) => Err(x),
        (_, _, _, Err(x), _, _) => Err(x),
        (_, _, _, _, Err(x), _) => Err(x),
        (_, _, _, _, _, Err(x)) => Err(x),
    }
}

/// The state after the items of a `TJ` array up to `k`.
pub open spec fn show_items(fonts: Seq<FontEntry>, s: StateView, items: Seq<ArrayItem>, k: int) -> Result<StateView, TextError>
    decreases k,
{
    if k <= 0 {
        Ok(s)
    } else {
        match show_items(fonts, s, items, k - 1) {
            Ok(s1) => match items[k - 1] {
                ArrayItem::Str(t) => flush(fonts, s1, t@),
                ArrayItem::Number(n) => adjust(s1, n),
                ArrayItem::Other => Ok(s1),
            },
            Err(e) => Err(e),
        }
    }
}

/// The effect of a text-showing operator.
pub open spec fn show_step(fonts: Seq<FontEntry>, s: StateView, op: Operation) -> Result<StateView, TextError> {
    let args = op.operands@;
    match operator_of(op.operator@) {
        Operator::Show => match string_of(args, 0) {
            Ok(t) => flush(fonts, s, t),
            Err(e) => Err(e),
        },
        Operator::NextLineShow => match string_of(args, 0) {
            Ok(t) => match move_line(s, 0, s.leading as int) {
                Ok(s2) => flush(fonts, s2, t),
                Err(e) => Err(e),
            },
            Err(e) => Err(e),
        },
        Operator::SpacingNextLineShow => match (number_of(args, 0), number_of(args, 1), string_of(args, 2)) {
            (Ok(aw), Ok(ac), Ok(t)) => {
                let s1 = StateView { word_spacing: aw, char_spacing: ac, ..s };
                match move_line(s1, 0, s1.leading as int) {
                    Ok(s2) => flush(fonts, s2, t),
                    Err(e) => Err(e),
                }
            },
            (Err(e), _, _) => Err(e),
            (_, Err(e), _) => Err(e),
            (_, _, Err(e)) => Err(e),
        },
        Operator::ShowArray => if args.len() == 0 {
            Err(TextError::OperandError)
        } else {
            match args[0] {
                Operand::Array(items) => show_items(fonts, s, items@, items@.len() as int),
                _ => Err(TextError::OperandError),
            }
        },
        _ => Ok(s),
    }
}

/// The effect of one operation other than `ET`.
pub open spec fn step(fonts: Seq<FontEntry>, s: StateView, op: Operation) -> Result<StateView, TextError> {
    match operator_of(op.operator@) {
        Operator::BeginText => Ok(
            StateView { text_matrix: identity(), line_matrix: identity(), fragments: seq![], ..s },
        ),
        Operator::CharSpacing | Operator::WordSpacing | Operator::Scaling | Operator::Leading
        | Operator::Font => state_step(s, op),
        Operator::Move | Operator::MoveSetLeading | Operator::SetMatrix | Operator::NextLine => position_step(s, op),
        Operator::Show | Operator::NextLineShow | Operator::SpacingNextLineShow
        | Operator::ShowArray => show_step(fonts, s, op),
        _ => Ok(s),
    }
}

/// Whether an exec outcome matches what the model gives: the model's state
/// on success; on an error, the model's error and the state as it was.
pub open spec fn outcome(r: Result<(), TextError>, model: Result<StateView, TextError>, before: StateView, after: StateView) -> bool {
    match model {
        Ok(s) => r is Ok && after == s,
        Err(e) => r == Err::<(), TextError>(e) && after == before,
    }
}

/// Once a glyph run overflows, every longer run does too.
proof fn lemma_run_stays_none(f: FontEntry, s: StateView, chars: Seq<u8>, k: int, k2: int)
    requires
        0 <= k <= k2,
        glyph_run(f, s, chars, k) is None,
    ensures
        glyph_run(f, s, chars, k2) is None,
    decreases k2 - k,
{
    if k < k2 {
        lemma_run_stays_none(f, s, chars, k, k2 - 1);
    }
}

/// Once a `TJ` item fails, the whole array fails with the same error.
proof fn lemma_items_stay_err(fonts: Seq<FontEntry>, s: StateView, items: Seq<ArrayItem>, k: int, k2: int, e: TextError)
    requires
        0 <= k <= k2,
        show_items(fonts, s, items, k) == Err::<StateView, TextError>(e),
    ensures
        show_items(fonts, s, items, k2) == Err::<StateView, TextError>(e),
    decreases k2 - k,
{
    if k < k2 {
        lemma_items_stay_err(fonts, s, items, k, k2 - 1, e);
    }
}

/// The items of a `TJ` array only move the text matrix and add fragments.
proof fn lemma_items_frame(fonts: Seq<FontEntry>, s: StateView, items: Seq<ArrayItem>, k: int)
    requires
        0 <= k,
        show_items(fonts, s, items, k) is Ok,
    ensures
        ({
            let s2 = show_items(fonts, s, items, k)->Ok_0;
            &&& s2.fragments.len() >= s.fragments.len()
            &&& s2.fragments.subrange(0, s.fragments.len() as int) == s.fragments
            &&& s2 == StateView { text_matrix: s2.text_matrix, fragments: s2.fragments, ..s }
        }),
    decreases k,
{
    if k > 0 {
        lemma_items_frame(fonts, s, items, k - 1);
        let s1 = show_items(fonts, s, items, k - 1)->Ok_0;
        let s2 = show_items(fonts, s, items, k)->Ok_0;
        if let ArrayItem::Str(t) = items[k - 1] {
            assert(s2.fragments.subrange(0, s.fragments.len() as int) =~= s1.fragments.subrange(0, s.fragments.len() as int));
        }
    } else {
        assert(s.fragments.subrange(0, s.fragments.len() as int) =~= s.fragments);
    }
}

/// The state of one interpretation pass.
pub struct Interpreter {
    pub state: TextState,
    pub text_matrix: Affine,
    pub line_matrix: Affine,
    /// The fragments shown since the last `ET`.
    pub fragments: Vec<TextFragment>,
}

impl View for Interpreter {
    type V = StateView;

    open spec fn view(&self) -> StateView {
        StateView {
            char_spacing: self.state.char_spacing,
            word_spacing: self.state.word_spacing,
            horizontal_scaling: self.state.horizontal_scaling,
            font: self.state.font@,
            font_size: self.state.font_size,
            leading: self.state.leading,
            text_matrix: self.text_matrix,
            line_matrix: self.line_matrix,
            fragments: fragments_view(self.fragments@),
        }
    }
}

impl Interpreter {
    /// The state at the start of a stream.
    pub fn new() -> (r: Interpreter)
        ensures
            r@ == initial(),
    {
        let r = Interpreter {
            state: TextState {
                char_spacing: 0,
                word_spacing: 0,
                horizontal_scaling: UNIT,
                font: Vec::new(),
                font_size: 0,
                leading: 0,
            },
            text_matrix: Affine::identity(),
            line_matrix: Affine::identity(),
            fragments: Vec::new(),
        };
        assert(r@.fragments =~= seq![]);
        assert(r@.font =~= seq![]);
        r
    }

    /// Shows `chars` in the active font: appends one fragment and moves the
    /// text matrix past its glyphs.
    pub fn flush_segment(&mut self, fonts: &FontMap, chars: &Vec<u8>) -> (r: Result<(), TextError>)
        ensures
            outcome(r, flush(fonts.fonts@, old(self)@, chars@), old(self)@, final(self)@),
    {
        let font = match fonts.get(&self.state.font) {
            Some(f) => f,
            None => return Err(TextError::MissingFontError),
        };
        let ghost s0 = self@;
        let mut glyphs: Vec<TextGlyph> = Vec::new();
        let mut tm = self.text_matrix;
        let mut i: usize = 0;
        while i < chars.len()
            invariant
                i <= chars@.len(),
                complete(*font),
                usable_font(fonts.fonts@, s0.font) == Some(*font),
                s0 == self@,
                glyph_run(*font, s0, chars@, i as int) == Some((glyphs@, tm)),
            decreases chars@.len() - i,
        {
            let c = chars[i];
            let w = font.widths[c as usize];
            let sum = mul_wide(w as i128, self.state.font_size as i128)
                + self.state.char_spacing as i128 + self.state.word_spacing as i128;
            let adv = match narrow(sum) {
                Some(inner) => mul_fx(inner, self.state.horizontal_scaling),
                None => None,
            };
            let next = match adv {
                Some(adv) => tm.pre_translate(adv as i128, 0),
                None => None,
            };
            assert(adv == advance_of(*font, s0, chars@[i as int]));
            match (adv, next) {
                (Some(adv), Some(next)) => {
                    glyphs.push(
                        TextGlyph { index: FontMap::glyph_index(font, c), origin: tm.origin(), advance: adv },
                    );
                    tm = next;
                },
                _ => {
                    proof {
                        assert(glyph_run(*font, s0, chars@, i + 1) is None);
                        lemma_run_stays_none(*font, s0, chars@, i + 1, chars@.len() as int);
                    }
                    return Err(TextError::OverflowError);
                },
            }
            i = i + 1;
        }
        let fragment = TextFragment {
            transform: self.text_matrix,
            font_name: self.state.font.clone(),
            font_size: self.state.font_size,
            line_height: self.state.leading,
            glyphs,
        };
        self.fragments.push(fragment);
        self.text_matrix = tm;
        assert(fragments_view(self.fragments@) =~= s0.fragments.push(fragment@));
        Ok(())
    }

    /// Starts a new line at `(tx, ty)` from the start of the current one.
    pub fn apply_translation(&mut self, tx: i64, ty: i64) -> (r: Result<(), TextError>)
        ensures
            outcome(r, move_line(old(self)@, tx as int, ty as int), old(self)@, final(self)@),
    {
        match self.line_matrix.pre_translate(tx as i128, ty as i128) {
            Some(m) => {
                self.text_matrix = m;
                self.line_matrix = m;
                Ok(())
            },
            None => Err(TextError::OverflowError),
        }
    }

    /// Moves the text matrix by a `TJ` adjustment of `amount` thousandths.
    pub fn apply_adjustment(&mut self, amount: i64) -> (r: Result<(), TextError>)
        ensures
            outcome(r, adjust(old(self)@, amount), old(self)@, final(self)@),
    {
        let scaled = match amount.checked_div_euclid(1000) {
            Some(q) => q,
            None => return Err(TextError::OverflowError),
        };
        let t = match mul_fx(scaled, self.state.font_size) {
            Some(t) => t,
            None => return Err(TextError::OverflowError),
        };
        let tx = match mul_fx(t, self.state.horizontal_scaling) {
            Some(tx) => tx,
            None => return Err(TextError::OverflowError),
        };
        match self.text_matrix.pre_translate(-(tx as i128), 0) {
            Some(m) => {
                self.text_matrix = m;
                Ok(())
            },
            None => Err(TextError::OverflowError),
        }
    }

    /// Applies a text-state operator (`Tc`, `Tw`, `Tz`, `TL`, `Tf`).
    pub fn handle_text_state_operation(&mut self, op: &Operation) -> (r: Result<(), TextError>)
        ensures
            outcome(r, state_step(old(self)@, *op), old(self)@, final(self)@),
    {
        let args = &op.operands;
        match operator_from_name(&op.operator) {
            Operator::CharSpacing => match number_operand(args, 0) {
                Ok(v) => {
                    self.state.char_spacing = v;
                    Ok(())
                },
                Err(e) => Err(e),
            },
            Operator::WordSpacing => match number_operand(args, 0) {
                Ok(v) => {
                    self.state.word_spacing = v;
                    Ok(())
                },
                Err(e) => Err(e),
            },
            Operator::Scaling => match number_operand(args, 0) {
                Ok(v) => match v.checked_div_euclid(100) {
                    Some(h) => {
                        self.state.horizontal_scaling = h;
                        Ok(())
                    },
                    None => Err(TextError::OverflowError),
                },
                Err(e) => Err(e),
            },
            Operator::Leading => {
                if args.len() == 0 {
                    return Err(TextError::OperandError);
                }
                match &args[0] {
                    Operand::Real(v) => {
                        self.state.leading = *v;
                        Ok(())
                    },
                    Operand::Integer(n) => {
                        let l = self.state.leading as i128 - (*n as i128) * (UNIT as i128);
                        match narrow(l) {
                            Some(l) => {
                                self.state.leading = l;
                                Ok(())
                            },
                            None => Err(TextError::OverflowError),
                        }
                    },
                    _ => Err(TextError::OperandError),
                }
            },
            Operator::Font => match name_operand(args, 0) {
                Ok(name) => match number_operand(args, 1) {
                    Ok(size) => {
                        self.state.font = name;
                        self.state.font_size = size;
                        Ok(())
                    },
                    Err(e) => Err(e),
                },
                Err(e) => Err(e),
            },
            _ => Ok(()),
        }
    }

    /// Applies a text-positioning operator (`Td`, `TD`, `Tm`, `T*`).
    pub fn handle_text_position_operation(&mut self, op: &Operation) -> (r: Result<(), TextError>)
        ensures
            outcome(r, position_step(old(self)@, *op), old(self)@, final(self)@),
    {
        let args = &op.operands;
        match operator_from_name(&op.operator) {
            Operator::Move => {
                let x = match number_operand(args, 0) {
                    Ok(x) => x,
                    Err(e) => return Err(e),
                };
                let y = match number_operand(args, 1) {
                    Ok(y) => y,
                    Err(e) => return Err(e),
                };
                self.apply_translation(x, y)
            },
            Operator::MoveSetLeading => {
                let x = match number_operand(args, 0) {
                    Ok(x) => x,
                    Err(e) => return Err(e),
                };
                let y = match number_operand(args, 1) {
                    Ok(y) => y,
                    Err(e) => return Err(e),
                };
                let l = match narrow(-(y as i128)) {
                    Some(l) => l,
                    None => {
                        assert(position_step(old(self)@, *op) is Err);
                        return Err(TextError::OverflowError);
                    },
                };
                match self.apply_translation(x, y) {
                    Ok(()) => {
                        self.state.leading = l;
                        Ok(())
                    },
                    Err(e) => Err(e),
                }
            },
            Operator::SetMatrix => {
                let a = match number_operand(args, 0) {
                    Ok(v) => v,
                    Err(e) => return Err(e),
                };
                let b = match number_operand(args, 1) {
                    Ok(v) => v,
                    Err(e) => return Err(e),
                };
                let c = match number_operand(args, 2) {
                    Ok(v) => v,
                    Err(e) => return Err(e),
                };
                let d = match number_operand(args, 3) {
                    Ok(v) => v,
                    Err(e) => return Err(e),
                };
                let e = match number_operand(args, 4) {
                    Ok(v) => v,
                    Err(x) => return Err(x),
                };
                let f = match number_operand(args, 5) {
                    Ok(v) => v,
                    Err(x) => return Err(x),
                };
                let m = Affine::row_major(a, b, c, d, e, f);
                self.text_matrix = m;
                self.line_matrix = m;
                Ok(())
            },
            Operator::NextLine => self.apply_translation(0, self.state.leading),
            _ => Ok(()),
        }
    }

    /// Applies a text-showing operator (`Tj`, `'`, `"`, `TJ`).
    pub fn handle_text_show_operation(&mut self, fonts: &FontMap, op: &Operation) -> (r: Result<(), TextError>)
        ensures
            outcome(r, show_step(fonts.fonts@, old(self)@, *op), old(self)@, final(self)@),
    {
        let args = &op.operands;
        match operator_from_name(&op.operator) {
            Operator::Show => match string_operand(args, 0) {
                Ok(t) => self.flush_segment(fonts, t),
                Err(e) => Err(e),
            },
            Operator::NextLineShow => match string_operand(args, 0) {
                Ok(t) => {
                    let (tm, lm) = (self.text_matrix, self.line_matrix);
                    match self.apply_translation(0, self.state.leading) {
                        Ok(()) => match self.flush_segment(fonts, t) {
                            Ok(()) => Ok(()),
                            Err(e) => {
                                self.text_matrix = tm;
                                self.line_matrix = lm;
                                Err(e)
                            },
                        },
                        Err(e) => Err(e),
                    }
                },
                Err(e) => Err(e),
            },
            Operator::SpacingNextLineShow => {
                let aw = match number_operand(args, 0) {
                    Ok(v) => v,
                    Err(e) => return Err(e),
                };
                let ac = match number_operand(args, 1) {
                    Ok(v) => v,
                    Err(e) => return Err(e),
                };
                let t = match string_operand(args, 2) {
                    Ok(t) => t,
                    Err(e) => return Err(e),
                };
                let (ws, cs) = (self.state.word_spacing, self.state.char_spacing);
                let (tm, lm) = (self.text_matrix, self.line_matrix);
                self.state.word_spacing = aw;
                self.state.char_spacing = ac;
                let r = match self.apply_translation(0, self.state.leading) {
                    Ok(()) => self.flush_segment(fonts, t),
                    Err(e) => Err(e),
                };
                if r.is_err() {
                    self.state.word_spacing = ws;
                    self.state.char_spacing = cs;
                    self.text_matrix = tm;
                    self.line_matrix = lm;
                }
                r
            },
            Operator::ShowArray => {
                if args.len() == 0 {
                    return Err(TextError::OperandError);
                }
                match &args[0] {
                    Operand::Array(items) => {
                        let ghost s0 = self@;
                        let tm = self.text_matrix;
                        let n0 = self.fragments.len();
                        let mut i: usize = 0;
                        assert(operator_of(op.operator@) == Operator::ShowArray);
                        while i < items.len()
                            invariant
                                i <= items@.len(),
                                s0 == old(self)@,
                                tm == s0.text_matrix,
                                n0 == s0.fragments.len(),
                                op.operands@.len() > 0,
                                op.operands@[0] == Operand::Array(*items),
                                operator_of(op.operator@) == Operator::ShowArray,
                                show_items(fonts.fonts@, s0, items@, i as int) == Ok::<StateView, TextError>(self@),
                            decreases items@.len() - i,
                        {
                            let res = match &items[i] {
                                ArrayItem::Str(t) => self.flush_segment(fonts, t),
                                ArrayItem::Number(n) => self.apply_adjustment(*n),
                                ArrayItem::Other => Ok(()),
                            };
                            match res {
                                Ok(()) => {},
                                Err(e) => {
                                    proof {
                                        assert(show_items(fonts.fonts@, s0, items@, i + 1) == Err::<StateView, TextError>(e));
                                        lemma_items_stay_err(fonts.fonts@, s0, items@, i + 1, items@.len() as int, e);
                                        lemma_items_frame(fonts.fonts@, s0, items@, i as int);
                                    }
                                    let ghost before = self.fragments@;
                                    self.text_matrix = tm;
                                    self.fragments.truncate(n0);
                                    assert(fragments_view(self.fragments@) =~= fragments_view(before).subrange(0, n0 as int));
                                    return Err(e);
                                },
                            }
                            i = i + 1;
                        }
                        Ok(())
                    },
                    _ => Err(TextError::OperandError),
                }
            },
            _ => Ok(()),
        }
    }

    /// Applies one operation other than `ET`.
    pub fn step(&mut self, fonts: &FontMap, op: &Operation) -> (r: Result<(), TextError>)
        ensures
            outcome(r, step(fonts.fonts@, old(self)@, *op), old(self)@, final(self)@),
    {
        match operator_from_name(&op.operator) {
            Operator::BeginText => {
                self.text_matrix = Affine::identity();
                self.line_matrix = Affine::identity();
                self.fragments = Vec::new();
                assert(fragments_view(self.fragments@) =~= seq![]);
                Ok(())
            },
            Operator::CharSpacing | Operator::WordSpacing | Operator::Scaling | Operator::Leading
            | Operator::Font => self.handle_text_state_operation(op),
            Operator::Move | Operator::MoveSetLeading | Operator::SetMatrix | Operator::NextLine => {
                self.handle_text_position_operation(op)
            },
            Operator::Show | Operator::NextLineShow | Operator::SpacingNextLineShow
            | Operator::ShowArray => self.handle_text_show_operation(fonts, op),
            _ => Ok(()),
        }
    }
}

/// The position just past the first `ET` at or after `pos`, or the end.
pub open spec fn after_end(ops: Seq<Operation>, pos: int) -> int
    decreases ops.len() - pos,
{
    if pos < 0 || pos >= ops.len() {
        ops.len() as int
    } else if operator_of(ops[pos].operator@) == Operator::EndText {
        pos + 1
    } else {
        after_end(ops, pos + 1)
    }
}

/// Running from operation `pos` up to the next `ET` or the end of the
/// operations: what is yielded, the state after, and where the pass goes on.
/// An `ET` yields the fragments gathered since the last `BT`; the end yields
/// nothing. A missing font fails the text object it is in: its fragments are
/// dropped and the pass goes on after its `ET`. Any other error ends the
/// pass.
pub open spec fn run(fonts: Seq<FontEntry>, ops: Seq<Operation>, pos: int, s: StateView) -> (
    Result<Option<Seq<FragmentView>>, TextError>,
    StateView,
    int,
)
    decreases ops.len() - pos,
{
    if pos < 0 || pos >= ops.len() {
        (Ok(None), s, ops.len() as int)
    } else if operator_of(ops[pos].operator@) == Operator::EndText {
        (Ok(Some(s.fragments)), StateView { fragments: seq![], ..s }, pos + 1)
    } else {
        match step(fonts, s, ops[pos]) {
            Ok(s2) => run(fonts, ops, pos + 1, s2),
            Err(e) => if e == TextError::MissingFontError {
                (Err(e), StateView { fragments: seq![], ..s }, after_end(ops, pos + 1))
            } else {
                (Err(e), s, ops.len() as int)
            },
        }
    }
}

/// The position just past the first `ET` at or after `pos`, or the end.
pub fn skip_past_end(ops: &Vec<Operation>, pos: usize) -> (r: usize)
    ensures
        r == after_end(ops@, pos as int),
{
    let mut p = pos;
    while p < ops.len()
        invariant
            after_end(ops@, p as int) == after_end(ops@, pos as int),
        decreases ops@.len() - p,
    {
        if operator_from_name(&ops[p].operator) == Operator::EndText {
            return p + 1;
        }
        p = p + 1;
    }
    ops.len()
}

/// A single forward pass over the operations of a content stream, yielding
/// one text object per `ET`.
pub struct TextIter {
    font_map: FontMap,
    operations: Vec<Operation>,
    pos: usize,
    interp: Interpreter,
}

impl TextIter {
    /// The fonts the pass shows text in.
    pub closed spec fn fonts(&self) -> Seq<FontEntry> {
        self.font_map.fonts@
    }

    /// The operations of the stream.
    pub closed spec fn operations(&self) -> Seq<Operation> {
        self.operations@
    }

    /// The index of the next operation to run.
    pub closed spec fn position(&self) -> int {
        self.pos as int
    }

    /// The interpretation state.
    pub closed spec fn state(&self) -> StateView {
        self.interp@
    }

    /// Starts a pass over the decoded operations of a content stream.
    pub fn decode(font_map: FontMap, operations: Vec<Operation>) -> (r: TextIter)
        ensures
            r.fonts() == font_map.fonts@,
            r.operations() == operations@,
            r.position() == 0,
            r.state() == initial(),
    {
        TextIter { font_map, operations, pos: 0, interp: Interpreter::new() }
    }

    /// Runs operations up to the next `ET` and yields the text object it
    /// closes; `None` once the operations are exhausted. A missing font
    /// yields its error in place of the object it is in, and the pass goes
    /// on after that object; any other error ends the pass.
    pub fn next(&mut self) -> (r: Option<Result<TextObject, TextError>>)
        ensures
            final(self).fonts() == old(self).fonts(),
            final(self).operations() == old(self).operations(),
            ({
                let (out, s2, p2) = run(
                    old(self).fonts(),
                    old(self).operations(),
                    old(self).position(),
                    old(self).state(),
                );
                &&& final(self).position() == p2
                &&& match out {
                    Ok(None) => r is None && final(self).state() == s2,
                    Ok(Some(frs)) => r matches Some(Ok(obj)) && obj@ == frs && final(self).state() == s2,
                    Err(e) => r == Some(Err::<TextObject, TextError>(e)) && final(self).state() == s2,
                }
            }),
    {
        let ghost fonts = self.font_map.fonts@;
        let ghost ops = self.operations@;
        let ghost goal = run(fonts, ops, self.pos as int, self.interp@);
        loop
            invariant
                self.font_map.fonts@ == fonts,
                self.operations@ == ops,
                fonts == old(self).fonts(),
                ops == old(self).operations(),
                goal == run(old(self).fonts(), old(self).operations(), old(self).position(), old(self).state()),
                run(fonts, ops, self.pos as int, self.interp@) == goal,
            decreases ops.len() - self.pos,
        {
            if self.pos >= self.operations.len() {
                self.pos = self.operations.len();
                return None;
            }
            let op = &self.operations[self.pos];
            if operator_from_name(&op.operator) == Operator::EndText {
                let fragments = self.interp.fragments.split_off(0);
                self.pos = self.pos + 1;
                let obj = TextObject { fragments };
                assert(self.interp@.fragments =~= seq![]);
                return Some(Ok(obj));
            }
            match self.interp.step(&self.font_map, op) {
                Ok(()) => {
                    self.pos = self.pos + 1;
                },
                Err(e) => {
                    if e == TextError::MissingFontError {
                        self.interp.fragments = Vec::new();
                        assert(fragments_view(self.interp.fragments@) =~= seq![]);
                        self.pos = skip_past_end(&self.operations, self.pos + 1);
                    } else {
                        self.pos = self.operations.len();
                    }
                    return Some(Err(e));
                },
            }
        }
    }
}

/// Whether an operation leaves the gathered fragments alone: neither a
/// show operator nor `ET`.
pub open spec fn shows_nothing(op: Operation) -> bool {
    match operator_of(op.operator@) {
        Operator::Show | Operator::NextLineShow | Operator::SpacingNextLineShow | Operator::ShowArray
        | Operator::EndText => false,
        _ => true,
    }
}

/// An operation that shows nothing gathers no fragment.
proof fn lemma_step_keeps_fragments(fonts: Seq<FontEntry>, s: StateView, op: Operation)
    requires
        shows_nothing(op),
        step(fonts, s, op) is Ok,
        s.fragments.len() == 0,
    ensures
        step(fonts, s, op)->Ok_0.fragments.len() == 0,
{
}

/// From `pos` on, within a bracket that shows nothing, the pass either fails
/// or closes the bracket with no fragments.
proof fn lemma_quiet_rest(fonts: Seq<FontEntry>, ops: Seq<Operation>, pos: int, s: StateView)
    requires
        1 <= pos < ops.len(),
        operator_of(ops.last().operator@) == Operator::EndText,
        forall|i: int| 1 <= i < ops.len() - 1 ==> shows_nothing(#[trigger] ops[i]),
        s.fragments.len() == 0,
    ensures
        run(fonts, ops, pos, s).0 is Err || run(fonts, ops, pos, s).0 == Ok::<Option<Seq<FragmentView>>, TextError>(Some(seq![])),
    decreases ops.len() - pos,
{
    if pos == ops.len() - 1 {
        assert(s.fragments =~= seq![]);
    } else {
        assert(shows_nothing(ops[pos]));
        if let Ok(s2) = step(fonts, s, ops[pos]) {
            lemma_step_keeps_fragments(fonts, s, ops[pos]);
            lemma_quiet_rest(fonts, ops, pos + 1, s2);
        }
    }
}

/// A `BT`...`ET` bracket with no show operator inside yields, unless an
/// operand is malformed, a text object with no fragments.
pub proof fn lemma_bracket_without_show(fonts: Seq<FontEntry>, ops: Seq<Operation>, s: StateView)
    requires
        ops.len() >= 2,
        operator_of(ops[0].operator@) == Operator::BeginText,
        operator_of(ops.last().operator@) == Operator::EndText,
        forall|i: int| 1 <= i < ops.len() - 1 ==> shows_nothing(#[trigger] ops[i]),
    ensures
        run(fonts, ops, 0, s).0 is Err || run(fonts, ops, 0, s).0 == Ok::<Option<Seq<FragmentView>>, TextError>(Some(seq![])),
{
    let s1 = step(fonts, s, ops[0])->Ok_0;
    lemma_quiet_rest(fonts, ops, 1, s1);
}

/// The first glyph of a run stands at the origin of the matrix the run
/// began with, and a run changes only the matrix's offset.
proof fn lemma_run_start(f: FontEntry, s: StateView, chars: Seq<u8>, k: int)
    requires
        1 <= k,
        glyph_run(f, s, chars, k) is Some,
    ensures
        glyph_run(f, s, chars, k)->Some_0.0.len() == k,
        glyph_run(f, s, chars, k)->Some_0.0[0].origin == origin_of(s.text_matrix),
    decreases k,
{
    lemma_run_frame(f, s, chars, k);
    if k > 1 {
        lemma_run_start(f, s, chars, k - 1);
    }
}

/// A glyph run keeps the linear part of the text matrix.
proof fn lemma_run_frame(f: FontEntry, s: StateView, chars: Seq<u8>, k: int)
    requires
        0 <= k,
        glyph_run(f, s, chars, k) is Some,
    ensures
        glyph_run(f, s, chars, k)->Some_0.0.len() == k,
        ({
            let tm = glyph_run(f, s, chars, k)->Some_0.1;
            tm.a == s.text_matrix.a && tm.b == s.text_matrix.b && tm.c == s.text_matrix.c
                && tm.d == s.text_matrix.d
        }),
    decreases k,
{
    if k > 0 {
        lemma_run_frame(f, s, chars, k - 1);
    }
}

/// After `Tm` with the identity matrix, a `Tj` shows its first glyph at
/// the origin, and its fragment's transform is the identity.
pub proof fn lemma_identity_matrix_show(fonts: Seq<FontEntry>, s: StateView, tm: Operation, show: Operation)
    requires
        operator_of(tm.operator@) == Operator::SetMatrix,
        matrix_of(tm.operands@) == Ok::<Affine, TextError>(identity()),
        operator_of(show.operator@) == Operator::Show,
        step(fonts, step(fonts, s, tm)->Ok_0, show) is Ok,
    ensures
        ({
            let s2 = step(fonts, step(fonts, s, tm)->Ok_0, show)->Ok_0;
            let fr = s2.fragments.last();
            &&& fr.transform == identity()
            &&& fr.glyphs.len() > 0 ==> fr.glyphs[0].origin == (Point { x: 0, y: 0 })
        }),
{
    let s1 = step(fonts, s, tm)->Ok_0;
    let t = string_of(show.operands@, 0)->Ok_0;
    let f = usable_font(fonts, s1.font)->Some_0;
    if t.len() > 0 {
        lemma_run_start(f, s1, t, t.len() as int);
    } else {
        lemma_run_frame(f, s1, t, 0);
    }
}

/// Later items of a `TJ` array keep the fragments that earlier items made.
proof fn lemma_items_prefix(fonts: Seq<FontEntry>, s: StateView, items: Seq<ArrayItem>, j: int, k: int)
    requires
        0 <= j <= k,
        show_items(fonts, s, items, k) is Ok,
    ensures
        show_items(fonts, s, items, j) is Ok,
        ({
            let fj = show_items(fonts, s, items, j)->Ok_0.fragments;
            let fk = show_items(fonts, s, items, k)->Ok_0.fragments;
            fk.len() >= fj.len() && fk.subrange(0, fj.len() as int) == fj
        }),
    decreases k - j,
{
    let fk = show_items(fonts, s, items, k)->Ok_0.fragments;
    if j == k {
        assert(fk.subrange(0, fk.len() as int) =~= fk);
    } else {
        lemma_items_prefix(fonts, s, items, j, k - 1);
        let fj = show_items(fonts, s, items, j)->Ok_0.fragments;
        let fp = show_items(fonts, s, items, k - 1)->Ok_0.fragments;
        assert(fk.subrange(0, fj.len() as int) =~= fp.subrange(0, fj.len() as int));
    }
}

/// After `Tm` with the identity matrix, a `TJ` array that begins with a
/// string shows that string's first glyph at the origin, in a fragment whose
/// transform is the identity.
pub proof fn lemma_identity_matrix_show_array(fonts: Seq<FontEntry>, s: StateView, tm: Operation, show: Operation, items: Vec<ArrayItem>, t: Vec<u8>)
    requires
        operator_of(tm.operator@) == Operator::SetMatrix,
        matrix_of(tm.operands@) == Ok::<Affine, TextError>(identity()),
        operator_of(show.operator@) == Operator::ShowArray,
        show.operands@.len() > 0,
        show.operands@[0] == Operand::Array(items),
        items@.len() > 0,
        items@[0] == ArrayItem::Str(t),
        step(fonts, step(fonts, s, tm)->Ok_0, show) is Ok,
    ensures
        ({
            let s1 = step(fonts, s, tm)->Ok_0;
            let s2 = step(fonts, s1, show)->Ok_0;
            let fr = s2.fragments[s1.fragments.len() as int];
            &&& s2.fragments.len() > s1.fragments.len()
            &&& fr.transform == identity()
            &&& fr.glyphs.len() == t@.len()
            &&& t@.len() > 0 ==> fr.glyphs[0].origin == (Point { x: 0, y: 0 })
        }),
{
    let s1 = step(fonts, s, tm)->Ok_0;
    lemma_items_prefix(fonts, s1, items@, 1, items@.len() as int);
    assert(show_items(fonts, s1, items@, 0) == Ok::<StateView, TextError>(s1));
    let f = usable_font(fonts, s1.font)->Some_0;
    if t@.len() > 0 {
        lemma_run_start(f, s1, t@, t@.len() as int);
    } else {
        lemma_run_frame(f, s1, t@, 0);
    }
    let f1 = show_items(fonts, s1, items@, 1)->Ok_0.fragments;
    let f2 = show_items(fonts, s1, items@, items@.len() as int)->Ok_0.fragments;
    assert(f1.len() == s1.fragments.len() + 1);
    assert(f2[s1.fragments.len() as int] == f2.subrange(0, f1.len() as int)[s1.fragments.len() as int]);
}

/// Two `Td` moves from an identity line matrix add up:
/// `translate(x2, y2)` after `translate(x, y)` is `translate(x + x2, y + y2)`.
pub proof fn lemma_moves_add(fonts: Seq<FontEntry>, s: StateView, m1: Operation, m2: Operation, x: i64, y: i64, x2: i64, y2: i64)
    requires
        s.line_matrix == identity(),
        operator_of(m1.operator@) == Operator::Move,
        operator_of(m2.operator@) == Operator::Move,
        number_of(m1.operands@, 0) == Ok::<i64, TextError>(x),
        number_of(m1.operands@, 1) == Ok::<i64, TextError>(y),
        number_of(m2.operands@, 0) == Ok::<i64, TextError>(x2),
        number_of(m2.operands@, 1) == Ok::<i64, TextError>(y2),
        step(fonts, s, m1) is Ok,
        step(fonts, step(fonts, s, m1)->Ok_0, m2) is Ok,
    ensures
        ({
            let s2 = step(fonts, step(fonts, s, m1)->Ok_0, m2)->Ok_0;
            &&& s2.line_matrix == translation(x + x2, y + y2)
            &&& s2.text_matrix == translation(x + x2, y + y2)
        }),
{
    lemma_identity_translate(x as int, y as int);
    let t = translation(x as int, y as int);
    assert(fx_mul(x2 as int, UNIT as int) == x2) by (nonlinear_arith);
    assert(fx_mul(y2 as int, UNIT as int) == y2) by (nonlinear_arith);
    assert(fx_mul(x2 as int, 0) == 0);
    assert(fx_mul(y2 as int, 0) == 0);
    assert(pre_translate(t, x2 as int, y2 as int) == Some(translation(x + x2, y + y2)));
}

/// `T*` after a `TL` that sets the leading to 12 moves exactly as `Td 0 12`.
pub proof fn lemma_next_line_is_move(fonts: Seq<FontEntry>, s: StateView, tl: Operation, next: Operation, td: Operation)
    requires
        operator_of(tl.operator@) == Operator::Leading,
        tl.operands@.len() > 0,
        tl.operands@[0] == Operand::Real(12_000_000i64),
        operator_of(next.operator@) == Operator::NextLine,
        operator_of(td.operator@) == Operator::Move,
        number_of(td.operands@, 0) == Ok::<i64, TextError>(0),
        number_of(td.operands@, 1) == Ok::<i64, TextError>(12_000_000i64),
    ensures
        step(fonts, s, tl) is Ok,
        step(fonts, step(fonts, s, tl)->Ok_0, next) == step(fonts, step(fonts, s, tl)->Ok_0, td),
{
}

/// In a `TJ` array `[A -250 B]` at font size 10 and full horizontal scaling,
/// on a text matrix without rotation or scaling along x, `B` starts 2.5
/// units to the right of where `A` ended.
pub proof fn lemma_adjustment_shift(fonts: Seq<FontEntry>, s: StateView, a: Vec<u8>, b: Vec<u8>)
    requires
        s.font_size == 10 * UNIT,
        s.horizontal_scaling == UNIT,
        s.text_matrix.a == UNIT,
        s.text_matrix.c == 0,
        show_items(fonts, s, seq![ArrayItem::Str(a), ArrayItem::Number(-250_000_000i64), ArrayItem::Str(b)], 3) is Ok,
    ensures
        ({
            let items = seq![ArrayItem::Str(a), ArrayItem::Number(-250_000_000i64), ArrayItem::Str(b)];
            let after_a = flush(fonts, s, a@)->Ok_0;
            let s3 = show_items(fonts, s, items, 3)->Ok_0;
            &&& s3.fragments.len() == s.fragments.len() + 2
            &&& s3.fragments.last().transform.e == after_a.text_matrix.e + 2_500_000
        }),
{
    let items = seq![ArrayItem::Str(a), ArrayItem::Number(-250_000_000i64), ArrayItem::Str(b)];
    assert(show_items(fonts, s, items, 0) == Ok::<StateView, TextError>(s));
    assert(show_items(fonts, s, items, 2) is Ok);
    assert(show_items(fonts, s, items, 1) is Ok);
    assert(items[0] == ArrayItem::Str(a));
    assert(items[1] == ArrayItem::Number(-250_000_000i64));
    assert(show_items(fonts, s, items, 1) == flush(fonts, s, a@));
    let s1 = flush(fonts, s, a@)->Ok_0;
    let f = usable_font(fonts, s.font)->Some_0;
    lemma_run_frame(f, s, a@, a@.len() as int);
    assert(s1.text_matrix.a == UNIT && s1.text_matrix.c == 0);
    assert(s1.font_size == 10 * UNIT && s1.horizontal_scaling == UNIT);
    assert(-250_000_000int / 1000 == -250_000);
    assert(fx_mul(-250_000, 10 * UNIT as int) == -2_500_000);
    assert(fx_mul(-2_500_000, UNIT as int) == -2_500_000);
    assert(fx_mul(2_500_000, UNIT as int) == 2_500_000);
    assert(fx_mul(0, s1.text_matrix.c as int) == 0);
    assert(show_items(fonts, s, items, 2) == adjust(s1, -250_000_000i64));
    let s2 = adjust(s1, -250_000_000i64)->Ok_0;
    assert(s2.text_matrix.e == s1.text_matrix.e + 2_500_000);
}

/// `TL` with an array operand is an operand error; the leading is not
/// quietly reset.
pub proof fn lemma_leading_rejects_array(fonts: Seq<FontEntry>, s: StateView, op: Operation)
    requires
        operator_of(op.operator@) == Operator::Leading,
        op.operands@.len() > 0,
        op.operands@[0] is Array,
    ensures
        step(fonts, s, op) == Err::<StateView, TextError>(TextError::OperandError),
{
}

} // verus!
