//! Decoded content-stream operations and the font metrics the interpreter
//! reads.

use vstd::prelude::*;
use crate::fixed::{fit, UNIT};

verus! {

/// An element of a `TJ` array.
#[derive(Clone, Debug, PartialEq, Eq)]
pub enum ArrayItem {
    /// A string to show.
    Str(Vec<u8>),
    /// A position adjustment, in fixed point (thousandths of text space).
    Number(i64),
    /// Anything else; it is passed over.
    Other,
}

/// An operand of an operation, as the content decoder gives it.
#[derive(Clone, Debug, PartialEq, Eq)]
pub enum Operand {
    /// An integer, in whole units.
    Integer(i64),
    /// A real number, in fixed point.
    Real(i64),
    Name(Vec<u8>),
    Str(Vec<u8>),
    Array(Vec<ArrayItem>),
    /// Any other kind of object.
    Other,
}

/// One operation: an operator name and its operands.
#[derive(Clone, Debug, PartialEq, Eq)]
pub struct Operation {
    pub operator: Vec<u8>,
    pub operands: Vec<Operand>,
}

/// Why interpretation failed.
#[derive(Clone, Copy, Debug, PartialEq, Eq, Structural)]
pub enum TextError {
    /// The content stream's syntax is malformed.
    DecodeError,
    /// An operator has operands of the wrong number or kind.
    OperandError,
    /// The active font is not in the font map, or its metrics are incomplete.
    MissingFontError,
    /// A number falls outside what a fixed-point value can hold.
    OverflowError,
}

/// The operators that the interpreter acts on.
#[derive(Clone, Copy, Debug, PartialEq, Eq, Structural)]
pub enum Operator {
    BeginText,
    EndText,
    CharSpacing,
    WordSpacing,
    Scaling,
    Leading,
    Font,
    Move,
    MoveSetLeading,
    SetMatrix,
    NextLine,
    Show,
    NextLineShow,
    SpacingNextLineShow,
    ShowArray,
    /// Not a text operator.
    Ignored,
}

/// The operator that a name stands for (names are ASCII bytes).
pub open spec fn operator_of(n: Seq<u8>) -> Operator {
    if n == seq![66u8, 84u8] {
        Operator::BeginText
    } else if n == seq![69u8, 84u8] {
        Operator::EndText
    } else if n == seq![84u8, 99u8] {
        Operator::CharSpacing
    } else if n == seq![84u8, 119u8] {
        Operator::WordSpacing
    } else if n == seq![84u8, 122u8] {
        Operator::Scaling
    } else if n == seq![84u8, 76u8] {
        Operator::Leading
    } else if n == seq![84u8, 102u8] {
        Operator::Font
    } else if n == seq![84u8, 100u8] {
        Operator::Move
    } else if n == seq![84u8, 68u8] {
        Operator::MoveSetLeading
    } else if n == seq![84u8, 109u8] {
        Operator::SetMatrix
    } else if n == seq![84u8, 42u8] {
        Operator::NextLine
    } else if n == seq![84u8, 106u8] {
        Operator::Show
    } else if n == seq![39u8] {
        Operator::NextLineShow
    } else if n == seq![34u8] {
        Operator::SpacingNextLineShow
    } else if n == seq![84u8, 74u8] {
        Operator::ShowArray
    } else {
        Operator::Ignored
    }
}

/// The operator that a name stands for.
pub fn operator_from_name(n: &Vec<u8>) -> (r: Operator)
    ensures
        r == operator_of(n@),
{
    if n.len() == 1 {
        if n[0] == 39u8 {
            assert(n@ == seq![39u8]);
            return Operator::NextLineShow;
        } else if n[0] == 34u8 {
            assert(n@ == seq![34u8]);
            return Operator::SpacingNextLineShow;
        }
        return Operator::Ignored;
    }
    if n.len() != 2 {
        return Operator::Ignored;
    }
    let (x, y) = (n[0], n[1]);
    assert(n@ == seq![x, y]);
    if x == 66u8 && y == 84u8 {
        Operator::BeginText
    } else if x == 69u8 && y == 84u8 {
        Operator::EndText
    } else if x != 84u8 {
        Operator::Ignored
    } else if y == 99u8 {
        Operator::CharSpacing
    } else if y == 119u8 {
        Operator::WordSpacing
    } else if y == 122u8 {
        Operator::Scaling
    } else if y == 76u8 {
        Operator::Leading
    } else if y == 102u8 {
        Operator::Font
    } else if y == 100u8 {
        Operator::Move
    } else if y == 68u8 {
        Operator::MoveSetLeading
    } else if y == 109u8 {
        Operator::SetMatrix
    } else if y == 42u8 {
        Operator::NextLine
    } else if y == 106u8 {
        Operator::Show
    } else if y == 74u8 {
        Operator::ShowArray
    } else {
        Operator::Ignored
    }
}

/// Operand `i` read as a number, in fixed point.
pub open spec fn number_of(ops: Seq<Operand>, i: int) -> Result<i64, TextError> {
    if 0 <= i < ops.len() {
        match ops[i] {
            Operand::Integer(n) => match fit(n * UNIT) {
                Some(v) => Ok(v),
                None => Err(TextError::OverflowError),
            },
            Operand::Real(v) => Ok(v),
            _ => Err(TextError::OperandError),
        }
    } else {
        Err(TextError::OperandError)
    }
}

/// Operand `i` read as a name.
pub open spec fn name_of(ops: Seq<Operand>, i: int) -> Result<Seq<u8>, TextError> {
    if 0 <= i < ops.len() {
        match ops[i] {
            Operand::Name(n) => Ok(n@),
            _ => Err(TextError::OperandError),
        }
    } else {
        Err(TextError::OperandError)
    }
}

/// Operand `i` read as a string.
pub open spec fn string_of(ops: Seq<Operand>, i: int) -> Result<Seq<u8>, TextError> {
    if 0 <= i < ops.len() {
        match ops[i] {
            Operand::Str(s) => Ok(s@),
            _ => Err(TextError::OperandError),
        }
    } else {
        Err(TextError::OperandError)
    }
}

/// Operand `i` read as a number, in fixed point.
pub fn number_operand(ops: &Vec<Operand>, i: usize) -> (r: Result<i64, TextError>)
    ensures
        r == number_of(ops@, i as int),
{
    if i >= ops.len() {
        return Err(TextError::OperandError);
    }
    match &ops[i] {
        Operand::Integer(n) => match n.checked_mul(UNIT) {
            Some(v) => Ok(v),
            None => Err(TextError::OverflowError),
        },
        Operand::Real(v) => Ok(*v),
        _ => Err(TextError::OperandError),
    }
}

/// Operand `i` read as a name.
pub fn name_operand(ops: &Vec<Operand>, i: usize) -> (r: Result<Vec<u8>, TextError>)
    ensures
        r.is_ok() == name_of(ops@, i as int).is_ok(),
        r matches Ok(n) ==> name_of(ops@, i as int) == Ok::<Seq<u8>, TextError>(n@),
        r matches Err(e) ==> name_of(ops@, i as int) == Err::<Seq<u8>, TextError>(e),
{
    if i >= ops.len() {
        return Err(TextError::OperandError);
    }
    match &ops[i] {
        Operand::Name(n) => Ok(n.clone()),
        _ => Err(TextError::OperandError),
    }
}

/// Operand `i` read as a string.
pub fn string_operand(ops: &Vec<Operand>, i: usize) -> (r: Result<&Vec<u8>, TextError>)
    ensures
        r.is_ok() == string_of(ops@, i as int).is_ok(),
        r matches Ok(s) ==> string_of(ops@, i as int) == Ok::<Seq<u8>, TextError>(s@),
        r matches Err(e) ==> string_of(ops@, i as int) == Err::<Seq<u8>, TextError>(e),
{
    if i >= ops.len() {
        return Err(TextError::OperandError);
    }
    match &ops[i] {
        Operand::Str(s) => Ok(s),
        _ => Err(TextError::OperandError),
    }
}

/// The metrics of one font, for each of the 256 single-byte character codes.
#[derive(Clone, Debug, PartialEq, Eq)]
pub struct FontEntry {
    pub name: Vec<u8>,
    /// The glyph index reached through the font's glyph-name table, for the
    /// codes that the font names.
    pub name_glyphs: Vec<Option<u32>>,
    /// The glyph index reached from the character itself.
    pub char_glyphs: Vec<u32>,
    /// The width of each code, in fixed point per unit of font size.
    pub widths: Vec<i64>,
}

/// The fonts of a page, by name.
#[derive(Clone, Debug, PartialEq, Eq)]
pub struct FontMap {
    pub fonts: Vec<FontEntry>,
}

/// Whether a font has metrics for every single-byte code.
pub open spec fn complete(f: FontEntry) -> bool {
    f.name_glyphs@.len() == 256 && f.char_glyphs@.len() == 256 && f.widths@.len() == 256
}

/// The glyph index of code `c`: by glyph name where the font has one,
/// else by the character.
pub open spec fn glyph_of(f: FontEntry, c: u8) -> u32 {
    match f.name_glyphs@[c as int] {
        Some(i) => i,
        None => f.char_glyphs@[c as int],
    }
}

/// The first font at or after `i` named `name`.
pub open spec fn find_font(fonts: Seq<FontEntry>, name: Seq<u8>, i: int) -> Option<int>
    decreases fonts.len() - i,
{
    if i < 0 || i >= fonts.len() {
        None
    } else if fonts[i].name@ == name {
        Some(i)
    } else {
        find_font(fonts, name, i + 1)
    }
}

/// The usable font named `name`: the first entry of that name, when its
/// metrics are complete.
pub open spec fn usable_font(fonts: Seq<FontEntry>, name: Seq<u8>) -> Option<FontEntry> {
    match find_font(fonts, name, 0) {
        Some(i) => if complete(fonts[i]) {
            Some(fonts[i])
        } else {
            None
        },
        None => None,
    }
}

impl FontMap {
    /// The usable font named `name`.
    pub fn get(&self, name: &Vec<u8>) -> (r: Option<&FontEntry>)
        ensures
            r matches Some(f) ==> usable_font(self.fonts@, name@) == Some(*f),
            r is None ==> usable_font(self.fonts@, name@) is None,
    {
        let mut i: usize = 0;
        while i < self.fonts.len()
            invariant
                i <= self.fonts@.len(),
                find_font(self.fonts@, name@, 0) == find_font(self.fonts@, name@, i as int),
            decreases self.fonts@.len() - i,
        {
            let f = &self.fonts[i];
            if bytes_equal(&f.name, name) {
                if f.name_glyphs.len() == 256 && f.char_glyphs.len() == 256 && f.widths.len() == 256 {
                    return Some(f);
                }
                return None;
            }
            i = i + 1;
        }
        None
    }

    /// The glyph index of code `c` in a usable font.
    pub fn glyph_index(f: &FontEntry, c: u8) -> (r: u32)
        requires
            complete(*f),
        ensures
            r == glyph_of(*f, c),
    {
        match f.name_glyphs[c as usize] {
            Some(i) => i,
            None => f.char_glyphs[c as usize],
        }
    }
}

/// Whether two byte strings are equal.
pub fn bytes_equal(x: &Vec<u8>, y: &Vec<u8>) -> (r: bool)
    ensures
        r == (x@ == y@),
{
    if x.len() != y.len() {
        return false;
    }
    let mut i: usize = 0;
    while i < x.len()
        invariant
            i <= x@.len(),
            x@.len() == y@.len(),
            forall|j: int| 0 <= j < i ==> x@[j] == y@[j],
        decreases x@.len() - i,
    {
        if x[i] != y[i] {
            return false;
        }
        i = i + 1;
    }
    assert(x@ =~= y@);
    true
}

} // verus!
