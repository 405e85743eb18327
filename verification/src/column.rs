//! Column types, columns of values held in an arena, and literal values.
use vstd::prelude::*;
use crate::arena::{alloc_slice_copy, alloc_slice_fill_copy};
use crate::scalar::{field, pow10, Scalar};

verus! {

/// The type of a column or of an expression.
#[derive(Clone, Copy, Debug, PartialEq, Eq, Structural)]
pub enum ColumnType {
    Boolean,
    Uint8,
    TinyInt,
    SmallInt,
    Int,
    BigInt,
    Int128,
    /// A decimal with a precision and a scale.
    Decimal75(u8, i8),
    Scalar,
}

/// Whether values of the type are integers.
pub open spec fn is_integer_type(t: ColumnType) -> bool {
    match t {
        ColumnType::Uint8 | ColumnType::TinyInt | ColumnType::SmallInt | ColumnType::Int
        | ColumnType::BigInt | ColumnType::Int128 => true,
        _ => false,
    }
}

/// Whether values of the type are signed integers.
pub open spec fn is_signed_integer_type(t: ColumnType) -> bool {
    is_integer_type(t) && t != ColumnType::Uint8
}

/// The number of bits of an integer type.
pub open spec fn integer_bits(t: ColumnType) -> nat {
    match t {
        ColumnType::Uint8 => 8,
        ColumnType::TinyInt => 8,
        ColumnType::SmallInt => 16,
        ColumnType::Int => 32,
        ColumnType::BigInt => 64,
        ColumnType::Int128 => 128,
        _ => 0,
    }
}

/// The least value of an integer type.
pub open spec fn integer_min(t: ColumnType) -> int {
    match t {
        ColumnType::Uint8 => 0,
        ColumnType::TinyInt => i8::MIN as int,
        ColumnType::SmallInt => i16::MIN as int,
        ColumnType::Int => i32::MIN as int,
        ColumnType::BigInt => i64::MIN as int,
        ColumnType::Int128 => i128::MIN as int,
        _ => 0,
    }
}

/// The greatest value of an integer type.
pub open spec fn integer_max(t: ColumnType) -> int {
    match t {
        ColumnType::Uint8 => u8::MAX as int,
        ColumnType::TinyInt => i8::MAX as int,
        ColumnType::SmallInt => i16::MAX as int,
        ColumnType::Int => i32::MAX as int,
        ColumnType::BigInt => i64::MAX as int,
        ColumnType::Int128 => i128::MAX as int,
        _ => 0,
    }
}

/// Whether `v` is a value of the integer type `t`.
pub open spec fn fits(t: ColumnType, v: int) -> bool {
    integer_min(t) <= v <= integer_max(t)
}

impl ColumnType {
    /// Whether values of the type are integers.
    pub fn is_integer(&self) -> (r: bool)
        ensures
            r == is_integer_type(*self),
    {
        match self {
            ColumnType::Uint8 | ColumnType::TinyInt | ColumnType::SmallInt | ColumnType::Int
            | ColumnType::BigInt | ColumnType::Int128 => true,
            _ => false,
        }
    }
}

/// A column: the values of one field over the rows of a table, held in an
/// arena.
#[derive(Clone, Copy, Debug, PartialEq)]
pub enum Column<'a> {
    Boolean(&'a [bool]),
    Uint8(&'a [u8]),
    TinyInt(&'a [i8]),
    SmallInt(&'a [i16]),
    Int(&'a [i32]),
    BigInt(&'a [i64]),
    Int128(&'a [i128]),
    /// Decimal values with a precision and a scale, each held as the scalar
    /// of its unscaled integer.
    Decimal75(u8, i8, &'a [Scalar]),
    Scalar(&'a [Scalar]),
}

/// What a column holds: its type, its values as integers (for an integer
/// column) and its values as scalars.
pub struct ColumnView {
    pub column_type: ColumnType,
    pub ints: Seq<int>,
    pub scalars: Seq<nat>,
}

impl<'a> View for Column<'a> {
    type V = ColumnView;

    open spec fn view(&self) -> ColumnView {
        ColumnView {
            column_type: self.spec_column_type(),
            ints: self.int_values(),
            scalars: self.scalar_values(),
        }
    }
}

/// The view of an integer column of type `t` holding `ints`.
pub open spec fn integer_column_view(t: ColumnType, ints: Seq<int>) -> ColumnView {
    ColumnView { column_type: t, ints, scalars: ints.map_values(|v: int| field(v)) }
}

/// The view of an integer column: as many integers as scalars, each scalar
/// the field element of its integer.
pub open spec fn integer_view_wf(v: ColumnView) -> bool {
    &&& v.ints.len() == v.scalars.len()
    &&& forall|i: int| 0 <= i < v.scalars.len() ==> #[trigger] v.scalars[i] == field(v.ints[i])
}

/// Every integer of the view is a value of its column's type.
pub open spec fn integer_values_fit(v: ColumnView) -> bool {
    forall|i: int| 0 <= i < v.ints.len() ==> fits(v.column_type, #[trigger] v.ints[i])
}

/// The view of a column of `n` rows that each hold `literal`.
pub open spec fn literal_column_view(literal: LiteralValue, n: nat) -> ColumnView {
    ColumnView {
        column_type: literal.spec_column_type(),
        ints: if is_integer_type(literal.spec_column_type()) {
            Seq::new(n, |i: int| literal.int_value())
        } else {
            Seq::empty()
        },
        scalars: Seq::new(n, |i: int| literal.spec_to_scalar()),
    }
}

pub open spec fn bool_to_nat(b: bool) -> nat {
    if b {
        1
    } else {
        0
    }
}

impl<'a> Column<'a> {
    /// The number of rows.
    pub open spec fn spec_len(&self) -> nat {
        match self {
            Column::Boolean(s) => s@.len(),
            Column::Uint8(s) => s@.len(),
            Column::TinyInt(s) => s@.len(),
            Column::SmallInt(s) => s@.len(),
            Column::Int(s) => s@.len(),
            Column::BigInt(s) => s@.len(),
            Column::Int128(s) => s@.len(),
            Column::Decimal75(_, _, s) => s@.len(),
            Column::Scalar(s) => s@.len(),
        }
    }

    pub open spec fn spec_column_type(&self) -> ColumnType {
        match self {
            Column::Boolean(_) => ColumnType::Boolean,
            Column::Uint8(_) => ColumnType::Uint8,
            Column::TinyInt(_) => ColumnType::TinyInt,
            Column::SmallInt(_) => ColumnType::SmallInt,
            Column::Int(_) => ColumnType::Int,
            Column::BigInt(_) => ColumnType::BigInt,
            Column::Int128(_) => ColumnType::Int128,
            Column::Decimal75(p, s, _) => ColumnType::Decimal75(*p, *s),
            Column::Scalar(_) => ColumnType::Scalar,
        }
    }

    /// The values of an integer column, as integers.
    pub open spec fn int_values(&self) -> Seq<int> {
        match self {
            Column::Uint8(s) => s@.map_values(|v: u8| v as int),
            Column::TinyInt(s) => s@.map_values(|v: i8| v as int),
            Column::SmallInt(s) => s@.map_values(|v: i16| v as int),
            Column::Int(s) => s@.map_values(|v: i32| v as int),
            Column::BigInt(s) => s@.map_values(|v: i64| v as int),
            Column::Int128(s) => s@.map_values(|v: i128| v as int),
            _ => Seq::empty(),
        }
    }

    /// The values of the column as scalars: booleans as zero and one,
    /// integers as their field elements, decimals and scalars as held.
    pub open spec fn scalar_values(&self) -> Seq<nat> {
        match self {
            Column::Boolean(s) => s@.map_values(|v: bool| bool_to_nat(v)),
            Column::Decimal75(_, _, s) => s@.map_values(|v: Scalar| v@),
            Column::Scalar(s) => s@.map_values(|v: Scalar| v@),
            _ => self.int_values().map_values(|v: int| field(v)),
        }
    }

    /// An integer column's view is that of an integer column.
    pub proof fn lemma_integer_view_wf(&self)
        requires
            is_integer_type(self.spec_column_type()),
        ensures
            integer_view_wf(self@),
    {
    }

    /// The integers of an integer column are values of its type.
    pub proof fn lemma_integer_values_fit(&self)
        requires
            is_integer_type(self.spec_column_type()),
        ensures
            integer_values_fit(self@),
    {
        assert forall|i: int| 0 <= i < self@.ints.len() implies fits(self@.column_type, #[trigger] self@.ints[i]) by {
            match self {
                Column::Uint8(s) => assert(self@.ints[i] == s@[i] as int),
                Column::TinyInt(s) => assert(self@.ints[i] == s@[i] as int),
                Column::SmallInt(s) => assert(self@.ints[i] == s@[i] as int),
                Column::Int(s) => assert(self@.ints[i] == s@[i] as int),
                Column::BigInt(s) => assert(self@.ints[i] == s@[i] as int),
                Column::Int128(s) => assert(self@.ints[i] == s@[i] as int),
                _ => {},
            }
        }
    }

    /// A column has as many scalars as rows.
    pub broadcast proof fn lemma_scalar_values_len(&self)
        ensures
            #[trigger] self.scalar_values().len() == self.spec_len(),
    {
    }

    /// The row of an integer column holds, as a scalar, the field element of
    /// its integer.
    pub proof fn lemma_integer_view(&self, i: int)
        requires
            is_integer_type(self.spec_column_type()),
            0 <= i < self.spec_len(),
        ensures
            self.int_values().len() == self.spec_len(),
            self.scalar_values().len() == self.spec_len(),
            self.scalar_values()[i] == field(self.int_values()[i]),
    {
    }

    /// The number of rows.
    pub fn len(&self) -> (r: usize)
        ensures
            r == self.spec_len(),
    {
        match self {
            Column::Boolean(s) => s.len(),
            Column::Uint8(s) => s.len(),
            Column::TinyInt(s) => s.len(),
            Column::SmallInt(s) => s.len(),
            Column::Int(s) => s.len(),
            Column::BigInt(s) => s.len(),
            Column::Int128(s) => s.len(),
            Column::Decimal75(_, _, s) => s.len(),
            Column::Scalar(s) => s.len(),
        }
    }

    /// The type of the column.
    pub fn column_type(&self) -> (r: ColumnType)
        ensures
            r == self.spec_column_type(),
    {
        match self {
            Column::Boolean(_) => ColumnType::Boolean,
            Column::Uint8(_) => ColumnType::Uint8,
            Column::TinyInt(_) => ColumnType::TinyInt,
            Column::SmallInt(_) => ColumnType::SmallInt,
            Column::Int(_) => ColumnType::Int,
            Column::BigInt(_) => ColumnType::BigInt,
            Column::Int128(_) => ColumnType::Int128,
            Column::Decimal75(p, s, _) => ColumnType::Decimal75(*p, *s),
            Column::Scalar(_) => ColumnType::Scalar,
        }
    }

    /// The integer in row `i` of an integer column.
    pub fn int_at(&self, i: usize) -> (r: i128)
        requires
            is_integer_type(self.spec_column_type()),
            i < self.spec_len(),
        ensures
            r == self.int_values()[i as int],
    {
        match self {
            Column::Uint8(s) => s[i] as i128,
            Column::TinyInt(s) => s[i] as i128,
            Column::SmallInt(s) => s[i] as i128,
            Column::Int(s) => s[i] as i128,
            Column::BigInt(s) => s[i] as i128,
            Column::Int128(s) => s[i],
            _ => 0,
        }
    }

    /// The scalar in row `i`, or `None` past the last row.
    pub fn scalar_at(&self, i: usize) -> (r: Option<Scalar>)
        ensures
            r.is_some() == (i < self.spec_len()),
            r.is_some() ==> r.unwrap()@ == self.scalar_values()[i as int],
    {
        if i >= self.len() {
            return None;
        }
        match self {
            Column::Boolean(s) => Some(Scalar::from_bool(s[i])),
            Column::Decimal75(_, _, s) => Some(s[i]),
            Column::Scalar(s) => Some(s[i]),
            _ => Some(Scalar::from_i128(self.int_at(i))),
        }
    }

    /// The scalars of the column, each multiplied by `10^scale`.
    pub fn to_scalar_with_scaling(&self, scale: i8) -> (r: Vec<Scalar>)
        requires
            scale >= 0,
        ensures
            r@.len() == self.spec_len(),
            forall|i: int|
                0 <= i < r@.len() ==> #[trigger] r@[i]@ == field(
                    self.scalar_values()[i] * pow10(scale as nat),
                ),
    {
        let factor = Scalar::pow10(scale as u8);
        let n = self.len();
        let mut out: Vec<Scalar> = Vec::new();
        let mut i: usize = 0;
        while i < n
            invariant
                n == self.spec_len(),
                i <= n,
                scale >= 0,
                factor@ == field(pow10(scale as nat)),
                out@.len() == i,
                forall|j: int|
                    0 <= j < i ==> #[trigger] out@[j]@ == field(
                        self.scalar_values()[j] * pow10(scale as nat),
                    ),
            decreases n - i,
        {
            let s = self.scalar_at(i).unwrap();
            let v = s.times(&factor);
            proof {
                crate::scalar::lemma_field_times_right(
                    self.scalar_values()[i as int] as int,
                    pow10(scale as nat),
                );
            }
            out.push(v);
            i = i + 1;
        }
        out
    }

    /// A column of `length` rows, each holding `literal`.
    pub fn from_literal_with_length(literal: &LiteralValue, length: usize, alloc: &'a bumpalo::Bump) -> (r: Column<'a>)
        ensures
            r@ == literal_column_view(*literal, length as nat),
            r.spec_column_type() == literal.spec_column_type(),
            r.spec_len() == length,
            forall|i: int| 0 <= i < length ==> #[trigger] r.scalar_values()[i] == literal.spec_to_scalar(),
            is_integer_type(r.spec_column_type()) ==> forall|i: int|
                0 <= i < length ==> #[trigger] r.int_values()[i] == literal.int_value(),
    {
        let r = match literal {
            LiteralValue::Boolean(v) => Column::Boolean(alloc_slice_fill_copy(alloc, length, *v)),
            LiteralValue::Uint8(v) => Column::Uint8(alloc_slice_fill_copy(alloc, length, *v)),
            LiteralValue::TinyInt(v) => Column::TinyInt(alloc_slice_fill_copy(alloc, length, *v)),
            LiteralValue::SmallInt(v) => Column::SmallInt(alloc_slice_fill_copy(alloc, length, *v)),
            LiteralValue::Int(v) => Column::Int(alloc_slice_fill_copy(alloc, length, *v)),
            LiteralValue::BigInt(v) => Column::BigInt(alloc_slice_fill_copy(alloc, length, *v)),
            LiteralValue::Int128(v) => Column::Int128(alloc_slice_fill_copy(alloc, length, *v)),
            LiteralValue::Decimal75(p, s, v) => Column::Decimal75(*p, *s, alloc_slice_fill_copy(alloc, length, *v)),
            LiteralValue::Scalar(v) => Column::Scalar(alloc_slice_fill_copy(alloc, length, *v)),
        };
        proof {
            let view = literal_column_view(*literal, length as nat);
            assert(r.scalar_values() =~= view.scalars);
            assert(r.int_values() =~= view.ints);
        }
        r
    }
}

/// A single value of one of the column types.
#[derive(Clone, Copy, Debug, PartialEq)]
pub enum LiteralValue {
    Boolean(bool),
    Uint8(u8),
    TinyInt(i8),
    SmallInt(i16),
    Int(i32),
    BigInt(i64),
    Int128(i128),
    /// A decimal with a precision and a scale, held as the scalar of its
    /// unscaled integer.
    Decimal75(u8, i8, Scalar),
    Scalar(Scalar),
}

impl LiteralValue {
    pub open spec fn spec_column_type(&self) -> ColumnType {
        match self {
            LiteralValue::Boolean(_) => ColumnType::Boolean,
            LiteralValue::Uint8(_) => ColumnType::Uint8,
            LiteralValue::TinyInt(_) => ColumnType::TinyInt,
            LiteralValue::SmallInt(_) => ColumnType::SmallInt,
            LiteralValue::Int(_) => ColumnType::Int,
            LiteralValue::BigInt(_) => ColumnType::BigInt,
            LiteralValue::Int128(_) => ColumnType::Int128,
            LiteralValue::Decimal75(p, s, _) => ColumnType::Decimal75(*p, *s),
            LiteralValue::Scalar(_) => ColumnType::Scalar,
        }
    }

    /// The value of an integer literal.
    pub open spec fn int_value(&self) -> int {
        match self {
            LiteralValue::Uint8(v) => *v as int,
            LiteralValue::TinyInt(v) => *v as int,
            LiteralValue::SmallInt(v) => *v as int,
            LiteralValue::Int(v) => *v as int,
            LiteralValue::BigInt(v) => *v as int,
            LiteralValue::Int128(v) => *v as int,
            _ => 0,
        }
    }

    /// The literal as a scalar.
    pub open spec fn spec_to_scalar(&self) -> nat {
        match self {
            LiteralValue::Boolean(b) => bool_to_nat(*b),
            LiteralValue::Decimal75(_, _, s) => s@,
            LiteralValue::Scalar(s) => s@,
            _ => field(self.int_value()),
        }
    }

    /// The type of the literal.
    pub fn column_type(&self) -> (r: ColumnType)
        ensures
            r == self.spec_column_type(),
    {
        match self {
            LiteralValue::Boolean(_) => ColumnType::Boolean,
            LiteralValue::Uint8(_) => ColumnType::Uint8,
            LiteralValue::TinyInt(_) => ColumnType::TinyInt,
            LiteralValue::SmallInt(_) => ColumnType::SmallInt,
            LiteralValue::Int(_) => ColumnType::Int,
            LiteralValue::BigInt(_) => ColumnType::BigInt,
            LiteralValue::Int128(_) => ColumnType::Int128,
            LiteralValue::Decimal75(p, s, _) => ColumnType::Decimal75(*p, *s),
            LiteralValue::Scalar(_) => ColumnType::Scalar,
        }
    }

    /// The literal as a scalar.
    pub fn to_scalar(&self) -> (r: Scalar)
        ensures
            r@ == self.spec_to_scalar(),
    {
        match self {
            LiteralValue::Boolean(b) => Scalar::from_bool(*b),
            LiteralValue::Uint8(v) => Scalar::from_i128(*v as i128),
            LiteralValue::TinyInt(v) => Scalar::from_i128(*v as i128),
            LiteralValue::SmallInt(v) => Scalar::from_i128(*v as i128),
            LiteralValue::Int(v) => Scalar::from_i128(*v as i128),
            LiteralValue::BigInt(v) => Scalar::from_i128(*v as i128),
            LiteralValue::Int128(v) => Scalar::from_i128(*v),
            LiteralValue::Decimal75(_, _, s) => *s,
            LiteralValue::Scalar(s) => *s,
        }
    }
}

/// Either a whole column or a single literal that stands for every row.
#[derive(Clone, Copy, Debug, PartialEq)]
pub enum ColumnarValue<'a> {
    Column(Column<'a>),
    Literal(LiteralValue),
}

/// A column of the integer type `t` holding `values`, which must all be
/// values of `t`.
pub fn integer_column_from_values<'a>(alloc: &'a bumpalo::Bump, t: ColumnType, values: &Vec<i128>) -> (r: Column<'a>)
    requires
        is_integer_type(t),
        forall|i: int| 0 <= i < values@.len() ==> fits(t, #[trigger] values@[i] as int),
    ensures
        r.spec_column_type() == t,
        r.int_values() == values@.map_values(|v: i128| v as int),
        r@ == integer_column_view(t, values@.map_values(|v: i128| v as int)),
{
    match t {
        ColumnType::Uint8 => {
            let mut out: Vec<u8> = Vec::new();
            for i in 0..values.len()
                invariant
                    forall|j: int| 0 <= j < values@.len() ==> fits(t, #[trigger] values@[j] as int),
                    t == ColumnType::Uint8,
                    out@.len() == i,
                    forall|j: int| 0 <= j < i ==> #[trigger] out@[j] as int == values@[j] as int,
            {
                out.push(values[i] as u8);
            }
            let r = Column::Uint8(alloc_slice_copy(alloc, out.as_slice()));
            assert(r.int_values() =~= values@.map_values(|v: i128| v as int));
            r
        },
        ColumnType::TinyInt => {
            let mut out: Vec<i8> = Vec::new();
            for i in 0..values.len()
                invariant
                    forall|j: int| 0 <= j < values@.len() ==> fits(t, #[trigger] values@[j] as int),
                    t == ColumnType::TinyInt,
                    out@.len() == i,
                    forall|j: int| 0 <= j < i ==> #[trigger] out@[j] as int == values@[j] as int,
            {
                out.push(values[i] as i8);
            }
            let r = Column::TinyInt(alloc_slice_copy(alloc, out.as_slice()));
            assert(r.int_values() =~= values@.map_values(|v: i128| v as int));
            r
        },
        ColumnType::SmallInt => {
            let mut out: Vec<i16> = Vec::new();
            for i in 0..values.len()
                invariant
                    forall|j: int| 0 <= j < values@.len() ==> fits(t, #[trigger] values@[j] as int),
                    t == ColumnType::SmallInt,
                    out@.len() == i,
                    forall|j: int| 0 <= j < i ==> #[trigger] out@[j] as int == values@[j] as int,
            {
                out.push(values[i] as i16);
            }
            let r = Column::SmallInt(alloc_slice_copy(alloc, out.as_slice()));
            assert(r.int_values() =~= values@.map_values(|v: i128| v as int));
            r
        },
        ColumnType::Int => {
            let mut out: Vec<i32> = Vec::new();
            for i in 0..values.len()
                invariant
                    forall|j: int| 0 <= j < values@.len() ==> fits(t, #[trigger] values@[j] as int),
                    t == ColumnType::Int,
                    out@.len() == i,
                    forall|j: int| 0 <= j < i ==> #[trigger] out@[j] as int == values@[j] as int,
            {
                out.push(values[i] as i32);
            }
            let r = Column::Int(alloc_slice_copy(alloc, out.as_slice()));
            assert(r.int_values() =~= values@.map_values(|v: i128| v as int));
            r
        },
        ColumnType::BigInt => {
            let mut out: Vec<i64> = Vec::new();
            for i in 0..values.len()
                invariant
                    forall|j: int| 0 <= j < values@.len() ==> fits(t, #[trigger] values@[j] as int),
                    t == ColumnType::BigInt,
                    out@.len() == i,
                    forall|j: int| 0 <= j < i ==> #[trigger] out@[j] as int == values@[j] as int,
            {
                out.push(values[i] as i64);
            }
            let r = Column::BigInt(alloc_slice_copy(alloc, out.as_slice()));
            assert(r.int_values() =~= values@.map_values(|v: i128| v as int));
            r
        },
        _ => {
            let r = Column::Int128(alloc_slice_copy(alloc, values.as_slice()));
            assert(r.int_values() =~= values@.map_values(|v: i128| v as int));
            r
        },
    }
}

} // verus!
