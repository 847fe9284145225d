//! The dialect-neutral application value that the encoder renders into SQL
//! literals. Dates and timestamps are held as plain calendar fields; decimal
//! and floating-point numbers are held as their locale-independent decimal
//! text, rendered by the caller.
use vstd::prelude::*;

verus! {

/// A calendar date, held as plain fields.
#[derive(Clone, Copy, Debug, PartialEq)]
pub struct SqlDate {
    pub year: u16,
    pub month: u8,
    pub day: u8,
}

impl SqlDate {
    /// A date the `YYYY-MM-DD` rendering is defined for.
    pub open spec fn wf(self) -> bool {
        self.year <= 9999 && 1 <= self.month <= 12 && 1 <= self.day <= 31
    }
}

/// A UTC timestamp, held as plain fields; `nanos` is the fractional second
/// in nanoseconds.
#[derive(Clone, Copy, Debug, PartialEq)]
pub struct SqlDateTime {
    pub date: SqlDate,
    pub hour: u8,
    pub minute: u8,
    pub second: u8,
    pub nanos: u32,
}

impl SqlDateTime {
    /// A timestamp the rendering is defined for.
    pub open spec fn wf(self) -> bool {
        self.date.wf() && self.hour <= 23 && self.minute <= 59 && self.second <= 59
            && self.nanos <= 999_999_999
    }
}

/// A typed application value, as the encoder receives it. `Decimal` carries
/// the number's decimal text, already rendered locale-independently by the
/// caller; it stands in for both exact decimals and floating-point numbers.
#[derive(Debug, PartialEq)]
pub enum Value {
    Null,
    ObjectId(String),
    Bool(bool),
    I8(i8),
    I16(i16),
    I32(i32),
    I64(i64),
    I128(i128),
    U8(u8),
    U16(u16),
    U32(u32),
    U64(u64),
    U128(u128),
    Decimal(String),
    String(String),
    Date(SqlDate),
    DateTime(SqlDateTime),
    Vec(Vec<Value>),
}

/// The mathematical content of a value: strings as character sequences,
/// composites as sequences of contents.
pub ghost enum ValueModel {
    Null,
    ObjectId(Seq<char>),
    Bool(bool),
    I8(i8),
    I16(i16),
    I32(i32),
    I64(i64),
    I128(i128),
    U8(u8),
    U16(u16),
    U32(u32),
    U64(u64),
    U128(u128),
    Decimal(Seq<char>),
    String(Seq<char>),
    Date(SqlDate),
    DateTime(SqlDateTime),
    Vec(Seq<ValueModel>),
}

/// The mathematical content of `v`.
pub open spec fn value_model(v: Value) -> ValueModel
    decreases v,
{
    match v {
        Value::Null => ValueModel::Null,
        Value::ObjectId(s) => ValueModel::ObjectId(s@),
        Value::Bool(b) => ValueModel::Bool(b),
        Value::I8(x) => ValueModel::I8(x),
        Value::I16(x) => ValueModel::I16(x),
        Value::I32(x) => ValueModel::I32(x),
        Value::I64(x) => ValueModel::I64(x),
        Value::I128(x) => ValueModel::I128(x),
        Value::U8(x) => ValueModel::U8(x),
        Value::U16(x) => ValueModel::U16(x),
        Value::U32(x) => ValueModel::U32(x),
        Value::U64(x) => ValueModel::U64(x),
        Value::U128(x) => ValueModel::U128(x),
        Value::Decimal(s) => ValueModel::Decimal(s@),
        Value::String(s) => ValueModel::String(s@),
        Value::Date(d) => ValueModel::Date(d),
        Value::DateTime(d) => ValueModel::DateTime(d),
        Value::Vec(items) => ValueModel::Vec(
            Seq::new(
                items@.len(),
                |i: int|
                    if 0 <= i < items@.len() {
                        value_model(items@[i])
                    } else {
                        ValueModel::Null
                    },
            ),
        ),
    }
}

impl View for Value {
    type V = ValueModel;

    open spec fn view(&self) -> ValueModel {
        value_model(*self)
    }
}

/// An owned copy of each element, with the same contents.
fn clone_values(items: &Vec<Value>) -> (r: Vec<Value>)
    ensures
        r@.len() == items@.len(),
        forall|i: int| 0 <= i < items@.len() ==> #[trigger] r@[i]@ == items@[i]@,
    decreases items,
{
    let mut out: Vec<Value> = Vec::new();
    let mut i: usize = 0;
    while i < items.len()
        invariant
            0 <= i <= items@.len(),
            out@.len() == i,
            forall|k: int| 0 <= k < i ==> #[trigger] out@[k]@ == items@[k]@,
        decreases items@.len() - i,
    {
        proof {
            assert(decreases_to!(*items => items[i as int]));
        }
        let copied = items[i].clone();
        out.push(copied);
        i += 1;
    }
    out
}

impl Clone for Value {
    /// A copy with the same contents as the original.
    fn clone(&self) -> (r: Self)
        ensures
            r@ == self@,
        decreases self,
    {
        match self {
            Value::Null => Value::Null,
            Value::ObjectId(s) => Value::ObjectId(s.clone()),
            Value::Bool(b) => Value::Bool(*b),
            Value::I8(v) => Value::I8(*v),
            Value::I16(v) => Value::I16(*v),
            Value::I32(v) => Value::I32(*v),
            Value::I64(v) => Value::I64(*v),
            Value::I128(v) => Value::I128(*v),
            Value::U8(v) => Value::U8(*v),
            Value::U16(v) => Value::U16(*v),
            Value::U32(v) => Value::U32(*v),
            Value::U64(v) => Value::U64(*v),
            Value::U128(v) => Value::U128(*v),
            Value::Decimal(s) => Value::Decimal(s.clone()),
            Value::String(s) => Value::String(s.clone()),
            Value::Date(d) => Value::Date(*d),
            Value::DateTime(d) => Value::DateTime(*d),
            Value::Vec(items) => {
                let out = clone_values(items);
                let r = Value::Vec(out);
                proof {
                    let ghost a = value_model(r)->Vec_0;
                    let ghost b = value_model(*self)->Vec_0;
                    assert(a.len() == b.len());
                    assert forall|i: int| 0 <= i < b.len() implies a[i] == b[i] by {
                        assert(out@[i]@ == items@[i]@);
                    }
                    assert(a =~= b);
                }
                r
            },
        }
    }
}

impl Value {
    /// The mathematical integer a numeric variant holds, if any.
    pub open spec fn int_val(self) -> Option<int> {
        match self {
            Value::I8(v) => Some(v as int),
            Value::I16(v) => Some(v as int),
            Value::I32(v) => Some(v as int),
            Value::I64(v) => Some(v as int),
            Value::I128(v) => Some(v as int),
            Value::U8(v) => Some(v as int),
            Value::U16(v) => Some(v as int),
            Value::U32(v) => Some(v as int),
            Value::U64(v) => Some(v as int),
            Value::U128(v) => Some(v as int),
            _ => None,
        }
    }

    /// Whether the value is the null value.
    pub fn is_null(&self) -> (r: bool)
        ensures
            r == (self is Null),
    {
        match self {
            Value::Null => true,
            _ => false,
        }
    }

    /// The borrowed text of a string-like variant.
    pub fn as_str(&self) -> (r: Option<&str>)
        ensures
            match self {
                Value::String(v) => r matches Some(s) && s@ == v@,
                Value::ObjectId(v) => r matches Some(s) && s@ == v@,
                _ => r is None,
            },
    {
        match self {
            Value::String(v) => Some(v.as_str()),
            Value::ObjectId(v) => Some(v.as_str()),
            _ => None,
        }
    }

    /// The owned text of a string-like variant.
    pub fn as_string(&self) -> (r: Option<String>)
        ensures
            match self {
                Value::String(v) => r matches Some(s) && s@ == v@,
                Value::ObjectId(v) => r matches Some(s) && s@ == v@,
                _ => r is None,
            },
    {
        match self {
            Value::String(v) => Some(v.clone()),
            Value::ObjectId(v) => Some(v.clone()),
            _ => None,
        }
    }

    /// The held boolean.
    pub fn as_bool(&self) -> (r: Option<bool>)
        ensures
            match self {
                Value::Bool(b) => r == Some(*b),
                _ => r is None,
            },
    {
        match self {
            Value::Bool(b) => Some(*b),
            _ => None,
        }
    }

    /// The held elements of a composite value.
    pub fn as_vec(&self) -> (r: Option<&Vec<Value>>)
        ensures
            match self {
                Value::Vec(v) => r matches Some(items) && items@ == v@,
                _ => r is None,
            },
    {
        match self {
            Value::Vec(v) => Some(v),
            _ => None,
        }
    }

    /// Any integer variant, as an `i64`, when its value fits.
    pub fn as_i64(&self) -> (r: Option<i64>)
        ensures
            r == match self.int_val() {
                Some(k) => if i64::MIN <= k <= i64::MAX {
                    Some(k as i64)
                } else {
                    None::<i64>
                },
                None => None::<i64>,
            },
    {
        match self {
            Value::I8(v) => Some(*v as i64),
            Value::I16(v) => Some(*v as i64),
            Value::I32(v) => Some(*v as i64),
            Value::I64(v) => Some(*v),
            Value::I128(v) => if i64::MIN as i128 <= *v && *v <= i64::MAX as i128 {
                Some(*v as i64)
            } else {
                None
            },
            Value::U8(v) => Some(*v as i64),
            Value::U16(v) => Some(*v as i64),
            Value::U32(v) => Some(*v as i64),
            Value::U64(v) => if *v <= i64::MAX as u64 {
                Some(*v as i64)
            } else {
                None
            },
            Value::U128(v) => if *v <= i64::MAX as u128 {
                Some(*v as i64)
            } else {
                None
            },
            _ => None,
        }
    }

    /// Any integer variant, as a `u64`, when its value fits.
    pub fn as_u64(&self) -> (r: Option<u64>)
        ensures
            r == match self.int_val() {
                Some(k) => if 0 <= k <= u64::MAX {
                    Some(k as u64)
                } else {
                    None::<u64>
                },
                None => None::<u64>,
            },
    {
        match self {
            Value::I8(v) => if *v >= 0 {
                Some(*v as u64)
            } else {
                None
            },
            Value::I16(v) => if *v >= 0 {
                Some(*v as u64)
            } else {
                None
            },
            Value::I32(v) => if *v >= 0 {
                Some(*v as u64)
            } else {
                None
            },
            Value::I64(v) => if *v >= 0 {
                Some(*v as u64)
            } else {
                None
            },
            Value::I128(v) => if 0 <= *v && *v <= u64::MAX as i128 {
                Some(*v as u64)
            } else {
                None
            },
            Value::U8(v) => Some(*v as u64),
            Value::U16(v) => Some(*v as u64),
            Value::U32(v) => Some(*v as u64),
            Value::U64(v) => Some(*v),
            Value::U128(v) => if *v <= u64::MAX as u128 {
                Some(*v as u64)
            } else {
                None
            },
            _ => None,
        }
    }

    /// Any integer variant, as an `i8`, when its value fits.
    pub fn as_i8(&self) -> (r: Option<i8>)
        ensures
            r == match self.int_val() {
                Some(k) => if i8::MIN <= k <= i8::MAX {
                    Some(k as i8)
                } else {
                    None::<i8>
                },
                None => None::<i8>,
            },
    {
        match self.as_i64() {
            Some(v) => if i8::MIN as i64 <= v && v <= i8::MAX as i64 {
                Some(v as i8)
            } else {
                None
            },
            None => None,
        }
    }

    /// Any integer variant, as an `i16`, when its value fits.
    pub fn as_i16(&self) -> (r: Option<i16>)
        ensures
            r == match self.int_val() {
                Some(k) => if i16::MIN <= k <= i16::MAX {
                    Some(k as i16)
                } else {
                    None::<i16>
                },
                None => None::<i16>,
            },
    {
        match self.as_i64() {
            Some(v) => if i16::MIN as i64 <= v && v <= i16::MAX as i64 {
                Some(v as i16)
            } else {
                None
            },
            None => None,
        }
    }

    /// Any integer variant, as an `i32`, when its value fits.
    pub fn as_i32(&self) -> (r: Option<i32>)
        ensures
            r == match self.int_val() {
                Some(k) => if i32::MIN <= k <= i32::MAX {
                    Some(k as i32)
                } else {
                    None::<i32>
                },
                None => None::<i32>,
            },
    {
        match self.as_i64() {
            Some(v) => if i32::MIN as i64 <= v && v <= i32::MAX as i64 {
                Some(v as i32)
            } else {
                None
            },
            None => None,
        }
    }

    /// Any integer variant, as an `i128`, when its value fits.
    pub fn as_i128(&self) -> (r: Option<i128>)
        ensures
            r == match self.int_val() {
                Some(k) => if i128::MIN <= k <= i128::MAX {
                    Some(k as i128)
                } else {
                    None::<i128>
                },
                None => None::<i128>,
            },
    {
        match self {
            Value::I8(v) => Some(*v as i128),
            Value::I16(v) => Some(*v as i128),
            Value::I32(v) => Some(*v as i128),
            Value::I64(v) => Some(*v as i128),
            Value::I128(v) => Some(*v),
            Value::U8(v) => Some(*v as i128),
            Value::U16(v) => Some(*v as i128),
            Value::U32(v) => Some(*v as i128),
            Value::U64(v) => Some(*v as i128),
            Value::U128(v) => if *v <= i128::MAX as u128 {
                Some(*v as i128)
            } else {
                None
            },
            _ => None,
        }
    }

    /// Any integer variant, as a `u8`, when its value fits.
    pub fn as_u8(&self) -> (r: Option<u8>)
        ensures
            r == match self.int_val() {
                Some(k) => if 0 <= k <= u8::MAX {
                    Some(k as u8)
                } else {
                    None::<u8>
                },
                None => None::<u8>,
            },
    {
        match self.as_u64() {
            Some(v) => if v <= u8::MAX as u64 {
                Some(v as u8)
            } else {
                None
            },
            None => None,
        }
    }

    /// Any integer variant, as a `u16`, when its value fits.
    pub fn as_u16(&self) -> (r: Option<u16>)
        ensures
            r == match self.int_val() {
                Some(k) => if 0 <= k <= u16::MAX {
                    Some(k as u16)
                } else {
                    None::<u16>
                },
                None => None::<u16>,
            },
    {
        match self.as_u64() {
            Some(v) => if v <= u16::MAX as u64 {
                Some(v as u16)
            } else {
                None
            },
            None => None,
        }
    }

    /// Any integer variant, as a `u32`, when its value fits.
    pub fn as_u32(&self) -> (r: Option<u32>)
        ensures
            r == match self.int_val() {
                Some(k) => if 0 <= k <= u32::MAX {
                    Some(k as u32)
                } else {
                    None::<u32>
                },
                None => None::<u32>,
            },
    {
        match self.as_u64() {
            Some(v) => if v <= u32::MAX as u64 {
                Some(v as u32)
            } else {
                None
            },
            None => None,
        }
    }

    /// Any integer variant, as a `u128`, when its value is not negative.
    pub fn as_u128(&self) -> (r: Option<u128>)
        ensures
            r == match self.int_val() {
                Some(k) => if 0 <= k <= u128::MAX {
                    Some(k as u128)
                } else {
                    None::<u128>
                },
                None => None::<u128>,
            },
    {
        match self {
            Value::I8(v) => if *v >= 0 {
                Some(*v as u128)
            } else {
                None
            },
            Value::I16(v) => if *v >= 0 {
                Some(*v as u128)
            } else {
                None
            },
            Value::I32(v) => if *v >= 0 {
                Some(*v as u128)
            } else {
                None
            },
            Value::I64(v) => if *v >= 0 {
                Some(*v as u128)
            } else {
                None
            },
            Value::I128(v) => if *v >= 0 {
                Some(*v as u128)
            } else {
                None
            },
            Value::U8(v) => Some(*v as u128),
            Value::U16(v) => Some(*v as u128),
            Value::U32(v) => Some(*v as u128),
            Value::U64(v) => Some(*v as u128),
            Value::U128(v) => Some(*v),
            _ => None,
        }
    }

    /// Any integer variant, as a `usize`, when its value fits.
    pub fn as_usize(&self) -> (r: Option<usize>)
        ensures
            r == match self.int_val() {
                Some(k) => if 0 <= k <= usize::MAX {
                    Some(k as usize)
                } else {
                    None::<usize>
                },
                None => None::<usize>,
            },
    {
        match self.as_u64() {
            Some(v) => if v <= usize::MAX as u64 {
                Some(v as usize)
            } else {
                None
            },
            None => None,
        }
    }
}

} // verus!
