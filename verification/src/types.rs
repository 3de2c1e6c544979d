//! The value-type lattice: signed and unsigned integers of parametrized
//! width, floating values, booleans and homogeneous arrays. A missing
//! width or element type is a wildcard that compares equal to any concrete
//! value of the same base kind.

use vstd::prelude::*;
use vstd::string::*;

use crate::text::str_eq;

verus! {

/// A value type of the language. Every variant wraps its own record so the
/// records can carry the (optional, wildcard-capable) size parameters.
#[derive(Debug)]
pub enum DataType {
    Int(Int),
    Uint(Uint),
    Float(Float),
    Bool(Bool),
    Array(Array),
}

/// The widths an integral type can take.
#[derive(Debug, Clone, Copy, PartialEq, Eq, Structural)]
pub enum IntegralSize {
    Int8,
    Int16,
    Int32,
    Int64,
    Int128,
}

/// The widths a floating type can take.
#[derive(Debug, Clone, Copy, PartialEq, Eq, Structural)]
pub enum FloatingSize {
    Float16,
    Float32,
    Float64,
    Float128,
}

/// A signed integer type; `size: None` is the width wildcard.
#[derive(Debug, Clone, Copy, PartialEq)]
pub struct Int {
    pub size: Option<IntegralSize>,
}

/// An unsigned integer type; `size: None` is the width wildcard.
#[derive(Debug, Clone, Copy, PartialEq)]
pub struct Uint {
    pub size: Option<IntegralSize>,
}

/// A floating type; `size: None` is the width wildcard.
#[derive(Debug, Clone, Copy, PartialEq)]
pub struct Float {
    pub size: Option<FloatingSize>,
}

/// The boolean type.
#[derive(Debug, Clone, Copy, PartialEq)]
pub struct Bool {}

/// A homogeneous array type; `typ: None` is the element wildcard.
#[derive(Debug)]
pub struct Array {
    pub typ: Option<Box<DataType>>,
}

impl Clone for DataType {
    fn clone(&self) -> (r: Self)
        ensures
            r == *self,
        decreases self,
    {
        match self {
            DataType::Int(x) => DataType::Int(*x),
            DataType::Uint(x) => DataType::Uint(*x),
            DataType::Float(x) => DataType::Float(*x),
            DataType::Bool(x) => DataType::Bool(*x),
            DataType::Array(x) => DataType::Array(x.clone()),
        }
    }
}

impl Clone for Array {
    fn clone(&self) -> (r: Self)
        ensures
            r == *self,
        decreases self,
    {
        match &self.typ {
            Some(e) => Array { typ: Some(Box::new((**e).clone())) },
            None => Array { typ: None },
        }
    }
}

/// Wildcard-aware type equality: two types are compatible when they have
/// the same base kind and their width/element parameters agree wherever
/// both are concrete.
pub open spec fn compat(a: DataType, b: DataType) -> bool
    decreases a,
{
    match (a, b) {
        (DataType::Int(x), DataType::Int(y)) => x.size is None || y.size is None || x.size
            == y.size,
        (DataType::Uint(x), DataType::Uint(y)) => x.size is None || y.size is None || x.size
            == y.size,
        (DataType::Float(x), DataType::Float(y)) => x.size is None || y.size is None || x.size
            == y.size,
        (DataType::Bool(_), DataType::Bool(_)) => true,
        (DataType::Array(x), DataType::Array(y)) => match (x.typ, y.typ) {
            (Some(p), Some(q)) => compat(*p, *q),
            _ => true,
        },
        _ => false,
    }
}

/// Wildcard-aware type equality is symmetric: whichever side carries the
/// wildcard, the comparison comes out the same.
pub proof fn lemma_compat_symmetric(a: DataType, b: DataType)
    ensures
        compat(a, b) == compat(b, a),
    decreases a,
{
    match (a, b) {
        (DataType::Array(x), DataType::Array(y)) => {
            match (x.typ, y.typ) {
                (Some(p), Some(q)) => lemma_compat_symmetric(*p, *q),
                _ => {},
            }
        },
        _ => {},
    }
}

/// A type with no wildcard anywhere compares equal only to itself.
pub proof fn lemma_compat_concrete(a: DataType, b: DataType)
    requires
        is_concrete(a),
        is_concrete(b),
    ensures
        compat(a, b) <==> a == b,
    decreases a,
{
    match (a, b) {
        (DataType::Array(x), DataType::Array(y)) => {
            match (x.typ, y.typ) {
                (Some(p), Some(q)) => lemma_compat_concrete(*p, *q),
                _ => {},
            }
        },
        _ => {},
    }
}

/// Does the type carry no wildcard at any depth?
pub open spec fn is_concrete(t: DataType) -> bool
    decreases t,
{
    match t {
        DataType::Int(x) => x.size is Some,
        DataType::Uint(x) => x.size is Some,
        DataType::Float(x) => x.size is Some,
        DataType::Bool(_) => true,
        DataType::Array(x) => match x.typ {
            Some(e) => is_concrete(*e),
            None => false,
        },
    }
}

/// The decimal spelling of an integral width.
pub open spec fn spec_integral_digits(s: IntegralSize) -> Seq<char> {
    match s {
        IntegralSize::Int8 => "8"@,
        IntegralSize::Int16 => "16"@,
        IntegralSize::Int32 => "32"@,
        IntegralSize::Int64 => "64"@,
        IntegralSize::Int128 => "128"@,
    }
}

/// The decimal spelling of a floating width.
pub open spec fn spec_floating_digits(s: FloatingSize) -> Seq<char> {
    match s {
        FloatingSize::Float16 => "16"@,
        FloatingSize::Float32 => "32"@,
        FloatingSize::Float64 => "64"@,
        FloatingSize::Float128 => "128"@,
    }
}

/// The rendered name of a type: `int32`, `uint8`, `float64`, `bool`,
/// `int32[]`, and so on. A width wildcard renders as the bare base name; an
/// element wildcard renders as `[]`.
pub open spec fn spec_name(t: DataType) -> Seq<char>
    decreases t,
{
    match t {
        DataType::Int(x) => "int"@ + match x.size {
            Some(s) => spec_integral_digits(s),
            None => ""@,
        },
        DataType::Uint(x) => "uint"@ + match x.size {
            Some(s) => spec_integral_digits(s),
            None => ""@,
        },
        DataType::Float(x) => "float"@ + match x.size {
            Some(s) => spec_floating_digits(s),
            None => ""@,
        },
        DataType::Bool(_) => "bool"@,
        DataType::Array(x) => (match x.typ {
            Some(e) => spec_name(*e),
            None => ""@,
        }) + "[]"@,
    }
}

/// The type a source name denotes, if any: `int8`..`int128`,
/// `uint8`..`uint128`, `float16`..`float128`, `bool`, or any of those
/// followed by `[]` for an array.
pub open spec fn spec_from_name(s: Seq<char>) -> Option<DataType>
    decreases s.len(),
{
    if s.len() > 3 && s.subrange(0, 3) == "int"@ && spec_integral_of(
        s.subrange(3, s.len() as int),
    ) is Some {
        Some(
            DataType::Int(Int { size: spec_integral_of(s.subrange(3, s.len() as int)) }),
        )
    } else if s.len() > 4 && s.subrange(0, 4) == "uint"@ && spec_integral_of(
        s.subrange(4, s.len() as int),
    ) is Some {
        Some(
            DataType::Uint(Uint { size: spec_integral_of(s.subrange(4, s.len() as int)) }),
        )
    } else if s.len() > 5 && s.subrange(0, 5) == "float"@ && spec_floating_of(
        s.subrange(5, s.len() as int),
    ) is Some {
        Some(
            DataType::Float(Float { size: spec_floating_of(s.subrange(5, s.len() as int)) }),
        )
    } else if s == "bool"@ {
        Some(DataType::Bool(Bool {}))
    } else if s.len() > 2 && s.subrange(s.len() - 2, s.len() as int) == "[]"@ && spec_from_name(
        s.subrange(0, s.len() - 2),
    ) is Some {
        match spec_from_name(s.subrange(0, s.len() - 2)) {
            Some(e) => Some(DataType::Array(Array { typ: Some(Box::new(e)) })),
            None => None,
        }
    } else {
        None
    }
}

/// The integral width a digit string denotes, if any.
pub open spec fn spec_integral_of(s: Seq<char>) -> Option<IntegralSize> {
    if s == "8"@ {
        Some(IntegralSize::Int8)
    } else if s == "16"@ {
        Some(IntegralSize::Int16)
    } else if s == "32"@ {
        Some(IntegralSize::Int32)
    } else if s == "64"@ {
        Some(IntegralSize::Int64)
    } else if s == "128"@ {
        Some(IntegralSize::Int128)
    } else {
        None
    }
}

/// The floating width a digit string denotes, if any.
pub open spec fn spec_floating_of(s: Seq<char>) -> Option<FloatingSize> {
    if s == "16"@ {
        Some(FloatingSize::Float16)
    } else if s == "32"@ {
        Some(FloatingSize::Float32)
    } else if s == "64"@ {
        Some(FloatingSize::Float64)
    } else if s == "128"@ {
        Some(FloatingSize::Float128)
    } else {
        None
    }
}

fn integral_of(s: &str) -> (r: Option<IntegralSize>)
    ensures
        r == spec_integral_of(s@),
{
    if str_eq(s, "8") {
        Some(IntegralSize::Int8)
    } else if str_eq(s, "16") {
        Some(IntegralSize::Int16)
    } else if str_eq(s, "32") {
        Some(IntegralSize::Int32)
    } else if str_eq(s, "64") {
        Some(IntegralSize::Int64)
    } else if str_eq(s, "128") {
        Some(IntegralSize::Int128)
    } else {
        None
    }
}

fn floating_of(s: &str) -> (r: Option<FloatingSize>)
    ensures
        r == spec_floating_of(s@),
{
    if str_eq(s, "16") {
        Some(FloatingSize::Float16)
    } else if str_eq(s, "32") {
        Some(FloatingSize::Float32)
    } else if str_eq(s, "64") {
        Some(FloatingSize::Float64)
    } else if str_eq(s, "128") {
        Some(FloatingSize::Float128)
    } else {
        None
    }
}

impl DataType {
    /// Resolve a source type name into a type, trying signed integers,
    /// unsigned integers, floats, booleans and arrays in that order.
    pub fn from(src: &String) -> (r: Option<DataType>)
        ensures
            r == spec_from_name(src@),
        decreases src@.len(), 1int,
    {
        if let Some(x) = Int::from(src) {
            Some(DataType::Int(x))
        } else if let Some(x) = Uint::from(src) {
            Some(DataType::Uint(x))
        } else if let Some(x) = Float::from(src) {
            Some(DataType::Float(x))
        } else if let Some(x) = Bool::from(src) {
            Some(DataType::Bool(x))
        } else if let Some(x) = Array::from(src) {
            Some(DataType::Array(x))
        } else {
            None
        }
    }

    /// Wildcard-aware equality against another type.
    pub fn eq(&self, x: &DataType) -> (r: bool)
        ensures
            r == compat(*self, *x),
        decreases self,
    {
        match (self, x) {
            (DataType::Int(a), DataType::Int(b)) => a.eq(b),
            (DataType::Uint(a), DataType::Uint(b)) => a.eq(b),
            (DataType::Float(a), DataType::Float(b)) => a.eq(b),
            (DataType::Bool(_), DataType::Bool(_)) => true,
            (DataType::Array(a), DataType::Array(b)) => a.eq(b),
            _ => false,
        }
    }

    /// The rendered name of the type.
    pub fn to_string(&self) -> (r: String)
        ensures
            r@ == spec_name(*self),
        decreases self,
    {
        match self {
            DataType::Int(x) => x.to_string(),
            DataType::Uint(x) => x.to_string(),
            DataType::Float(x) => x.to_string(),
            DataType::Bool(x) => x.to_string(),
            DataType::Array(x) => x.to_string(),
        }
    }
}

impl Int {
    /// A signed integer type of the given concrete width.
    pub fn new(size: IntegralSize) -> (r: DataType)
        ensures
            r == DataType::Int(Int { size: Some(size) }),
    {
        DataType::Int(Int { size: Some(size) })
    }

    /// Parse `int8`..`int128`.
    pub fn from(src: &String) -> (r: Option<Int>)
        ensures
            match r {
                Some(x) => src@.len() > 3 && src@.subrange(0, 3) == "int"@ && x.size is Some
                    && spec_integral_of(src@.subrange(3, src@.len() as int)) == x.size,
                None => !(src@.len() > 3 && src@.subrange(0, 3) == "int"@ && spec_integral_of(
                    src@.subrange(3, src@.len() as int),
                ) is Some),
            },
    {
        let n = src.as_str().unicode_len();
        if n > 3 && str_eq(src.as_str().substring_char(0, 3), "int") {
            if let Some(w) = integral_of(src.as_str().substring_char(3, n)) {
                return Some(Int { size: Some(w) });
            }
        }
        None
    }

    /// Wildcard-aware width comparison.
    pub fn eq(&self, x: &Int) -> (r: bool)
        ensures
            r == (self.size is None || x.size is None || self.size == x.size),
    {
        match (self.size, x.size) {
            (Some(a), Some(b)) => a == b,
            _ => true,
        }
    }

    pub fn to_string(&self) -> (r: String)
        ensures
            r@ == spec_name(DataType::Int(*self)),
    {
        let mut s = String::from_str("int");
        match self.size {
            Some(w) => s.append(integral_digits(w)),
            None => (),
        }
        proof {
            reveal_strlit("");
            assert(s@ =~= spec_name(DataType::Int(*self)));
        }
        s
    }
}

impl Uint {
    /// An unsigned integer type of the given concrete width.
    pub fn new(size: IntegralSize) -> (r: DataType)
        ensures
            r == DataType::Uint(Uint { size: Some(size) }),
    {
        DataType::Uint(Uint { size: Some(size) })
    }

    /// Parse `uint8`..`uint128`.
    pub fn from(src: &String) -> (r: Option<Uint>)
        ensures
            match r {
                Some(x) => src@.len() > 4 && src@.subrange(0, 4) == "uint"@ && x.size is Some
                    && spec_integral_of(src@.subrange(4, src@.len() as int)) == x.size,
                None => !(src@.len() > 4 && src@.subrange(0, 4) == "uint"@ && spec_integral_of(
                    src@.subrange(4, src@.len() as int),
                ) is Some),
            },
    {
        let n = src.as_str().unicode_len();
        if n > 4 && str_eq(src.as_str().substring_char(0, 4), "uint") {
            if let Some(w) = integral_of(src.as_str().substring_char(4, n)) {
                return Some(Uint { size: Some(w) });
            }
        }
        None
    }

    /// Wildcard-aware width comparison.
    pub fn eq(&self, x: &Uint) -> (r: bool)
        ensures
            r == (self.size is None || x.size is None || self.size == x.size),
    {
        match (self.size, x.size) {
            (Some(a), Some(b)) => a == b,
            _ => true,
        }
    }

    pub fn to_string(&self) -> (r: String)
        ensures
            r@ == spec_name(DataType::Uint(*self)),
    {
        let mut s = String::from_str("uint");
        match self.size {
            Some(w) => s.append(integral_digits(w)),
            None => (),
        }
        proof {
            reveal_strlit("");
            assert(s@ =~= spec_name(DataType::Uint(*self)));
        }
        s
    }
}

impl Float {
    /// A floating type of the given concrete width.
    pub fn new(size: FloatingSize) -> (r: DataType)
        ensures
            r == DataType::Float(Float { size: Some(size) }),
    {
        DataType::Float(Float { size: Some(size) })
    }

    /// Parse `float16`..`float128`.
    pub fn from(src: &String) -> (r: Option<Float>)
        ensures
            match r {
                Some(x) => src@.len() > 5 && src@.subrange(0, 5) == "float"@ && x.size is Some
                    && spec_floating_of(src@.subrange(5, src@.len() as int)) == x.size,
                None => !(src@.len() > 5 && src@.subrange(0, 5) == "float"@ && spec_floating_of(
                    src@.subrange(5, src@.len() as int),
                ) is Some),
            },
    {
        let n = src.as_str().unicode_len();
        if n > 5 && str_eq(src.as_str().substring_char(0, 5), "float") {
            if let Some(w) = floating_of(src.as_str().substring_char(5, n)) {
                return Some(Float { size: Some(w) });
            }
        }
        None
    }

    /// Wildcard-aware width comparison.
    pub fn eq(&self, x: &Float) -> (r: bool)
        ensures
            r == (self.size is None || x.size is None || self.size == x.size),
    {
        match (self.size, x.size) {
            (Some(a), Some(b)) => a == b,
            _ => true,
        }
    }

    pub fn to_string(&self) -> (r: String)
        ensures
            r@ == spec_name(DataType::Float(*self)),
    {
        let mut s = String::from_str("float");
        match self.size {
            Some(w) => s.append(floating_digits(w)),
            None => (),
        }
        proof {
            reveal_strlit("");
            assert(s@ =~= spec_name(DataType::Float(*self)));
        }
        s
    }
}

impl Bool {
    /// The boolean type.
    pub fn new() -> (r: DataType)
        ensures
            r == DataType::Bool(Bool {}),
    {
        DataType::Bool(Bool {})
    }

    /// Parse `bool`.
    pub fn from(src: &String) -> (r: Option<Bool>)
        ensures
            r == if src@ == "bool"@ {
                Some(Bool {})
            } else {
                Option::<Bool>::None
            },
    {
        if str_eq(src.as_str(), "bool") {
            Some(Bool {})
        } else {
            None
        }
    }

    pub fn to_string(&self) -> (r: String)
        ensures
            r@ == spec_name(DataType::Bool(*self)),
    {
        String::from_str("bool")
    }
}

impl Array {
    /// An array type over the given element type.
    pub fn new(typ: Box<DataType>) -> (r: DataType)
        ensures
            r == DataType::Array(Array { typ: Some(typ) }),
    {
        DataType::Array(Array { typ: Some(typ) })
    }

    /// Parse `T[]`, where `T` is itself a type name.
    pub fn from(src: &String) -> (r: Option<Array>)
        ensures
            match r {
                Some(x) => src@.len() > 2 && src@.subrange(src@.len() - 2, src@.len() as int)
                    == "[]"@ && (x.typ matches Some(b) && spec_from_name(
                    src@.subrange(0, src@.len() - 2),
                ) == Some(*b)),
                None => !(src@.len() > 2 && src@.subrange(src@.len() - 2, src@.len() as int)
                    == "[]"@ && spec_from_name(src@.subrange(0, src@.len() - 2)) is Some),
            },
        decreases src@.len(), 0int,
    {
        let n = src.as_str().unicode_len();
        if n > 2 && str_eq(src.as_str().substring_char(n - 2, n), "[]") {
            let prefix = String::from_str(src.as_str().substring_char(0, n - 2));
            if let Some(e) = DataType::from(&prefix) {
                return Some(Array { typ: Some(Box::new(e)) });
            }
        }
        None
    }

    /// Wildcard-aware element comparison.
    pub fn eq(&self, x: &Array) -> (r: bool)
        ensures
            r == compat(DataType::Array(*self), DataType::Array(*x)),
        decreases self,
    {
        match (&self.typ, &x.typ) {
            (Some(p), Some(q)) => (&**p).eq(&**q),
            _ => true,
        }
    }

    pub fn to_string(&self) -> (r: String)
        ensures
            r@ == spec_name(DataType::Array(*self)),
        decreases self,
    {
        let mut s = match &self.typ {
            Some(e) => e.to_string(),
            None => String::new(),
        };
        s.append("[]");
        proof {
            reveal_strlit("");
            assert(s@ =~= spec_name(DataType::Array(*self)));
        }
        s
    }
}

fn integral_digits(s: IntegralSize) -> (r: &'static str)
    ensures
        r@ == spec_integral_digits(s),
{
    match s {
        IntegralSize::Int8 => "8",
        IntegralSize::Int16 => "16",
        IntegralSize::Int32 => "32",
        IntegralSize::Int64 => "64",
        IntegralSize::Int128 => "128",
    }
}

fn floating_digits(s: FloatingSize) -> (r: &'static str)
    ensures
        r@ == spec_floating_digits(s),
{
    match s {
        FloatingSize::Float16 => "16",
        FloatingSize::Float32 => "32",
        FloatingSize::Float64 => "64",
        FloatingSize::Float128 => "128",
    }
}

} // verus!
