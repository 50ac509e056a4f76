use vstd::prelude::*;

use crate::error::{Error, ValueKind};

verus! {

/// What a pattern-matching engine decides about a pattern: whether it compiles.
pub uninterp spec fn regex_compiles(pattern: Seq<char>) -> bool;

/// Whether a compiled pattern finds a match somewhere in a text.
pub uninterp spec fn regex_finds(pattern: Seq<char>, text: Seq<char>) -> bool;

/// Relies on fancy_regex::Regex::new, which fails exactly on the patterns it
/// cannot compile, and on Regex::is_match, whose verdict depends on the
/// pattern and the text alone. A search that gives up (backtrack limit) is
/// read as no match.
#[verifier::external_body]
fn regex_search(pattern: &str, text: &str) -> (r: Option<bool>)
    ensures
        r is Some <==> regex_compiles(pattern@),
        r matches Some(found) ==> found == regex_finds(pattern@, text@),
{
    match fancy_regex::Regex::new(pattern) {
        Ok(re) => Some(re.is_match(text).unwrap_or(false)),
        Err(_) => None,
    }
}

/// The decimal digits of a natural number, most significant first.
pub open spec fn digits_of(n: nat) -> Seq<char>
    decreases n,
{
    if n < 10 {
        seq![(n + 48) as char]
    } else {
        digits_of(n / 10).push(((n % 10) + 48) as char)
    }
}

/// The decimal form of an integer, with a leading `-` when it is negative.
pub open spec fn decimal(v: int) -> Seq<char> {
    if v < 0 {
        seq!['-'] + digits_of((-v) as nat)
    } else {
        digits_of(v as nat)
    }
}

fn digit_text(d: u64) -> (r: String)
    requires
        d < 10,
    ensures
        r@ == seq![(d + 48) as char],
{
    match d {
        0 => {
            proof {
                reveal_strlit("0");
            }
            String::from_str("0")
        },
        1 => {
            proof {
                reveal_strlit("1");
            }
            String::from_str("1")
        },
        2 => {
            proof {
                reveal_strlit("2");
            }
            String::from_str("2")
        },
        3 => {
            proof {
                reveal_strlit("3");
            }
            String::from_str("3")
        },
        4 => {
            proof {
                reveal_strlit("4");
            }
            String::from_str("4")
        },
        5 => {
            proof {
                reveal_strlit("5");
            }
            String::from_str("5")
        },
        6 => {
            proof {
                reveal_strlit("6");
            }
            String::from_str("6")
        },
        7 => {
            proof {
                reveal_strlit("7");
            }
            String::from_str("7")
        },
        8 => {
            proof {
                reveal_strlit("8");
            }
            String::from_str("8")
        },
        _ => {
            proof {
                reveal_strlit("9");
            }
            String::from_str("9")
        },
    }
}

fn digits_text(n: u64) -> (r: String)
    ensures
        r@ == digits_of(n as nat),
    decreases n,
{
    if n < 10 {
        digit_text(n)
    } else {
        let mut text = digits_text(n / 10);
        let last = digit_text(n % 10);
        text.append(last.as_str());
        text
    }
}

/// The decimal form of `v`, as `decimal` states it.
pub fn decimal_text(v: i64) -> (r: String)
    ensures
        r@ == decimal(v as int),
{
    if v < 0 {
        let magnitude: u64 = (-(v + 1)) as u64 + 1;
        let mut text = String::from_str("-");
        let digits = digits_text(magnitude);
        text.append(digits.as_str());
        proof {
            reveal_strlit("-");
        }
        text
    } else {
        digits_text(v as u64)
    }
}

/// A typed setting value. A float is held as its IEEE-754 single-precision
/// bit pattern.
#[derive(Clone, Debug, PartialEq, Eq)]
pub enum ConfigurableValue {
    String(String),
    Integer(i32),
    UnsignedInteger(u32),
    Float(u32),
    Boolean(bool),
    Enum(String),
}

/// The constraints a value must meet. Bounds are inclusive; an absent bound
/// leaves that side open, and a NaN never meets a bound. Float bounds are
/// bit patterns, like float values.
#[derive(Clone, Debug, PartialEq, Eq)]
pub enum ConfigurableValueType {
    String { regex: Option<String> },
    Integer { min: Option<i32>, max: Option<i32> },
    UnsignedInteger { min: Option<u32>, max: Option<u32> },
    Float { min: Option<u32>, max: Option<u32> },
    Boolean,
    Enum { options: Vec<String> },
}

pub open spec fn value_kind(v: ConfigurableValue) -> ValueKind {
    match v {
        ConfigurableValue::String(_) => ValueKind::String,
        ConfigurableValue::Integer(_) => ValueKind::Integer,
        ConfigurableValue::UnsignedInteger(_) => ValueKind::UnsignedInteger,
        ConfigurableValue::Float(_) => ValueKind::Float,
        ConfigurableValue::Boolean(_) => ValueKind::Boolean,
        ConfigurableValue::Enum(_) => ValueKind::Enum,
    }
}

pub open spec fn type_kind(t: ConfigurableValueType) -> ValueKind {
    match t {
        ConfigurableValueType::String { .. } => ValueKind::String,
        ConfigurableValueType::Integer { .. } => ValueKind::Integer,
        ConfigurableValueType::UnsignedInteger { .. } => ValueKind::UnsignedInteger,
        ConfigurableValueType::Float { .. } => ValueKind::Float,
        ConfigurableValueType::Boolean => ValueKind::Boolean,
        ConfigurableValueType::Enum { .. } => ValueKind::Enum,
    }
}

/// The magnitude bits of a single-precision float (sign bit cleared).
pub open spec fn float_magnitude(bits: u32) -> int {
    if bits >= 0x8000_0000 {
        bits - 0x8000_0000
    } else {
        bits as int
    }
}

pub open spec fn float_is_nan(bits: u32) -> bool {
    float_magnitude(bits) > 0x7f80_0000
}

/// The position of a non-NaN float on the number line: equal floats (such as
/// `0.0` and `-0.0`) have equal ranks, and the order of ranks is the order of
/// the numbers.
pub open spec fn float_rank(bits: u32) -> int {
    if bits >= 0x8000_0000 {
        -float_magnitude(bits)
    } else {
        float_magnitude(bits)
    }
}

/// IEEE-754 `a <= b` on bit patterns: false as soon as either is NaN.
pub open spec fn float_le(a: u32, b: u32) -> bool {
    !float_is_nan(a) && !float_is_nan(b) && float_rank(a) <= float_rank(b)
}

fn float_at_most(a: u32, b: u32) -> (r: bool)
    ensures
        r == float_le(a, b),
{
    let ma: u32 = if a >= 0x8000_0000 { a - 0x8000_0000 } else { a };
    let mb: u32 = if b >= 0x8000_0000 { b - 0x8000_0000 } else { b };
    if ma > 0x7f80_0000 || mb > 0x7f80_0000 {
        return false;
    }
    let na = a >= 0x8000_0000;
    let nb = b >= 0x8000_0000;
    if na && nb {
        mb <= ma
    } else if na {
        true
    } else if nb {
        ma == 0 && mb == 0
    } else {
        ma <= mb
    }
}

pub open spec fn options_contain(options: Seq<String>, tag: Seq<char>) -> bool {
    exists|i: int| 0 <= i < options.len() && (#[trigger] options[i])@ == tag
}

pub open spec fn check_string(regex: Option<String>, s: String) -> Result<(), Error> {
    match regex {
        None => Ok(()),
        Some(p) => if !regex_compiles(p@) {
            Err(Error::InvalidRegex)
        } else if regex_finds(p@, s@) {
            Ok(())
        } else {
            Err(Error::RegexMismatch)
        },
    }
}

pub open spec fn check_bounds(below_min: bool, above_max: bool) -> Result<(), Error> {
    if below_min {
        Err(Error::TooSmall)
    } else if above_max {
        Err(Error::TooLarge)
    } else {
        Ok(())
    }
}

/// The verdict of checking value `v` against type `t`.
pub open spec fn check_value(t: ConfigurableValueType, v: ConfigurableValue) -> Result<(), Error> {
    let mismatch = Err(Error::TypeMismatch { expected: type_kind(t), found: value_kind(v) });
    match t {
        ConfigurableValueType::String { regex } => match v {
            ConfigurableValue::String(s) => check_string(regex, s),
            _ => mismatch,
        },
        ConfigurableValueType::Integer { min, max } => match v {
            ConfigurableValue::Integer(x) => check_bounds(
                min matches Some(lo) && x < lo,
                max matches Some(hi) && x > hi,
            ),
            _ => mismatch,
        },
        ConfigurableValueType::UnsignedInteger { min, max } => match v {
            ConfigurableValue::UnsignedInteger(x) => check_bounds(
                min matches Some(lo) && x < lo,
                max matches Some(hi) && x > hi,
            ),
            _ => mismatch,
        },
        ConfigurableValueType::Float { min, max } => match v {
            ConfigurableValue::Float(x) => check_bounds(
                min matches Some(lo) && !float_le(lo, x),
                max matches Some(hi) && !float_le(x, hi),
            ),
            _ => mismatch,
        },
        ConfigurableValueType::Boolean => match v {
            ConfigurableValue::Boolean(_) => Ok(()),
            _ => mismatch,
        },
        ConfigurableValueType::Enum { options } => match v {
            ConfigurableValue::Enum(tag) => if options_contain(options@, tag@) {
                Ok(())
            } else {
                Err(Error::NotAnOption)
            },
            _ => mismatch,
        },
    }
}

/// Whether `t` is the unconstrained type of the shape of `v`: no pattern, no
/// bounds, no options.
pub open spec fn is_loosest_type(v: ConfigurableValue, t: ConfigurableValueType) -> bool {
    match v {
        ConfigurableValue::String(_) => t == ConfigurableValueType::String { regex: None },
        ConfigurableValue::Integer(_) => t == ConfigurableValueType::Integer { min: None, max: None },
        ConfigurableValue::UnsignedInteger(_) => t == ConfigurableValueType::UnsignedInteger {
            min: None,
            max: None,
        },
        ConfigurableValue::Float(_) => t == ConfigurableValueType::Float { min: None, max: None },
        ConfigurableValue::Boolean(_) => t == ConfigurableValueType::Boolean,
        ConfigurableValue::Enum(_) => t matches ConfigurableValueType::Enum { options } && options@.len() == 0,
    }
}

/// A value whose shape differs from the one its type names is always
/// rejected, and the rejection is a type mismatch that names both shapes.
pub proof fn lemma_kind_mismatch_rejected(t: ConfigurableValueType, v: ConfigurableValue)
    requires
        type_kind(t) != value_kind(v),
    ensures
        check_value(t, v) == Err::<(), Error>(
            Error::TypeMismatch { expected: type_kind(t), found: value_kind(v) },
        ),
{
}

/// An integer type bounded on both sides accepts an integer exactly when it
/// lies between the bounds, both included.
pub proof fn lemma_integer_within_bounds(a: i32, b: i32, v: i32)
    ensures
        check_value(
            ConfigurableValueType::Integer { min: Some(a), max: Some(b) },
            ConfigurableValue::Integer(v),
        ) is Ok <==> a <= v <= b,
{
}

pub open spec fn kind_name(k: ValueKind) -> Seq<char> {
    match k {
        ValueKind::String => "string"@,
        ValueKind::Integer => "integer"@,
        ValueKind::UnsignedInteger => "unsigned integer"@,
        ValueKind::Float => "float"@,
        ValueKind::Boolean => "boolean"@,
        ValueKind::Enum => "enum"@,
    }
}

fn options_include(options: &Vec<String>, tag: &String) -> (r: bool)
    ensures
        r == options_contain(options@, tag@),
{
    let mut i: usize = 0;
    while i < options.len()
        invariant
            i <= options.len(),
            forall|j: int| 0 <= j < i ==> (#[trigger] options@[j])@ != tag@,
        decreases options.len() - i,
    {
        if options[i] == *tag {
            return true;
        }
        i += 1;
    }
    false
}

impl ValueKind {
    /// The lower-case name of this kind, as used in messages.
    pub fn name(&self) -> (r: String)
        ensures
            r@ == kind_name(*self),
    {
        match self {
            ValueKind::String => String::from_str("string"),
            ValueKind::Integer => String::from_str("integer"),
            ValueKind::UnsignedInteger => String::from_str("unsigned integer"),
            ValueKind::Float => String::from_str("float"),
            ValueKind::Boolean => String::from_str("boolean"),
            ValueKind::Enum => String::from_str("enum"),
        }
    }
}

impl ConfigurableValueType {
    /// The kind of value this type accepts.
    pub fn kind(&self) -> (r: ValueKind)
        ensures
            r == type_kind(*self),
    {
        match self {
            ConfigurableValueType::String { .. } => ValueKind::String,
            ConfigurableValueType::Integer { .. } => ValueKind::Integer,
            ConfigurableValueType::UnsignedInteger { .. } => ValueKind::UnsignedInteger,
            ConfigurableValueType::Float { .. } => ValueKind::Float,
            ConfigurableValueType::Boolean => ValueKind::Boolean,
            ConfigurableValueType::Enum { .. } => ValueKind::Enum,
        }
    }

    /// The name of the kind of value this type accepts.
    pub fn to_string(&self) -> (r: String)
        ensures
            r@ == kind_name(type_kind(*self)),
    {
        self.kind().name()
    }

    /// Checks `value` against this type: its shape first, then the type's
    /// pattern, bounds or options.
    pub fn type_check(&self, value: &ConfigurableValue) -> (r: Result<(), Error>)
        ensures
            r == check_value(*self, *value),
    {
        match self {
            ConfigurableValueType::String { regex } => match value {
                ConfigurableValue::String(s) => match regex {
                    None => Ok(()),
                    Some(p) => match regex_search(p.as_str(), s.as_str()) {
                        None => Err(Error::InvalidRegex),
                        Some(true) => Ok(()),
                        Some(false) => Err(Error::RegexMismatch),
                    },
                },
                _ => Err(Error::TypeMismatch { expected: self.kind(), found: value.kind() }),
            },
            ConfigurableValueType::Integer { min, max } => match value {
                ConfigurableValue::Integer(x) => {
                    if let Some(lo) = min {
                        if *x < *lo {
                            return Err(Error::TooSmall);
                        }
                    }
                    if let Some(hi) = max {
                        if *x > *hi {
                            return Err(Error::TooLarge);
                        }
                    }
                    Ok(())
                },
                _ => Err(Error::TypeMismatch { expected: self.kind(), found: value.kind() }),
            },
            ConfigurableValueType::UnsignedInteger { min, max } => match value {
                ConfigurableValue::UnsignedInteger(x) => {
                    if let Some(lo) = min {
                        if *x < *lo {
                            return Err(Error::TooSmall);
                        }
                    }
                    if let Some(hi) = max {
                        if *x > *hi {
                            return Err(Error::TooLarge);
                        }
                    }
                    Ok(())
                },
                _ => Err(Error::TypeMismatch { expected: self.kind(), found: value.kind() }),
            },
            ConfigurableValueType::Float { min, max } => match value {
                ConfigurableValue::Float(x) => {
                    if let Some(lo) = min {
                        if !float_at_most(*lo, *x) {
                            return Err(Error::TooSmall);
                        }
                    }
                    if let Some(hi) = max {
                        if !float_at_most(*x, *hi) {
                            return Err(Error::TooLarge);
                        }
                    }
                    Ok(())
                },
                _ => Err(Error::TypeMismatch { expected: self.kind(), found: value.kind() }),
            },
            ConfigurableValueType::Boolean => match value {
                ConfigurableValue::Boolean(_) => Ok(()),
                _ => Err(Error::TypeMismatch { expected: self.kind(), found: value.kind() }),
            },
            ConfigurableValueType::Enum { options } => match value {
                ConfigurableValue::Enum(tag) => if options_include(options, tag) {
                    Ok(())
                } else {
                    Err(Error::NotAnOption)
                },
                _ => Err(Error::TypeMismatch { expected: self.kind(), found: value.kind() }),
            },
        }
    }
}

impl ConfigurableValue {
    /// The shape of this value.
    pub fn kind(&self) -> (r: ValueKind)
        ensures
            r == value_kind(*self),
    {
        match self {
            ConfigurableValue::String(_) => ValueKind::String,
            ConfigurableValue::Integer(_) => ValueKind::Integer,
            ConfigurableValue::UnsignedInteger(_) => ValueKind::UnsignedInteger,
            ConfigurableValue::Float(_) => ValueKind::Float,
            ConfigurableValue::Boolean(_) => ValueKind::Boolean,
            ConfigurableValue::Enum(_) => ValueKind::Enum,
        }
    }

    /// The loosest type of this value's shape: no pattern, no bounds, no
    /// options. It is not a guess at the constraints the value was meant to
    /// meet.
    pub fn infer_type(&self) -> (r: ConfigurableValueType)
        ensures
            is_loosest_type(*self, r),
            type_kind(r) == value_kind(*self),
    {
        match self {
            ConfigurableValue::String(_) => ConfigurableValueType::String { regex: None },
            ConfigurableValue::Integer(_) => ConfigurableValueType::Integer { min: None, max: None },
            ConfigurableValue::UnsignedInteger(_) => ConfigurableValueType::UnsignedInteger {
                min: None,
                max: None,
            },
            ConfigurableValue::Float(_) => ConfigurableValueType::Float { min: None, max: None },
            ConfigurableValue::Boolean(_) => ConfigurableValueType::Boolean,
            ConfigurableValue::Enum(_) => ConfigurableValueType::Enum { options: Vec::new() },
        }
    }

    pub fn try_as_integer(&self) -> (r: Result<i32, Error>)
        ensures
            match *self {
                ConfigurableValue::Integer(x) => r == Ok::<i32, Error>(x),
                _ => r == Err::<i32, Error>(
                    Error::TypeMismatch { expected: ValueKind::Integer, found: value_kind(*self) },
                ),
            },
    {
        match self {
            ConfigurableValue::Integer(x) => Ok(*x),
            _ => Err(Error::TypeMismatch { expected: ValueKind::Integer, found: self.kind() }),
        }
    }

    pub fn try_as_unsigned_integer(&self) -> (r: Result<u32, Error>)
        ensures
            match *self {
                ConfigurableValue::UnsignedInteger(x) => r == Ok::<u32, Error>(x),
                _ => r == Err::<u32, Error>(
                    Error::TypeMismatch {
                        expected: ValueKind::UnsignedInteger,
                        found: value_kind(*self),
                    },
                ),
            },
    {
        match self {
            ConfigurableValue::UnsignedInteger(x) => Ok(*x),
            _ => Err(
                Error::TypeMismatch { expected: ValueKind::UnsignedInteger, found: self.kind() },
            ),
        }
    }

    /// The bit pattern of a float value.
    pub fn try_as_float(&self) -> (r: Result<u32, Error>)
        ensures
            match *self {
                ConfigurableValue::Float(x) => r == Ok::<u32, Error>(x),
                _ => r == Err::<u32, Error>(
                    Error::TypeMismatch { expected: ValueKind::Float, found: value_kind(*self) },
                ),
            },
    {
        match self {
            ConfigurableValue::Float(x) => Ok(*x),
            _ => Err(Error::TypeMismatch { expected: ValueKind::Float, found: self.kind() }),
        }
    }

    pub fn try_as_boolean(&self) -> (r: Result<bool, Error>)
        ensures
            match *self {
                ConfigurableValue::Boolean(x) => r == Ok::<bool, Error>(x),
                _ => r == Err::<bool, Error>(
                    Error::TypeMismatch { expected: ValueKind::Boolean, found: value_kind(*self) },
                ),
            },
    {
        match self {
            ConfigurableValue::Boolean(x) => Ok(*x),
            _ => Err(Error::TypeMismatch { expected: ValueKind::Boolean, found: self.kind() }),
        }
    }

    pub fn try_as_enum(&self) -> (r: Result<&String, Error>)
        ensures
            match *self {
                ConfigurableValue::Enum(x) => r matches Ok(y) && *y == x,
                _ => r matches Err(e) && e == Error::TypeMismatch {
                    expected: ValueKind::Enum,
                    found: value_kind(*self),
                },
            },
    {
        match self {
            ConfigurableValue::Enum(x) => Ok(x),
            _ => Err(Error::TypeMismatch { expected: ValueKind::Enum, found: self.kind() }),
        }
    }

    pub fn try_as_string(&self) -> (r: Result<&String, Error>)
        ensures
            match *self {
                ConfigurableValue::String(x) => r matches Ok(y) && *y == x,
                _ => r matches Err(e) && e == Error::TypeMismatch {
                    expected: ValueKind::String,
                    found: value_kind(*self),
                },
            },
    {
        match self {
            ConfigurableValue::String(x) => Ok(x),
            _ => Err(Error::TypeMismatch { expected: ValueKind::String, found: self.kind() }),
        }
    }
}

} // verus!
