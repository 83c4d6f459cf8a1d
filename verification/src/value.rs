//! Values a settings property can take, their equality, their canonical
//! textual rendering, and the ideal-distance measure between two values.
//!
//! Numeric values are fixed-point: a `Value::Num(m)` stands for the number
//! `m / 1_000_000`, so fractional settings such as aspect ratios are plain
//! integers underneath. Distances are likewise fixed-point fractions of
//! [`SCALE`]: a distance of `SCALE` stands for the real distance 1.

use vstd::prelude::*;
use vstd::string::StringExecFns;

verus! {

/// One whole unit, in the fixed-point representation of numeric values.
pub const MICROS: i64 = 1_000_000;

/// The distance value standing for the real number 1; distances are
/// fractions of this scale.
pub const SCALE: u64 = 1_000_000_000_000;

/// A settings value: a boolean, a fixed-point number (`m` stands for
/// `m / 1_000_000`), or a text (strings and small domain enums alike).
#[derive(Debug, Clone, PartialEq)]
pub enum Value {
    Bool(bool),
    Num(i64),
    Str(String),
}

impl Value {
    /// The value of a whole number.
    pub fn integer(i: i64) -> (r: Value)
        requires
            -9_000_000_000_000 <= i <= 9_000_000_000_000,
        ensures
            r == Value::Num((i * 1_000_000) as i64),
    {
        Value::Num(i * MICROS)
    }

    /// The value of a fixed-point number given in millionths.
    pub fn micros(m: i64) -> (r: Value)
        ensures
            r == Value::Num(m),
    {
        Value::Num(m)
    }

    /// A text value.
    pub fn of_str(s: &str) -> (r: Value)
        ensures
            (r matches Value::Str(t) && t@ == s@),
    {
        Value::Str(s.to_owned())
    }

    /// A text value from an owned string.
    pub fn of_string(s: String) -> (r: Value)
        ensures
            (r matches Value::Str(t) && t@ == s@),
    {
        Value::Str(s)
    }

    /// A boolean value.
    pub fn of_bool(b: bool) -> (r: Value)
        ensures
            r == Value::Bool(b),
    {
        Value::Bool(b)
    }
}

/// The camera facing directions, as text values.
pub struct FacingMode;

impl FacingMode {
    /// Facing the user.
    pub fn user() -> (r: Value)
        ensures
            (r matches Value::Str(t) && t@ == "user"@),
    {
        Value::of_str("user")
    }

    /// Facing away from the user.
    pub fn environment() -> (r: Value)
        ensures
            (r matches Value::Str(t) && t@ == "environment"@),
    {
        Value::of_str("environment")
    }
}

/// The resize behaviours, as text values.
pub struct ResizeMode;

impl ResizeMode {
    /// No resizing.
    pub fn none() -> (r: Value)
        ensures
            (r matches Value::Str(t) && t@ == "none"@),
    {
        Value::of_str("none")
    }

    /// Cropping and scaling allowed.
    pub fn crop_and_scale() -> (r: Value)
        ensures
            (r matches Value::Str(t) && t@ == "crop-and-scale"@),
    {
        Value::of_str("crop-and-scale")
    }
}

/// Value equality: same kind and same content, texts compared by their
/// character sequences.
pub open spec fn value_eq(a: Value, b: Value) -> bool {
    match (a, b) {
        (Value::Bool(x), Value::Bool(y)) => x == y,
        (Value::Num(x), Value::Num(y)) => x == y,
        (Value::Str(x), Value::Str(y)) => x@ == y@,
        _ => false,
    }
}

/// Decides [`value_eq`].
pub fn eq_value(a: &Value, b: &Value) -> (r: bool)
    ensures
        r == value_eq(*a, *b),
{
    match (a, b) {
        (Value::Bool(x), Value::Bool(y)) => *x == *y,
        (Value::Num(x), Value::Num(y)) => *x == *y,
        (Value::Str(x), Value::Str(y)) => x.eq(y),
        _ => false,
    }
}

/// Whether a value sequence contains a value equal (by [`value_eq`]) to `a`.
pub open spec fn seq_contains_value(s: Seq<Value>, a: Value) -> bool {
    exists|i: int| 0 <= i < s.len() && value_eq(s[i], a)
}

/// Decides [`seq_contains_value`].
pub fn vec_contains_value(s: &Vec<Value>, a: &Value) -> (r: bool)
    ensures
        r == seq_contains_value(s@, *a),
{
    let mut i: usize = 0;
    while i < s.len()
        invariant
            0 <= i <= s@.len(),
            forall|j: int| 0 <= j < i ==> !value_eq(s@[j], *a),
        decreases s@.len() - i,
    {
        if eq_value(&s[i], a) {
            return true;
        }
        i = i + 1;
    }
    false
}

/// The distance between two numbers `x` and `y` (both in millionths), as a
/// fraction of [`SCALE`]: 0 when equal, 1 when exactly one is zero, else
/// `|x - y| / max(|x|, |y|)`, capped at 1.
pub open spec fn num_distance(x: int, y: int) -> int {
    if x == y {
        0
    } else if x == 0 || y == 0 {
        SCALE as int
    } else {
        let d = if x >= y {
            x - y
        } else {
            y - x
        };
        let ax = if x >= 0 {
            x
        } else {
            -x
        };
        let ay = if y >= 0 {
            y
        } else {
            -y
        };
        let m = if ax >= ay {
            ax
        } else {
            ay
        };
        let q = d * (SCALE as int) / m;
        if q > SCALE as int {
            SCALE as int
        } else {
            q
        }
    }
}

/// The ideal distance between an actual and an ideal value, as a fraction of
/// [`SCALE`]: numbers by [`num_distance`]; texts and booleans 0 when equal,
/// else 1; values of different kinds 1.
pub open spec fn value_distance(a: Value, b: Value) -> int {
    match (a, b) {
        (Value::Num(x), Value::Num(y)) => num_distance(x as int, y as int),
        (Value::Str(x), Value::Str(y)) => if x@ == y@ {
            0
        } else {
            SCALE as int
        },
        (Value::Bool(x), Value::Bool(y)) => if x == y {
            0
        } else {
            SCALE as int
        },
        _ => SCALE as int,
    }
}

/// Every distance lies between 0 and [`SCALE`].
pub proof fn lemma_value_distance_bounds(a: Value, b: Value)
    ensures
        0 <= value_distance(a, b) <= SCALE as int,
{
}

/// Computes [`value_distance`].
pub fn value_distance_exec(a: &Value, b: &Value) -> (r: u64)
    ensures
        r as int == value_distance(*a, *b),
        r <= SCALE,
{
    match (a, b) {
        (Value::Num(x), Value::Num(y)) => {
            let x = *x;
            let y = *y;
            if x == y {
                0
            } else if x == 0 || y == 0 {
                SCALE
            } else {
                let xl: i128 = x as i128;
                let yl: i128 = y as i128;
                let d: i128 = if xl >= yl {
                    xl - yl
                } else {
                    yl - xl
                };
                let ax: i128 = if xl >= 0 {
                    xl
                } else {
                    -xl
                };
                let ay: i128 = if yl >= 0 {
                    yl
                } else {
                    -yl
                };
                let m: i128 = if ax >= ay {
                    ax
                } else {
                    ay
                };
                proof {
                    assert(0 <= d < 0x2_0000_0000_0000_0000_i128);
                    assert(1 <= m);
                    assert(d * 1_000_000_000_000_i128 < 0x2_0000_0000_0000_0000_i128
                        * 1_000_000_000_000_i128) by (nonlinear_arith)
                        requires
                            0 <= d < 0x2_0000_0000_0000_0000_i128,
                    ;
                    assert(SCALE as i128 == 1_000_000_000_000_i128);
                }
                let num: i128 = d * (SCALE as i128);
                let q: i128 = num / m;
                if q > SCALE as i128 {
                    SCALE
                } else {
                    q as u64
                }
            }
        },
        (Value::Str(x), Value::Str(y)) => if x.eq(y) {
            0
        } else {
            SCALE
        },
        (Value::Bool(x), Value::Bool(y)) => if *x == *y {
            0
        } else {
            SCALE
        },
        _ => SCALE,
    }
}

} // verus!
