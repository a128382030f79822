//! Attribute values and their normalized text.

use vstd::prelude::*;
use crate::text::{digits, int_text, push_digits, digit_count};

verus! {

/// A decimal number: `mantissa / 10^scale`.
///
/// Numbers are held exactly, so their text is the shortest decimal form of
/// the value, with no insignificant trailing zero and no trailing point.
#[derive(Clone, Copy, Debug, PartialEq, Eq, Structural)]
pub struct Decimal {
    pub mantissa: i64,
    pub scale: u32,
}

/// The absolute value.
pub open spec fn abs(i: int) -> nat {
    if i < 0 { (-i) as nat } else { i as nat }
}

/// `(a, s)` with trailing zero digits of the fraction removed: the same value
/// `a / 10^s` with the smallest scale.
pub open spec fn trimmed(a: nat, s: nat) -> (nat, nat)
    decreases s,
{
    if s > 0 && a % 10 == 0 {
        trimmed(a / 10, (s - 1) as nat)
    } else {
        (a, s)
    }
}

/// The digits of `a`, with leading zeros up to a width of `w`.
pub open spec fn padded(a: nat, w: nat) -> Seq<char> {
    let d = digits(a);
    if d.len() >= w {
        d
    } else {
        Seq::new((w - d.len()) as nat, |_i: int| '0') + d
    }
}

/// The text of `a / 10^s` for `a >= 0`: a point before the last `s` digits,
/// with a leading zero where the value is below one.
pub open spec fn point_text(a: nat, s: nat) -> Seq<char> {
    if s == 0 {
        digits(a)
    } else {
        let p = padded(a, s + 1);
        p.subrange(0, p.len() - s) + seq!['.'] + p.subrange(p.len() - s, p.len() as int)
    }
}

/// The shortest decimal text of `m / 10^s`.
pub open spec fn decimal_text(m: int, s: nat) -> Seq<char> {
    let t = trimmed(abs(m), s);
    let sign = if m < 0 { seq!['-'] } else { Seq::<char>::empty() };
    sign + point_text(t.0, t.1)
}

impl Decimal {
    /// The number `mantissa / 10^scale`.
    pub fn new(mantissa: i64, scale: u32) -> (r: Decimal)
        ensures
            r.mantissa == mantissa,
            r.scale == scale,
    {
        Decimal { mantissa, scale }
    }

    /// The number's text.
    pub open spec fn text(self) -> Seq<char> {
        decimal_text(self.mantissa as int, self.scale as nat)
    }

    /// Renders the number as its shortest decimal text.
    pub fn render(&self) -> (r: String)
        ensures
            r@ == self.text(),
    {
        let mut a: u64 = if self.mantissa < 0 {
            (0i128 - self.mantissa as i128) as u64
        } else {
            self.mantissa as u64
        };
        let mut s: u32 = self.scale;
        while s > 0 && a % 10 == 0
            invariant
                trimmed(a as nat, s as nat) == trimmed(abs(self.mantissa as int), self.scale as nat),
            decreases s,
        {
            a = a / 10;
            s = s - 1;
        }
        let mut out = String::new();
        if self.mantissa < 0 {
            out.append("-");
        }
        proof {
            reveal_strlit("-");
            reveal_strlit(".");
            reveal_strlit("0");
        }
        if s == 0 {
            push_digits(&mut out, a);
            assert(out@ =~= self.text());
            return out;
        }
        let d = digit_count(a);
        let w: u64 = s as u64 + 1;
        let mut k: u64 = d as u64;
        let mut p = String::new();
        while k < w
            invariant
                d as nat <= k <= w || (k == d && d > w),
                p@ =~= Seq::new((k - d) as nat, |_i: int| '0'),
            decreases w - k,
        {
            proof {
                reveal_strlit("0");
            }
            p.append("0");
            k = k + 1;
        }
        push_digits(&mut p, a);
        assert(p@ =~= padded(a as nat, s as nat + 1));
        let len = p.as_str().unicode_len();
        let cut = len - s as usize;
        out.append(p.as_str().substring_char(0, cut));
        out.append(".");
        out.append(p.as_str().substring_char(cut, len));
        assert(out@ =~= self.text());
        out
    }
}

/// A value that can be assigned to an attribute.
#[derive(Debug)]
pub enum Value {
    /// A signed integer.
    Integer(i64),
    /// An unsigned integer.
    Unsigned(u64),
    /// A decimal number.
    Number(Decimal),
    /// Text, taken as it is.
    Text(String),
    /// Several values, as from a tuple or a sequence.
    List(Vec<Value>),
}

/// The normalized text of a value.
pub open spec fn value_text(v: Value) -> Seq<char>
    decreases v,
{
    match v {
        Value::Integer(i) => int_text(i as int),
        Value::Unsigned(u) => digits(u as nat),
        Value::Number(d) => d.text(),
        Value::Text(s) => s@,
        Value::List(items) => list_text(items@),
    }
}

/// The texts of the values joined by single spaces.
pub open spec fn list_text(items: Seq<Value>) -> Seq<char>
    decreases items,
{
    if items.len() == 0 {
        Seq::empty()
    } else if items.len() == 1 {
        value_text(items[0])
    } else {
        list_text(items.subrange(0, items.len() - 1)) + seq![' '] + value_text(items[items.len() - 1])
    }
}

impl Value {
    /// Renders the value as attribute text.
    pub fn render(&self) -> (r: String)
        ensures
            r@ == value_text(*self),
        decreases self,
    {
        match self {
            Value::Integer(i) => {
                let mut out = String::new();
                if *i < 0 {
                    out.append("-");
                    proof {
                        reveal_strlit("-");
                    }
                    push_digits(&mut out, (0i128 - *i as i128) as u64);
                } else {
                    push_digits(&mut out, *i as u64);
                }
                assert(out@ =~= value_text(*self));
                out
            },
            Value::Unsigned(u) => {
                let mut out = String::new();
                push_digits(&mut out, *u);
                assert(out@ =~= value_text(*self));
                out
            },
            Value::Number(d) => d.render(),
            Value::Text(s) => s.clone(),
            Value::List(items) => {
                let mut out = String::new();
                let mut i: usize = 0;
                while i < items.len()
                    invariant
                        i <= items@.len(),
                        *self == Value::List(*items),
                        out@ == list_text(items@.subrange(0, i as int)),
                    decreases items@.len() - i,
                {
                    if i > 0 {
                        out.append(" ");
                        proof {
                            reveal_strlit(" ");
                        }
                    }
                    proof {
                        broadcast use vstd::std_specs::vec::group_vec_axioms;
                        assert(decreases_to!(*self => (*self)->List_0));
                        assert(decreases_to!(*items => items@));
                        assert(decreases_to!(items@ => items@[i as int]));
                    }
                    let t = items[i].render();
                    out.append(t.as_str());
                    proof {
                        let s = items@.subrange(0, i + 1);
                        assert(s.subrange(0, i as int) =~= items@.subrange(0, i as int));
                        assert(s[i as int] == items@[i as int]);
                        assert(out@ =~= list_text(s));
                    }
                    i = i + 1;
                }
                assert(items@.subrange(0, items@.len() as int) =~= items@);
                out
            },
        }
    }
}

} // verus!
