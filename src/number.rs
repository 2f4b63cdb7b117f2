use vstd::arithmetic::power::pow;
use vstd::prelude::*;

verus! {

/// The additive and multiplicative identities of an element type.
pub trait Number: Sized {
    spec fn zero_spec() -> Self;

    spec fn one_spec() -> Self;

    fn zero() -> (r: Self)
        ensures
            r == Self::zero_spec(),
    ;

    fn one() -> (r: Self)
        ensures
            r == Self::one_spec(),
    ;
}

/// A number with a power by an unsigned exponent.
pub trait Integer: Number {
    type Exp;

    /// Whether every power of `self` up to the `exp`-th is representable.
    spec fn pow_req(self, exp: Self::Exp) -> bool;

    spec fn pow_spec(self, exp: Self::Exp) -> Self;

    fn pow(self, exp: Self::Exp) -> (r: Self)
        requires
            self.pow_req(exp),
        ensures
            r == self.pow_spec(exp),
    ;
}

/// A real-valued number: powers by an integer and by a real exponent, and the
/// square root.
pub trait Float: Number {
    type IExp;

    type FExp;

    spec fn powi_spec(self, exp: Self::IExp) -> Self;

    spec fn powf_spec(self, exp: Self::FExp) -> Self;

    spec fn sqrt_spec(self) -> Self;

    fn powi(self, exp: Self::IExp) -> (r: Self)
        ensures
            r == self.powi_spec(exp),
    ;

    fn powf(self, exp: Self::FExp) -> (r: Self)
        ensures
            r == self.powf_spec(exp),
    ;

    fn sqrt(self) -> (r: Self)
        ensures
            r == self.sqrt_spec(),
    ;
}

impl Number for u8 {
    open spec fn zero_spec() -> u8 {
        0
    }

    open spec fn one_spec() -> u8 {
        1
    }

    fn zero() -> (r: u8) {
        0
    }

    fn one() -> (r: u8) {
        1
    }
}

impl Number for u16 {
    open spec fn zero_spec() -> u16 {
        0
    }

    open spec fn one_spec() -> u16 {
        1
    }

    fn zero() -> (r: u16) {
        0
    }

    fn one() -> (r: u16) {
        1
    }
}

impl Number for u32 {
    open spec fn zero_spec() -> u32 {
        0
    }

    open spec fn one_spec() -> u32 {
        1
    }

    fn zero() -> (r: u32) {
        0
    }

    fn one() -> (r: u32) {
        1
    }
}

impl Number for u64 {
    open spec fn zero_spec() -> u64 {
        0
    }

    open spec fn one_spec() -> u64 {
        1
    }

    fn zero() -> (r: u64) {
        0
    }

    fn one() -> (r: u64) {
        1
    }
}

impl Number for u128 {
    open spec fn zero_spec() -> u128 {
        0
    }

    open spec fn one_spec() -> u128 {
        1
    }

    fn zero() -> (r: u128) {
        0
    }

    fn one() -> (r: u128) {
        1
    }
}

impl Number for usize {
    open spec fn zero_spec() -> usize {
        0
    }

    open spec fn one_spec() -> usize {
        1
    }

    fn zero() -> (r: usize) {
        0
    }

    fn one() -> (r: usize) {
        1
    }
}

impl Number for i8 {
    open spec fn zero_spec() -> i8 {
        0
    }

    open spec fn one_spec() -> i8 {
        1
    }

    fn zero() -> (r: i8) {
        0
    }

    fn one() -> (r: i8) {
        1
    }
}

impl Number for i16 {
    open spec fn zero_spec() -> i16 {
        0
    }

    open spec fn one_spec() -> i16 {
        1
    }

    fn zero() -> (r: i16) {
        0
    }

    fn one() -> (r: i16) {
        1
    }
}

impl Number for i32 {
    open spec fn zero_spec() -> i32 {
        0
    }

    open spec fn one_spec() -> i32 {
        1
    }

    fn zero() -> (r: i32) {
        0
    }

    fn one() -> (r: i32) {
        1
    }
}

impl Number for i64 {
    open spec fn zero_spec() -> i64 {
        0
    }

    open spec fn one_spec() -> i64 {
        1
    }

    fn zero() -> (r: i64) {
        0
    }

    fn one() -> (r: i64) {
        1
    }
}

impl Number for i128 {
    open spec fn zero_spec() -> i128 {
        0
    }

    open spec fn one_spec() -> i128 {
        1
    }

    fn zero() -> (r: i128) {
        0
    }

    fn one() -> (r: i128) {
        1
    }
}

impl Number for isize {
    open spec fn zero_spec() -> isize {
        0
    }

    open spec fn one_spec() -> isize {
        1
    }

    fn zero() -> (r: isize) {
        0
    }

    fn one() -> (r: isize) {
        1
    }
}

impl Integer for u8 {
    type Exp = u32;

    open spec fn pow_req(self, exp: u32) -> bool {
        forall|i: nat| i <= exp ==> u8::MIN <= #[trigger] pow(self as int, i) <= u8::MAX
    }

    open spec fn pow_spec(self, exp: u32) -> u8 {
        pow(self as int, exp as nat) as u8
    }

    fn pow(self, exp: u32) -> (r: u8) {
        let mut acc: u8 = 1;
        let mut i: u32 = 0;
        proof {
            reveal(pow);
        }
        while i < exp
            invariant
                i <= exp,
                self.pow_req(exp),
                acc as int == pow(self as int, i as nat),
            decreases exp - i,
        {
            proof {
                reveal(pow);
                assert(pow(self as int, (i + 1) as nat) == self * pow(self as int, i as nat));
                assert(u8::MIN <= pow(self as int, (i + 1) as nat) <= u8::MAX);
            }
            acc = acc * self;
            i = i + 1;
        }
        assert(u8::MIN <= pow(self as int, exp as nat) <= u8::MAX);
        acc
    }
}

impl Integer for u16 {
    type Exp = u32;

    open spec fn pow_req(self, exp: u32) -> bool {
        forall|i: nat| i <= exp ==> u16::MIN <= #[trigger] pow(self as int, i) <= u16::MAX
    }

    open spec fn pow_spec(self, exp: u32) -> u16 {
        pow(self as int, exp as nat) as u16
    }

    fn pow(self, exp: u32) -> (r: u16) {
        let mut acc: u16 = 1;
        let mut i: u32 = 0;
        proof {
            reveal(pow);
        }
        while i < exp
            invariant
                i <= exp,
                self.pow_req(exp),
                acc as int == pow(self as int, i as nat),
            decreases exp - i,
        {
            proof {
                reveal(pow);
                assert(pow(self as int, (i + 1) as nat) == self * pow(self as int, i as nat));
                assert(u16::MIN <= pow(self as int, (i + 1) as nat) <= u16::MAX);
            }
            acc = acc * self;
            i = i + 1;
        }
        assert(u16::MIN <= pow(self as int, exp as nat) <= u16::MAX);
        acc
    }
}

impl Integer for u32 {
    type Exp = u32;

    open spec fn pow_req(self, exp: u32) -> bool {
        forall|i: nat| i <= exp ==> u32::MIN <= #[trigger] pow(self as int, i) <= u32::MAX
    }

    open spec fn pow_spec(self, exp: u32) -> u32 {
        pow(self as int, exp as nat) as u32
    }

    fn pow(self, exp: u32) -> (r: u32) {
        let mut acc: u32 = 1;
        let mut i: u32 = 0;
        proof {
            reveal(pow);
        }
        while i < exp
            invariant
                i <= exp,
                self.pow_req(exp),
                acc as int == pow(self as int, i as nat),
            decreases exp - i,
        {
            proof {
                reveal(pow);
                assert(pow(self as int, (i + 1) as nat) == self * pow(self as int, i as nat));
                assert(u32::MIN <= pow(self as int, (i + 1) as nat) <= u32::MAX);
            }
            acc = acc * self;
            i = i + 1;
        }
        assert(u32::MIN <= pow(self as int, exp as nat) <= u32::MAX);
        acc
    }
}

impl Integer for u64 {
    type Exp = u32;

    open spec fn pow_req(self, exp: u32) -> bool {
        forall|i: nat| i <= exp ==> u64::MIN <= #[trigger] pow(self as int, i) <= u64::MAX
    }

    open spec fn pow_spec(self, exp: u32) -> u64 {
        pow(self as int, exp as nat) as u64
    }

    fn pow(self, exp: u32) -> (r: u64) {
        let mut acc: u64 = 1;
        let mut i: u32 = 0;
        proof {
            reveal(pow);
        }
        while i < exp
            invariant
                i <= exp,
                self.pow_req(exp),
                acc as int == pow(self as int, i as nat),
            decreases exp - i,
        {
            proof {
                reveal(pow);
                assert(pow(self as int, (i + 1) as nat) == self * pow(self as int, i as nat));
                assert(u64::MIN <= pow(self as int, (i + 1) as nat) <= u64::MAX);
            }
            acc = acc * self;
            i = i + 1;
        }
        assert(u64::MIN <= pow(self as int, exp as nat) <= u64::MAX);
        acc
    }
}

impl Integer for u128 {
    type Exp = u32;

    open spec fn pow_req(self, exp: u32) -> bool {
        forall|i: nat| i <= exp ==> u128::MIN <= #[trigger] pow(self as int, i) <= u128::MAX
    }

    open spec fn pow_spec(self, exp: u32) -> u128 {
        pow(self as int, exp as nat) as u128
    }

    fn pow(self, exp: u32) -> (r: u128) {
        let mut acc: u128 = 1;
        let mut i: u32 = 0;
        proof {
            reveal(pow);
        }
        while i < exp
            invariant
                i <= exp,
                self.pow_req(exp),
                acc as int == pow(self as int, i as nat),
            decreases exp - i,
        {
            proof {
                reveal(pow);
                assert(pow(self as int, (i + 1) as nat) == self * pow(self as int, i as nat));
                assert(u128::MIN <= pow(self as int, (i + 1) as nat) <= u128::MAX);
            }
            acc = acc * self;
            i = i + 1;
        }
        assert(u128::MIN <= pow(self as int, exp as nat) <= u128::MAX);
        acc
    }
}

impl Integer for usize {
    type Exp = u32;

    open spec fn pow_req(self, exp: u32) -> bool {
        forall|i: nat| i <= exp ==> usize::MIN <= #[trigger] pow(self as int, i) <= usize::MAX
    }

    open spec fn pow_spec(self, exp: u32) -> usize {
        pow(self as int, exp as nat) as usize
    }

    fn pow(self, exp: u32) -> (r: usize) {
        let mut acc: usize = 1;
        let mut i: u32 = 0;
        proof {
            reveal(pow);
        }
        while i < exp
            invariant
                i <= exp,
                self.pow_req(exp),
                acc as int == pow(self as int, i as nat),
            decreases exp - i,
        {
            proof {
                reveal(pow);
                assert(pow(self as int, (i + 1) as nat) == self * pow(self as int, i as nat));
                assert(usize::MIN <= pow(self as int, (i + 1) as nat) <= usize::MAX);
            }
            acc = acc * self;
            i = i + 1;
        }
        assert(usize::MIN <= pow(self as int, exp as nat) <= usize::MAX);
        acc
    }
}

impl Integer for i8 {
    type Exp = u32;

    open spec fn pow_req(self, exp: u32) -> bool {
        forall|i: nat| i <= exp ==> i8::MIN <= #[trigger] pow(self as int, i) <= i8::MAX
    }

    open spec fn pow_spec(self, exp: u32) -> i8 {
        pow(self as int, exp as nat) as i8
    }

    fn pow(self, exp: u32) -> (r: i8) {
        let mut acc: i8 = 1;
        let mut i: u32 = 0;
        proof {
            reveal(pow);
        }
        while i < exp
            invariant
                i <= exp,
                self.pow_req(exp),
                acc as int == pow(self as int, i as nat),
            decreases exp - i,
        {
            proof {
                reveal(pow);
                assert(pow(self as int, (i + 1) as nat) == self * pow(self as int, i as nat));
                assert(i8::MIN <= pow(self as int, (i + 1) as nat) <= i8::MAX);
            }
            acc = acc * self;
            i = i + 1;
        }
        assert(i8::MIN <= pow(self as int, exp as nat) <= i8::MAX);
        acc
    }
}

impl Integer for i16 {
    type Exp = u32;

    open spec fn pow_req(self, exp: u32) -> bool {
        forall|i: nat| i <= exp ==> i16::MIN <= #[trigger] pow(self as int, i) <= i16::MAX
    }

    open spec fn pow_spec(self, exp: u32) -> i16 {
        pow(self as int, exp as nat) as i16
    }

    fn pow(self, exp: u32) -> (r: i16) {
        let mut acc: i16 = 1;
        let mut i: u32 = 0;
        proof {
            reveal(pow);
        }
        while i < exp
            invariant
                i <= exp,
                self.pow_req(exp),
                acc as int == pow(self as int, i as nat),
            decreases exp - i,
        {
            proof {
                reveal(pow);
                assert(pow(self as int, (i + 1) as nat) == self * pow(self as int, i as nat));
                assert(i16::MIN <= pow(self as int, (i + 1) as nat) <= i16::MAX);
            }
            acc = acc * self;
            i = i + 1;
        }
        assert(i16::MIN <= pow(self as int, exp as nat) <= i16::MAX);
        acc
    }
}

impl Integer for i32 {
    type Exp = u32;

    open spec fn pow_req(self, exp: u32) -> bool {
        forall|i: nat| i <= exp ==> i32::MIN <= #[trigger] pow(self as int, i) <= i32::MAX
    }

    open spec fn pow_spec(self, exp: u32) -> i32 {
        pow(self as int, exp as nat) as i32
    }

    fn pow(self, exp: u32) -> (r: i32) {
        let mut acc: i32 = 1;
        let mut i: u32 = 0;
        proof {
            reveal(pow);
        }
        while i < exp
            invariant
                i <= exp,
                self.pow_req(exp),
                acc as int == pow(self as int, i as nat),
            decreases exp - i,
        {
            proof {
                reveal(pow);
                assert(pow(self as int, (i + 1) as nat) == self * pow(self as int, i as nat));
                assert(i32::MIN <= pow(self as int, (i + 1) as nat) <= i32::MAX);
            }
            acc = acc * self;
            i = i + 1;
        }
        assert(i32::MIN <= pow(self as int, exp as nat) <= i32::MAX);
        acc
    }
}

impl Integer for i64 {
    type Exp = u32;

    open spec fn pow_req(self, exp: u32) -> bool {
        forall|i: nat| i <= exp ==> i64::MIN <= #[trigger] pow(self as int, i) <= i64::MAX
    }

    open spec fn pow_spec(self, exp: u32) -> i64 {
        pow(self as int, exp as nat) as i64
    }

    fn pow(self, exp: u32) -> (r: i64) {
        let mut acc: i64 = 1;
        let mut i: u32 = 0;
        proof {
            reveal(pow);
        }
        while i < exp
            invariant
                i <= exp,
                self.pow_req(exp),
                acc as int == pow(self as int, i as nat),
            decreases exp - i,
        {
            proof {
                reveal(pow);
                assert(pow(self as int, (i + 1) as nat) == self * pow(self as int, i as nat));
                assert(i64::MIN <= pow(self as int, (i + 1) as nat) <= i64::MAX);
            }
            acc = acc * self;
            i = i + 1;
        }
        assert(i64::MIN <= pow(self as int, exp as nat) <= i64::MAX);
        acc
    }
}

impl Integer for i128 {
    type Exp = u32;

    open spec fn pow_req(self, exp: u32) -> bool {
        forall|i: nat| i <= exp ==> i128::MIN <= #[trigger] pow(self as int, i) <= i128::MAX
    }

    open spec fn pow_spec(self, exp: u32) -> i128 {
        pow(self as int, exp as nat) as i128
    }

    fn pow(self, exp: u32) -> (r: i128) {
        let mut acc: i128 = 1;
        let mut i: u32 = 0;
        proof {
            reveal(pow);
        }
        while i < exp
            invariant
                i <= exp,
                self.pow_req(exp),
                acc as int == pow(self as int, i as nat),
            decreases exp - i,
        {
            proof {
                reveal(pow);
                assert(pow(self as int, (i + 1) as nat) == self * pow(self as int, i as nat));
                assert(i128::MIN <= pow(self as int, (i + 1) as nat) <= i128::MAX);
            }
            acc = acc * self;
            i = i + 1;
        }
        assert(i128::MIN <= pow(self as int, exp as nat) <= i128::MAX);
        acc
    }
}

impl Integer for isize {
    type Exp = u32;

    open spec fn pow_req(self, exp: u32) -> bool {
        forall|i: nat| i <= exp ==> isize::MIN <= #[trigger] pow(self as int, i) <= isize::MAX
    }

    open spec fn pow_spec(self, exp: u32) -> isize {
        pow(self as int, exp as nat) as isize
    }

    fn pow(self, exp: u32) -> (r: isize) {
        let mut acc: isize = 1;
        let mut i: u32 = 0;
        proof {
            reveal(pow);
        }
        while i < exp
            invariant
                i <= exp,
                self.pow_req(exp),
                acc as int == pow(self as int, i as nat),
            decreases exp - i,
        {
            proof {
                reveal(pow);
                assert(pow(self as int, (i + 1) as nat) == self * pow(self as int, i as nat));
                assert(isize::MIN <= pow(self as int, (i + 1) as nat) <= isize::MAX);
            }
            acc = acc * self;
            i = i + 1;
        }
        assert(isize::MIN <= pow(self as int, exp as nat) <= isize::MAX);
        acc
    }
}

} // verus!
