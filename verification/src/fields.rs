//! The base field and its extensions, as plain residues.
//!
//! Values are held as canonical residues below the modulus. The arithmetic
//! itself is done by `stwo`; each operation used here is stated over the
//! residues by a spec function of this module.

use vstd::prelude::*;

verus! {

/// The modulus of the base field, the Mersenne prime `2^31 - 1`.
pub const P: u32 = 2147483647;

/// The number of base-field coordinates of an element of the secure field.
pub const SECURE_EXTENSION_DEGREE: usize = 4;

/// An element of the base field.
#[derive(Clone, Copy, Debug, PartialEq, Eq, Structural)]
pub struct M31 {
    pub value: u32,
}

/// An element `real + imag * i` of the complex extension of the base field,
/// where `i^2 = -1`.
#[derive(Clone, Copy, Debug, PartialEq, Eq, Structural)]
pub struct CM31 {
    pub real: M31,
    pub imag: M31,
}

/// An element `first + second * u` of the secure field, the quadratic
/// extension of [`CM31`] where `u^2 = 2 + i`.
#[derive(Clone, Copy, Debug, PartialEq, Eq, Structural)]
pub struct QM31 {
    pub first: CM31,
    pub second: CM31,
}

pub type BaseField = M31;

pub type SecureField = QM31;

impl M31 {
    /// A residue is canonical when it lies below the modulus.
    pub open spec fn wf(self) -> bool {
        self.value < P
    }

    /// The canonical residue of an integer.
    pub open spec fn of_int(x: int) -> M31 {
        M31 { value: (x % (P as int)) as u32 }
    }

    #[verifier::opaque]
    pub open spec fn spec_add(self, rhs: M31) -> M31 {
        M31::of_int(self.value + rhs.value)
    }

    #[verifier::opaque]
    pub open spec fn spec_sub(self, rhs: M31) -> M31 {
        M31::of_int(self.value - rhs.value)
    }

    #[verifier::opaque]
    pub open spec fn spec_mul(self, rhs: M31) -> M31 {
        M31::of_int(self.value * rhs.value)
    }

    pub fn zero() -> (r: M31)
        ensures
            r == M31::of_int(0),
            r.value == 0,
    {
        M31 { value: 0 }
    }

    pub fn one() -> (r: M31)
        ensures
            r == M31::of_int(1),
            r.value == 1,
    {
        M31 { value: 1 }
    }

    /// The element that an unsigned integer stands for.
    pub fn from_u32(value: u32) -> (r: M31)
        ensures
            r == M31::of_int(value as int),
            r.wf(),
    {
        m31_from_u32(value)
    }

    /// Whether the residue is canonical.
    pub fn is_canonical(&self) -> (r: bool)
        ensures
            r == self.wf(),
    {
        self.value < P
    }
}

impl CM31 {
    pub open spec fn wf(self) -> bool {
        self.real.wf() && self.imag.wf()
    }

    pub open spec fn spec_add(self, rhs: CM31) -> CM31 {
        CM31 { real: self.real.spec_add(rhs.real), imag: self.imag.spec_add(rhs.imag) }
    }

    pub open spec fn spec_sub(self, rhs: CM31) -> CM31 {
        CM31 { real: self.real.spec_sub(rhs.real), imag: self.imag.spec_sub(rhs.imag) }
    }

    /// `(a + bi)(c + di) = (ac - bd) + (ad + bc)i`.
    pub open spec fn spec_mul(self, rhs: CM31) -> CM31 {
        CM31 {
            real: self.real.spec_mul(rhs.real).spec_sub(self.imag.spec_mul(rhs.imag)),
            imag: self.real.spec_mul(rhs.imag).spec_add(self.imag.spec_mul(rhs.real)),
        }
    }

    /// Multiplication by a base-field element, coordinate by coordinate.
    pub open spec fn spec_scale(self, rhs: M31) -> CM31 {
        CM31 { real: self.real.spec_mul(rhs), imag: self.imag.spec_mul(rhs) }
    }

    /// The constant `2 + i` whose square root generates the secure field.
    pub open spec fn r() -> CM31 {
        CM31 { real: M31 { value: 2 }, imag: M31 { value: 1 } }
    }
}

impl QM31 {
    pub open spec fn wf(self) -> bool {
        self.first.wf() && self.second.wf()
    }

    pub open spec fn spec_zero() -> QM31 {
        QM31::spec_from_u32(0, 0, 0, 0)
    }

    pub open spec fn spec_one() -> QM31 {
        QM31::spec_from_u32(1, 0, 0, 0)
    }

    pub open spec fn spec_from_u32(a: u32, b: u32, c: u32, d: u32) -> QM31 {
        QM31 {
            first: CM31 { real: M31 { value: a }, imag: M31 { value: b } },
            second: CM31 { real: M31 { value: c }, imag: M31 { value: d } },
        }
    }

    pub open spec fn spec_from_m31_array(a: M31, b: M31, c: M31, d: M31) -> QM31 {
        QM31 { first: CM31 { real: a, imag: b }, second: CM31 { real: c, imag: d } }
    }

    pub open spec fn spec_add(self, rhs: QM31) -> QM31 {
        QM31 { first: self.first.spec_add(rhs.first), second: self.second.spec_add(rhs.second) }
    }

    pub open spec fn spec_sub(self, rhs: QM31) -> QM31 {
        QM31 { first: self.first.spec_sub(rhs.first), second: self.second.spec_sub(rhs.second) }
    }

    /// `(a + bu)(c + du) = (ac + r bd) + (ad + bc)u` with `r = 2 + i`.
    pub open spec fn spec_mul(self, rhs: QM31) -> QM31 {
        QM31 {
            first: self.first.spec_mul(rhs.first).spec_add(
                CM31::r().spec_mul(self.second).spec_mul(rhs.second),
            ),
            second: self.first.spec_mul(rhs.second).spec_add(self.second.spec_mul(rhs.first)),
        }
    }

    /// Multiplication by a base-field element, coordinate by coordinate.
    pub open spec fn spec_scale(self, rhs: M31) -> QM31 {
        QM31 { first: self.first.spec_scale(rhs), second: self.second.spec_scale(rhs) }
    }

    pub fn zero() -> (r: QM31)
        ensures
            r == QM31::spec_zero(),
            r.wf(),
    {
        QM31::from_u32_unchecked(0, 0, 0, 0)
    }

    pub fn one() -> (r: QM31)
        ensures
            r == QM31::spec_one(),
            r.wf(),
    {
        QM31::from_u32_unchecked(1, 0, 0, 0)
    }

    /// The element with the given coordinates, taken as they are.
    pub fn from_u32_unchecked(a: u32, b: u32, c: u32, d: u32) -> (r: QM31)
        ensures
            r == QM31::spec_from_u32(a, b, c, d),
    {
        QM31 {
            first: CM31 { real: M31 { value: a }, imag: M31 { value: b } },
            second: CM31 { real: M31 { value: c }, imag: M31 { value: d } },
        }
    }

    pub fn from_m31_array(a: M31, b: M31, c: M31, d: M31) -> (r: QM31)
        ensures
            r == QM31::spec_from_m31_array(a, b, c, d),
    {
        QM31 { first: CM31 { real: a, imag: b }, second: CM31 { real: c, imag: d } }
    }

    /// The four coordinates, in the order of [`QM31::from_u32_unchecked`].
    pub fn to_u32_array(&self) -> (r: [u32; 4])
        ensures
            r@ == seq![
                self.first.real.value,
                self.first.imag.value,
                self.second.real.value,
                self.second.imag.value,
            ],
    {
        [self.first.real.value, self.first.imag.value, self.second.real.value, self.second.imag.value]
    }

    /// Whether all four coordinates are canonical.
    pub fn is_canonical(&self) -> (r: bool)
        ensures
            r == self.wf(),
    {
        self.first.real.is_canonical() && self.first.imag.is_canonical()
            && self.second.real.is_canonical() && self.second.imag.is_canonical()
    }

    /// Whether this is the additive identity.
    pub fn is_zero(&self) -> (r: bool)
        ensures
            r == (*self == QM31::spec_zero()),
    {
        self.first.real.value == 0 && self.first.imag.value == 0 && self.second.real.value == 0
            && self.second.imag.value == 0
    }
}

/// `From<u32>` of stwo's `M31`: the residue of the argument modulo `P`.
#[verifier::external_body]
pub(crate) fn m31_from_u32(value: u32) -> (r: M31)
    ensures
        r == M31::of_int(value as int),
{
    M31 { value: stwo::core::fields::m31::M31::from(value).0 }
}

/// `Sub` of stwo's `M31`: on canonical residues, the canonical residue of
/// the difference.
#[verifier::external_body]
pub(crate) fn m31_sub(a: M31, b: M31) -> (r: M31)
    requires
        a.wf(),
        b.wf(),
    ensures
        r == a.spec_sub(b),
{
    let x = stwo::core::fields::m31::M31::from_u32_unchecked(a.value);
    let y = stwo::core::fields::m31::M31::from_u32_unchecked(b.value);
    M31 { value: (x - y).0 }
}

/// `Add` of stwo's `QM31`: coordinate by coordinate, the sum in `M31`.
#[verifier::external_body]
pub(crate) fn qm31_add(a: QM31, b: QM31) -> (r: QM31)
    requires
        a.wf(),
        b.wf(),
    ensures
        r == a.spec_add(b),
{
    let [a0, a1, a2, a3] = a.to_u32_array();
    let [b0, b1, b2, b3] = b.to_u32_array();
    let x = stwo::core::fields::qm31::QM31::from_u32_unchecked(a0, a1, a2, a3);
    let y = stwo::core::fields::qm31::QM31::from_u32_unchecked(b0, b1, b2, b3);
    let [r0, r1, r2, r3] = (x + y).to_m31_array();
    QM31::from_u32_unchecked(r0.0, r1.0, r2.0, r3.0)
}

/// `Sub` of stwo's `QM31`: coordinate by coordinate, the difference in `M31`.
#[verifier::external_body]
pub(crate) fn qm31_sub(a: QM31, b: QM31) -> (r: QM31)
    requires
        a.wf(),
        b.wf(),
    ensures
        r == a.spec_sub(b),
{
    let [a0, a1, a2, a3] = a.to_u32_array();
    let [b0, b1, b2, b3] = b.to_u32_array();
    let x = stwo::core::fields::qm31::QM31::from_u32_unchecked(a0, a1, a2, a3);
    let y = stwo::core::fields::qm31::QM31::from_u32_unchecked(b0, b1, b2, b3);
    let [r0, r1, r2, r3] = (x - y).to_m31_array();
    QM31::from_u32_unchecked(r0.0, r1.0, r2.0, r3.0)
}

/// `Mul` of stwo's `QM31`: the product of two elements written over `CM31`,
/// reduced by `u^2 = 2 + i`; `CM31` in turn multiplies as the complex
/// numbers over `M31` do.
#[verifier::external_body]
pub(crate) fn qm31_mul(a: QM31, b: QM31) -> (r: QM31)
    requires
        a.wf(),
        b.wf(),
    ensures
        r == a.spec_mul(b),
{
    let [a0, a1, a2, a3] = a.to_u32_array();
    let [b0, b1, b2, b3] = b.to_u32_array();
    let x = stwo::core::fields::qm31::QM31::from_u32_unchecked(a0, a1, a2, a3);
    let y = stwo::core::fields::qm31::QM31::from_u32_unchecked(b0, b1, b2, b3);
    let [r0, r1, r2, r3] = (x * y).to_m31_array();
    QM31::from_u32_unchecked(r0.0, r1.0, r2.0, r3.0)
}

/// `Mul<M31>` of stwo's `QM31`: every coordinate multiplied in `M31` by the
/// base-field element.
#[verifier::external_body]
pub(crate) fn qm31_scale(a: QM31, b: M31) -> (r: QM31)
    requires
        a.wf(),
        b.wf(),
    ensures
        r == a.spec_scale(b),
{
    let [a0, a1, a2, a3] = a.to_u32_array();
    let x = stwo::core::fields::qm31::QM31::from_u32_unchecked(a0, a1, a2, a3);
    let y = stwo::core::fields::m31::M31::from_u32_unchecked(b.value);
    let [r0, r1, r2, r3] = (x * y).to_m31_array();
    QM31::from_u32_unchecked(r0.0, r1.0, r2.0, r3.0)
}

/// Among canonical elements, a difference is zero exactly when the two
/// elements are equal.
pub proof fn lemma_sub_is_zero_iff_equal(a: QM31, b: QM31)
    requires
        a.wf(),
        b.wf(),
    ensures
        a.spec_sub(b) == QM31::spec_zero() <==> a == b,
{
    reveal(M31::spec_sub);
}

/// Among canonical residues, taking a summand off a sum leaves the other
/// summand, and taking zero off leaves the residue.
pub proof fn lemma_m31_sub_undoes_add(a: M31, b: M31, t: M31)
    requires
        a.wf(),
        b.wf(),
        t.wf(),
    ensures
        t.spec_sub(M31 { value: 0 }) == t,
        a.spec_add(t).spec_sub(a) == t,
        a.spec_add(b).spec_add(t).spec_sub(a).spec_sub(b) == t,
{
    reveal(M31::spec_add);
    reveal(M31::spec_sub);
    let p = P as int;
    let at = (a.value + t.value) % p;
    assert(at == a.value + t.value || at == a.value + t.value - p);
    assert((at - a.value) % p == t.value);
    let ab = (a.value + b.value) % p;
    assert(ab == a.value + b.value || ab == a.value + b.value - p);
    let abt = (ab + t.value) % p;
    assert(abt == ab + t.value || abt == ab + t.value - p);
    let less_a = (abt - a.value) % p;
    assert(less_a == abt - a.value || less_a == abt - a.value + p || less_a == abt - a.value - p);
    assert((less_a - b.value) % p == t.value);
}

/// Among canonical elements, taking a summand off a sum leaves the other
/// summand, and taking zero off leaves the element.
pub proof fn lemma_sub_undoes_add(a: QM31, b: QM31, t: QM31)
    requires
        a.wf(),
        b.wf(),
        t.wf(),
    ensures
        t.spec_sub(QM31::spec_zero()) == t,
        a.spec_add(t).spec_sub(a) == t,
        a.spec_add(b).spec_add(t).spec_sub(a).spec_sub(b) == t,
{
    lemma_m31_sub_undoes_add(a.first.real, b.first.real, t.first.real);
    lemma_m31_sub_undoes_add(a.first.imag, b.first.imag, t.first.imag);
    lemma_m31_sub_undoes_add(a.second.real, b.second.real, t.second.real);
    lemma_m31_sub_undoes_add(a.second.imag, b.second.imag, t.second.imag);
}

/// `inverse` of stwo's `QM31`: the element whose product with the argument
/// is one. stwo refuses to invert zero.
#[verifier::external_body]
pub(crate) fn qm31_inverse(a: QM31) -> (r: QM31)
    requires
        a.wf(),
        a != QM31::spec_zero(),
    ensures
        r.wf(),
        r.spec_mul(a) == QM31::spec_one(),
{
    let [a0, a1, a2, a3] = a.to_u32_array();
    let x = stwo::core::fields::qm31::QM31::from_u32_unchecked(a0, a1, a2, a3);
    let [r0, r1, r2, r3] = stwo::core::fields::FieldExpOps::inverse(&x).to_m31_array();
    QM31::from_u32_unchecked(r0.0, r1.0, r2.0, r3.0)
}

/// Among canonical elements: zero times anything is zero and one times an
/// element is the element, where the factor is a base-field flag; an
/// element less itself is zero; zero plus an element is the element.
pub proof fn lemma_flags_and_zero(c: QM31, x: QM31)
    requires
        c.wf(),
        x.wf(),
    ensures
        c.spec_scale(M31 { value: 0 }) == QM31::spec_zero(),
        c.spec_scale(M31 { value: 1 }) == c,
        x.spec_sub(x) == QM31::spec_zero(),
        QM31::spec_zero().spec_add(x) == x,
{
    reveal(M31::spec_add);
    reveal(M31::spec_sub);
    reveal(M31::spec_mul);
}

/// Every arithmetic result named in this module is canonical.
pub proof fn lemma_results_canonical(a: QM31, b: QM31, m: M31, n: M31, x: int)
    ensures
        M31::of_int(x).wf(),
        m.spec_add(n).wf(),
        m.spec_sub(n).wf(),
        m.spec_mul(n).wf(),
        a.spec_add(b).wf(),
        a.spec_sub(b).wf(),
        a.spec_mul(b).wf(),
        a.spec_scale(m).wf(),
{
    reveal(M31::spec_add);
    reveal(M31::spec_sub);
    reveal(M31::spec_mul);
}

} // verus!
