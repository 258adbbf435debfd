//! The linear-algebra values that flow through the renderer.
//!
//! Vectors, quaternions and matrices are `glam` values. The verifier sees
//! them as opaque; what a value holds is named by the bit patterns of its
//! single-precision components. A `glam` operation fixes every component of
//! its result that is a number. Where a component is not a number, it does
//! not fix which of the many bit patterns of "not a number" comes out; so
//! what an operation returns is named up to that choice, over canonical
//! components. Everything in this file that is marked `external_body` is
//! believed, not proved.

use vstd::prelude::*;
use glam::{Mat4, Quat, Vec3};

verus! {

/// `glam::Mat4`, a 4x4 column-major matrix of single-precision numbers.
#[verifier::external_type_specification]
#[verifier::external_body]
pub struct ExMat4(Mat4);

/// `glam::Vec3`, a vector of three single-precision numbers.
#[verifier::external_type_specification]
#[verifier::external_body]
pub struct ExVec3(Vec3);

/// `glam::Quat`, a quaternion of four single-precision numbers.
#[verifier::external_type_specification]
#[verifier::external_body]
pub struct ExQuat(Quat);

/// The sixteen components of a matrix, column by column, each as the bit
/// pattern of its IEEE-754 single-precision value: what
/// `Mat4::to_cols_array` returns, passed through `to_bits`.
pub uninterp spec fn mat4_cols(m: Mat4) -> Seq<u32>;

/// The components `[x, y, z]` of a vector as bit patterns: what
/// `Vec3::to_array` returns, passed through `to_bits`.
pub uninterp spec fn vec3_bits(v: Vec3) -> Seq<u32>;

/// The components `[x, y, z, w]` of a quaternion as bit patterns: what
/// `Quat::to_array` returns, passed through `to_bits`.
pub uninterp spec fn quat_bits(q: Quat) -> Seq<u32>;

/// Whether a bit pattern stands for "not a number": all exponent bits set
/// and some bit of the fraction.
pub open spec fn is_nan_bits(bits: u32) -> bool {
    0x7F80_0000 < bits <= 0x7FFF_FFFF || 0xFF80_0000 < bits
}

/// The one pattern that stands for every "not a number".
pub const NAN_BITS: u32 = 0x7FC0_0000;

/// A bit pattern with the choice among the patterns of "not a number"
/// taken away: every such pattern becomes `NAN_BITS`, every other pattern
/// stays.
pub open spec fn canonical_bits(bits: u32) -> u32 {
    if is_nan_bits(bits) {
        NAN_BITS
    } else {
        bits
    }
}

/// Components with every pattern of "not a number" made the same one.
pub open spec fn canonical(bits: Seq<u32>) -> Seq<u32> {
    bits.map_values(|b: u32| canonical_bits(b))
}

/// The canonical components of the matrix product `lhs * rhs` as `glam`
/// computes it, as a function of the canonical components of the two
/// factors.
pub uninterp spec fn product_cols(lhs: Seq<u32>, rhs: Seq<u32>) -> Seq<u32>;

/// The canonical components of the affine matrix that
/// `Mat4::from_scale_rotation_translation` builds, as a function of the
/// canonical components of its three arguments.
pub uninterp spec fn transform_cols(
    scale: Seq<u32>,
    rotation: Seq<u32>,
    translation: Seq<u32>,
) -> Seq<u32>;

/// Whether `Mat4::to_scale_rotation_translation` has read the given scale,
/// rotation and translation out of a matrix with the given components. It
/// holds of the argument and the result of every such call; what the call
/// returns is not the same in every build of `glam`, so it is no function
/// of the argument.
pub uninterp spec fn decomposition(
    cols: Seq<u32>,
    scale: Seq<u32>,
    rotation: Seq<u32>,
    translation: Seq<u32>,
) -> bool;

/// Bit pattern of the single-precision number `0.0`.
pub const ZERO_BITS: u32 = 0;

/// Bit pattern of the single-precision number `1.0`.
pub const ONE_BITS: u32 = 0x3F80_0000;

/// Components of the 4x4 identity matrix.
pub open spec fn identity_cols() -> Seq<u32> {
    seq![
        ONE_BITS, ZERO_BITS, ZERO_BITS, ZERO_BITS,
        ZERO_BITS, ONE_BITS, ZERO_BITS, ZERO_BITS,
        ZERO_BITS, ZERO_BITS, ONE_BITS, ZERO_BITS,
        ZERO_BITS, ZERO_BITS, ZERO_BITS, ONE_BITS,
    ]
}

/// Components of the zero vector.
pub open spec fn zero_vec3_bits() -> Seq<u32> {
    seq![ZERO_BITS, ZERO_BITS, ZERO_BITS]
}

/// Components of the vector `(1, 1, 1)`.
pub open spec fn one_vec3_bits() -> Seq<u32> {
    seq![ONE_BITS, ONE_BITS, ONE_BITS]
}

/// Components `[x, y, z, w]` of the identity rotation.
pub open spec fn identity_quat_bits() -> Seq<u32> {
    seq![ZERO_BITS, ZERO_BITS, ZERO_BITS, ONE_BITS]
}

/// `Mat4` derives `Clone` and `Copy`: a clone is the same matrix.
pub assume_specification[ <Mat4 as Clone>::clone ](m: &Mat4) -> (r: Mat4)
    ensures
        r == *m,
;

/// `Mat4::IDENTITY`: the matrix whose columns are the four unit vectors.
#[verifier::external_body]
pub(crate) fn mat4_identity() -> (r: Mat4)
    ensures
        mat4_cols(r) == identity_cols(),
{
    Mat4::IDENTITY
}

/// `Vec3::ZERO`: all three components are `0.0`.
#[verifier::external_body]
pub(crate) fn vec3_zero() -> (r: Vec3)
    ensures
        vec3_bits(r) == zero_vec3_bits(),
{
    Vec3::ZERO
}

/// `Vec3::ONE`: all three components are `1.0`.
#[verifier::external_body]
pub(crate) fn vec3_one() -> (r: Vec3)
    ensures
        vec3_bits(r) == one_vec3_bits(),
{
    Vec3::ONE
}

/// `Quat::IDENTITY`: the rotation `(0, 0, 0, 1)`.
#[verifier::external_body]
pub(crate) fn quat_identity() -> (r: Quat)
    ensures
        quat_bits(r) == identity_quat_bits(),
{
    Quat::IDENTITY
}

/// `Mat4 * Mat4`: every component of the product that is a number depends
/// on the components of the two factors only, and whether a component is
/// a number does so too; the canonical components are named
/// `product_cols`.
#[verifier::external_body]
pub(crate) fn mat4_mul(lhs: Mat4, rhs: Mat4) -> (r: Mat4)
    ensures
        canonical(mat4_cols(r)) == product_cols(
            canonical(mat4_cols(lhs)),
            canonical(mat4_cols(rhs)),
        ),
{
    lhs * rhs
}

/// `Mat4::from_scale_rotation_translation`: every component of the result
/// that is a number depends on the components of the three arguments only,
/// and whether a component is a number does so too; the canonical
/// components are named `transform_cols`. With glam's default features the
/// call does not panic, whatever the rotation.
#[verifier::external_body]
pub(crate) fn mat4_from_scale_rotation_translation(
    scale: Vec3,
    rotation: Quat,
    translation: Vec3,
) -> (r: Mat4)
    ensures
        canonical(mat4_cols(r)) == transform_cols(
            canonical(vec3_bits(scale)),
            canonical(quat_bits(rotation)),
            canonical(vec3_bits(translation)),
        ),
{
    Mat4::from_scale_rotation_translation(scale, rotation, translation)
}

/// `Vec3::to_array`, each component turned into its bit pattern.
#[verifier::external_body]
pub(crate) fn vec3_to_bits(v: Vec3) -> (r: [u32; 3])
    ensures
        r@ == vec3_bits(v),
{
    v.to_array().map(|c| c.to_bits())
}

/// `Mat4::to_scale_rotation_translation`: the scale, rotation and
/// translation that `glam` reads out of an affine matrix. The translation
/// is the first three components of the fourth column as they stand. Scale
/// and rotation are computed, and their last bits depend on how `glam` was
/// built: of them only `decomposition` is claimed, which holds of every
/// outcome. With glam's default features the call does not panic.
#[verifier::external_body]
pub(crate) fn mat4_to_scale_rotation_translation(m: Mat4) -> (r: (Vec3, Quat, Vec3))
    ensures
        decomposition(mat4_cols(m), vec3_bits(r.0), quat_bits(r.1), vec3_bits(r.2)),
        vec3_bits(r.2) == mat4_cols(m).subrange(12, 15),
{
    m.to_scale_rotation_translation()
}

/// The components of the identity matrix, of the zero vector, of the
/// vector of ones and of the identity rotation are numbers, and so
/// canonical as they stand.
pub proof fn lemma_constants_are_canonical()
    ensures
        canonical(identity_cols()) == identity_cols(),
        canonical(zero_vec3_bits()) == zero_vec3_bits(),
        canonical(one_vec3_bits()) == one_vec3_bits(),
        canonical(identity_quat_bits()) == identity_quat_bits(),
{
    assert(canonical(identity_cols()) =~= identity_cols());
    assert(canonical(zero_vec3_bits()) =~= zero_vec3_bits());
    assert(canonical(one_vec3_bits()) =~= one_vec3_bits());
    assert(canonical(identity_quat_bits()) =~= identity_quat_bits());
}

} // verus!
