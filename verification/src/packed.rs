//! The accessor operations over a packed value: pure read, functional
//! update, in-place update, default construction, and the raw-integer
//! conversions — each verified against the resolved layout.

use vstd::prelude::*;
use crate::bitops::{
    lemma_extract_le_mask, lemma_insert_extract, lemma_insert_preserves, lemma_insert_zero_is_or,
    lemma_mask_bounds, lemma_mask_half, lemma_or_preserves_zero, lemma_pow2_big,
    lemma_shifted_disjoint, lemma_sint_round_trip, lemma_zero_and, mask_of_width, mask_spec,
    sint_bits, sint_from_bits, sint_in_range, sint_max, sint_min, sint_to_bits, sint_value,
};
use crate::error::LayoutError;
use crate::field::{Conversion, DefaultSource, FieldName, FieldValue};
use crate::layout::{fields_disjoint, BitfieldLayout, ResolvedField};

verus! {

/// Whether a runtime value fits a field: its shape matches the field's
/// conversion contract, and its bits lie within the field's width.
pub open spec fn spec_fits(v: FieldValue, c: Conversion, w: nat) -> bool {
    match v {
        FieldValue::Bool(_) => c is Bool,
        FieldValue::UInt(u) => c is UInt && u <= mask_spec(w),
        FieldValue::SInt(i) => c is SInt && sint_in_range(i as int, w),
        FieldValue::Opaque(u) => c matches Conversion::Opaque { .. } && u <= mask_spec(w),
    }
}

/// The write-path conversion: the low `w` bits a fitting value stores.
pub open spec fn spec_value_bits(v: FieldValue, w: nat) -> u128
    recommends
        1 <= w <= 128,
{
    match v {
        FieldValue::Bool(b) => if b {
            1
        } else {
            0
        },
        FieldValue::UInt(u) => u,
        FieldValue::SInt(i) => sint_bits(i as int, w),
        FieldValue::Opaque(u) => u,
    }
}

/// The read-path conversion: the value the masked bits `b` decode to
/// under the conversion contract `c`.
pub open spec fn spec_bits_value(b: u128, c: Conversion, w: nat) -> FieldValue
    recommends
        1 <= w <= 128,
{
    match c {
        Conversion::Bool => FieldValue::Bool(b != 0),
        Conversion::UInt => FieldValue::UInt(b),
        Conversion::SInt => FieldValue::SInt(sint_value(b, w) as i128),
        Conversion::Opaque { .. } => FieldValue::Opaque(b),
    }
}

/// Converting a fitting value to its bits and back is the identity,
/// and the bits stay within the field's mask.
pub proof fn lemma_value_round_trip(v: FieldValue, c: Conversion, w: nat)
    requires
        1 <= w <= 128,
        spec_fits(v, c, w),
    ensures
        spec_value_bits(v, w) <= mask_spec(w),
        spec_bits_value(spec_value_bits(v, w), c, w) == v,
{
    lemma_mask_bounds(w);
    lemma_pow2_big();
    match v {
        FieldValue::Bool(b) => {
            vstd::arithmetic::power2::lemma_pow2_pos((w - 1) as nat);
            vstd::arithmetic::power2::lemma_pow2_adds((w - 1) as nat, 1);
            vstd::arithmetic::power2::lemma2_to64();
        },
        FieldValue::SInt(i) => {
            lemma_sint_round_trip(i as int, w);
        },
        FieldValue::UInt(u) => {},
        FieldValue::Opaque(u) => {},
    }
}

/// Tests whether a value fits a field's conversion contract and width:
/// the bounds check of the write path.
pub fn value_fits(v: &FieldValue, c: &Conversion, w: u32) -> (r: bool)
    requires
        1 <= w <= 128,
    ensures
        r == spec_fits(*v, *c, w as nat),
{
    match (v, c) {
        (FieldValue::Bool(_), Conversion::Bool) => true,
        (FieldValue::UInt(u), Conversion::UInt) => *u <= mask_of_width(w),
        (FieldValue::SInt(i), Conversion::SInt) => {
            proof {
                lemma_mask_bounds(w as nat);
                lemma_mask_half(w as nat);
                lemma_pow2_big();
            }
            let m = mask_of_width(w);
            let half = (m >> 1u128) + 1;
            let max_i: i128 = (half - 1) as i128;
            let min_i: i128 = -max_i - 1;
            min_i <= *i && *i <= max_i
        },
        (FieldValue::Opaque(u), Conversion::Opaque { .. }) => *u <= mask_of_width(w),
        _ => false,
    }
}

/// The write-path conversion of a fitting value to its stored bits.
pub fn value_to_bits(v: &FieldValue, c: &Conversion, w: u32) -> (b: u128)
    requires
        1 <= w <= 128,
        spec_fits(*v, *c, w as nat),
    ensures
        b == spec_value_bits(*v, w as nat),
        b <= mask_spec(w as nat),
{
    proof {
        lemma_value_round_trip(*v, *c, w as nat);
    }
    match v {
        FieldValue::Bool(bb) => if *bb {
            1
        } else {
            0
        },
        FieldValue::UInt(u) => *u,
        FieldValue::SInt(i) => sint_to_bits(*i, w),
        FieldValue::Opaque(u) => *u,
    }
}

/// The read-path conversion of masked bits to the field's value.
pub fn bits_to_value(b: u128, c: &Conversion, w: u32) -> (v: FieldValue)
    requires
        1 <= w <= 128,
        b <= mask_spec(w as nat),
    ensures
        v == spec_bits_value(b, *c, w as nat),
{
    match c {
        Conversion::Bool => FieldValue::Bool(b != 0),
        Conversion::UInt => FieldValue::UInt(b),
        Conversion::SInt => FieldValue::SInt(sint_from_bits(b, w)),
        Conversion::Opaque { .. } => FieldValue::Opaque(b),
    }
}

/// The bits of field `f` in the word `raw`, shifted down and masked.
pub open spec fn spec_read_bits(raw: u128, f: ResolvedField) -> u128 {
    (raw >> (f.offset as u128)) & f.mask
}

/// The word `raw` with field `f`'s range replaced by the bits `b`.
pub open spec fn spec_write_bits(raw: u128, f: ResolvedField, b: u128) -> u128 {
    (raw & !(f.mask << (f.offset as u128))) | ((b & f.mask) << (f.offset as u128))
}

/// The value of field `f` read from the word `raw`.
pub open spec fn spec_get(raw: u128, f: ResolvedField) -> FieldValue
    recommends
        f.in_range(),
        f.conversion is Some,
{
    spec_bits_value(spec_read_bits(raw, f), f.conversion->0, f.width as nat)
}

/// Reading a field's bits right after writing them returns exactly the
/// written bits.
pub proof fn lemma_read_after_write(raw: u128, f: ResolvedField, b: u128)
    requires
        f.in_range(),
        b <= mask_spec(f.width as nat),
    ensures
        spec_read_bits(spec_write_bits(raw, f, b), f) == b,
{
    crate::bitops::lemma_mask_shr_form(f.width as nat);
    lemma_insert_extract(
        raw,
        b,
        f.offset as u128,
        f.width as u128,
        (128 - f.width) as u128,
        f.mask,
    );
}

/// Writing one field leaves the bits of every disjoint field unchanged.
pub proof fn lemma_write_preserves(raw: u128, f: ResolvedField, g: ResolvedField, b: u128)
    requires
        f.in_range(),
        g.in_range(),
        fields_disjoint(f, g),
    ensures
        spec_read_bits(spec_write_bits(raw, f, b), g) == spec_read_bits(raw, g),
{
    crate::bitops::lemma_mask_shr_form(f.width as nat);
    crate::bitops::lemma_mask_shr_form(g.width as nat);
    lemma_insert_preserves(
        raw,
        b,
        f.offset as u128,
        f.width as u128,
        (128 - f.width) as u128,
        f.mask,
        g.offset as u128,
        g.width as u128,
        (128 - g.width) as u128,
        g.mask,
    );
}

/// The round-trip law: for every field and every value within the
/// field's legal range, writing the value and reading the field back
/// returns exactly that value — whatever the rest of the word holds,
/// so the law is independent of the values held by other fields.
pub proof fn lemma_field_round_trip(raw: u128, f: ResolvedField, v: FieldValue)
    requires
        f.in_range(),
        f.conversion is Some,
        spec_fits(v, f.conversion->0, f.width as nat),
    ensures
        spec_get(spec_write_bits(raw, f, spec_value_bits(v, f.width as nat)), f) == v,
{
    lemma_value_round_trip(v, f.conversion->0, f.width as nat);
    lemma_read_after_write(raw, f, spec_value_bits(v, f.width as nat));
}

/// The sign-extension law, for a signed field of width `w`: exactly
/// the values of `[-pow2(w-1), pow2(w-1) - 1]` pass the write path's
/// bounds check, and each of them — the minimum and maximum included —
/// is reproduced exactly by writing and reading back.
pub proof fn lemma_sign_extension(raw: u128, f: ResolvedField, v: i128)
    requires
        f.in_range(),
        f.conversion == Option::Some(Conversion::SInt),
    ensures
        spec_fits(FieldValue::SInt(v), f.conversion->0, f.width as nat) <==> sint_min(
            f.width as nat,
        ) <= v as int <= sint_max(f.width as nat),
        sint_min(f.width as nat) <= v as int <= sint_max(f.width as nat) ==> spec_get(
            spec_write_bits(raw, f, spec_value_bits(FieldValue::SInt(v), f.width as nat)),
            f,
        ) == FieldValue::SInt(v),
        (sint_min(f.width as nat) as i128) as int == sint_min(f.width as nat),
        (sint_max(f.width as nat) as i128) as int == sint_max(f.width as nat),
{
    crate::bitops::lemma_sint_range_bounds(f.width as nat);
    if sint_min(f.width as nat) <= v as int <= sint_max(f.width as nat) {
        lemma_field_round_trip(raw, f, FieldValue::SInt(v));
    }
}

/// A packed value: `total_bits` field bits inside a 128-bit working
/// word, read and written through a resolved layout's fields.
#[derive(Clone, Copy, PartialEq, Eq, Structural, Debug)]
pub struct Packed {
    /// The raw storage bits.
    pub raw: u128,
}

/// The default bit pattern of one resolved field, under its mask: the
/// write-path bits of a value-level default, or a padding field's raw
/// literal.
pub open spec fn spec_default_bits(f: ResolvedField) -> u128 {
    match f.default {
        DefaultSource::RawBits(b) => b & f.mask,
        DefaultSource::Value(v) => spec_value_bits(v, f.width as nat) & f.mask,
    }
}

/// The OR of the first `n` fields' default bit patterns, each shifted
/// to its resolved offset.
pub open spec fn spec_or_defaults(fs: Seq<ResolvedField>, n: int) -> u128
    decreases n,
{
    if n <= 0 {
        0
    } else {
        spec_or_defaults(fs, n - 1) | (spec_default_bits(fs[n - 1]) << (fs[n - 1].offset as u128))
    }
}

/// Whether one field's default passes its own write path's bounds
/// check (a padding field's raw literal is masked, never checked).
pub open spec fn spec_default_fits(f: ResolvedField) -> bool {
    match f.default {
        DefaultSource::RawBits(_) => true,
        DefaultSource::Value(v) => f.conversion is Some && spec_fits(
            v,
            f.conversion->0,
            f.width as nat,
        ),
    }
}

/// Whether every field's default passes its write path's bounds check.
pub open spec fn spec_defaults_fit(l: BitfieldLayout) -> bool {
    forall|i: int| 0 <= i < l.fields@.len() ==> spec_default_fits(#[trigger] l.fields@[i])
}

/// One constructor step: OR-ing a field's masked default into a word
/// whose remaining field regions are still zero extends the OR of the
/// defaults by one field and keeps the remaining regions zero.
proof fn lemma_default_step(l: BitfieldLayout, raw_old: u128, raw_new: u128, i: int, bval: u128)
    requires
        l.wf(),
        0 <= i < l.fields@.len(),
        raw_new == raw_old | (((bval & l.fields@[i].mask)) << (l.fields@[i].offset as u128)),
        (bval & l.fields@[i].mask) == spec_default_bits(l.fields@[i]),
        raw_old == spec_or_defaults(l.fields@, i),
        forall|j: int|
            i <= j < l.fields@.len() ==> raw_old & ((#[trigger] l.fields@[j]).mask << (
            l.fields@[j].offset as u128)) == 0,
    ensures
        raw_new == spec_or_defaults(l.fields@, i + 1),
        forall|j: int|
            i + 1 <= j < l.fields@.len() ==> raw_new & ((#[trigger] l.fields@[j]).mask << (
            l.fields@[j].offset as u128)) == 0,
{
    let f = l.fields@[i];
    crate::bitops::lemma_mask_shr_form(f.width as nat);
    assert forall|j: int|
        i + 1 <= j < l.fields@.len() implies raw_new & ((#[trigger] l.fields@[j]).mask << (
    l.fields@[j].offset as u128)) == 0 by {
        let g = l.fields@[j];
        crate::bitops::lemma_mask_shr_form(g.width as nat);
        assert(fields_disjoint(f, g));
        lemma_shifted_disjoint(
            bval,
            f.offset as u128,
            f.width as u128,
            (128 - f.width) as u128,
            f.mask,
            g.offset as u128,
            g.width as u128,
            (128 - g.width) as u128,
            g.mask,
        );
        lemma_or_preserves_zero(
            raw_old,
            (bval & f.mask) << (f.offset as u128),
            g.mask << (g.offset as u128),
        );
    }
}

impl Packed {
    /// Wraps a raw storage integer: the identity on bits, no
    /// validation, never failing.
    pub fn from_raw(raw: u128) -> (p: Packed)
        ensures
            p.raw == raw,
    {
        Packed { raw }
    }

    /// Unwraps to the raw storage integer: the identity on bits.
    pub fn to_raw(&self) -> (r: u128)
        ensures
            r == self.raw,
    {
        self.raw
    }

    /// Pure read of one field: applies the field's read contract to
    /// the masked, offset-shifted bits.
    pub fn get(&self, f: &ResolvedField) -> (v: FieldValue)
        requires
            f.in_range(),
            f.conversion is Some,
        ensures
            v == spec_get(self.raw, *f),
    {
        proof {
            lemma_extract_le_mask(self.raw, f.offset as u128, f.mask);
        }
        let bits = (self.raw >> (f.offset as u128)) & f.mask;
        let c = f.conversion.as_ref().unwrap();
        bits_to_value(bits, c, f.width)
    }

    /// Pure functional update of one field: returns a new packed value
    /// with the field set to `v` — which must pass the field's bounds
    /// check — and with every other field's bits preserved unchanged.
    pub fn with(self, f: &ResolvedField, v: &FieldValue) -> (p: Packed)
        requires
            f.in_range(),
            f.conversion is Some,
            spec_fits(*v, f.conversion->0, f.width as nat),
        ensures
            p.raw == spec_write_bits(self.raw, *f, spec_value_bits(*v, f.width as nat)),
            spec_get(p.raw, *f) == *v,
            forall|g: ResolvedField|
                g.in_range() && #[trigger] fields_disjoint(*f, g) ==> spec_read_bits(p.raw, g)
                    == spec_read_bits(self.raw, g),
    {
        let c = f.conversion.as_ref().unwrap();
        let b = value_to_bits(v, c, f.width);
        let raw = (self.raw & !(f.mask << (f.offset as u128))) | ((b & f.mask) << (
        f.offset as u128));
        proof {
            lemma_field_round_trip(self.raw, *f, *v);
            assert forall|g: ResolvedField|
                g.in_range() && #[trigger] fields_disjoint(*f, g) implies spec_read_bits(raw, g)
                == spec_read_bits(self.raw, g) by {
                lemma_write_preserves(self.raw, *f, g, b);
            }
        }
        Packed { raw }
    }

    /// The guarded functional update: tests the field's bounds check
    /// first and reports [`LayoutError::BoundsViolation`] instead of
    /// requiring it, leaving the packed value untouched.
    pub fn try_with(self, f: &ResolvedField, v: &FieldValue) -> (r: Result<Packed, LayoutError>)
        requires
            f.in_range(),
            f.conversion is Some,
        ensures
            match r {
                Result::Ok(p) => spec_fits(*v, f.conversion->0, f.width as nat) && p.raw
                    == spec_write_bits(self.raw, *f, spec_value_bits(*v, f.width as nat))
                    && spec_get(p.raw, *f) == *v,
                Result::Err(e) => e == LayoutError::BoundsViolation && !spec_fits(
                    *v,
                    f.conversion->0,
                    f.width as nat,
                ),
            },
    {
        let c = f.conversion.as_ref().unwrap();
        if value_fits(v, c, f.width) {
            Result::Ok(self.with(f, v))
        } else {
            Result::Err(LayoutError::BoundsViolation)
        }
    }

    /// In-place update of one field: equivalent to replacing the
    /// packed value with the functional update's result.
    pub fn set(&mut self, f: &ResolvedField, v: &FieldValue)
        requires
            f.in_range(),
            f.conversion is Some,
            spec_fits(*v, f.conversion->0, f.width as nat),
        ensures
            final(self).raw == spec_write_bits(
                old(self).raw,
                *f,
                spec_value_bits(*v, f.width as nat),
            ),
            spec_get(final(self).raw, *f) == *v,
    {
        *self = (*self).with(f, v);
    }

    /// The guarded in-place update: on a failed bounds check reports
    /// [`LayoutError::BoundsViolation`] and leaves the value unchanged.
    pub fn try_set(&mut self, f: &ResolvedField, v: &FieldValue) -> (r: Result<(), LayoutError>)
        requires
            f.in_range(),
            f.conversion is Some,
        ensures
            match r {
                Result::Ok(u) => spec_fits(*v, f.conversion->0, f.width as nat) && final(self).raw
                    == spec_write_bits(old(self).raw, *f, spec_value_bits(*v, f.width as nat)),
                Result::Err(e) => e == LayoutError::BoundsViolation && !spec_fits(
                    *v,
                    f.conversion->0,
                    f.width as nat,
                ) && *final(self) == *old(self),
            },
    {
        let c = f.conversion.as_ref().unwrap();
        if value_fits(v, c, f.width) {
            *self = (*self).with(f, v);
            Result::Ok(())
        } else {
            Result::Err(LayoutError::BoundsViolation)
        }
    }

    /// The guarded zero-state constructor: starts from the all-zero
    /// word and applies every field's default — padding fields by a
    /// masked OR of their raw pattern, accessor-bearing fields through
    /// their own write path, whose bounds check therefore also applies
    /// to defaults and is reported as [`LayoutError::BoundsViolation`].
    ///
    /// The default-composition law is its contract: the constructed
    /// raw integer equals the OR of every field's default bit pattern
    /// shifted to its resolved offset.
    pub fn try_new(l: &BitfieldLayout) -> (r: Result<Packed, LayoutError>)
        requires
            l.wf(),
        ensures
            match r {
                Result::Ok(p) => spec_defaults_fit(*l) && p.raw == spec_or_defaults(
                    l.fields@,
                    l.fields@.len() as int,
                ),
                Result::Err(e) => e == LayoutError::BoundsViolation && !spec_defaults_fit(*l),
            },
    {
        let mut raw: u128 = 0;
        let n = l.fields.len();
        proof {
            assert forall|j: int|
                0 <= j < l.fields@.len() implies 0u128 & ((#[trigger] l.fields@[j]).mask << (
            l.fields@[j].offset as u128)) == 0 by {
                lemma_zero_and(l.fields@[j].mask << (l.fields@[j].offset as u128));
            }
        }
        for i in 0..n
            invariant
                l.wf(),
                n == l.fields@.len(),
                raw == spec_or_defaults(l.fields@, i as int),
                forall|j: int|
                    i <= j < n ==> raw & ((#[trigger] l.fields@[j]).mask << (
                    l.fields@[j].offset as u128)) == 0,
                forall|k: int| 0 <= k < i ==> spec_default_fits(#[trigger] l.fields@[k]),
        {
            let f = &l.fields[i];
            let ghost raw_old = raw;
            match &f.default {
                DefaultSource::RawBits(bits) => {
                    raw = raw | ((*bits & f.mask) << (f.offset as u128));
                    proof {
                        lemma_default_step(*l, raw_old, raw, i as int, *bits);
                    }
                },
                DefaultSource::Value(v) => {
                    let c = f.conversion.as_ref().unwrap();
                    if !value_fits(v, c, f.width) {
                        return Result::Err(LayoutError::BoundsViolation);
                    }
                    let b = value_to_bits(v, c, f.width);
                    proof {
                        crate::bitops::lemma_mask_shr_form(f.width as nat);
                        lemma_insert_zero_is_or(
                            raw,
                            b,
                            f.offset as u128,
                            f.width as u128,
                            (128 - f.width) as u128,
                            f.mask,
                        );
                    }
                    raw = (raw & !(f.mask << (f.offset as u128))) | ((b & f.mask) << (
                    f.offset as u128));
                    proof {
                        lemma_default_step(*l, raw_old, raw, i as int, b);
                    }
                },
            }
        }
        Result::Ok(Packed { raw })
    }

    /// The zero-state constructor, for a layout whose defaults all
    /// pass their bounds checks: its raw integer is the OR of every
    /// field's default bit pattern shifted to its resolved offset.
    pub fn new(l: &BitfieldLayout) -> (p: Packed)
        requires
            l.wf(),
            spec_defaults_fit(*l),
        ensures
            p.raw == spec_or_defaults(l.fields@, l.fields@.len() as int),
    {
        match Packed::try_new(l) {
            Result::Ok(p) => p,
            Result::Err(e) => vstd::pervasive::unreached(),
        }
    }
}

/// The names and current read values of the accessor-bearing fields,
/// in declaration order: what a structural formatting of the packed
/// value lists.
pub open spec fn spec_debug_fields(fs: Seq<ResolvedField>, raw: u128) -> Seq<
    (Seq<char>, FieldValue),
>
    decreases fs.len(),
{
    if fs.len() == 0 {
        Seq::empty()
    } else {
        let prefix = spec_debug_fields(fs.drop_last(), raw);
        match fs.last().name {
            FieldName::Padding => prefix,
            FieldName::Named(s) => prefix.push((s@, spec_get(raw, fs.last()))),
        }
    }
}

/// Lists every accessor-bearing field's name and current read value,
/// in declaration order; padding fields are not listed.
pub fn debug_fields(l: &BitfieldLayout, p: &Packed) -> (r: Vec<(String, FieldValue)>)
    requires
        l.wf(),
    ensures
        r@.map_values(|e: (String, FieldValue)| (e.0@, e.1)) == spec_debug_fields(
            l.fields@,
            p.raw,
        ),
{
    let mut out: Vec<(String, FieldValue)> = Vec::new();
    let n = l.fields.len();
    for i in 0..n
        invariant
            l.wf(),
            n == l.fields@.len(),
            out@.map_values(|e: (String, FieldValue)| (e.0@, e.1)) == spec_debug_fields(
                l.fields@.subrange(0, i as int),
                p.raw,
            ),
    {
        let ghost prefix = l.fields@.subrange(0, i as int);
        let f = &l.fields[i];
        match &f.name {
            FieldName::Padding => {
                proof {
                    let cur = l.fields@.subrange(0, i + 1);
                    assert(cur.drop_last() =~= prefix);
                    assert(cur.last() == l.fields@[i as int]);
                }
            },
            FieldName::Named(s) => {
                let v = p.get(f);
                let ghost old_map = out@.map_values(|e: (String, FieldValue)| (e.0@, e.1));
                out.push((s.clone(), v));
                proof {
                    let cur = l.fields@.subrange(0, i + 1);
                    assert(cur.drop_last() =~= prefix);
                    assert(cur.last() == l.fields@[i as int]);
                    assert(out@.map_values(|e: (String, FieldValue)| (e.0@, e.1)) =~= old_map.push(
                        (s@, v),
                    ));
                }
            },
        }
    }
    proof {
        assert(l.fields@.subrange(0, n as int) =~= l.fields@);
    }
    out
}

} // verus!
