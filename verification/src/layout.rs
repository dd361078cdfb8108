//! The layout resolver and the bitfield assembler: walking the field
//! list in declaration order, assigning non-overlapping bit ranges
//! under the chosen bit order, and validating that the resolved widths
//! exactly cover the storage width.

use vstd::prelude::*;
use crate::bitops::{mask_of_width, mask_spec};
use crate::classify::{spec_type_bits, type_bits, TypeClass, TypeRef};
use crate::error::LayoutError;
use crate::field::{
    spec_synthesize, synthesize, Conversion, DefaultSource, FieldDescriptor, FieldName, SynthField,
};

verus! {

/// The bit-order policy: whether declaration order fills the word from
/// bit 0 upward or from the top bit downward.
#[derive(Clone, Copy, PartialEq, Eq, Structural, Debug)]
pub enum Order {
    /// The first declared field occupies the least significant bits.
    Lsb,
    /// The first declared field occupies the most significant bits.
    Msb,
}

/// The storage half of a bitfield definition: the width of the backing
/// unsigned integer and the bit-order policy.  Immutable once built.
#[derive(Clone, Copy, PartialEq, Eq, Structural, Debug)]
pub struct StorageSpec {
    /// Total bit count of the backing unsigned integer.
    pub total_bits: u32,
    /// The bit-order policy.
    pub order: Order,
}

impl StorageSpec {
    /// A valid storage width: that of a fixed-width unsigned integer.
    pub open spec fn wf(self) -> bool {
        ||| self.total_bits == 8
        ||| self.total_bits == 16
        ||| self.total_bits == 32
        ||| self.total_bits == 64
        ||| self.total_bits == 128
    }

    /// Builds the storage specification from the declared storage type.
    ///
    /// Only fixed-width unsigned integers are accepted; anything else —
    /// including platform-sized integers, whose width is not statically
    /// known — is [`LayoutError::UnsupportedStorageType`].
    pub fn new(ty: &TypeRef, order: Order) -> (r: Result<StorageSpec, LayoutError>)
        ensures
            ({
                let class = spec_type_bits(*ty).0;
                let n = spec_type_bits(*ty).1;
                match r {
                    Result::Ok(s) => class == TypeClass::UInt && n != 0 && s == (StorageSpec {
                        total_bits: n,
                        order,
                    }) && s.wf(),
                    Result::Err(e) => e == LayoutError::UnsupportedStorageType && !(class
                        == TypeClass::UInt && n != 0),
                }
            }),
    {
        let (class, n) = type_bits(ty);
        if class == TypeClass::UInt && n != 0 {
            Result::Ok(StorageSpec { total_bits: n, order })
        } else {
            Result::Err(LayoutError::UnsupportedStorageType)
        }
    }
}

/// One field with its bit range resolved: its offset, width and mask
/// within the storage word, along with everything synthesis derived.
#[derive(Debug)]
pub struct ResolvedField {
    /// The field's name, or the padding sentinel.
    pub name: FieldName,
    /// The bit offset of the field's range within the storage word.
    pub offset: u32,
    /// The width of the field's range, at least 1.
    pub width: u32,
    /// The unshifted mask with the low `width` bits set.
    pub mask: u128,
    /// The conversion contract; present exactly for named fields.
    pub conversion: Option<Conversion>,
    /// The default and how the constructor applies it.
    pub default: DefaultSource,
    /// Whether the field bears accessors (it is not padding).
    pub visible: bool,
}

impl ResolvedField {
    /// Validity of one resolved field inside a word of `total` bits.
    pub open spec fn wf(self, total: u32) -> bool {
        &&& 1 <= self.width
        &&& self.offset + self.width <= total
        &&& self.mask == mask_spec(self.width as nat)
        &&& (self.visible <==> self.name is Named)
        &&& (self.visible <==> self.conversion is Some)
        &&& (self.visible <==> self.default is Value)
    }

    /// Enough validity to run the packed-value operations: the field's
    /// range lies inside the 128-bit working word.
    pub open spec fn in_range(self) -> bool {
        self.wf(128)
    }
}

/// Whether two resolved fields occupy non-overlapping bit ranges.
pub open spec fn fields_disjoint(a: ResolvedField, b: ResolvedField) -> bool {
    a.offset + a.width <= b.offset || b.offset + b.width <= a.offset
}

/// The sum of the first `n` of the widths `ws`.
pub open spec fn width_sum(ws: Seq<u32>, n: int) -> int
    decreases n,
{
    if n <= 0 {
        0
    } else {
        width_sum(ws, n - 1) + ws[n - 1]
    }
}

/// A prefix sum of widths never decreases as the prefix grows.
pub proof fn lemma_width_sum_mono(ws: Seq<u32>, a: int, b: int)
    requires
        0 <= a <= b <= ws.len(),
    ensures
        width_sum(ws, a) <= width_sum(ws, b),
    decreases b - a,
{
    if a < b {
        lemma_width_sum_mono(ws, a, (b - 1) as int);
    }
}

/// The widths of a synthesized field list.
pub open spec fn widths_of(fs: Seq<SynthField>) -> Seq<u32> {
    fs.map_values(|f: SynthField| f.width)
}

/// The widths of a resolved field list.
pub open spec fn rwidths_of(fs: Seq<ResolvedField>) -> Seq<u32> {
    fs.map_values(|f: ResolvedField| f.width)
}

/// The final offset of a field placed after `before` bits of earlier
/// fields: the cursor itself under Lsb order, its mirror image under
/// Msb order.  The bit-order flag only mirrors the whole placement; it
/// never reorders fields relative to each other.
pub open spec fn spec_offset(order: Order, before: int, w: int, total: int) -> int {
    if order == Order::Lsb {
        before
    } else {
        total - before - w
    }
}

/// One field as the resolver places it after `before` bits.
pub open spec fn spec_resolve_field(s: StorageSpec, f: SynthField, before: int) -> ResolvedField {
    ResolvedField {
        name: f.name,
        offset: spec_offset(s.order, before, f.width as int, s.total_bits as int) as u32,
        width: f.width,
        mask: mask_spec(f.width as nat),
        conversion: f.conversion,
        default: f.default,
        visible: f.name is Named,
    }
}

/// Whether every field's pre-order-adjusted range stays inside the
/// storage word.
pub open spec fn spec_fits_in_storage(total: int, ws: Seq<u32>) -> bool {
    forall|i: int| 0 <= i < ws.len() ==> #[trigger] width_sum(ws, i) + ws[i] <= total
}

/// The whole resolution step: every field placed at the prefix sum of
/// the widths before it (mirrored under Msb order), or
/// [`LayoutError::WidthOverflow`] if some field's range would cross
/// the end of the storage word.
pub open spec fn spec_resolve_fields(s: StorageSpec, fs: Seq<SynthField>) -> Result<
    Seq<ResolvedField>,
    LayoutError,
> {
    if spec_fits_in_storage(s.total_bits as int, widths_of(fs)) {
        Result::Ok(
            Seq::new(fs.len(), |i: int| spec_resolve_field(s, fs[i], width_sum(widths_of(fs), i))),
        )
    } else {
        Result::Err(LayoutError::WidthOverflow)
    }
}

/// What resolution guarantees: every placed field is valid for the
/// storage word, and the ranges of distinct fields never overlap —
/// under either bit-order policy.
pub proof fn lemma_resolved_wf(s: StorageSpec, fs: Seq<SynthField>)
    requires
        s.total_bits <= 128,
        forall|i: int| 0 <= i < fs.len() ==> (#[trigger] fs[i]).wf(),
        spec_resolve_fields(s, fs) is Ok,
    ensures
        spec_resolve_fields(s, fs) matches Result::Ok(rf) && {
            &&& rf.len() == fs.len()
            &&& forall|i: int| 0 <= i < rf.len() ==> (#[trigger] rf[i]).wf(s.total_bits)
            &&& forall|i: int, j: int|
                0 <= i < j < rf.len() ==> #[trigger] fields_disjoint(rf[i], rf[j])
        },
{
    let ws = widths_of(fs);
    let total = s.total_bits as int;
    let rf = spec_resolve_fields(s, fs)->Ok_0;
    assert forall|i: int| 0 <= i < rf.len() implies (#[trigger] rf[i]).wf(s.total_bits) by {
        lemma_width_sum_mono(ws, 0, i);
        assert(width_sum(ws, i) + ws[i] <= total);
    }
    assert forall|i: int, j: int|
        0 <= i < j < rf.len() implies #[trigger] fields_disjoint(rf[i], rf[j]) by {
        lemma_width_sum_mono(ws, 0, i);
        lemma_width_sum_mono(ws, i + 1, j);
        assert(width_sum(ws, j) + ws[j] <= total);
        assert(width_sum(ws, i) + ws[i] == width_sum(ws, i + 1));
    }
}

/// Resolves the synthesized fields against the storage word: a running
/// cursor walks the list in declaration order, each field takes the
/// next `width` bits (mirrored as a whole under Msb order), and the
/// first field whose range would cross the end of the word stops
/// resolution with [`LayoutError::WidthOverflow`].
pub fn resolve_fields(storage: &StorageSpec, synths: &Vec<SynthField>) -> (r: Result<
    Vec<ResolvedField>,
    LayoutError,
>)
    requires
        storage.wf(),
        forall|i: int| 0 <= i < synths@.len() ==> (#[trigger] synths@[i]).wf(),
    ensures
        ({
            let sr = spec_resolve_fields(*storage, synths@);
            match r {
                Result::Ok(fs) => sr matches Result::Ok(sfs) && fs@ == sfs,
                Result::Err(e) => sr matches Result::Err(se) && se == e,
            }
        }),
{
    let ghost ws = widths_of(synths@);
    let total = storage.total_bits;
    let mut out: Vec<ResolvedField> = Vec::new();
    let mut cursor: u32 = 0;
    let n = synths.len();
    for i in 0..n
        invariant
            n == synths@.len(),
            storage.wf(),
            total == storage.total_bits,
            ws == widths_of(synths@),
            forall|k: int| 0 <= k < synths@.len() ==> (#[trigger] synths@[k]).wf(),
            cursor == width_sum(ws, i as int),
            cursor <= total,
            out@.len() == i,
            forall|k: int|
                0 <= k < i ==> out@[k] == spec_resolve_field(
                    *storage,
                    synths@[k],
                    width_sum(ws, k),
                ),
            forall|k: int| 0 <= k < i ==> #[trigger] width_sum(ws, k) + ws[k] <= total,
    {
        let f = &synths[i];
        let w = f.width;
        assert(ws[i as int] == w);
        if w > total - cursor {
            proof {
                assert(width_sum(ws, i as int) + ws[i as int] > total);
                assert(!spec_fits_in_storage(total as int, ws));
            }
            return Result::Err(LayoutError::WidthOverflow);
        }
        let off = if storage.order == Order::Lsb {
            cursor
        } else {
            total - cursor - w
        };
        let mask = mask_of_width(w);
        let conv = match &f.conversion {
            Option::Some(c) => Option::Some(c.duplicate()),
            Option::None => Option::None,
        };
        out.push(
            ResolvedField {
                name: f.name.duplicate(),
                offset: off,
                width: w,
                mask,
                conversion: conv,
                default: f.default,
                visible: f.name.is_named(),
            },
        );
        cursor = cursor + w;
        assert(cursor == width_sum(ws, i + 1));
    }
    proof {
        assert(spec_fits_in_storage(total as int, ws));
        let sfs = spec_resolve_fields(*storage, synths@)->Ok_0;
        assert(out@ =~= sfs);
    }
    Result::Ok(out)
}

/// The assembly-time coverage check over a width list: walking the
/// widths with an accumulator that starts at `acc`, either the widths
/// sum exactly to the storage width, or the first width that crosses
/// it yields [`LayoutError::LayoutExceedsStorage`] with the overshoot,
/// or the sum falls short and [`LayoutError::IncompleteLayout`] names
/// the missing bit count.
pub open spec fn spec_sum_check(ws: Seq<u32>, total: u32, acc: int, i: int) -> Result<
    (),
    LayoutError,
>
    decreases ws.len() - i,
{
    if i < 0 || i >= ws.len() {
        if acc == total {
            Result::Ok(())
        } else {
            Result::Err(LayoutError::IncompleteLayout { missing: (total - acc) as u32 })
        }
    } else if acc + ws[i] > total {
        Result::Err(LayoutError::LayoutExceedsStorage { excess: (acc + ws[i] - total) as u32 })
    } else {
        spec_sum_check(ws, total, (acc + ws[i]) as int, i + 1)
    }
}

/// The coverage check passes exactly when the widths sum to the
/// storage width.
pub proof fn lemma_sum_check_ok(ws: Seq<u32>, total: u32, acc: int, i: int)
    requires
        0 <= i <= ws.len(),
        0 <= acc,
    ensures
        spec_sum_check(ws, total, acc, i) == Result::<(), LayoutError>::Ok(()) <==> acc + (
        width_sum(ws, ws.len() as int) - width_sum(ws, i)) == total,
    decreases ws.len() - i,
{
    if i < ws.len() {
        if acc + ws[i] > total {
            lemma_width_sum_mono(ws, i + 1, ws.len() as int);
        } else {
            lemma_sum_check_ok(ws, total, (acc + ws[i]) as int, i + 1);
        }
    }
}

/// A whole bitfield definition with its layout resolved: the storage
/// specification and the ordered resolved fields.  Built once per
/// bitfield type and consumed to drive the accessor operations.
#[derive(Debug)]
pub struct BitfieldLayout {
    /// The storage width and bit-order policy.
    pub storage: StorageSpec,
    /// The resolved fields, in declaration order.
    pub fields: Vec<ResolvedField>,
}

impl BitfieldLayout {
    /// Validity of a layout: a supported storage width, every field
    /// valid for it, and the bit ranges of distinct fields pairwise
    /// disjoint.
    pub open spec fn wf(self) -> bool {
        &&& self.storage.wf()
        &&& forall|i: int|
            0 <= i < self.fields@.len() ==> (#[trigger] self.fields@[i]).wf(
                self.storage.total_bits,
            )
        &&& forall|i: int, j: int|
            0 <= i < j < self.fields@.len() ==> #[trigger] fields_disjoint(
                self.fields@[i],
                self.fields@[j],
            )
    }

    /// Coverage: the field widths sum exactly to the storage width.
    pub open spec fn complete(self) -> bool {
        width_sum(rwidths_of(self.fields@), self.fields@.len() as int)
            == self.storage.total_bits as int
    }
}

/// Assembles resolved fields into a layout, validating coverage: the
/// widths must sum exactly to the storage width.  Too small an
/// assignment names the missing bit count (a padding field of that
/// width would complete it); an assignment that crosses the storage
/// width names the overshoot at the first crossing field.
pub fn assemble(storage: &StorageSpec, fields: Vec<ResolvedField>) -> (r: Result<
    BitfieldLayout,
    LayoutError,
>)
    ensures
        ({
            let sc = spec_sum_check(rwidths_of(fields@), storage.total_bits, 0, 0);
            match r {
                Result::Ok(l) => sc == Result::<(), LayoutError>::Ok(()) && l.storage == *storage
                    && l.fields@ == fields@,
                Result::Err(e) => sc matches Result::Err(se) && se == e,
            }
        }),
        r is Ok <==> width_sum(rwidths_of(fields@), fields@.len() as int)
            == storage.total_bits as int,
{
    proof {
        lemma_sum_check_ok(rwidths_of(fields@), storage.total_bits, 0, 0);
    }
    let ghost ws = rwidths_of(fields@);
    let total = storage.total_bits;
    let mut acc: u32 = 0;
    let n = fields.len();
    for i in 0..n
        invariant
            n == fields@.len(),
            ws == rwidths_of(fields@),
            total == storage.total_bits,
            acc == width_sum(ws, i as int),
            acc <= total,
            spec_sum_check(ws, total, 0, 0) == spec_sum_check(ws, total, acc as int, i as int),
    {
        let w = fields[i].width;
        assert(ws[i as int] == w);
        if (acc as u64) + (w as u64) > (total as u64) {
            proof {
                lemma_width_sum_mono(ws, i + 1, ws.len() as int);
            }
            let excess = ((acc as u64) + (w as u64) - (total as u64)) as u32;
            return Result::Err(LayoutError::LayoutExceedsStorage { excess });
        }
        acc = acc + w;
        assert(acc == width_sum(ws, i + 1));
    }
    if acc < total {
        return Result::Err(LayoutError::IncompleteLayout { missing: total - acc });
    }
    Result::Ok(BitfieldLayout { storage: *storage, fields })
}

/// The full pipeline on the resolved-field level: synthesis of every
/// field in declaration order (stopping at the first error), then
/// placement, then the coverage check.  What it yields is the resolved
/// field list of the layout.
pub open spec fn spec_synth_all(ds: Seq<FieldDescriptor>) -> Result<Seq<SynthField>, LayoutError>
    decreases ds.len(),
{
    if ds.len() == 0 {
        Result::Ok(Seq::empty())
    } else {
        match spec_synth_all(ds.drop_last()) {
            Result::Err(e) => Result::Err(e),
            Result::Ok(fs) => match spec_synthesize(ds.last()) {
                Result::Err(e) => Result::Err(e),
                Result::Ok(f) => Result::Ok(fs.push(f)),
            },
        }
    }
}

/// The resolved fields of a definition, or its first error: synthesis
/// in declaration order, then placement, then the coverage check.
pub open spec fn spec_build_result(s: StorageSpec, ds: Seq<FieldDescriptor>) -> Result<
    Seq<ResolvedField>,
    LayoutError,
> {
    match spec_synth_all(ds) {
        Result::Err(e) => Result::Err(e),
        Result::Ok(synths) => match spec_resolve_fields(s, synths) {
            Result::Err(e) => Result::Err(e),
            Result::Ok(fields) => match spec_sum_check(rwidths_of(fields), s.total_bits, 0, 0) {
                Result::Err(e) => Result::Err(e),
                Result::Ok(u) => Result::Ok(fields),
            },
        },
    }
}

/// Builds the whole layout from the declared field list: synthesizes
/// every field, resolves the placement under the storage's bit order,
/// and validates exact coverage.  Fail-fast: the first field-level
/// error in declaration order is reported, and no partial layout is
/// ever produced.
///
/// A returned layout is valid ([`BitfieldLayout::wf`]): its fields'
/// bit ranges are pairwise disjoint and lie inside the storage word,
/// and it is complete ([`BitfieldLayout::complete`]): the widths sum
/// exactly to the storage width.
pub fn build_layout(storage: &StorageSpec, descs: &Vec<FieldDescriptor>) -> (r: Result<
    BitfieldLayout,
    LayoutError,
>)
    requires
        storage.wf(),
    ensures
        ({
            match r {
                Result::Ok(l) => spec_build_result(*storage, descs@) matches Result::Ok(fs)
                    && l.fields@ == fs && l.storage == *storage && l.wf() && l.complete(),
                Result::Err(e) => spec_build_result(*storage, descs@) == Result::<
                    Seq<ResolvedField>,
                    LayoutError,
                >::Err(e),
            }
        }),
{
    let mut synths: Vec<SynthField> = Vec::new();
    let n = descs.len();
    for i in 0..n
        invariant
            n == descs@.len(),
            spec_synth_all(descs@.subrange(0, i as int)) == Result::<
                Seq<SynthField>,
                LayoutError,
            >::Ok(synths@),
            forall|k: int| 0 <= k < synths@.len() ==> (#[trigger] synths@[k]).wf(),
    {
        let ghost prefix = descs@.subrange(0, i as int);
        match synthesize(&descs[i]) {
            Result::Ok(f) => {
                synths.push(f);
            },
            Result::Err(e) => {
                proof {
                    let cur = descs@.subrange(0, i + 1);
                    assert(cur.drop_last() =~= prefix);
                    assert(spec_synth_all(cur) == Result::<Seq<SynthField>, LayoutError>::Err(e));
                    lemma_synth_all_error_persists(descs@, i + 1, e);
                }
                return Result::Err(e);
            },
        }
        proof {
            let cur = descs@.subrange(0, i + 1);
            assert(cur.drop_last() =~= prefix);
            assert(cur.last() == descs@[i as int]);
        }
    }
    proof {
        assert(descs@.subrange(0, descs@.len() as int) =~= descs@);
    }
    let resolved = match resolve_fields(storage, &synths) {
        Result::Ok(fs) => fs,
        Result::Err(e) => {
            return Result::Err(e);
        },
    };
    proof {
        lemma_resolved_wf(*storage, synths@);
    }
    let r = assemble(storage, resolved);
    r
}

/// Once a prefix of the field list fails synthesis, the whole list
/// fails with the same (first) error.
proof fn lemma_synth_all_error_persists(ds: Seq<FieldDescriptor>, k: int, e: LayoutError)
    requires
        0 <= k <= ds.len(),
        spec_synth_all(ds.subrange(0, k)) == Result::<Seq<SynthField>, LayoutError>::Err(e),
    ensures
        spec_synth_all(ds) == Result::<Seq<SynthField>, LayoutError>::Err(e),
    decreases ds.len() - k,
{
    if k == ds.len() {
        assert(ds.subrange(0, k) =~= ds);
    } else {
        let cur = ds.subrange(0, k + 1);
        assert(cur.drop_last() =~= ds.subrange(0, k));
        lemma_synth_all_error_persists(ds, k + 1, e);
    }
}

/// Order symmetry: for one field list over one storage width, the
/// Msb-ordered layout resolves exactly when the Lsb-ordered layout
/// does, with the same widths, and with every offset the mirror image
/// of its Lsb counterpart: `offset_msb == total_bits - offset_lsb -
/// width`.
pub proof fn lemma_order_symmetry(lsb: StorageSpec, msb: StorageSpec, ds: Seq<FieldDescriptor>)
    requires
        lsb.order == Order::Lsb,
        msb.order == Order::Msb,
        lsb.total_bits == msb.total_bits,
        lsb.total_bits <= 128,
    ensures
        (spec_build_result(lsb, ds) is Ok) == (spec_build_result(msb, ds) is Ok),
        spec_build_result(lsb, ds) matches Result::Ok(lf) ==> spec_build_result(msb, ds)
            matches Result::Ok(mf) && mf.len() == lf.len() && forall|i: int|
            0 <= i < lf.len() ==> (#[trigger] mf[i]).width == lf[i].width && mf[i].offset as int
                == lsb.total_bits - lf[i].offset - lf[i].width,
{
    match spec_synth_all(ds) {
        Result::Err(e) => {},
        Result::Ok(synths) => {
            let ws = widths_of(synths);
            let total = lsb.total_bits as int;
            if spec_fits_in_storage(total, ws) {
                let lf = spec_resolve_fields(lsb, synths)->Ok_0;
                let mf = spec_resolve_fields(msb, synths)->Ok_0;
                assert forall|i: int| 0 <= i < lf.len() implies (#[trigger] mf[i]).width
                    == lf[i].width && mf[i].offset as int == total - lf[i].offset - lf[i].width by {
                    lemma_width_sum_mono(ws, 0, i);
                    assert(width_sum(ws, i) + ws[i] <= total);
                }
                assert(rwidths_of(lf) =~= ws);
                assert(rwidths_of(mf) =~= ws);
            }
        },
    }
}

} // verus!
