//! Resolving a metadata document into an effective palette.
//!
//! Resolution starts from a copy of the base palette.  When a variant is
//! requested (a non-empty name), the variant is located in the forest and
//! the overrides of every node along the root-to-target chain are composed
//! onto the palette in chain order, so an override deeper along the chain
//! wins over an earlier one for the same slot.  Sibling branches never
//! contribute.  An override that references a slot outside the base
//! palette fails the whole resolution.

use vstd::prelude::*;

use crate::schema::{MaterialOverride, MaterialSchema, VTMetaSchema, VariantEntry, VariantSchema};
use crate::variants::{chain_of, find_chain, forest_names};

verus! {

/// The effective palette: one material per slot, exactly as many slots as
/// the base palette.
pub type VTPalette = Vec<MaterialSchema>;

/// Failure to resolve a variant into a palette.
#[derive(Debug)]
pub enum GetPaletteError {
    /// The requested variant name is nowhere in the forest; carries the
    /// name and every name that is observable from the root.
    VariantNotExist(String, Vec<String>),
    /// An override along the resolution chain references a palette slot
    /// outside the base palette; carries the slot and the palette length.
    OverrideIndexOutOfRange(u8, usize),
}

/// The palette after assigning every override of `ovr`, in order, onto
/// `palette`.
pub open spec fn apply_overrides(
    palette: Seq<MaterialSchema>,
    ovr: Seq<MaterialOverride>,
) -> Seq<MaterialSchema>
    decreases ovr.len(),
{
    if ovr.len() == 0 {
        palette
    } else {
        apply_overrides(palette.update(ovr[0].index as int, ovr[0].material), ovr.drop_first())
    }
}

/// The palette after composing the overrides of every entry of `chain`,
/// in chain order, onto `palette`.
pub open spec fn apply_chain(
    palette: Seq<MaterialSchema>,
    chain: Seq<VariantEntry>,
) -> Seq<MaterialSchema>
    decreases chain.len(),
{
    if chain.len() == 0 {
        palette
    } else {
        apply_chain(apply_overrides(palette, chain[0].variant.materials@), chain.drop_first())
    }
}

/// The slot of the first override of `ovr` that falls outside a palette
/// of `n` slots, if any.
pub open spec fn first_oob_override(ovr: Seq<MaterialOverride>, n: nat) -> Option<u8>
    decreases ovr.len(),
{
    if ovr.len() == 0 {
        None
    } else if ovr[0].index as nat >= n {
        Some(ovr[0].index)
    } else {
        first_oob_override(ovr.drop_first(), n)
    }
}

/// The slot of the first override along `chain` that falls outside a
/// palette of `n` slots, if any, scanning entries in chain order.
pub open spec fn first_oob_in_chain(chain: Seq<VariantEntry>, n: nat) -> Option<u8>
    decreases chain.len(),
{
    if chain.len() == 0 {
        None
    } else {
        match first_oob_override(chain[0].variant.materials@, n) {
            Some(idx) => Some(idx),
            None => first_oob_in_chain(chain.drop_first(), n),
        }
    }
}

/// Whether every override of `ovr` references a slot within a palette of
/// `n` slots.
pub open spec fn overrides_in_range(ovr: Seq<MaterialOverride>, n: nat) -> bool {
    forall|i: int| 0 <= i < ovr.len() ==> ((#[trigger] ovr[i]).index as nat) < n
}

/// No override of `ovr` is out of range exactly when each of its slots is
/// within the palette.
pub proof fn lemma_oob_none_iff_in_range(ovr: Seq<MaterialOverride>, n: nat)
    ensures
        first_oob_override(ovr, n) is None <==> overrides_in_range(ovr, n),
    decreases ovr.len(),
{
    if ovr.len() > 0 {
        lemma_oob_none_iff_in_range(ovr.drop_first(), n);
        if (ovr[0].index as nat) < n {
            if overrides_in_range(ovr.drop_first(), n) {
                assert forall|i: int|
                    0 <= i < ovr.len() implies ((#[trigger] ovr[i]).index as nat) < n by {
                    if i > 0 {
                        assert(ovr.drop_first()[i - 1] == ovr[i]);
                    }
                }
            }
            if overrides_in_range(ovr, n) {
                assert forall|i: int|
                    0 <= i < ovr.drop_first().len() implies ((#[trigger] ovr.drop_first()[
                    i
                ]).index as nat) < n by {
                    assert(ovr.drop_first()[i] == ovr[i + 1]);
                }
            }
        } else {
            assert(!overrides_in_range(ovr, n));
        }
    }
}

/// Scanning for an out-of-range override finds the first one: a clean
/// prefix followed by an offending slot pins the result.
proof fn lemma_first_oob_at(ovr: Seq<MaterialOverride>, n: nat, k: int)
    requires
        0 <= k < ovr.len(),
        forall|i: int| 0 <= i < k ==> ((#[trigger] ovr[i]).index as nat) < n,
        ovr[k].index as nat >= n,
    ensures
        first_oob_override(ovr, n) == Some(ovr[k].index),
    decreases k,
{
    if k > 0 {
        assert(forall|i: int|
            0 <= i < ovr.drop_first().len() ==> #[trigger] ovr.drop_first()[i] == ovr[i + 1]);
        lemma_first_oob_at(ovr.drop_first(), n, k - 1);
    }
}

/// Composing one more override onto a palette.
proof fn lemma_apply_overrides_snoc(
    p: Seq<MaterialSchema>,
    s: Seq<MaterialOverride>,
    x: MaterialOverride,
)
    ensures
        apply_overrides(p, s.push(x)) == apply_overrides(p, s).update(x.index as int, x.material),
    decreases s.len(),
{
    if s.len() == 0 {
        assert(s.push(x)[0] == x);
        assert(s.push(x).drop_first() =~= Seq::<MaterialOverride>::empty());
        assert(apply_overrides(p, s.push(x)) == apply_overrides(
            p.update(x.index as int, x.material),
            s.push(x).drop_first(),
        ));
        assert(apply_overrides(p.update(x.index as int, x.material), s.push(x).drop_first())
            == p.update(x.index as int, x.material));
        assert(apply_overrides(p, s) == p);
    } else {
        let p1 = p.update(s[0].index as int, s[0].material);
        assert(s.push(x)[0] == s[0]);
        assert(s.push(x).drop_first() =~= s.drop_first().push(x));
        lemma_apply_overrides_snoc(p1, s.drop_first(), x);
        assert(apply_overrides(p, s.push(x)) == apply_overrides(p1, s.drop_first().push(x)));
        assert(apply_overrides(p, s) == apply_overrides(p1, s.drop_first()));
    }
}

/// Composing one more chain entry onto a palette.
proof fn lemma_apply_chain_snoc(p: Seq<MaterialSchema>, c: Seq<VariantEntry>, e: VariantEntry)
    ensures
        apply_chain(p, c.push(e)) == apply_overrides(apply_chain(p, c), e.variant.materials@),
    decreases c.len(),
{
    if c.len() == 0 {
        assert(c.push(e)[0] == e);
        assert(c.push(e).drop_first() =~= Seq::<VariantEntry>::empty());
        assert(apply_chain(p, c.push(e)) == apply_chain(
            apply_overrides(p, e.variant.materials@),
            c.push(e).drop_first(),
        ));
        assert(apply_chain(apply_overrides(p, e.variant.materials@), c.push(e).drop_first())
            == apply_overrides(p, e.variant.materials@));
        assert(apply_chain(p, c) == p);
    } else {
        let p1 = apply_overrides(p, c[0].variant.materials@);
        assert(c.push(e)[0] == c[0]);
        assert(c.push(e).drop_first() =~= c.drop_first().push(e));
        lemma_apply_chain_snoc(p1, c.drop_first(), e);
        assert(apply_chain(p, c.push(e)) == apply_chain(p1, c.drop_first().push(e)));
        assert(apply_chain(p, c) == apply_chain(p1, c.drop_first()));
    }
}

/// A clean chain prefix followed by an entry with an offending override
/// pins the slot that the whole scan reports.
proof fn lemma_chain_oob_at(chain: Seq<VariantEntry>, n: nat, j: int)
    requires
        0 <= j < chain.len(),
        forall|i: int|
            0 <= i < j ==> first_oob_override(
                (#[trigger] chain[i]).variant.materials@,
                n,
            ) is None,
        first_oob_override(chain[j].variant.materials@, n) is Some,
    ensures
        first_oob_in_chain(chain, n) == first_oob_override(chain[j].variant.materials@, n),
    decreases j,
{
    if j > 0 {
        assert(forall|i: int|
            0 <= i < chain.drop_first().len() ==> #[trigger] chain.drop_first()[i] == chain[
                i + 1
            ]);
        lemma_chain_oob_at(chain.drop_first(), n, j - 1);
    }
}

/// A chain that scans clean as a whole has no entry with an offending
/// override.
pub proof fn lemma_chain_oob_none_split(chain: Seq<VariantEntry>, n: nat)
    requires
        first_oob_in_chain(chain, n) is None,
    ensures
        forall|i: int|
            0 <= i < chain.len() ==> first_oob_override(
                (#[trigger] chain[i]).variant.materials@,
                n,
            ) is None,
    decreases chain.len(),
{
    if chain.len() > 0 {
        lemma_chain_oob_none_split(chain.drop_first(), n);
        assert forall|i: int|
            0 <= i < chain.len() implies first_oob_override(
            (#[trigger] chain[i]).variant.materials@,
            n,
        ) is None by {
            if i > 0 {
                assert(chain.drop_first()[i - 1] == chain[i]);
            }
        }
    }
}

/// A chain whose every entry scans clean scans clean as a whole.
proof fn lemma_chain_oob_none(chain: Seq<VariantEntry>, n: nat)
    requires
        forall|i: int|
            0 <= i < chain.len() ==> first_oob_override(
                (#[trigger] chain[i]).variant.materials@,
                n,
            ) is None,
    ensures
        first_oob_in_chain(chain, n) is None,
    decreases chain.len(),
{
    if chain.len() > 0 {
        assert(forall|i: int|
            0 <= i < chain.drop_first().len() ==> #[trigger] chain.drop_first()[i] == chain[
                i + 1
            ]);
        lemma_chain_oob_none(chain.drop_first(), n);
    }
}

/// Composing in-range overrides never changes the palette's length.
pub proof fn lemma_apply_overrides_preserves_len(p: Seq<MaterialSchema>, ovr: Seq<MaterialOverride>)
    requires
        overrides_in_range(ovr, p.len()),
    ensures
        apply_overrides(p, ovr).len() == p.len(),
    decreases ovr.len(),
{
    if ovr.len() > 0 {
        assert(forall|i: int|
            0 <= i < ovr.drop_first().len() ==> #[trigger] ovr.drop_first()[i] == ovr[i + 1]);
        lemma_apply_overrides_preserves_len(
            p.update(ovr[0].index as int, ovr[0].material),
            ovr.drop_first(),
        );
    }
}

/// Composing a chain whose every override is in range never changes the
/// palette's length: every resolved palette is as long as the base
/// palette.
pub proof fn lemma_apply_chain_preserves_len(p: Seq<MaterialSchema>, chain: Seq<VariantEntry>)
    requires
        forall|i: int|
            0 <= i < chain.len() ==> overrides_in_range(
                (#[trigger] chain[i]).variant.materials@,
                p.len(),
            ),
    ensures
        apply_chain(p, chain).len() == p.len(),
    decreases chain.len(),
{
    if chain.len() > 0 {
        lemma_apply_overrides_preserves_len(p, chain[0].variant.materials@);
        assert(forall|i: int|
            0 <= i < chain.drop_first().len() ==> #[trigger] chain.drop_first()[i] == chain[
                i + 1
            ]);
        lemma_apply_chain_preserves_len(
            apply_overrides(p, chain[0].variant.materials@),
            chain.drop_first(),
        );
    }
}

/// An entry with no overrides is a valid no-op along a chain: removing it
/// leaves the composed palette unchanged.
pub proof fn lemma_empty_node_noop(p: Seq<MaterialSchema>, chain: Seq<VariantEntry>, j: int)
    requires
        0 <= j < chain.len(),
        chain[j].variant.materials@.len() == 0,
    ensures
        apply_chain(p, chain) == apply_chain(p, chain.remove(j)),
    decreases j,
{
    if j == 0 {
        assert(apply_overrides(p, chain[0].variant.materials@) == p);
        assert(chain.remove(0) =~= chain.drop_first());
    } else {
        assert(chain.remove(j)[0] == chain[0]);
        assert(chain.remove(j).drop_first() =~= chain.drop_first().remove(j - 1));
        assert(chain.drop_first()[j - 1] == chain[j]);
        lemma_empty_node_noop(
            apply_overrides(p, chain[0].variant.materials@),
            chain.drop_first(),
            j - 1,
        );
    }
}

/// Resolving without a requested variant is determined by the document
/// alone: any two palettes resolved that way are equal.  Together with the
/// resolver's contract this makes base resolution idempotent.
pub proof fn lemma_resolve_base_deterministic(
    meta: VTMetaSchema,
    p1: Seq<MaterialSchema>,
    p2: Seq<MaterialSchema>,
)
    requires
        p1 == meta.materials@,
        p2 == meta.materials@,
    ensures
        p1 == p2,
{
}

/// Assigns every override of `variant` onto `palette`, in order, stopping
/// at the first override whose slot lies outside the palette.
pub fn swap_palette_materials_with_variant(
    palette: &mut VTPalette,
    variant: &VariantSchema,
) -> (r: Result<(), GetPaletteError>)
    ensures
        final(palette)@.len() == old(palette)@.len(),
        r is Ok <==> first_oob_override(
            variant.materials@,
            old(palette)@.len() as nat,
        ) is None,
        r is Ok ==> final(palette)@ == apply_overrides(old(palette)@, variant.materials@),
        r matches Err(e) ==> e == GetPaletteError::OverrideIndexOutOfRange(
            first_oob_slot(variant.materials@, old(palette)@.len() as nat),
            old(palette)@.len() as usize,
        ),
{
    let n = palette.len();
    let mut k: usize = 0;
    proof {
        assert(variant.materials@.take(0) =~= Seq::<MaterialOverride>::empty());
    }
    while k < variant.materials.len()
        invariant
            k <= variant.materials@.len(),
            palette@.len() == n == old(palette)@.len(),
            forall|i: int|
                0 <= i < k ==> ((#[trigger] variant.materials@[i]).index as nat) < n as nat,
            palette@ == apply_overrides(old(palette)@, variant.materials@.take(k as int)),
        decreases variant.materials@.len() - k,
    {
        let ov = &variant.materials[k];
        let idx = ov.index as usize;
        if idx >= n {
            proof {
                lemma_first_oob_at(variant.materials@, n as nat, k as int);
            }
            return Err(GetPaletteError::OverrideIndexOutOfRange(ov.index, n));
        }
        palette[idx] = ov.material.clone();
        proof {
            lemma_apply_overrides_snoc(
                old(palette)@,
                variant.materials@.take(k as int),
                variant.materials@[k as int],
            );
            assert(variant.materials@.take(k as int + 1) =~= variant.materials@.take(
                k as int,
            ).push(variant.materials@[k as int]));
        }
        k = k + 1;
    }
    proof {
        assert(variant.materials@.take(variant.materials@.len() as int) =~= variant.materials@);
        lemma_oob_none_iff_in_range(variant.materials@, n as nat);
    }
    Ok(())
}

/// The slot that the out-of-range scan reports; meaningful only when the
/// scan reports one.
pub open spec fn first_oob_slot(ovr: Seq<MaterialOverride>, n: nat) -> u8 {
    match first_oob_override(ovr, n) {
        Some(idx) => idx,
        None => 0,
    }
}

/// The variant that a resolution request asks for: none, when no name or
/// the empty name was given.
pub open spec fn requested_variant(variant: Option<String>) -> Option<Seq<char>> {
    match variant {
        Option::None => Option::<Seq<char>>::None,
        Option::Some(s) => if s@.len() == 0 {
            Option::<Seq<char>>::None
        } else {
            Option::<Seq<char>>::Some(s@)
        },
    }
}

/// Resolves the document into an effective palette: a copy of the base
/// palette with, when a variant is requested, the overrides of every
/// entry along the root-to-target chain composed onto it in chain order.
#[verifier::loop_isolation(false)]
pub fn get_palette_from_meta(meta: &VTMetaSchema, variant: &Option<String>) -> (r: Result<
    VTPalette,
    GetPaletteError,
>)
    ensures
        r matches Ok(p) ==> p@.len() == meta.materials@.len(),
        requested_variant(*variant) is None ==> (r matches Ok(p) && p@ == meta.materials@),
        requested_variant(*variant) matches Some(t) ==> match find_chain(meta.variants@, t) {
            Option::None => (r matches Err(e) && e matches GetPaletteError::VariantNotExist(
                name,
                available,
            ) && name@ == t && available.deep_view() == forest_names(meta.variants@)),
            Option::Some(c) => match first_oob_in_chain(c, meta.materials@.len() as nat) {
                Option::None => (r matches Ok(p) && p@ == apply_chain(meta.materials@, c)),
                Option::Some(idx) => (r matches Err(e) && e
                    == GetPaletteError::OverrideIndexOutOfRange(
                    idx,
                    meta.materials@.len() as usize,
                )),
            },
        },
{
    let mut palette: VTPalette = meta.materials.clone();
    proof {
        assert(palette@ =~= meta.materials@);
    }
    let name = match variant {
        None => {
            return Ok(palette);
        },
        Some(name) => name,
    };
    if name.as_str().is_empty() {
        return Ok(palette);
    }
    match crate::variants::search_chain(&meta.variants, name) {
        None => {
            let available = match crate::variants::get_variants_names_from_meta(meta) {
                Some(names) => names,
                None => Vec::new(),
            };
            proof {
                if meta.variants@.len() == 0 {
                    assert(available.deep_view() =~= forest_names(meta.variants@));
                }
            }
            Err(GetPaletteError::VariantNotExist(name.clone(), available))
        },
        Some(chain) => {
            let ghost c = chain_of(meta.variants@, name@);
            let ghost n = meta.materials@.len() as nat;
            let mut j: usize = 0;
            proof {
                assert(c.take(0) =~= Seq::<VariantEntry>::empty());
            }
            while j < chain.len()
                invariant
                    j <= chain@.len(),
                    chain@.map_values(|e: &VariantEntry| *e) == c,
                    palette@.len() == meta.materials@.len(),
                    n == meta.materials@.len() as nat,
                    forall|i: int|
                        0 <= i < j ==> first_oob_override(
                            (#[trigger] c[i]).variant.materials@,
                            n,
                        ) is None,
                    palette@ == apply_chain(meta.materials@, c.take(j as int)),
                decreases chain@.len() - j,
            {
                let entry = chain[j];
                proof {
                    assert(chain@.map_values(|e: &VariantEntry| *e)[j as int] == *chain@[
                        j as int
                    ]);
                }
                match swap_palette_materials_with_variant(&mut palette, &entry.variant) {
                    Ok(_u) => {
                        proof {
                            lemma_apply_chain_snoc(meta.materials@, c.take(j as int), c[j as int]);
                            assert(c.take(j as int + 1) =~= c.take(j as int).push(c[j as int]));
                        }
                    },
                    Err(e) => {
                        proof {
                            lemma_chain_oob_at(c, n, j as int);
                        }
                        return Err(e);
                    },
                }
                j = j + 1;
            }
            proof {
                assert(c.take(c.len() as int) =~= c);
                lemma_chain_oob_none(c, n);
            }
            Ok(palette)
        },
    }
}

} // verus!
