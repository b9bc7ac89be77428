//! Locating variants in the forest.
//!
//! A requested variant name is located by a depth-first pre-order
//! traversal of the forest: each node is tested before its children are
//! visited, and the first match wins.  Locating a name yields the chain of
//! entries from a forest root down to and including the match; the names
//! along that chain form the variant path, and the overrides of the
//! chain's nodes are what later composes the effective palette.

use vstd::prelude::*;

use crate::schema::{VTMetaSchema, VariantEntry, VariantSchema};

verus! {

/// The names along a root-to-target chain, root first.
pub type VariantPath = Vec<String>;

/// The chain of entries from a root of `forest` to the first pre-order
/// occurrence of `target`, or `None` when `target` is nowhere in `forest`.
pub open spec fn find_chain(forest: Seq<VariantEntry>, target: Seq<char>) -> Option<
    Seq<VariantEntry>,
>
    decreases forest,
{
    if forest.len() == 0 {
        None
    } else {
        proof {
            lemma_forest_entry_decreases(forest);
        }
        if forest[0].name@ == target {
            Some(seq![forest[0]])
        } else {
            match find_chain(forest[0].variant.variants@, target) {
                Some(chain) => Some(seq![forest[0]] + chain),
                None => find_chain(forest.drop_first(), target),
            }
        }
    }
}

/// The located chain itself, or the empty sequence when there is none.
pub open spec fn chain_of(forest: Seq<VariantEntry>, target: Seq<char>) -> Seq<VariantEntry> {
    match find_chain(forest, target) {
        Some(chain) => chain,
        None => Seq::empty(),
    }
}

/// The names along a chain, in chain order.
pub open spec fn chain_names(chain: Seq<VariantEntry>) -> Seq<Seq<char>> {
    chain.map_values(|e: VariantEntry| e.name@)
}

/// Every name observable in `forest`, in depth-first pre-order.
pub open spec fn forest_names(forest: Seq<VariantEntry>) -> Seq<Seq<char>>
    decreases forest,
{
    if forest.len() == 0 {
        Seq::empty()
    } else {
        proof {
            lemma_forest_entry_decreases(forest);
        }
        seq![forest[0].name@] + forest_names(forest[0].variant.variants@) + forest_names(
            forest.drop_first(),
        )
    }
}

/// A non-empty forest is structurally larger than its first entry's nested
/// forest and than the rest of its entries; this is what lets traversals
/// recurse on both.
pub proof fn lemma_forest_entry_decreases(forest: Seq<VariantEntry>)
    requires
        forest.len() > 0,
    ensures
        decreases_to!(forest => forest[0].variant.variants@),
        decreases_to!(forest => forest.drop_first()),
{
    vstd::seq::axiom_seq_index_decreases(forest, 0);
    vstd::std_specs::vec::axiom_vec_decreases_to_view(forest[0].variant.variants);
    assert(decreases_to!(forest[0] => forest[0].variant.variants));
    assert(forest.drop_first() == forest.subrange(1, forest.len() as int));
    vstd::seq::axiom_seq_subrange_decreases(forest, 1, forest.len() as int);
}

/// A name is located by the traversal exactly when it is observable
/// somewhere in the forest.
pub proof fn lemma_found_iff_observable(forest: Seq<VariantEntry>, target: Seq<char>)
    ensures
        find_chain(forest, target) is Some <==> forest_names(forest).contains(target),
    decreases forest,
{
    if forest.len() > 0 {
        lemma_forest_entry_decreases(forest);
        let e = forest[0];
        let nested = forest_names(e.variant.variants@);
        let rest = forest_names(forest.drop_first());
        let whole = seq![e.name@] + nested + rest;
        lemma_found_iff_observable(e.variant.variants@, target);
        lemma_found_iff_observable(forest.drop_first(), target);
        if find_chain(forest, target) is Some {
            if e.name@ == target {
                assert(whole[0] == target);
            } else if find_chain(e.variant.variants@, target) is Some {
                let i = choose|i: int| 0 <= i < nested.len() && nested[i] == target;
                assert(whole[1 + i] == target);
            } else {
                let i = choose|i: int| 0 <= i < rest.len() && rest[i] == target;
                assert(whole[1 + nested.len() + i] == target);
            }
        }
        if forest_names(forest).contains(target) {
            let i = choose|i: int|
                0 <= i < whole.len() && forest_names(forest)[i] == target;
            if i == 0 {
                assert(e.name@ == target);
            } else if i <= nested.len() {
                assert(nested[i - 1] == target);
            } else {
                assert(rest[i - 1 - nested.len()] == target);
            }
        }
    }
}

/// Observable names distribute over splitting a forest at its front.
proof fn lemma_forest_names_concat(a: Seq<VariantEntry>, b: Seq<VariantEntry>)
    ensures
        forest_names(a + b) == forest_names(a) + forest_names(b),
    decreases a,
{
    if a.len() == 0 {
        assert(a + b =~= b);
        assert(forest_names(a) + forest_names(b) =~= forest_names(b));
    } else {
        lemma_forest_entry_decreases(a);
        assert((a + b).len() > 0);
        assert((a + b)[0] == a[0]);
        assert((a + b).drop_first() =~= a.drop_first() + b);
        lemma_forest_names_concat(a.drop_first(), b);
        assert(seq![a[0].name@] + forest_names(a[0].variant.variants@) + (forest_names(
            a.drop_first(),
        ) + forest_names(b)) =~= forest_names(a) + forest_names(b));
    }
}

/// Collects every name observable in `variants` onto the end of `out`, in
/// depth-first pre-order.
fn collect_forest_names(variants: &Vec<VariantEntry>, out: &mut Vec<String>)
    ensures
        final(out).deep_view() == old(out).deep_view() + forest_names(variants@),
    decreases variants@,
{
    let mut i: usize = 0;
    proof {
        assert(variants@.take(0) =~= Seq::<VariantEntry>::empty());
        assert(out.deep_view() + forest_names(variants@.take(0)) =~= out.deep_view());
    }
    while i < variants.len()
        invariant
            i <= variants@.len(),
            out.deep_view() == old(out).deep_view() + forest_names(variants@.take(i as int)),
        decreases variants@.len() - i,
    {
        let entry = &variants[i];
        let ghost dv0 = out.deep_view();
        out.push(entry.name.clone());
        proof {
            assert(out.deep_view() =~= dv0 + seq![variants@[i as int].name@]);
            vstd::seq::axiom_seq_index_decreases(variants@, i as int);
            vstd::std_specs::vec::axiom_vec_decreases_to_view(entry.variant.variants);
            assert(decreases_to!(variants@[i as int] => entry.variant.variants));
        }
        let ghost dv1 = out.deep_view();
        collect_forest_names(&entry.variant.variants, out);
        proof {
            let prefix = variants@.take(i as int);
            let one = seq![variants@[i as int]];
            lemma_forest_names_concat(prefix, one);
            assert(variants@.take(i as int + 1) =~= prefix + one);
            assert(one.len() == 1 && one[0] == variants@[i as int]);
            assert(one.drop_first() =~= Seq::<VariantEntry>::empty());
            assert(forest_names(one.drop_first()) =~= Seq::<Seq<char>>::empty());
            assert(forest_names(one) =~= seq![variants@[i as int].name@] + forest_names(
                variants@[i as int].variant.variants@,
            ));
            assert(out.deep_view() == dv1 + forest_names(variants@[i as int].variant.variants@));
            assert(out.deep_view() =~= old(out).deep_view() + forest_names(
                variants@.take(i as int + 1),
            ));
        }
        i = i + 1;
    }
    proof {
        assert(variants@.take(variants@.len() as int) =~= variants@);
    }
}

/// A located chain is never empty and always ends at an entry carrying the
/// requested name.
pub proof fn lemma_chain_shape(forest: Seq<VariantEntry>, target: Seq<char>)
    ensures
        find_chain(forest, target) matches Some(c) ==> c.len() > 0 && c.last().name@ == target,
    decreases forest,
{
    if forest.len() > 0 {
        lemma_forest_entry_decreases(forest);
        lemma_chain_shape(forest[0].variant.variants@, target);
        lemma_chain_shape(forest.drop_first(), target);
        if forest[0].name@ == target {
            assert(seq![forest[0]].last() == forest[0]);
        } else {
            match find_chain(forest[0].variant.variants@, target) {
                Some(nested_chain) => {
                    assert((seq![forest[0]] + nested_chain).last() == nested_chain.last());
                },
                None => {},
            }
        }
    }
}

/// The chain of entries leading to the first pre-order occurrence of
/// `variant_name`, as references into the forest, root first.
pub(crate) fn search_chain<'a>(variants: &'a Vec<VariantEntry>, variant_name: &String) -> (r: Option<
    Vec<&'a VariantEntry>,
>)
    ensures
        r is Some <==> find_chain(variants@, variant_name@) is Some,
        r matches Some(chain) ==> chain@.map_values(|e: &VariantEntry| *e) == chain_of(
            variants@,
            variant_name@,
        ),
    decreases variants@,
{
    let mut i: usize = 0;
    proof {
        assert(variants@.skip(0) =~= variants@);
    }
    while i < variants.len()
        invariant
            i <= variants@.len(),
            find_chain(variants@, variant_name@) == find_chain(
                variants@.skip(i as int),
                variant_name@,
            ),
        decreases variants@.len() - i,
    {
        let entry = &variants[i];
        proof {
            assert(variants@.skip(i as int)[0] == variants@[i as int]);
            assert(variants@.skip(i as int).drop_first() =~= variants@.skip(i as int + 1));
        }
        if entry.name.eq(variant_name) {
            let mut res: Vec<&'a VariantEntry> = Vec::new();
            res.push(entry);
            proof {
                assert(res@.map_values(|e: &VariantEntry| *e) =~= seq![variants@[i as int]]);
            }
            return Some(res);
        }
        proof {
            vstd::seq::axiom_seq_index_decreases(variants@, i as int);
            vstd::std_specs::vec::axiom_vec_decreases_to_view(entry.variant.variants);
            assert(decreases_to!(variants@[i as int] => entry.variant.variants));
        }
        match search_chain(&entry.variant.variants, variant_name) {
            Some(mut sub) => {
                let ghost sub0 = sub@;
                let mut res: Vec<&'a VariantEntry> = Vec::new();
                res.push(entry);
                res.append(&mut sub);
                proof {
                    assert(res@.map_values(|e: &VariantEntry| *e) =~= seq![variants@[i as int]]
                        + sub0.map_values(|e: &VariantEntry| *e));
                }
                return Some(res);
            },
            None => {},
        }
        i = i + 1;
    }
    proof {
        assert(variants@.skip(variants@.len() as int) =~= Seq::<VariantEntry>::empty());
    }
    None
}

/// The root-to-target variant path for `variant_name`, or `None` when the
/// name is nowhere in the forest.
pub fn search_for_variant_path(variants: &Vec<VariantEntry>, variant_name: &String) -> (r: Option<
    VariantPath,
>)
    ensures
        r is Some <==> find_chain(variants@, variant_name@) is Some,
        r matches Some(path) ==> path.deep_view() == chain_names(
            chain_of(variants@, variant_name@),
        ),
{
    match search_chain(variants, variant_name) {
        None => None,
        Some(chain) => {
            let ghost c = chain_of(variants@, variant_name@);
            let mut path: VariantPath = Vec::new();
            let mut i: usize = 0;
            proof {
                assert(path.deep_view() =~= chain_names(c).take(0));
            }
            while i < chain.len()
                invariant
                    i <= chain@.len(),
                    chain@.map_values(|e: &VariantEntry| *e) == c,
                    path@.len() == i,
                    path.deep_view() == chain_names(c).take(i as int),
                decreases chain@.len() - i,
            {
                let entry = chain[i];
                path.push(entry.name.clone());
                proof {
                    assert(chain@.map_values(|e: &VariantEntry| *e)[i as int] == *chain@[
                        i as int
                    ]);
                    assert(c[i as int] == *chain@[i as int]);
                    assert(chain_names(c)[i as int] == c[i as int].name@);
                    assert(path@[i as int].deep_view() == c[i as int].name@);
                    assert(path.deep_view() =~= chain_names(c).take(i as int + 1));
                }
                i = i + 1;
            }
            proof {
                assert(chain_names(c).take(c.len() as int) =~= chain_names(c));
            }
            Some(path)
        },
    }
}

/// The root-to-target variant path for `variant_name` within the variants
/// nested under `variant`.
pub fn get_variant_subpath_from_variant(variant: &VariantSchema, variant_name: &String) -> (r:
    Option<VariantPath>)
    ensures
        r is Some <==> find_chain(variant.variants@, variant_name@) is Some,
        r matches Some(path) ==> path.deep_view() == chain_names(
            chain_of(variant.variants@, variant_name@),
        ),
{
    search_for_variant_path(&variant.variants, variant_name)
}

/// The root-to-target variant path for `variant_name` in a document's
/// forest.
pub fn get_variant_path_from_meta(meta: &VTMetaSchema, variant_name: &String) -> (r:
    Option<VariantPath>)
    ensures
        r is Some <==> find_chain(meta.variants@, variant_name@) is Some,
        r matches Some(path) ==> path.deep_view() == chain_names(
            chain_of(meta.variants@, variant_name@),
        ),
{
    search_for_variant_path(&meta.variants, variant_name)
}

/// The first pre-order occurrence of `variant_name` in the forest.
pub fn search_for_variant<'a>(variants: &'a Vec<VariantEntry>, variant_name: &'a String) -> (r:
    Option<&'a VariantSchema>)
    ensures
        r is Some <==> find_chain(variants@, variant_name@) is Some,
        r matches Some(v) ==> *v == chain_of(variants@, variant_name@).last().variant,
{
    match search_chain(variants, variant_name) {
        None => None,
        Some(chain) => {
            proof {
                lemma_chain_shape(variants@, variant_name@);
                let c = chain_of(variants@, variant_name@);
                assert(chain@.map_values(|e: &VariantEntry| *e).len() == c.len());
            }
            let entry = chain[chain.len() - 1];
            proof {
                let c = chain_of(variants@, variant_name@);
                assert(*chain@[c.len() - 1] == c[c.len() - 1]);
            }
            Some(&entry.variant)
        },
    }
}

/// The first pre-order occurrence of `variant_name` among the variants
/// nested under `variant`.
pub fn get_variant_from_variant<'a>(variant: &'a VariantSchema, variant_name: &'a String) -> (r:
    Option<&'a VariantSchema>)
    ensures
        r is Some <==> find_chain(variant.variants@, variant_name@) is Some,
        r matches Some(v) ==> *v == chain_of(variant.variants@, variant_name@).last().variant,
{
    search_for_variant(&variant.variants, variant_name)
}

/// The first pre-order occurrence of `variant_name` in a document's
/// forest.
pub fn get_variant_from_meta<'a>(meta: &'a VTMetaSchema, variant_name: &'a String)
    -> (r: Option<&'a VariantSchema>)
    ensures
        r is Some <==> find_chain(meta.variants@, variant_name@) is Some,
        r matches Some(v) ==> *v == chain_of(meta.variants@, variant_name@).last().variant,
{
    search_for_variant(&meta.variants, variant_name)
}

/// The names observable in a variant's nested forest, or `None` when it
/// nests no variants.
pub fn get_variants_names_from_variant(variant: &VariantSchema) -> (r: Option<Vec<String>>)
    ensures
        r is Some <==> variant.variants@.len() > 0,
        r matches Some(names) ==> names.deep_view() == forest_names(variant.variants@),
{
    if variant.variants.len() == 0 {
        return None;
    }
    let mut names: Vec<String> = Vec::new();
    proof {
        assert(names.deep_view() =~= Seq::<Seq<char>>::empty());
        assert(names.deep_view() + forest_names(variant.variants@) =~= forest_names(
            variant.variants@,
        ));
    }
    collect_forest_names(&variant.variants, &mut names);
    Some(names)
}

/// Every name observable in a document's forest, in depth-first
/// pre-order, or `None` when the document has no variants.
pub fn get_variants_names_from_meta(meta: &VTMetaSchema) -> (r: Option<Vec<String>>)
    ensures
        r is Some <==> meta.variants@.len() > 0,
        r matches Some(names) ==> names.deep_view() == forest_names(meta.variants@),
{
    if meta.variants.len() == 0 {
        return None;
    }
    let mut names: Vec<String> = Vec::new();
    proof {
        assert(names.deep_view() =~= Seq::<Seq<char>>::empty());
        assert(names.deep_view() + forest_names(meta.variants@) =~= forest_names(meta.variants@));
    }
    collect_forest_names(&meta.variants, &mut names);
    Some(names)
}

} // verus!
