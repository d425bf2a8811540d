use vstd::prelude::*;

verus! {

/// One written page of a diff snapshot: page number and page content.
pub type PageWrite = (usize, u64);

/// The last write to page `p` within one diff layer, if any.
pub open spec fn last_in_layer(layer: Seq<PageWrite>, p: int) -> Option<u64>
    decreases layer.len(),
{
    if layer.len() == 0 {
        None
    } else if layer.last().0 == p {
        Some(layer.last().1)
    } else {
        last_in_layer(layer.drop_last(), p)
    }
}

/// The value of page `p` from the latest layer of the chain that writes it, if any.
pub open spec fn last_in_chain(diffs: Seq<Seq<PageWrite>>, p: int) -> Option<u64>
    decreases diffs.len(),
{
    if diffs.len() == 0 {
        None
    } else {
        match last_in_layer(diffs.last(), p) {
            Some(v) => Some(v),
            None => last_in_chain(diffs.drop_last(), p),
        }
    }
}

/// Page `p` of a base image after the diff chain has been applied in order.
pub open spec fn restored_page(base: Seq<u64>, diffs: Seq<Seq<PageWrite>>, p: int) -> u64 {
    match last_in_chain(diffs, p) {
        Some(v) => v,
        None => base[p],
    }
}

/// Every write of every layer addresses a page of the base image.
pub open spec fn chain_fits(page_count: nat, diffs: Seq<Seq<PageWrite>>) -> bool {
    forall|i: int, j: int|
        0 <= i < diffs.len() && 0 <= j < diffs[i].len() ==> (#[trigger] diffs[i][j]).0 < page_count
}

pub open spec fn layers_view(diffs: Seq<Vec<PageWrite>>) -> Seq<Seq<PageWrite>> {
    diffs.map_values(|d: Vec<PageWrite>| d@)
}

/// Layers apply in chain order: a page that layer `j` writes and no later layer writes
/// holds layer `j`'s last value for it, whatever the base and the earlier layers held.
pub proof fn lemma_later_layer_wins(base: Seq<u64>, diffs: Seq<Seq<PageWrite>>, j: int, p: int)
    requires
        0 <= j < diffs.len(),
        last_in_layer(diffs[j], p) is Some,
        forall|k: int| j < k < diffs.len() ==> last_in_layer(#[trigger] diffs[k], p) is None,
    ensures
        restored_page(base, diffs, p) == last_in_layer(diffs[j], p)->Some_0,
        last_in_chain(diffs, p) == last_in_layer(diffs[j], p),
    decreases diffs.len(),
{
    if j < diffs.len() - 1 {
        let rest = diffs.drop_last();
        assert(last_in_layer(diffs[diffs.len() - 1], p) is None);
        assert forall|k: int| j < k < rest.len() implies last_in_layer(#[trigger] rest[k], p) is None by {
            assert(rest[k] == diffs[k]);
        }
        lemma_later_layer_wins(base, rest, j, p);
    }
}

/// Why a snapshot chain cannot be restored.
#[derive(Clone, Copy, Debug, PartialEq, Eq, Structural)]
pub enum RestoreError {
    /// A diff layer writes a page beyond the base image.
    InconsistentChain,
}

/// Builds guest memory from a base image and its diff layers: layer after layer in the
/// given order, each write in order, so a later write to a page overrides an earlier one.
pub fn restore_memory(base: &Vec<u64>, diffs: &Vec<Vec<PageWrite>>) -> (r: Result<
    Vec<u64>,
    RestoreError,
>)
    ensures
        r is Err <==> !chain_fits(base@.len(), layers_view(diffs@)),
        r matches Ok(mem) ==> mem@.len() == base@.len() && forall|p: int|
            0 <= p < base@.len() ==> #[trigger] mem@[p] == restored_page(
                base@,
                layers_view(diffs@),
                p,
            ),
{
    let ghost chain = layers_view(diffs@);
    let mut mem = base.clone();
    let mut i: usize = 0;
    while i < diffs.len()
        invariant
            0 <= i <= diffs@.len(),
            chain == layers_view(diffs@),
            mem@.len() == base@.len(),
            chain_fits(base@.len(), chain.take(i as int)),
            forall|p: int|
                0 <= p < base@.len() ==> #[trigger] mem@[p] == restored_page(
                    base@,
                    chain.take(i as int),
                    p,
                ),
        decreases diffs@.len() - i,
    {
        let layer = &diffs[i];
        assert(layer@ == chain[i as int]);
        let ghost before = mem@;
        let mut j: usize = 0;
        while j < layer.len()
            invariant
                0 <= i < diffs@.len(),
                chain == layers_view(diffs@),
                layer@ == chain[i as int],
                before.len() == base@.len(),
                chain_fits(base@.len(), chain.take(i as int)),
                forall|p: int|
                    0 <= p < base@.len() ==> #[trigger] before[p] == restored_page(
                        base@,
                        chain.take(i as int),
                        p,
                    ),
                0 <= j <= layer@.len(),
                mem@.len() == base@.len(),
                forall|k: int| 0 <= k < j ==> (#[trigger] layer@[k]).0 < base@.len(),
                forall|p: int|
                    0 <= p < base@.len() ==> #[trigger] mem@[p] == match last_in_layer(
                        layer@.take(j as int),
                        p,
                    ) {
                        Some(v) => v,
                        None => before[p],
                    },
            decreases layer@.len() - j,
        {
            let (page, value) = layer[j];
            if page >= mem.len() {
                proof {
                    assert(chain[i as int][j as int].0 >= base@.len());
                }
                return Err(RestoreError::InconsistentChain);
            }
            mem.set(page, value);
            proof {
                let t = layer@.take(j + 1);
                assert(t.drop_last() =~= layer@.take(j as int));
                assert(t.last() == layer@[j as int]);
            }
            j += 1;
        }
        proof {
            assert(layer@.take(j as int) =~= layer@);
            let c = chain.take(i + 1);
            assert(c.drop_last() =~= chain.take(i as int));
            assert(c.last() == layer@);
            assert forall|a: int, b: int|
                0 <= a < c.len() && 0 <= b < c[a].len() implies (#[trigger] c[a][b]).0
                < base@.len() by {
                if a < i {
                    assert(c[a] == chain.take(i as int)[a]);
                } else {
                    assert(c[a][b] == layer@[b]);
                }
            }
        }
        i += 1;
    }
    assert(chain.take(i as int) =~= chain);
    Ok(mem)
}

} // verus!
