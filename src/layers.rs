use crate::shapes::ShapeRecord;
use vstd::prelude::*;

verus! {

/// The layer panel: one row per layer, holding whether the layer is shown,
/// its number and its name.
pub struct LayersUIState {
    pub layers: Vec<(bool, u8, String)>,
}

/// The row shown with `shown` in place of its flag.
pub open spec fn with_flag(row: (bool, u8, String), shown: bool) -> (bool, u8, String) {
    (shown, row.1, row.2)
}

/// Steps through the layers by visibility: the hide key hides the last shown
/// layer; otherwise the show key shows the first hidden layer.
pub fn layer_zindex_stepthru_system(state: &mut LayersUIState, hide_key: bool, show_key: bool)
    ensures
        hide_key ==> (forall|k: int| 0 <= k < old(state).layers@.len() ==> !(#[trigger] old(state).layers@[k]).0)
            ==> final(state).layers@ == old(state).layers@,
        hide_key ==> forall|k: int|
            0 <= k < old(state).layers@.len() && (#[trigger] old(state).layers@[k]).0 && (forall|j: int|
                k < j < old(state).layers@.len() ==> !(#[trigger] old(state).layers@[j]).0) ==> final(state).layers@
                == old(state).layers@.update(k, with_flag(old(state).layers@[k], false)),
        !hide_key && show_key ==> (forall|k: int| 0 <= k < old(state).layers@.len() ==> (#[trigger] old(state).layers@[k]).0)
            ==> final(state).layers@ == old(state).layers@,
        !hide_key && show_key ==> forall|k: int|
            0 <= k < old(state).layers@.len() && !(#[trigger] old(state).layers@[k]).0 && (forall|j: int|
                0 <= j < k ==> (#[trigger] old(state).layers@[j]).0) ==> final(state).layers@ == old(
                state,
            ).layers@.update(k, with_flag(old(state).layers@[k], true)),
        !hide_key && !show_key ==> final(state).layers@ == old(state).layers@,
{
    let n = state.layers.len();
    if hide_key {
        let mut i: usize = n;
        while i > 0
            invariant
                hide_key,
                i <= n,
                n == state.layers@.len(),
                state.layers@ == old(state).layers@,
                forall|j: int| i <= j < n ==> !(#[trigger] state.layers@[j]).0,
            decreases i,
        {
            if state.layers[i - 1].0 {
                state.layers[i - 1].0 = false;
                proof {
                    let k = i - 1;
                    assert(state.layers@ =~= old(state).layers@.update(k as int, with_flag(old(state).layers@[k as int], false)));
                    assert forall|m: int|
                        0 <= m < n && (#[trigger] old(state).layers@[m]).0 && (forall|j: int|
                            m < j < n ==> !(#[trigger] old(state).layers@[j]).0) implies m == k by {
                        if m < k {
                            assert(old(state).layers@[k as int].0);
                        }
                    }
                }
                return;
            }
            i = i - 1;
        }
    } else if show_key {
        let mut i: usize = 0;
        while i < n
            invariant
                !hide_key && show_key,
                i <= n,
                n == state.layers@.len(),
                state.layers@ == old(state).layers@,
                forall|j: int| 0 <= j < i ==> (#[trigger] state.layers@[j]).0,
            decreases n - i,
        {
            if !state.layers[i].0 {
                state.layers[i].0 = true;
                proof {
                    assert(state.layers@ =~= old(state).layers@.update(i as int, with_flag(old(state).layers@[i as int], true)));
                    assert forall|m: int|
                        0 <= m < n && !(#[trigger] old(state).layers@[m]).0 && (forall|j: int|
                            0 <= j < m ==> (#[trigger] old(state).layers@[j]).0) implies m == i by {
                        if m > i {
                            assert(!old(state).layers@[i as int].0);
                        }
                    }
                }
                return;
            }
            i = i + 1;
        }
    }
}

/// The visibility that the first `n` panel rows give to `layer`: that of the
/// last row for `layer` whose flag differs from the previous frame's, if any.
pub open spec fn toggled(rows: Seq<(bool, u8)>, prev: Seq<(bool, u8)>, layer: u8, n: int) -> Option<bool>
    decreases n,
{
    if n <= 0 {
        None
    } else if rows[n - 1].1 == layer && rows[n - 1].0 != prev[n - 1].0 {
        Some(rows[n - 1].0)
    } else {
        toggled(rows, prev, layer, n - 1)
    }
}

/// The shape with its visibility set as the toggle says, if it says anything.
pub open spec fn apply_toggle(s: ShapeRecord, t: Option<bool>) -> ShapeRecord {
    match t {
        Some(v) => ShapeRecord { visible: v, ..s },
        None => s,
    }
}

pub open spec fn row_flags(rows: Seq<(bool, u8, String)>) -> Seq<(bool, u8)> {
    rows.map_values(|r: (bool, u8, String)| (r.0, r.1))
}

/// Applies the panel's visibility flags to the shapes: for every row whose
/// flag changed since the previous frame, the shapes on that row's layer are
/// shown or hidden to match. The previous frame's flags then become the
/// current ones; on the first frame nothing is compared.
pub fn set_layer_visibility_system(layers: &Vec<(bool, u8, String)>, prev: &mut Vec<(bool, u8)>, shapes: &mut Vec<ShapeRecord>)
    ensures
        final(prev)@ == row_flags(layers@),
        final(shapes)@.len() == old(shapes)@.len(),
        old(prev)@.len() == 0 ==> final(shapes)@ == old(shapes)@,
        old(prev)@.len() > 0 ==> forall|i: int|
            0 <= i < old(shapes)@.len() ==> #[trigger] final(shapes)@[i] == apply_toggle(
                old(shapes)@[i],
                toggled(
                    row_flags(layers@),
                    old(prev)@,
                    old(shapes)@[i].layer,
                    if layers@.len() < old(prev)@.len() { layers@.len() as int } else { old(prev)@.len() as int },
                ),
            ),
{
    let ghost rows = row_flags(layers@);
    let ghost start = shapes@;
    if prev.len() > 0 {
        let n = if layers.len() < prev.len() { layers.len() } else { prev.len() };
        let mut k: usize = 0;
        while k < n
            invariant
                k <= n,
                n <= layers@.len(),
                n <= prev@.len(),
                prev@.len() > 0,
                rows == row_flags(layers@),
                prev@ == old(prev)@,
                shapes@.len() == start.len(),
                forall|i: int| 0 <= i < start.len() ==> #[trigger] shapes@[i] == apply_toggle(start[i], toggled(rows, prev@, start[i].layer, k as int)),
            decreases n - k,
        {
            let shown = layers[k].0;
            let layer = layers[k].1;
            if shown != prev[k].0 {
                let mut i: usize = 0;
                while i < shapes.len()
                    invariant
                        k < n,
                        n <= layers@.len(),
                        n <= prev@.len(),
                        rows == row_flags(layers@),
                        shown == layers@[k as int].0,
                        layer == layers@[k as int].1,
                        shown != prev@[k as int].0,
                        i <= shapes@.len(),
                        shapes@.len() == start.len(),
                        forall|j: int| 0 <= j < i ==> #[trigger] shapes@[j] == apply_toggle(start[j], toggled(rows, prev@, start[j].layer, k + 1)),
                        forall|j: int| i <= j < start.len() ==> #[trigger] shapes@[j] == apply_toggle(start[j], toggled(rows, prev@, start[j].layer, k as int)),
                    decreases shapes@.len() - i,
                {
                    proof {
                        assert(rows[k as int] == (shown, layer));
                    }
                    if shapes[i].layer == layer {
                        shapes[i].visible = shown;
                    }
                    i = i + 1;
                }
            } else {
                proof {
                    assert(rows[k as int] == (shown, layer));
                    assert forall|i: int| 0 <= i < start.len() implies #[trigger] shapes@[i] == apply_toggle(start[i], toggled(rows, prev@, start[i].layer, k + 1)) by {
                        assert(toggled(rows, prev@, start[i].layer, k + 1) == toggled(rows, prev@, start[i].layer, k as int));
                    }
                }
            }
            k = k + 1;
        }
    }
    let mut flags: Vec<(bool, u8)> = Vec::new();
    let mut j: usize = 0;
    while j < layers.len()
        invariant
            j <= layers@.len(),
            flags@ =~= row_flags(layers@).take(j as int),
        decreases layers@.len() - j,
    {
        flags.push((layers[j].0, layers[j].1));
        j = j + 1;
    }
    proof {
        assert(row_flags(layers@).take(layers@.len() as int) =~= row_flags(layers@));
        if old(prev)@.len() == 0 {
            assert(shapes@ =~= start);
        }
    }
    *prev = flags;
}

} // verus!
