//! The DAG executor: runs the ordered layer list, wiring layers together by
//! tensor id through a shared tensor store, and selects the final public
//! outputs.
//!
//! The layer order is assumed to already be a valid topological order: a
//! layer reading an id no earlier layer produced (and no input tensor
//! carries) is a fatal error. Later writers to an id overwrite earlier ones,
//! and ids need not be densely packed.

use vstd::prelude::*;
use crate::config::{DagConfig, GadgetConfig};
use crate::error::CircuitError;
use crate::gadgets::LoadedTables;
use crate::layers::{layer_forward, spec_layer_eval, views_of};
use crate::tensor::{tensor_copy, Tensor, TensorView};

verus! {

/// The largest tensor id a model may address in the store.
pub const MAX_TENSOR_ID: usize = 0x10_0000;

/// The mathematical model of the tensor store: one optional tensor model
/// per id.
pub open spec fn store_view(s: Seq<Option<Tensor>>) -> Seq<Option<TensorView>> {
    s.map_values(
        |o: Option<Tensor>|
            match o {
                Some(t) => Some(t@),
                None => None,
            },
    )
}

/// Every tensor in the store is well formed.
pub open spec fn store_wf(s: Seq<Option<Tensor>>) -> bool {
    forall|i: int|
        0 <= i < s.len() ==> match #[trigger] s[i] {
            Some(t) => t.wf(),
            None => true,
        }
}

/// Fetch the tensors at the given ids, or `None` where an id has no tensor.
pub open spec fn spec_gather(s: Seq<Option<TensorView>>, idxs: Seq<usize>) -> Option<
    Seq<TensorView>,
>
    decreases idxs.len(),
{
    if idxs.len() == 0 {
        Some(Seq::empty())
    } else {
        match spec_gather(s, idxs.drop_last()) {
            Some(ts) => {
                if (idxs.last() as int) < s.len() {
                    match s[idxs.last() as int] {
                        Some(tv) => Some(ts.push(tv)),
                        None => None,
                    }
                } else {
                    None
                }
            },
            None => None,
        }
    }
}

/// Write a tensor at an id, extending the store with empty slots as needed.
pub open spec fn spec_store_put(s: Seq<Option<TensorView>>, idx: int, tv: TensorView) -> Seq<
    Option<TensorView>,
> {
    if idx < s.len() {
        s.update(idx, Some(tv))
    } else {
        s + Seq::new((idx - s.len()) as nat, |j: int| None::<TensorView>) + seq![Some(tv)]
    }
}

/// One executor step: gather the layer's inputs by id, run its forward
/// pass, and write the produced tensor at its declared output id.
pub open spec fn spec_dag_step(
    cfg: GadgetConfig,
    tables: LoadedTables,
    dag: DagConfig,
    s: Seq<Option<TensorView>>,
    i: int,
) -> Option<Seq<Option<TensorView>>> {
    match spec_gather(s, dag.inp_idxes@[i]@) {
        Some(ins) => match spec_layer_eval(cfg, tables, dag.ops@[i], ins) {
            Some(vals) => if dag.out_idxes@[i]@.len() == 1 && (dag.out_idxes@[i]@[0] as int)
                < MAX_TENSOR_ID {
                Some(
                    spec_store_put(
                        s,
                        dag.out_idxes@[i]@[0] as int,
                        TensorView { shape: dag.ops@[i].out_shapes@[0]@, vals },
                    ),
                )
            } else {
                None
            },
            None => None,
        },
        None => None,
    }
}

/// The store after the first `n` layers have run.
pub open spec fn spec_dag_store(
    cfg: GadgetConfig,
    tables: LoadedTables,
    dag: DagConfig,
    s: Seq<Option<TensorView>>,
    n: int,
) -> Option<Seq<Option<TensorView>>>
    decreases n,
{
    if n <= 0 {
        Some(s)
    } else {
        match spec_dag_store(cfg, tables, dag, s, n - 1) {
            Some(s2) => spec_dag_step(cfg, tables, dag, s2, n - 1),
            None => None,
        }
    }
}

/// The model's final public outputs: the tensors at the designated ids, in
/// order, after every layer has run.
pub open spec fn spec_dag_eval(
    cfg: GadgetConfig,
    tables: LoadedTables,
    dag: DagConfig,
    s: Seq<Option<TensorView>>,
) -> Option<Seq<TensorView>> {
    match spec_dag_store(cfg, tables, dag, s, dag.ops@.len() as int) {
        Some(s2) => spec_gather(s2, dag.final_out_idxes@),
        None => None,
    }
}

/// DAG evaluation determinism: the executor's result is a function of the
/// registry, the tables, the layer list and the input store alone, so two
/// executions over the same model and inputs produce identical output
/// tensors.
pub proof fn lemma_dag_evaluation_deterministic(
    cfg: GadgetConfig,
    tables: LoadedTables,
    dag: DagConfig,
    s1: Seq<Option<TensorView>>,
    s2: Seq<Option<TensorView>>,
)
    requires
        s1 == s2,
    ensures
        spec_dag_eval(cfg, tables, dag, s1) == spec_dag_eval(cfg, tables, dag, s2),
{
}

/// A run that fails after `n` layers fails for every longer prefix.
proof fn lemma_dag_store_none_extends(
    cfg: GadgetConfig,
    tables: LoadedTables,
    dag: DagConfig,
    s: Seq<Option<TensorView>>,
    n: int,
    m: int,
)
    requires
        0 <= n <= m,
        spec_dag_store(cfg, tables, dag, s, n) is None,
    ensures
        spec_dag_store(cfg, tables, dag, s, m) is None,
    decreases m - n,
{
    if n < m {
        lemma_dag_store_none_extends(cfg, tables, dag, s, n + 1, m);
    }
}

/// A gather that fails on a prefix fails on the whole id list.
proof fn lemma_gather_prefix_none(s: Seq<Option<TensorView>>, idxs: Seq<usize>, j: int)
    requires
        0 <= j <= idxs.len(),
        spec_gather(s, idxs.take(j)) is None,
    ensures
        spec_gather(s, idxs) is None,
    decreases idxs.len() - j,
{
    if j < idxs.len() {
        assert(idxs.take(j + 1).drop_last() =~= idxs.take(j));
        lemma_gather_prefix_none(s, idxs, j + 1);
    } else {
        assert(idxs.take(j) =~= idxs);
    }
}

/// Fetch the tensors at the given ids from the store; an id without a
/// tensor is a fatal error.
fn gather(s: &Vec<Option<Tensor>>, idxs: &Vec<usize>) -> (r: Result<Vec<Tensor>, CircuitError>)
    requires
        store_wf(s@),
    ensures
        match r {
            Ok(ts) => {
                &&& spec_gather(store_view(s@), idxs@) == Some(views_of(ts@))
                &&& forall|i: int| 0 <= i < ts@.len() ==> (#[trigger] ts@[i]).wf()
            },
            Err(e) => e == CircuitError::MissingTensor && spec_gather(
                store_view(s@),
                idxs@,
            ) is None,
        },
{
    let ghost sv = store_view(s@);
    let mut ts: Vec<Tensor> = Vec::new();
    let mut j: usize = 0;
    while j < idxs.len()
        invariant
            0 <= j <= idxs@.len(),
            store_wf(s@),
            sv == store_view(s@),
            spec_gather(sv, idxs@.take(j as int)) == Some(views_of(ts@)),
            forall|i: int| 0 <= i < ts@.len() ==> (#[trigger] ts@[i]).wf(),
        decreases idxs@.len() - j,
    {
        proof {
            assert(idxs@.take(j as int + 1).drop_last() =~= idxs@.take(j as int));
        }
        let id = idxs[j];
        if id >= s.len() {
            proof {
                lemma_gather_prefix_none(sv, idxs@, j as int + 1);
            }
            return Err(CircuitError::MissingTensor);
        }
        match &s[id] {
            Some(t) => {
                let c = tensor_copy(t);
                ts.push(c);
                proof {
                    assert(sv[id as int] == Some(t@));
                    assert(views_of(ts@) =~= spec_gather(sv, idxs@.take(j as int)).unwrap().push(
                        t@,
                    ));
                }
            },
            None => {
                proof {
                    assert(sv[id as int] is None);
                    lemma_gather_prefix_none(sv, idxs@, j as int + 1);
                }
                return Err(CircuitError::MissingTensor);
            },
        }
        j += 1;
    }
    proof {
        assert(idxs@.take(idxs@.len() as int) =~= idxs@);
    }
    Ok(ts)
}

/// Write a tensor into the store at an id, extending the store as needed.
pub(crate) fn store_put(s: &mut Vec<Option<Tensor>>, idx: usize, t: Tensor)
    requires
        idx < MAX_TENSOR_ID,
        store_wf(old(s)@),
        t.wf(),
    ensures
        store_view(final(s)@) == spec_store_put(store_view(old(s)@), idx as int, t@),
        store_wf(final(s)@),
        final(s)@.len() == if idx < old(s)@.len() {
            old(s)@.len() as int
        } else {
            idx + 1
        },
        final(s)@[idx as int] == Some(t),
        forall|k: int|
            0 <= k < old(s)@.len() && k != idx ==> final(s)@[k] == old(s)@[k],
        forall|k: int|
            old(s)@.len() <= k < final(s)@.len() && k != idx ==> final(s)@[k] is None,
{
    let ghost s0 = store_view(old(s)@);
    let ghost n0 = old(s)@.len();
    while s.len() <= idx
        invariant
            store_wf(s@),
            idx < MAX_TENSOR_ID,
            s@.len() >= n0,
            s@.len() <= idx + 1 || s@.len() == n0,
            forall|k: int| 0 <= k < n0 ==> s@[k] == old(s)@[k],
            forall|k: int| n0 <= k < s@.len() ==> s@[k] is None,
        decreases idx + 1 - s@.len(),
    {
        s.push(None);
    }
    let ghost before = s@;
    s[idx] = Some(t);
    proof {
        assert(s@ =~= before.update(idx as int, Some(t)));
        assert(store_view(s@) =~= spec_store_put(s0, idx as int, t@));
    }
}

/// Run every layer in stored order over the tensor store, then copy the
/// tensors at the designated final output ids, in order. The result is a
/// function of the registry, tables, layer list and input store alone.
pub fn dag_forward(
    cfg: &GadgetConfig,
    tables: &LoadedTables,
    dag: &DagConfig,
    store: &Vec<Option<Tensor>>,
) -> (r: Result<(Vec<Option<Tensor>>, Vec<Tensor>), CircuitError>)
    requires
        cfg.wf(),
        tables.wf(*cfg),
        dag.wf(),
        store_wf(store@),
    ensures
        match r {
            Ok(pair) => {
                &&& spec_dag_store(*cfg, *tables, *dag, store_view(store@), dag.ops@.len() as int)
                    == Some(store_view(pair.0@))
                &&& spec_dag_eval(*cfg, *tables, *dag, store_view(store@)) == Some(
                    views_of(pair.1@),
                )
                &&& store_wf(pair.0@)
                &&& forall|i: int| 0 <= i < pair.1@.len() ==> (#[trigger] pair.1@[i]).wf()
            },
            Err(_) => spec_dag_eval(*cfg, *tables, *dag, store_view(store@)) is None,
        },
{
    let ghost s0 = store_view(store@);
    let mut s: Vec<Option<Tensor>> = Vec::new();
    let mut k: usize = 0;
    while k < store.len()
        invariant
            0 <= k <= store@.len(),
            store_wf(store@),
            s@.len() == k,
            store_wf(s@),
            forall|j: int| 0 <= j < k ==> store_view(s@)[j] == store_view(store@)[j],
        decreases store@.len() - k,
    {
        match &store[k] {
            Some(t) => {
                let c = tensor_copy(t);
                s.push(Some(c));
            },
            None => {
                s.push(None);
            },
        }
        k += 1;
    }
    proof {
        assert(store_view(s@) =~= s0);
    }
    let mut i: usize = 0;
    while i < dag.ops.len()
        invariant
            cfg.wf(),
            tables.wf(*cfg),
            dag.wf(),
            0 <= i <= dag.ops@.len(),
            store_wf(s@),
            s0 == store_view(store@),
            spec_dag_store(*cfg, *tables, *dag, s0, i as int) == Some(store_view(s@)),
        decreases dag.ops@.len() - i,
    {
        let ins = match gather(&s, &dag.inp_idxes[i]) {
            Ok(ts) => ts,
            Err(e) => {
                proof {
                    assert(spec_dag_step(*cfg, *tables, *dag, store_view(s@), i as int) is None);
                    lemma_dag_store_none_extends(
                        *cfg,
                        *tables,
                        *dag,
                        s0,
                        i as int + 1,
                        dag.ops@.len() as int,
                    );
                }
                return Err(e);
            },
        };
        let outs = match layer_forward(cfg, tables, &dag.ops[i], &ins) {
            Ok(o) => o,
            Err(e) => {
                proof {
                    assert(spec_dag_step(*cfg, *tables, *dag, store_view(s@), i as int) is None);
                    lemma_dag_store_none_extends(
                        *cfg,
                        *tables,
                        *dag,
                        s0,
                        i as int + 1,
                        dag.ops@.len() as int,
                    );
                }
                return Err(e);
            },
        };
        if dag.out_idxes[i].len() != 1 {
            proof {
                assert(spec_dag_step(*cfg, *tables, *dag, store_view(s@), i as int) is None);
                lemma_dag_store_none_extends(
                    *cfg,
                    *tables,
                    *dag,
                    s0,
                    i as int + 1,
                    dag.ops@.len() as int,
                );
            }
            return Err(CircuitError::BadDescription);
        }
        let oid = dag.out_idxes[i][0];
        if oid >= MAX_TENSOR_ID {
            proof {
                assert(spec_dag_step(*cfg, *tables, *dag, store_view(s@), i as int) is None);
                lemma_dag_store_none_extends(
                    *cfg,
                    *tables,
                    *dag,
                    s0,
                    i as int + 1,
                    dag.ops@.len() as int,
                );
            }
            return Err(CircuitError::BadDescription);
        }
        let t = tensor_copy(&outs[0]);
        let ghost sv_before = store_view(s@);
        store_put(&mut s, oid, t);
        proof {
            assert(t@ =~= (TensorView {
                shape: dag.ops@[i as int].out_shapes@[0]@,
                vals: outs@[0]@.vals,
            }));
            assert(spec_dag_step(*cfg, *tables, *dag, sv_before, i as int) == Some(store_view(s@)));
        }
        i += 1;
    }
    let outs = match gather(&s, &dag.final_out_idxes) {
        Ok(ts) => ts,
        Err(e) => {
            return Err(e);
        },
    };
    Ok((s, outs))
}

} // verus!
