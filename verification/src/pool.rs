//! The validation workers: each checks a chunk of the inputs of a `set`
//! against the store's index model and records the original input of each.
use vstd::prelude::*;
use crate::errors::AIProxyError;
use crate::keyval::{
    StoreInput, StoreValue, MetadataValue, ValueView, reserved_meta_key, reserved_meta_key_string,
    input_type_of_value,
};
use crate::models::{AiModel, SupportedModels, AiStoreInputType};
use crate::store::{index_input_type, distinct_views, has_view, has_input};
use crate::text::{concat_str, decimal, decimal_string};

verus! {

/// Names the validation workers.
#[derive(Debug)]
pub struct WorkerName;

impl WorkerName {
    /// The name of the `idx`-th worker: "Worker-" and the index in decimal.
    pub fn name(idx: usize) -> (res: String)
        ensures
            res@ == "Worker-"@ + decimal(idx as nat),
    {
        concat_str("Worker-", decimal_string(idx).as_str())
    }
}

/// Why a worker refuses an input.
#[derive(Debug)]
pub enum WorkerFault {
    /// The metadata already uses the reserved key.
    Reserved,
    /// The input has no value.
    Missing,
    /// The input is of this type, which the index model does not take.
    TypeMismatch(AiStoreInputType),
}

/// Why a worker refuses an input with this value and metadata, if it does:
/// the reserved key is checked first, then the input's type.
pub open spec fn worker_fault(
    index_model: AiModel,
    input: Option<ValueView>,
    value: Map<Seq<char>, Option<ValueView>>,
) -> Option<WorkerFault> {
    if value.dom().contains(reserved_meta_key()) {
        Some(WorkerFault::Reserved)
    } else {
        match input {
            None => Some(WorkerFault::Missing),
            Some(v) => if input_type_of_value(v) != index_input_type(index_model) {
                Some(WorkerFault::TypeMismatch(input_type_of_value(v)))
            } else {
                None
            },
        }
    }
}

/// The text a store input type is shown as.
pub open spec fn input_type_text(t: AiStoreInputType) -> Seq<char> {
    match t {
        AiStoreInputType::RawString => "RawString"@,
        AiStoreInputType::Image => "Image"@,
    }
}

/// The error a worker reports for a fault.
pub open spec fn worker_error(index_model: AiModel, f: WorkerFault, e: AIProxyError) -> bool {
    match f {
        WorkerFault::Reserved => e matches AIProxyError::ReservedError(k) && k@ == reserved_meta_key(),
        WorkerFault::Missing => e matches AIProxyError::InputNotSpecified(m) && m@
            == "Store Input Value"@,
        WorkerFault::TypeMismatch(t) => e matches AIProxyError::StoreSetTypeMismatchError {
            index_model_type: a,
            storeinput_type: b,
        } && a@ == input_type_text(index_input_type(index_model)) && b@ == input_type_text(t),
    }
}

/// The outcome of a worker on a chunk: the error of the first input it
/// refuses, or every input with the original recorded under the reserved key,
/// and the originals, each once.
pub open spec fn worker_outcome(
    index_model: AiModel,
    inputs: Seq<(StoreInput, StoreValue)>,
    res: Result<(Seq<(StoreInput, StoreValue)>, Seq<MetadataValue>), AIProxyError>,
) -> bool {
    match res {
        Ok((out, originals)) => {
            &&& forall|i: int|
                0 <= i < inputs.len() ==> worker_fault(index_model, #[trigger] inputs[i].0@, inputs[i].1@)
                    is None
            &&& out.len() == inputs.len()
            &&& forall|i: int|
                0 <= i < inputs.len() ==> (#[trigger] out[i]).0@ == inputs[i].0@ && out[i].1@
                    == inputs[i].1@.insert(reserved_meta_key(), inputs[i].0@) && out[i].1.wf()
            &&& distinct_views(originals)
            &&& forall|x: Option<ValueView>| #[trigger] has_view(originals, x) <==> has_input(inputs, x)
        },
        Err(e) => exists|k: int| #[trigger] worker_first_fault_is(index_model, inputs, k, e),
    }
}

/// The `k`-th input is the first a worker refuses, and `e` reports why.
pub open spec fn worker_first_fault_is(
    index_model: AiModel,
    inputs: Seq<(StoreInput, StoreValue)>,
    k: int,
    e: AIProxyError,
) -> bool {
    &&& 0 <= k < inputs.len()
    &&& forall|i: int|
        0 <= i < k ==> worker_fault(index_model, #[trigger] inputs[i].0@, inputs[i].1@) is None
    &&& worker_fault(index_model, inputs[k].0@, inputs[k].1@) matches Some(f) && worker_error(
        index_model,
        f,
        e,
    )
}

/// A worker's check of one chunk of inputs.
pub fn process_store_inputs(index_model: AiModel, inputs: Vec<(StoreInput, StoreValue)>) -> (res:
    Result<(Vec<(StoreInput, StoreValue)>, Vec<MetadataValue>), AIProxyError>)
    requires
        forall|i: int| 0 <= i < inputs@.len() ==> (#[trigger] inputs@[i]).1.wf(),
    ensures
        worker_outcome(
            index_model,
            inputs@,
            match res {
                Ok((out, originals)) => Ok((out@, originals@)),
                Err(e) => Err(e),
            },
        ),
{
    let ghost orig = inputs@;
    let total = inputs.len();
    let index_type = SupportedModels::from_ai_model(&index_model).to_model_details().input_type();
    let key = reserved_meta_key_string();
    let mut output: Vec<(StoreInput, StoreValue)> = Vec::new();
    let mut originals: Vec<MetadataValue> = Vec::new();
    let mut rest = crate::seqs::reversed(inputs);
    let mut n: usize = 0;
    while rest.len() > 0
        invariant
            index_type == index_input_type(index_model),
            key@ == reserved_meta_key(),
            n + rest@.len() == orig.len(),
            total == orig.len(),
            orig == inputs@,
            n == output@.len(),
            forall|i: int| 0 <= i < rest@.len() ==> #[trigger] rest@[i] == orig[orig.len() - 1 - i],
            forall|i: int| 0 <= i < orig.len() ==> (#[trigger] orig[i]).1.wf(),
            forall|i: int| 0 <= i < n ==> worker_fault(index_model, #[trigger] orig[i].0@, orig[i].1@) is None,
            forall|i: int|
                0 <= i < n ==> (#[trigger] output@[i]).0@ == orig[i].0@ && output@[i].1@
                    == orig[i].1@.insert(reserved_meta_key(), orig[i].0@) && output@[i].1.wf(),
            distinct_views(originals@),
            forall|x: Option<ValueView>|
                #[trigger] has_view(originals@, x) <==> has_input(orig.subrange(0, n as int), x),
        decreases rest@.len(),
    {
        let (store_input, mut store_value) = rest.pop().unwrap();
        assert(store_input@ == orig[n as int].0@ && store_value@ == orig[n as int].1@);
        if store_value.contains_key(key.as_str()) {
            let e = AIProxyError::ReservedError(key);
            assert(worker_fault(index_model, orig[n as int].0@, orig[n as int].1@) == Some(
                WorkerFault::Reserved,
            ));
            assert(worker_first_fault_is(index_model, orig, n as int, e));
            return Err(e);
        }
        let input_type = match store_input.input_type() {
            Some(t) => t,
            None => {
                assert(worker_fault(index_model, orig[n as int].0@, orig[n as int].1@) == Some(
                    WorkerFault::Missing,
                ));
                let e = AIProxyError::InputNotSpecified(String::from_str("Store Input Value"));
                assert(worker_first_fault_is(index_model, orig, n as int, e));
                return Err(e);
            },
        };
        if input_type != index_type {
            assert(worker_fault(index_model, orig[n as int].0@, orig[n as int].1@) == Some(
                WorkerFault::TypeMismatch(input_type),
            ));
            let e = AIProxyError::StoreSetTypeMismatchError {
                index_model_type: index_type.display_string(),
                storeinput_type: input_type.display_string(),
            };
            assert(worker_first_fault_is(index_model, orig, n as int, e));
            return Err(e);
        }
        let metadata_value = match store_input.to_metadata() {
            Some(m) => m,
            None => {
                return Err(AIProxyError::InputNotSpecified(String::from_str("Store Input Value")));
            },
        };
        let for_list = metadata_value.duplicate();
        store_value.insert(key.clone(), metadata_value);
        crate::store::push_unique(&mut originals, for_list);
        proof {
            let s = orig.subrange(0, n as int + 1);
            let t = orig.subrange(0, n as int);
            assert forall|x: Option<ValueView>| #[trigger] has_view(originals@, x) <==> has_input(s, x) by {
                if has_input(s, x) {
                    let k = choose|k: int| 0 <= k < s.len() && #[trigger] s[k].0@ == x;
                    if k < n {
                        assert(t[k] == s[k]);
                        assert(has_input(t, x));
                    }
                }
                if has_input(t, x) {
                    let k = choose|k: int| 0 <= k < t.len() && #[trigger] t[k].0@ == x;
                    assert(t[k] == s[k]);
                }
                if x == store_input@ {
                    assert(s[n as int].0@ == x);
                }
            }
        }
        output.push((store_input, store_value));
        n = n + 1;
    }
    proof {
        assert(orig.subrange(0, orig.len() as int) =~= orig);
    }
    Ok((output, originals))
}

/// The workers, as many as the pool size.
pub struct StoreValidatorThreadPool {
    pub pool_size: usize,
}

/// How many inputs a pool handles: its `pool_size` workers each take one
/// chunk of `pool_size` inputs; inputs beyond those chunks have no worker.
pub open spec fn handled_len(n: nat, pool_size: nat) -> nat {
    if n <= pool_size * pool_size {
        n
    } else {
        pool_size * pool_size
    }
}

impl StoreValidatorThreadPool {
    /// Splits the inputs into chunks of `pool_size`, gives the `i`-th chunk to
    /// the `i`-th worker while there is one, and merges what they find, in
    /// order: the first worker that refuses an input decides the error.
    /// Inputs beyond the first `pool_size * pool_size` find no worker and are
    /// neither checked nor given back; the server's pool behaves so, although
    /// it reads as an oversight rather than a rule.
    pub fn execute(&self, inputs: Vec<(StoreInput, StoreValue)>, index_model: AiModel) -> (res: Result<
        (Vec<(StoreInput, StoreValue)>, Vec<MetadataValue>),
        AIProxyError,
    >)
        requires
            self.pool_size > 0,
            forall|i: int| 0 <= i < inputs@.len() ==> (#[trigger] inputs@[i]).1.wf(),
        ensures
            worker_outcome(
                index_model,
                inputs@.take(handled_len(inputs@.len(), self.pool_size as nat) as int),
                match res {
                    Ok((out, originals)) => Ok((out@, originals@)),
                    Err(e) => Err(e),
                },
            ),
    {
        let ghost all = inputs@;
        let pool = self.pool_size;
        let total = inputs.len();
        let mut rest = crate::seqs::reversed(inputs);
        let mut out: Vec<(StoreInput, StoreValue)> = Vec::new();
        let mut originals: Vec<MetadataValue> = Vec::new();
        let mut k: usize = 0;
        let mut p: usize = 0;
        while k < pool && rest.len() > 0
            invariant
                pool > 0,
                pool == self.pool_size,
                all == inputs@,
                k <= pool,
                total == all.len(),
                p + rest@.len() == all.len(),
                p <= k * pool,
                rest@.len() > 0 ==> p == k * pool,
                forall|i: int| 0 <= i < rest@.len() ==> #[trigger] rest@[i] == all[all.len() - 1 - i],
                forall|i: int| 0 <= i < all.len() ==> (#[trigger] all[i]).1.wf(),
                forall|i: int| 0 <= i < p ==> worker_fault(index_model, #[trigger] all[i].0@, all[i].1@) is None,
                out@.len() == p,
                forall|i: int|
                    0 <= i < p ==> (#[trigger] out@[i]).0@ == all[i].0@ && out@[i].1@
                        == all[i].1@.insert(reserved_meta_key(), all[i].0@) && out@[i].1.wf(),
                distinct_views(originals@),
                forall|x: Option<ValueView>|
                    #[trigger] has_view(originals@, x) <==> has_input(all.subrange(0, p as int), x),
            decreases pool - k,
        {
            let mut chunk: Vec<(StoreInput, StoreValue)> = Vec::new();
            let mut j: usize = 0;
            while j < pool && rest.len() > 0
                invariant
                    p + j + rest@.len() == all.len(),
                    forall|i: int| 0 <= i < rest@.len() ==> #[trigger] rest@[i] == all[all.len() - 1 - i],
                    chunk@ == all.subrange(p as int, p + j),
                    j <= pool,
                decreases pool - j,
            {
                let x = rest.pop().unwrap();
                chunk.push(x);
                proof {
                    assert(chunk@ =~= all.subrange(p as int, p + j + 1));
                }
                j = j + 1;
            }
            let ghost ch = chunk@;
            proof {
                assert forall|i: int| 0 <= i < ch.len() implies (#[trigger] ch[i]).1.wf() by {
                    assert(ch[i] == all[p + i]);
                }
            }
            match process_store_inputs(index_model, chunk) {
                Err(e) => {
                    proof {
                        let limit = handled_len(all.len(), pool as nat) as int;
                        let pre = all.take(limit);
                        assert(p + j <= limit) by (nonlinear_arith)
                            requires
                                p + j <= all.len(),
                                p == k * pool,
                                j <= pool,
                                k < pool,
                                limit == (if all.len() <= pool * pool { all.len() as int } else { pool * pool }),
                        ;
                        let c = choose|c: int| #[trigger] worker_first_fault_is(index_model, ch, c, e);
                        assert(ch[c] == all[p + c]);
                        assert forall|i: int| 0 <= i < p + c implies worker_fault(
                            index_model,
                            #[trigger] pre[i].0@,
                            pre[i].1@,
                        ) is None by {
                            if i >= p {
                                assert(ch[i - p] == all[i]);
                                assert(worker_fault(index_model, ch[i - p].0@, ch[i - p].1@) is None);
                            }
                        }
                        assert(worker_first_fault_is(index_model, pre, p + c, e));
                    }
                    return Err(e);
                },
                Ok((o, found)) => {
                    let ghost before_out = out@;
                    let ghost oo = o@;
                    let mut rest_o = crate::seqs::reversed(o);
                    let mut m: usize = 0;
                    while rest_o.len() > 0
                        invariant
                            out@.len() == p + m,
                            m + rest_o@.len() == ch.len(),
                            ch.len() == j,
                            ch == all.subrange(p as int, p + j),
                            forall|i: int| 0 <= i < rest_o@.len() ==> #[trigger] rest_o@[i] == oo[oo.len() - 1 - i],
                            oo.len() == ch.len(),
                            forall|i: int|
                                0 <= i < ch.len() ==> (#[trigger] oo[i]).0@ == ch[i].0@ && oo[i].1@
                                    == ch[i].1@.insert(reserved_meta_key(), ch[i].0@) && oo[i].1.wf(),
                            forall|i: int|
                                0 <= i < p ==> (#[trigger] out@[i]).0@ == all[i].0@ && out@[i].1@
                                    == all[i].1@.insert(reserved_meta_key(), all[i].0@)
                                    && out@[i].1.wf(),
                            forall|i: int|
                                0 <= i < m ==> (#[trigger] out@[p + i]).0@ == ch[i].0@ && out@[p
                                    + i].1@ == ch[i].1@.insert(reserved_meta_key(), ch[i].0@)
                                    && out@[p + i].1.wf(),
                        decreases rest_o@.len(),
                    {
                        let item = rest_o.pop().unwrap();
                        let ghost prev = out@;
                        out.push(item);
                        proof {
                            assert(out@[p + m] == oo[m as int]);
                            assert forall|i: int| 0 <= i < p implies (#[trigger] out@[i]).0@
                                == all[i].0@ && out@[i].1@ == all[i].1@.insert(
                                reserved_meta_key(),
                                all[i].0@,
                            ) && out@[i].1.wf() by {
                                assert(out@[i] == prev[i]);
                            }
                            assert forall|i: int| 0 <= i < m + 1 implies (#[trigger] out@[p
                                + i]).0@ == ch[i].0@ && out@[p + i].1@ == ch[i].1@.insert(
                                reserved_meta_key(),
                                ch[i].0@,
                            ) && out@[p + i].1.wf() by {
                                if i < m {
                                    assert(out@[p + i] == prev[p + i]);
                                }
                            }
                        }
                        m = m + 1;
                    }
                    let ghost before_orig = originals@;
                    let ghost ff = found@;
                    let total_f = found.len();
                    let mut rest_f = crate::seqs::reversed(found);
                    let mut q: usize = 0;
                    while rest_f.len() > 0
                        invariant
                            q + rest_f@.len() == ff.len(),
                            total_f == ff.len(),
                            forall|i: int| 0 <= i < rest_f@.len() ==> #[trigger] rest_f@[i] == ff[ff.len() - 1 - i],
                            distinct_views(originals@),
                            forall|x: Option<ValueView>|
                                #[trigger] has_view(originals@, x) <==> (has_view(before_orig, x)
                                    || has_view(ff.subrange(0, q as int), x)),
                        decreases rest_f@.len(),
                    {
                        let v = rest_f.pop().unwrap();
                        let ghost vv = v@;
                        assert(v == ff[q as int]);
                        crate::store::push_unique(&mut originals, v);
                        proof {
                            let s1 = ff.subrange(0, q as int + 1);
                            let s0 = ff.subrange(0, q as int);
                            assert forall|x: Option<ValueView>| has_view(s1, x) <==> (has_view(s0, x)
                                || x == vv) by {
                                if has_view(s1, x) {
                                    let i = choose|i: int| 0 <= i < s1.len() && #[trigger] s1[i]@ == x;
                                    if i < q {
                                        assert(s0[i] == s1[i]);
                                    }
                                }
                                if has_view(s0, x) {
                                    let i = choose|i: int| 0 <= i < s0.len() && #[trigger] s0[i]@ == x;
                                    assert(s1[i] == s0[i]);
                                }
                                if x == vv {
                                    assert(s1[q as int]@ == x);
                                }
                            }
                        }
                        q = q + 1;
                    }
                    proof {
                        assert(ff.subrange(0, ff.len() as int) =~= ff);
                        assert forall|x: Option<ValueView>| #[trigger] has_view(originals@, x)
                            <==> has_input(all.subrange(0, p + j), x) by {
                            let a = all.subrange(0, p as int);
                            let b = all.subrange(0, p + j);
                            if has_input(b, x) {
                                let i = choose|i: int| 0 <= i < b.len() && #[trigger] b[i].0@ == x;
                                if i < p {
                                    assert(a[i] == b[i]);
                                    assert(has_input(a, x));
                                } else {
                                    assert(ch[i - p] == b[i]);
                                    assert(has_input(ch, x));
                                }
                            }
                            if has_input(a, x) {
                                let i = choose|i: int| 0 <= i < a.len() && #[trigger] a[i].0@ == x;
                                assert(b[i] == a[i]);
                            }
                            if has_input(ch, x) {
                                let i = choose|i: int| 0 <= i < ch.len() && #[trigger] ch[i].0@ == x;
                                assert(b[p + i] == ch[i]);
                            }
                        }
                        assert forall|i: int| 0 <= i < p + j implies worker_fault(
                            index_model,
                            #[trigger] all[i].0@,
                            all[i].1@,
                        ) is None by {
                            if i >= p {
                                assert(ch[i - p] == all[i]);
                                assert(worker_fault(index_model, ch[i - p].0@, ch[i - p].1@) is None);
                            }
                        }
                        assert forall|i: int| 0 <= i < p + j implies (#[trigger] out@[i]).0@
                            == all[i].0@ && out@[i].1@ == all[i].1@.insert(
                            reserved_meta_key(),
                            all[i].0@,
                        ) && out@[i].1.wf() by {
                            if i >= p {
                                assert(ch[i - p] == all[i]);
                                assert(out@[p + (i - p)] == out@[i]);
                            }
                        }
                        assert((k + 1) * pool == k * pool + pool) by (nonlinear_arith);
                    }
                },
            }
            p = p + j;
            k = k + 1;
        }
        proof {
            let limit = handled_len(all.len(), pool as nat) as int;
            assert(p == limit) by (nonlinear_arith)
                requires
                    p + rest@.len() == all.len(),
                    p <= k * pool,
                    rest@.len() > 0 ==> p == k * pool,
                    k <= pool,
                    !(k < pool && rest@.len() > 0),
                    limit == (if all.len() <= pool * pool { all.len() as int } else { pool * pool }),
            ;
            let pre = all.take(limit);
            assert(pre =~= all.subrange(0, p as int));
            assert forall|x: Option<ValueView>| #[trigger] has_input(pre, x) <==> has_input(
                all.subrange(0, p as int),
                x,
            ) by {}
        }
        Ok((out, originals))
    }
}

} // verus!
