//! The order in which a task keeps its declared parameters: by name.

use vstd::prelude::*;
use crate::task::model::{ParameterSpec, ParameterSpecView};
use crate::text::{name_precedes, sorts_before};

verus! {

/// The parameter that a declared name and its default stand for.
pub open spec fn parameter_of(pair: (Seq<char>, Option<Seq<char>>)) -> ParameterSpecView {
    ParameterSpecView { name: pair.0, default: pair.1 }
}

/// `params` with `param` put in behind the last parameter that it does not
/// sort before.
pub open spec fn with_parameter(
    params: Seq<ParameterSpecView>,
    param: ParameterSpecView,
) -> Seq<ParameterSpecView>
    decreases params.len(),
{
    if params.len() > 0 && name_precedes(param.name, params.last().name) {
        with_parameter(params.drop_last(), param).push(params.last())
    } else {
        params.push(param)
    }
}

/// The parameters that `pairs` declare, sorted by name. Parameters of one
/// name keep the order in which they were declared.
pub open spec fn sorted_parameters(pairs: Seq<(Seq<char>, Option<Seq<char>>)>) -> Seq<
    ParameterSpecView,
>
    decreases pairs.len(),
{
    if pairs.len() == 0 {
        Seq::empty()
    } else {
        with_parameter(sorted_parameters(pairs.drop_last()), parameter_of(pairs.last()))
    }
}

/// Whether no parameter of `params` sorts before one that stands ahead of
/// it.
pub open spec fn ordered_by_name(params: Seq<ParameterSpecView>) -> bool {
    forall|i: int, j: int|
        0 <= i < j < params.len() ==> !name_precedes(
            (#[trigger] params[j]).name,
            (#[trigger] params[i]).name,
        )
}

/// The names order strictly: nothing sorts before itself, and sorting
/// before carries over a name in between.
pub proof fn lemma_name_order(a: Seq<char>, b: Seq<char>, c: Seq<char>)
    ensures
        !name_precedes(a, a),
        name_precedes(a, b) && name_precedes(b, c) ==> name_precedes(a, c),
        !name_precedes(a, b) && !name_precedes(b, c) ==> !name_precedes(a, c),
    decreases a.len(),
{
    if a.len() > 0 {
        lemma_name_order(a.drop_first(), a.drop_first(), a.drop_first());
        if b.len() > 0 && c.len() > 0 {
            lemma_name_order(a.drop_first(), b.drop_first(), c.drop_first());
        }
    }
}

/// Putting a parameter into an ordered list leaves it ordered, with the
/// same parameters and the new one.
pub proof fn lemma_with_parameter(params: Seq<ParameterSpecView>, param: ParameterSpecView)
    requires
        ordered_by_name(params),
    ensures
        ordered_by_name(with_parameter(params, param)),
        with_parameter(params, param).to_multiset() == params.to_multiset().insert(param),
        with_parameter(params, param).len() == params.len() + 1,
    decreases params.len(),
{
    broadcast use vstd::seq_lib::group_to_multiset_ensures;

    let out = with_parameter(params, param);
    if params.len() > 0 && name_precedes(param.name, params.last().name) {
        let head = params.drop_last();
        let last = params.last();
        assert forall|i: int, j: int| 0 <= i < j < head.len() implies !name_precedes(
            (#[trigger] head[j]).name,
            (#[trigger] head[i]).name,
        ) by {
            assert(head[i] == params[i] && head[j] == params[j]);
        }
        lemma_with_parameter(head, param);
        let inner = with_parameter(head, param);
        assert(params =~= head.push(last));
        assert forall|i: int, j: int| 0 <= i < j < out.len() implies !name_precedes(
            (#[trigger] out[j]).name,
            (#[trigger] out[i]).name,
        ) by {
            if j < inner.len() {
                assert(out[i] == inner[i] && out[j] == inner[j]);
            } else {
                assert(out[j] == last);
                assert(out[i] == inner[i]);
                assert(inner.to_multiset().count(inner[i]) > 0);
                if inner[i] == param {
                    lemma_name_order(last.name, param.name, last.name);
                } else {
                    assert(head.to_multiset().count(inner[i]) > 0);
                    let k = choose|k: int| 0 <= k < head.len() && head[k] == inner[i];
                    assert(params[k] == inner[i]);
                    assert(params[params.len() - 1] == last);
                }
            }
        }
        assert(out.to_multiset() =~= params.to_multiset().insert(param));
    } else {
        assert forall|i: int, j: int| 0 <= i < j < out.len() implies !name_precedes(
            (#[trigger] out[j]).name,
            (#[trigger] out[i]).name,
        ) by {
            if j < params.len() {
                assert(out[i] == params[i] && out[j] == params[j]);
            } else {
                assert(out[j] == param);
                assert(out[i] == params[i]);
                assert(!name_precedes(param.name, params.last().name));
                if i < params.len() - 1 {
                    assert(!name_precedes(
                        params[params.len() - 1].name,
                        params[i].name,
                    ));
                    lemma_name_order(param.name, params.last().name, params[i].name);
                }
            }
        }
    }
}

/// Sorted parameters are ordered by name and are the declared parameters, each
/// as often as it was declared.
pub proof fn lemma_sorted_parameters(pairs: Seq<(Seq<char>, Option<Seq<char>>)>)
    ensures
        ordered_by_name(sorted_parameters(pairs)),
        sorted_parameters(pairs).to_multiset() == pairs.map_values(
            |pair: (Seq<char>, Option<Seq<char>>)| parameter_of(pair),
        ).to_multiset(),
        sorted_parameters(pairs).len() == pairs.len(),
    decreases pairs.len(),
{
    broadcast use vstd::seq_lib::group_to_multiset_ensures;

    let declared = pairs.map_values(|pair: (Seq<char>, Option<Seq<char>>)| parameter_of(pair));
    if pairs.len() == 0 {
        assert(sorted_parameters(pairs).to_multiset() =~= declared.to_multiset());
    } else {
        let head = pairs.drop_last();
        lemma_sorted_parameters(head);
        lemma_with_parameter(sorted_parameters(head), parameter_of(pairs.last()));
        let head_declared = head.map_values(
            |pair: (Seq<char>, Option<Seq<char>>)| parameter_of(pair),
        );
        assert(declared =~= head_declared.push(parameter_of(pairs.last())));
    }
}

/// Where `with_parameter` puts the parameter: at `at`, when every parameter
/// from `at` on sorts after it and the one before `at` does not.
proof fn lemma_with_parameter_at(params: Seq<ParameterSpecView>, param: ParameterSpecView, at: int)
    requires
        0 <= at <= params.len(),
        forall|j: int| at <= j < params.len() ==> name_precedes(param.name, (#[trigger] params[j]).name),
        at > 0 ==> !name_precedes(param.name, params[at - 1].name),
    ensures
        with_parameter(params, param) == params.insert(at, param),
    decreases params.len() - at,
{
    if at == params.len() {
        assert(params.insert(at, param) =~= params.push(param));
    } else {
        let head = params.drop_last();
        assert(name_precedes(param.name, params[params.len() - 1].name));
        assert forall|j: int| at <= j < head.len() implies name_precedes(
            param.name,
            (#[trigger] head[j]).name,
        ) by {
            assert(head[j] == params[j]);
        }
        lemma_with_parameter_at(head, param, at);
        assert(head.insert(at, param).push(params.last()) =~= params.insert(at, param));
    }
}

/// The parameters that `pairs` declare, sorted by name.
pub fn sort_parameters(pairs: Vec<(String, Option<String>)>) -> (params: Vec<ParameterSpec>)
    ensures
        params.deep_view() == sorted_parameters(pairs.deep_view()),
{
    let ghost declared = pairs.deep_view();
    let mut pairs = pairs;
    let mut params: Vec<ParameterSpec> = Vec::new();
    let ghost mut done: int = 0;
    assert(params.deep_view() =~= sorted_parameters(declared.subrange(0, 0)));
    assert(pairs.deep_view() =~= declared.skip(0));
    while pairs.len() > 0
        invariant
            0 <= done <= declared.len(),
            pairs.deep_view() == declared.skip(done),
            params.deep_view() == sorted_parameters(declared.subrange(0, done)),
        decreases pairs.len(),
    {
        let ghost waiting = pairs.deep_view();
        let ghost held = pairs@;
        assert(waiting.len() == held.len());
        assert(done < declared.len());
        let pair = pairs.remove(0);
        proof {
            assert(pair.deep_view() == waiting[0]);
            assert(pairs@ == held.remove(0));
            assert forall|k: int| 0 <= k < pairs@.len() implies (#[trigger] pairs@[k]).deep_view()
                == declared.skip(done + 1)[k] by {
                assert(pairs@[k] == held[k + 1]);
                assert(held[k + 1].deep_view() == waiting[k + 1]);
            }
            assert(pairs.deep_view() =~= declared.skip(done + 1));
        }
        let param = ParameterSpec { name: pair.0, default: pair.1 };
        let ghost before = params.deep_view();
        let mut at: usize = params.len();
        while at > 0 && sorts_before(param.name.as_str(), params[at - 1].name.as_str())
            invariant
                at <= params.len(),
                before == params.deep_view(),
                forall|j: int|
                    at <= j < params.len() ==> name_precedes(
                        param@.name,
                        (#[trigger] before[j]).name,
                    ),
            decreases at,
        {
            at -= 1;
        }
        proof {
            lemma_with_parameter_at(before, param@, at as int);
            let next = declared.subrange(0, done + 1);
            assert(next.drop_last() =~= declared.subrange(0, done));
            assert(parameter_of(next.last()) == param@);
        }
        params.insert(at, param);
        assert(params.deep_view() =~= before.insert(at as int, param@));
        proof {
            done = done + 1;
        }
    }
    assert(declared.subrange(0, done) =~= declared);
    params
}

} // verus!
