//! The order in which structs are written out: each after the structs
//! that its fields refer to.

use crate::definition::field::FieldView;
use crate::definition::struct_::{referenced_names, Struct, StructView};
use crate::definition::type_::{Type, TypeView};
use crate::env::structs_view;
use crate::text::same_text;
use vstd::prelude::*;

verus! {

/// Whether `s` has a field whose type, under its lists, is the name `name`.
pub open spec fn refers_to(s: StructView, name: Seq<char>) -> bool {
    exists|i: int|
        0 <= i < s.fields.len() && (#[trigger] s.fields[i]).type_.inner() == TypeView::Identifier(
            name,
        )
}

/// Whether the struct at `a` needs the struct at `b` written out before
/// it: `b` is another struct, and a field of `a` refers to it by name.
pub open spec fn depends_on(structs: Seq<StructView>, a: int, b: int) -> bool {
    a != b && refers_to(structs[a], structs[b].name)
}

/// Whether the struct at `a` can be written out next: it has not been,
/// and every struct that it depends on has.
pub open spec fn ready(structs: Seq<StructView>, emitted: Seq<int>, a: int) -> bool {
    !emitted.contains(a) && forall|b: int|
        0 <= b < structs.len() && #[trigger] depends_on(structs, a, b) ==> emitted.contains(b)
}

/// The first struct, from `from` on, that can be written out next; the
/// number of structs when none can.
pub open spec fn first_ready(structs: Seq<StructView>, emitted: Seq<int>, from: int) -> int
    decreases structs.len() - from,
{
    if from < 0 || from >= structs.len() {
        structs.len() as int
    } else if ready(structs, emitted, from) {
        from
    } else {
        first_ready(structs, emitted, from + 1)
    }
}

/// The first struct, from `from` on, that has not been written out; the
/// number of structs when all have.
pub open spec fn first_missing(count: int, emitted: Seq<int>, from: int) -> int
    decreases count - from,
{
    if from < 0 || from >= count {
        count
    } else if !emitted.contains(from) {
        from
    } else {
        first_missing(count, emitted, from + 1)
    }
}

/// The order that continues `emitted`: again and again the first struct
/// that can be written out next, until all are. Where structs are left and
/// none of them can be written out, they depend on each other in a cycle:
/// the result is then the first struct that is left.
pub open spec fn continued(structs: Seq<StructView>, emitted: Seq<int>) -> Result<Seq<int>, int>
    decreases structs.len() - emitted.len(),
{
    if emitted.len() >= structs.len() {
        Ok(emitted)
    } else {
        let next = first_ready(structs, emitted, 0);
        if next >= structs.len() {
            Err(first_missing(structs.len() as int, emitted, 0))
        } else {
            continued(structs, emitted.push(next))
        }
    }
}

/// The order in which the structs are written out, as positions in
/// `structs`: each struct after those it depends on, and otherwise in the
/// order they were declared. Fails with the position of a struct that is
/// part of, or depends on, a cycle.
pub open spec fn emission_order(structs: Seq<StructView>) -> Result<Seq<int>, int> {
    continued(structs, Seq::empty())
}

/// The positions as integers.
pub open spec fn positions(order: Seq<usize>) -> Seq<int> {
    order.map_values(|i: usize| i as int)
}

/// Whether `s` has a field whose type, under its lists, is the name `name`.
pub fn refers(s: &Struct, name: &str) -> (r: bool)
    ensures
        r == refers_to(s@, name@),
{
    let mut i: usize = 0;
    while i < s.fields.len()
        invariant
            i <= s.fields.len(),
            forall|k: int|
                0 <= k < i ==> (#[trigger] s@.fields[k]).type_.inner() != TypeView::Identifier(
                    name@,
                ),
        decreases s.fields.len() - i,
    {
        assert(s@.fields[i as int] == s.fields@[i as int]@);
        match s.fields[i].type_.inner_type() {
            Type::Identifier(n) => {
                if same_text(n.as_str(), name) {
                    assert(s@.fields[i as int].type_.inner() == TypeView::Identifier(name@));
                    return true;
                }
            },
            _ => {},
        }
        i += 1;
    }
    false
}

/// Whether the struct at `a` can be written out next.
fn is_ready(structs: &Vec<Struct>, done: &Vec<bool>, a: usize, Ghost(emitted): Ghost<Seq<int>>) -> (r:
    bool)
    requires
        a < structs.len(),
        done.len() == structs.len(),
        forall|j: int| 0 <= j < done.len() ==> done[j] == emitted.contains(j),
    ensures
        r == ready(structs_view(structs@), emitted, a as int),
{
    if done[a] {
        return false;
    }
    let ghost all = structs_view(structs@);
    let mut b: usize = 0;
    while b < structs.len()
        invariant
            b <= structs.len(),
            a < structs.len(),
            done.len() == structs.len(),
            all == structs_view(structs@),
            !emitted.contains(a as int),
            forall|j: int| 0 <= j < done.len() ==> done[j] == emitted.contains(j),
            forall|k: int| 0 <= k < b && #[trigger] depends_on(all, a as int, k) ==> emitted.contains(k),
        decreases structs.len() - b,
    {
        assert(all[a as int] == structs@[a as int]@);
        assert(all[b as int] == structs@[b as int]@);
        if b != a && !done[b] && refers(&structs[a], structs[b].name.as_str()) {
            assert(depends_on(all, a as int, b as int));
            return false;
        }
        b += 1;
    }
    true
}

/// The order in which the structs are written out, or the position of a
/// struct that cannot be because of a cycle.
pub fn order_structs(structs: &Vec<Struct>) -> (r: Result<Vec<usize>, usize>)
    ensures
        match r {
            Ok(order) => emission_order(structs_view(structs@)) == Ok::<_, int>(positions(order@)),
            Err(at) => emission_order(structs_view(structs@)) == Err::<Seq<int>, _>(at as int)
                && at < structs.len(),
        },
        r is Ok <==> !has_cycle(structs_view(structs@)),
        r is Ok ==> ({
            let order = positions(r->Ok_0@);
            &&& order.len() == structs.len()
            &&& forall|a: int| 0 <= a < structs.len() ==> order.contains(a)
            &&& forall|p: int, q: int|
                0 <= p < order.len() && 0 <= q < order.len() && #[trigger] depends_on(
                    structs_view(structs@),
                    order[p],
                    order[q],
                ) ==> q < p
        }),
{
    let ghost all = structs_view(structs@);
    proof {
        lemma_ordered_iff_no_cycle(all);
        if emission_order(all) is Ok {
            lemma_emitted_after_dependencies(all);
        }
    }
    let count = structs.len();
    let mut order: Vec<usize> = Vec::new();
    let mut done: Vec<bool> = Vec::new();
    let mut k: usize = 0;
    while k < count
        invariant
            k <= count,
            done.len() == k,
            forall|j: int| 0 <= j < k ==> !done[j],
        decreases count - k,
    {
        done.push(false);
        k += 1;
    }
    assert(positions(order@) =~= Seq::empty());
    while order.len() < count
        invariant
            count == structs.len(),
            all == structs_view(structs@),
            all.len() == count,
            done.len() == count,
            order.len() <= count,
            forall|j: int| 0 <= j < count ==> done[j] == positions(order@).contains(j),
            emission_order(all) == continued(all, positions(order@)),
        decreases count - order.len(),
    {
        let ghost emitted = positions(order@);
        let mut next: usize = 0;
        while next < count && !is_ready(structs, &done, next, Ghost(emitted))
            invariant
                next <= count,
                count == structs.len(),
                all == structs_view(structs@),
                all.len() == count,
                done.len() == count,
                emitted == positions(order@),
                forall|j: int| 0 <= j < count ==> done[j] == emitted.contains(j),
                first_ready(all, emitted, 0) == first_ready(all, emitted, next as int),
            decreases count - next,
        {
            next += 1;
        }
        if next >= count {
            let mut at: usize = 0;
            while at < count && done[at]
                invariant
                    at <= count,
                    done.len() == count,
                    forall|j: int| 0 <= j < count ==> done[j] == emitted.contains(j),
                    first_missing(count as int, emitted, 0) == first_missing(
                        count as int,
                        emitted,
                        at as int,
                    ),
                decreases count - at,
            {
                at += 1;
            }
            proof {
                lemma_some_missing(count as int, emitted);
                lemma_ordered_iff_no_cycle(all);
            }
            return Err(at);
        }
        order.push(next);
        done.set(next, true);
        assert(positions(order@) =~= emitted.push(next as int));
        assert forall|j: int| 0 <= j < count implies done[j] == positions(order@).contains(
            j,
        ) by {
            if emitted.contains(j) {
                let p = choose|p: int| 0 <= p < emitted.len() && emitted[p] == j;
                assert(positions(order@)[p] == j);
            }
            if j == next {
                assert(positions(order@)[emitted.len() as int] == j);
            }
        }
    }
    Ok(order)
}

/// The names that the first `count` fields refer to are the names that
/// one of those fields has as its type, under its lists.
pub proof fn lemma_referenced_names(fields: Seq<FieldView>, count: int, name: Seq<char>)
    requires
        0 <= count <= fields.len(),
    ensures
        referenced_names(fields, count).contains(name) <==> exists|i: int|
            0 <= i < count && (#[trigger] fields[i]).type_.inner() == TypeView::Identifier(name),
    decreases count,
{
    if count > 0 {
        lemma_referenced_names(fields, count - 1, name);
        let before = referenced_names(fields, count - 1);
        let all = referenced_names(fields, count);
        let last = fields[count - 1].type_.inner();
        if last is Identifier {
            assert(all == before.push(last->Identifier_0));
            if before.contains(name) {
                let k = choose|k: int| 0 <= k < before.len() && before[k] == name;
                assert(all[k] == name);
            }
            if last->Identifier_0 == name {
                assert(all[before.len() as int] == name);
            }
            if all.contains(name) {
                let k = choose|k: int| 0 <= k < all.len() && all[k] == name;
                if k < before.len() {
                    assert(before[k] == name);
                }
            }
        }
    }
}

/// A struct refers to a name just when the name is among the names it
/// is said to reference.
pub proof fn lemma_refers_to_referenced(s: StructView, name: Seq<char>)
    ensures
        refers_to(s, name) <==> s.referenced().contains(name),
{
    lemma_referenced_names(s.fields, s.fields.len() as int, name);
}

/// Fewer positions than there are structs leave out one of the structs.
pub proof fn lemma_some_missing(count: int, emitted: Seq<int>)
    requires
        0 <= emitted.len() < count,
    ensures
        0 <= first_missing(count, emitted, 0) < count,
{
    lemma_first_missing(count, emitted, 0);
    if first_missing(count, emitted, 0) >= count {
        lemma_covering_is_long(count, emitted);
    }
}

/// `first_missing` gives the first position, from `from` on, that is not
/// among `emitted`.
pub proof fn lemma_first_missing(count: int, emitted: Seq<int>, from: int)
    requires
        0 <= from <= count,
    ensures
        from <= first_missing(count, emitted, from) <= count,
        forall|j: int| from <= j < first_missing(count, emitted, from) ==> emitted.contains(j),
        first_missing(count, emitted, from) < count ==> !emitted.contains(
            first_missing(count, emitted, from),
        ),
    decreases count - from,
{
    if from < count && emitted.contains(from) {
        lemma_first_missing(count, emitted, from + 1);
    }
}

/// A run that holds every position below `count` has at least `count` entries.
pub proof fn lemma_covering_is_long(count: int, emitted: Seq<int>)
    requires
        0 <= count,
        forall|j: int| 0 <= j < count ==> emitted.contains(j),
    ensures
        emitted.len() >= count,
    decreases count,
{
    if count > 0 {
        let last = count - 1;
        assert(emitted.contains(last));
        let p = choose|p: int| 0 <= p < emitted.len() && emitted[p] == last;
        let rest = emitted.remove(p);
        assert forall|j: int| 0 <= j < last implies rest.contains(j) by {
            assert(emitted.contains(j));
            let q = choose|q: int| 0 <= q < emitted.len() && emitted[q] == j;
            if q < p {
                assert(rest[q] == j);
            } else {
                assert(rest[q - 1] == j);
            }
        }
        lemma_covering_is_long(last, rest);
    }
}

/// Every struct that an emitted struct depends on stands before it, no
/// struct stands twice, and every entry is the position of a struct.
pub open spec fn respects_dependencies(structs: Seq<StructView>, emitted: Seq<int>) -> bool {
    &&& forall|p: int| 0 <= p < emitted.len() ==> 0 <= #[trigger] emitted[p] < structs.len()
    &&& forall|p: int, q: int|
        0 <= p < q < emitted.len() ==> #[trigger] emitted[p] != #[trigger] emitted[q]
    &&& forall|p: int, b: int|
        0 <= p < emitted.len() && 0 <= b < structs.len() && #[trigger] depends_on(
            structs,
            emitted[p],
            b,
        ) ==> exists|q: int| 0 <= q < p && emitted[q] == b
}

/// `first_ready` gives a struct that is ready, or the number of structs.
pub proof fn lemma_first_ready(structs: Seq<StructView>, emitted: Seq<int>, from: int)
    requires
        0 <= from <= structs.len(),
    ensures
        from <= first_ready(structs, emitted, from) <= structs.len(),
        first_ready(structs, emitted, from) < structs.len() ==> ready(
            structs,
            emitted,
            first_ready(structs, emitted, from),
        ),
    decreases structs.len() - from,
{
    if from < structs.len() && !ready(structs, emitted, from) {
        lemma_first_ready(structs, emitted, from + 1);
    }
}

/// Continuing an order that respects the dependencies gives one that does,
/// and that holds as many entries as there are structs.
pub proof fn lemma_continued_respects(structs: Seq<StructView>, emitted: Seq<int>)
    requires
        respects_dependencies(structs, emitted),
        emitted.len() <= structs.len(),
        continued(structs, emitted) is Ok,
    ensures
        respects_dependencies(structs, continued(structs, emitted)->Ok_0),
        continued(structs, emitted)->Ok_0.len() == structs.len(),
    decreases structs.len() - emitted.len(),
{
    if emitted.len() < structs.len() {
        let next = first_ready(structs, emitted, 0);
        lemma_first_ready(structs, emitted, 0);
        let more = emitted.push(next);
        assert forall|p: int, b: int|
            0 <= p < more.len() && 0 <= b < structs.len() && #[trigger] depends_on(
                structs,
                more[p],
                b,
            ) implies exists|q: int| 0 <= q < p && more[q] == b by {
            if p < emitted.len() {
                assert(more[p] == emitted[p]);
                let q = choose|q: int| 0 <= q < p && emitted[q] == b;
                assert(more[q] == b);
            } else {
                assert(emitted.contains(b));
                let q = choose|q: int| 0 <= q < emitted.len() && emitted[q] == b;
                assert(more[q] == b);
            }
        }
        assert forall|p: int, q: int| 0 <= p < q < more.len() implies #[trigger] more[p]
            != #[trigger] more[q] by {
            if q == emitted.len() {
                assert(more[p] == emitted[p]);
            }
        }
        lemma_continued_respects(structs, more);
    }
}

/// Where the structs can be ordered, every struct is written out once,
/// and each after every other struct that one of its fields refers to.
pub proof fn lemma_emitted_after_dependencies(structs: Seq<StructView>)
    requires
        emission_order(structs) is Ok,
    ensures
        ({
            let order = emission_order(structs)->Ok_0;
            &&& order.len() == structs.len()
            &&& forall|p: int| 0 <= p < order.len() ==> 0 <= #[trigger] order[p] < structs.len()
            &&& forall|p: int, q: int|
                0 <= p < q < order.len() ==> #[trigger] order[p] != #[trigger] order[q]
            &&& forall|a: int| 0 <= a < structs.len() ==> order.contains(a)
            &&& forall|p: int, q: int|
                0 <= p < order.len() && 0 <= q < order.len() && #[trigger] depends_on(
                    structs,
                    order[p],
                    order[q],
                ) ==> q < p
        }),
{
    let order = emission_order(structs)->Ok_0;
    lemma_continued_respects(structs, Seq::empty());
    assert forall|p: int, q: int|
        0 <= p < order.len() && 0 <= q < order.len() && #[trigger] depends_on(
            structs,
            order[p],
            order[q],
        ) implies q < p by {
        let b = order[q];
        let earlier = choose|e: int| 0 <= e < p && order[e] == b;
        if earlier < q {
            assert(order[earlier] != order[q]);
        } else if q < earlier {
            assert(order[q] != order[earlier]);
        }
    }
    assert forall|a: int| 0 <= a < structs.len() implies order.contains(a) by {
        if !order.contains(a) {
            lemma_distinct_is_short(structs.len() as int, order, a);
        }
    }
}

/// A run of distinct positions below `count` that leaves one out has
/// fewer than `count` entries.
pub proof fn lemma_distinct_is_short(count: int, order: Seq<int>, missing: int)
    requires
        0 <= missing < count,
        !order.contains(missing),
        forall|p: int| 0 <= p < order.len() ==> 0 <= #[trigger] order[p] < count,
        forall|p: int, q: int|
            0 <= p < q < order.len() ==> #[trigger] order[p] != #[trigger] order[q],
    ensures
        order.len() < count,
    decreases count,
{
    let last = count - 1;
    if order.len() > 0 {
        if missing == last {
            assert forall|p: int| 0 <= p < order.len() implies 0 <= #[trigger] order[p]
                < last by {
                if order[p] == last {
                    assert(order.contains(missing));
                }
            }
            lemma_distinct_within(last, order);
        } else {
            if order.contains(last) {
                let at = choose|at: int| 0 <= at < order.len() && order[at] == last;
                let rest = order.remove(at);
                assert forall|p: int| 0 <= p < rest.len() implies 0 <= #[trigger] rest[p]
                    < last by {
                    if p < at {
                        assert(rest[p] == order[p]);
                    } else {
                        assert(rest[p] == order[p + 1]);
                    }
                }
                assert forall|p: int, q: int| 0 <= p < q < rest.len() implies #[trigger] rest[p]
                    != #[trigger] rest[q] by {
                    let a = if p < at { p } else { p + 1 };
                    let b = if q < at { q } else { q + 1 };
                    assert(rest[p] == order[a]);
                    assert(rest[q] == order[b]);
                }
                assert(!rest.contains(missing)) by {
                    if rest.contains(missing) {
                        let p = choose|p: int| 0 <= p < rest.len() && rest[p] == missing;
                        let a = if p < at { p } else { p + 1 };
                        assert(order[a] == missing);
                    }
                }
                lemma_distinct_is_short(last, rest, missing);
            } else {
                assert forall|p: int| 0 <= p < order.len() implies 0 <= #[trigger] order[p]
                    < last by {
                    if order[p] == last {
                        assert(order.contains(last));
                    }
                }
                lemma_distinct_is_short(last, order, missing);
            }
        }
    }
}

/// A run of distinct positions below `count` has at most `count` entries.
pub proof fn lemma_distinct_within(count: int, order: Seq<int>)
    requires
        0 <= count,
        forall|p: int| 0 <= p < order.len() ==> 0 <= #[trigger] order[p] < count,
        forall|p: int, q: int|
            0 <= p < q < order.len() ==> #[trigger] order[p] != #[trigger] order[q],
    ensures
        order.len() <= count,
    decreases count,
{
    if order.len() > 0 {
        if count == 0 {
            let first = order[0];
            assert(0 <= first && first < count);
        } else {
            let last = count - 1;
            if order.contains(last) {
                let at = choose|at: int| 0 <= at < order.len() && order[at] == last;
                let rest = order.remove(at);
                assert forall|p: int| 0 <= p < rest.len() implies 0 <= #[trigger] rest[p]
                    < last by {
                    if p < at {
                        assert(rest[p] == order[p]);
                    } else {
                        assert(rest[p] == order[p + 1]);
                    }
                }
                assert forall|p: int, q: int| 0 <= p < q < rest.len() implies #[trigger] rest[p]
                    != #[trigger] rest[q] by {
                    let a = if p < at { p } else { p + 1 };
                    let b = if q < at { q } else { q + 1 };
                    assert(rest[p] == order[a]);
                    assert(rest[q] == order[b]);
                }
                lemma_distinct_within(last, rest);
            } else {
                assert forall|p: int| 0 <= p < order.len() implies 0 <= #[trigger] order[p]
                    < last by {
                    if order[p] == last {
                        assert(order.contains(last));
                    }
                }
                lemma_distinct_within(last, order);
            }
        }
    }
}

/// Whether each struct of the chain depends on the next.
pub open spec fn is_chain(structs: Seq<StructView>, chain: Seq<int>) -> bool {
    &&& forall|k: int| 0 <= k < chain.len() ==> 0 <= #[trigger] chain[k] < structs.len()
    &&& forall|k: int|
        0 <= k < chain.len() - 1 ==> depends_on(structs, #[trigger] chain[k], chain[k + 1])
}

/// Whether the chain is a cycle: it takes at least one step and ends
/// where it starts.
pub open spec fn is_cycle(structs: Seq<StructView>, chain: Seq<int>) -> bool {
    chain.len() >= 2 && is_chain(structs, chain) && chain[0] == chain[chain.len() - 1]
}

/// Whether some structs depend on each other in a cycle.
pub open spec fn has_cycle(structs: Seq<StructView>) -> bool {
    exists|chain: Seq<int>| is_cycle(structs, chain)
}

/// Whether every struct that is left depends on a struct that is left.
pub open spec fn stuck(structs: Seq<StructView>, emitted: Seq<int>) -> bool {
    forall|a: int|
        0 <= a < structs.len() && !emitted.contains(a) ==> exists|b: int|
            0 <= b < structs.len() && !emitted.contains(b) && #[trigger] depends_on(
                structs,
                a,
                b,
            )
}

/// Where no struct from `from` on is ready, none of them is.
pub proof fn lemma_none_ready(structs: Seq<StructView>, emitted: Seq<int>, from: int)
    requires
        0 <= from <= structs.len(),
        first_ready(structs, emitted, from) >= structs.len(),
    ensures
        forall|a: int| from <= a < structs.len() ==> !ready(structs, emitted, a),
    decreases structs.len() - from,
{
    if from < structs.len() {
        lemma_none_ready(structs, emitted, from + 1);
    }
}

/// Where every struct that is left depends on a struct that is left, a
/// chain of any length starts at each of them.
pub proof fn lemma_chain_from(
    structs: Seq<StructView>,
    emitted: Seq<int>,
    start: int,
    length: nat,
) -> (chain: Seq<int>)
    requires
        stuck(structs, emitted),
        0 <= start < structs.len(),
        !emitted.contains(start),
        length >= 1,
    ensures
        chain.len() == length,
        chain[0] == start,
        is_chain(structs, chain),
        forall|k: int| 0 <= k < chain.len() ==> !emitted.contains(#[trigger] chain[k]),
    decreases length,
{
    if length == 1 {
        seq![start]
    } else {
        let next = choose|b: int|
            0 <= b < structs.len() && !emitted.contains(b) && #[trigger] depends_on(
                structs,
                start,
                b,
            );
        let rest = lemma_chain_from(structs, emitted, next, (length - 1) as nat);
        let chain = seq![start] + rest;
        assert forall|k: int| 0 <= k < chain.len() - 1 implies depends_on(
            structs,
            #[trigger] chain[k],
            chain[k + 1],
        ) by {
            if k > 0 {
                assert(chain[k] == rest[k - 1]);
                assert(chain[k + 1] == rest[k]);
            } else {
                assert(chain[1] == rest[0]);
            }
        }
        assert forall|k: int| 0 <= k < chain.len() implies 0 <= #[trigger] chain[k]
            < structs.len() && !emitted.contains(chain[k]) by {
            if k > 0 {
                assert(chain[k] == rest[k - 1]);
            }
        }
        chain
    }
}

/// More positions than there are structs hold one of them twice.
pub proof fn lemma_repeat(count: int, chain: Seq<int>) -> (at: (int, int))
    requires
        0 <= count < chain.len(),
        forall|k: int| 0 <= k < chain.len() ==> 0 <= #[trigger] chain[k] < count,
    ensures
        0 <= at.0 < at.1 < chain.len(),
        chain[at.0] == chain[at.1],
{
    if forall|p: int, q: int|
        0 <= p < q < chain.len() ==> #[trigger] chain[p] != #[trigger] chain[q] {
        lemma_distinct_within(count, chain);
    }
    let (p, q) = choose|p: int, q: int|
        0 <= p < q < chain.len() && #[trigger] chain[p] == #[trigger] chain[q];
    (p, q)
}

/// A chain that comes back to a struct holds a cycle.
pub proof fn lemma_chain_with_repeat_has_cycle(
    structs: Seq<StructView>,
    chain: Seq<int>,
    p: int,
    q: int,
)
    requires
        is_chain(structs, chain),
        0 <= p < q < chain.len(),
        chain[p] == chain[q],
    ensures
        has_cycle(structs),
{
    let cycle = chain.subrange(p, q + 1);
    assert forall|k: int| 0 <= k < cycle.len() - 1 implies depends_on(
        structs,
        #[trigger] cycle[k],
        cycle[k + 1],
    ) by {
        assert(cycle[k] == chain[p + k]);
        assert(cycle[k + 1] == chain[p + k + 1]);
    }
    assert forall|k: int| 0 <= k < cycle.len() implies 0 <= #[trigger] cycle[k]
        < structs.len() by {
        assert(cycle[k] == chain[p + k]);
    }
    assert(cycle[0] == chain[p]);
    assert(cycle[cycle.len() - 1] == chain[q]);
    assert(is_cycle(structs, cycle));
}

/// Where every struct that is left depends on a struct that is left, and
/// one is left, structs depend on each other in a cycle.
pub proof fn lemma_stuck_has_cycle(structs: Seq<StructView>, emitted: Seq<int>, start: int)
    requires
        stuck(structs, emitted),
        0 <= start < structs.len(),
        !emitted.contains(start),
    ensures
        has_cycle(structs),
{
    let count = structs.len() as int;
    let chain = lemma_chain_from(structs, emitted, start, (count + 1) as nat);
    let at = lemma_repeat(count, chain);
    lemma_chain_with_repeat_has_cycle(structs, chain, at.0, at.1);
}

/// Where continuing an order fails, structs depend on each other in a cycle.
pub proof fn lemma_failure_has_cycle(structs: Seq<StructView>, emitted: Seq<int>)
    requires
        continued(structs, emitted) is Err,
    ensures
        has_cycle(structs),
    decreases structs.len() - emitted.len(),
{
    if emitted.len() < structs.len() {
        let next = first_ready(structs, emitted, 0);
        if next >= structs.len() {
            lemma_none_ready(structs, emitted, 0);
            lemma_some_missing(structs.len() as int, emitted);
            let start = first_missing(structs.len() as int, emitted, 0);
            lemma_first_missing(structs.len() as int, emitted, 0);
            assert forall|a: int|
                0 <= a < structs.len() && !emitted.contains(a) implies exists|b: int|
                0 <= b < structs.len() && !emitted.contains(b) && #[trigger] depends_on(
                    structs,
                    a,
                    b,
                ) by {
                assert(!ready(structs, emitted, a));
            }
            lemma_stuck_has_cycle(structs, emitted, start);
        } else {
            lemma_failure_has_cycle(structs, emitted.push(next));
        }
    }
}

/// Along a chain the structs are written out earlier and earlier.
pub proof fn lemma_chain_goes_back(
    structs: Seq<StructView>,
    order: Seq<int>,
    chain: Seq<int>,
    k: int,
)
    requires
        is_chain(structs, chain),
        order.len() == structs.len(),
        forall|a: int| 0 <= a < structs.len() ==> order.contains(a),
        forall|p: int, q: int|
            0 <= p < order.len() && 0 <= q < order.len() && #[trigger] depends_on(
                structs,
                order[p],
                order[q],
            ) ==> q < p,
        1 <= k < chain.len(),
    ensures
        forall|p: int, q: int|
            0 <= p < order.len() && 0 <= q < order.len() && order[p] == chain[0] && order[q]
                == chain[k] ==> q < p,
    decreases k,
{
    assert forall|p: int, q: int|
        0 <= p < order.len() && 0 <= q < order.len() && order[p] == chain[0] && order[q]
            == chain[k] implies q < p by {
        let before = chain[k - 1];
        assert(depends_on(structs, chain[k - 1], chain[k]));
        assert(order.contains(before));
        let m = choose|m: int| 0 <= m < order.len() && order[m] == before;
        assert(depends_on(structs, order[m], order[q]));
        if k > 1 {
            lemma_chain_goes_back(structs, order, chain, k - 1);
        } else {
            assert(order[m] == order[p]);
            assert(depends_on(structs, order[p], order[q]));
        }
    }
}

/// The structs can be ordered just when none of them depend on each
/// other in a cycle.
pub proof fn lemma_ordered_iff_no_cycle(structs: Seq<StructView>)
    ensures
        emission_order(structs) is Ok <==> !has_cycle(structs),
{
    if emission_order(structs) is Err {
        lemma_failure_has_cycle(structs, Seq::empty());
    } else {
        lemma_emitted_after_dependencies(structs);
        let order = emission_order(structs)->Ok_0;
        if has_cycle(structs) {
            let cycle = choose|chain: Seq<int>| is_cycle(structs, chain);
            lemma_chain_goes_back(structs, order, cycle, cycle.len() - 1);
            let start = cycle[0];
            assert(order.contains(start));
            let p = choose|p: int| 0 <= p < order.len() && order[p] == start;
            assert(order[p] == cycle[cycle.len() - 1]);
        }
    }
}

} // verus!
