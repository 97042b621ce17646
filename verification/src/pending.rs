//! What a relay remembers between calls: the local requests that await a remote response, and
//! the local responses that await delivery to a remote client.
use crate::header::{RequestContext, RequestKey};
use std::collections::HashMap;
use vstd::prelude::*;

verus! {

broadcast use vstd::std_specs::hash::group_hash_axioms;

/// Requests of local clients that were sent over the transport, by [`RequestKey`].
///
/// The requests of one client share an inner map.
#[derive(Debug)]
pub struct PendingRequests<R> {
    by_client: HashMap<u128, HashMap<u64, R>>,
}

impl<R> View for PendingRequests<R> {
    type V = Map<RequestKey, R>;

    closed spec fn view(&self) -> Map<RequestKey, R> {
        Map::new(
            |key: RequestKey|
                self.by_client@.contains_key(key.0) && self.by_client@[key.0]@.contains_key(key.1),
            |key: RequestKey| self.by_client@[key.0]@[key.1],
        )
    }
}

impl<R> PendingRequests<R> {
    /// No request is pending.
    pub fn new() -> (requests: Self)
        ensures
            requests@ == Map::<RequestKey, R>::empty(),
    {
        let requests = PendingRequests { by_client: HashMap::new() };
        assert(requests@ =~= Map::<RequestKey, R>::empty());
        requests
    }

    /// Keeps `request` under `key`, and hands back the request that was kept under it before.
    pub fn insert(&mut self, key: RequestKey, request: R) -> (displaced: Option<R>)
        ensures
            final(self)@ == old(self)@.insert(key, request),
            displaced == (if old(self)@.contains_key(key) {
                Some(old(self)@[key])
            } else {
                None
            }),
    {
        let (client_id, request_id) = key;
        let mut of_client = match self.by_client.remove(&client_id) {
            Some(of_client) => of_client,
            None => HashMap::new(),
        };
        let displaced = of_client.insert(request_id, request);
        self.by_client.insert(client_id, of_client);
        assert(self@ =~= old(self)@.insert(key, request));
        displaced
    }

    /// Takes the request out that is kept under `key`.
    pub fn remove(&mut self, key: RequestKey) -> (removed: Option<R>)
        ensures
            final(self)@ == old(self)@.remove(key),
            removed == (if old(self)@.contains_key(key) {
                Some(old(self)@[key])
            } else {
                None
            }),
    {
        let (client_id, request_id) = key;
        let removed = match self.by_client.remove(&client_id) {
            Some(mut of_client) => {
                let removed = of_client.remove(&request_id);
                if !of_client.is_empty() {
                    self.by_client.insert(client_id, of_client);
                }
                removed
            },
            None => None,
        };
        assert(self@ =~= old(self)@.remove(key));
        removed
    }
}

/// What is left of `entries` once those whose index occurs in `indices` are taken out.
pub open spec fn without<T>(entries: Seq<T>, indices: Seq<usize>) -> Seq<T>
    decreases entries.len(),
{
    if entries.len() == 0 {
        seq![]
    } else {
        let rest = without(entries.drop_last(), indices);
        if indices.contains((entries.len() - 1) as usize) {
            rest
        } else {
            rest.push(entries.last())
        }
    }
}

/// Whether `indices` are in ascending order, all of them below `bound`.
pub open spec fn ascending_below(indices: Seq<usize>, bound: int) -> bool {
    &&& forall|i: int, j: int| 0 <= i < j < indices.len() ==> indices[i] < indices[j]
    &&& forall|i: int| 0 <= i < indices.len() ==> (#[trigger] indices[i] as int) < bound
}

/// Whether `i` does not occur among `indices`, which are in ascending order, and the first `k` of
/// them are those below it.
pub open spec fn marked_before(indices: Seq<usize>, i: int, k: int) -> bool {
    &&& 0 <= k <= indices.len()
    &&& k > 0 ==> indices[k - 1] < i
    &&& k < indices.len() ==> i < indices[k]
}

/// Where the entry at `i` ends up. The first `m` indices are those below the number of entries.
proof fn lemma_without_closes_the_gaps<T>(
    entries: Seq<T>,
    indices: Seq<usize>,
    m: int,
    i: int,
    k: int,
)
    requires
        entries.len() <= usize::MAX,
        forall|a: int, b: int| 0 <= a < b < indices.len() ==> indices[a] < indices[b],
        0 <= m <= indices.len(),
        m > 0 ==> indices[m - 1] < entries.len(),
        m < indices.len() ==> indices[m] >= entries.len(),
    ensures
        without(entries, indices).len() == entries.len() - m,
        0 <= i < entries.len() && marked_before(indices, i, k) ==> {
            &&& 0 <= i - k < without(entries, indices).len()
            &&& without(entries, indices)[i - k] == entries[i]
        },
    decreases entries.len(),
{
    if entries.len() > 0 {
        let shorter = entries.drop_last();
        let last = (entries.len() - 1) as usize;
        if m > 0 && indices[m - 1] == last {
            if m > 1 {
                assert(indices[m - 2] < indices[m - 1]);
            }
            assert(indices.contains(last));
            lemma_without_closes_the_gaps(shorter, indices, m - 1, i, k);
        } else {
            if indices.contains(last) {
                let n = choose|n: int| 0 <= n < indices.len() && indices[n] == last;
                if n < m - 1 {
                    assert(indices[n] < indices[m - 1]);
                } else if n > m {
                    assert(indices[m] < indices[n]);
                }
            }
            lemma_without_closes_the_gaps(shorter, indices, m, i, k);
        }
        if i == last && marked_before(indices, i, k) {
            if k < m - 1 {
                assert(indices[k] < indices[m - 1]);
            } else if k > m + 1 {
                assert(indices[m] < indices[k - 1]);
            }
            assert(k == m);
        } else if 0 <= i < last {
            assert(shorter[i] == entries[i]);
        }
    }
}

/// What is left once marked entries are taken out has no gaps: it is shorter by the number of
/// marks, and an entry that is not marked, with `k` marks before it, has moved up by `k` places.
pub proof fn without_closes_the_gaps<T>(entries: Seq<T>, indices: Seq<usize>, i: int, k: int)
    requires
        entries.len() <= usize::MAX,
        forall|a: int, b: int| 0 <= a < b < indices.len() ==> indices[a] < indices[b],
        forall|a: int| 0 <= a < indices.len() ==> (#[trigger] indices[a] as int) < entries.len(),
        0 <= i < entries.len(),
        0 <= k <= indices.len(),
        k > 0 ==> indices[k - 1] < i,
        k < indices.len() ==> i < indices[k],
    ensures
        without(entries, indices).len() == entries.len() - indices.len(),
        without(entries, indices)[i - k] == entries[i],
{
    lemma_without_closes_the_gaps(entries, indices, indices.len() as int, i, k);
}

/// Entries from `bound` on do not occur among the indices, and stay.
proof fn lemma_without_beyond<T>(entries: Seq<T>, indices: Seq<usize>, bound: int)
    requires
        ascending_below(indices, bound),
        0 <= bound <= entries.len() <= usize::MAX,
    ensures
        without(entries, indices) == without(entries.take(bound), indices) + entries.skip(bound),
    decreases entries.len(),
{
    if entries.len() == bound {
        assert(entries.take(bound) =~= entries);
        assert(entries.skip(bound) =~= seq![]);
        assert(without(entries, indices) + Seq::<T>::empty() =~= without(entries, indices));
    } else {
        lemma_without_beyond(entries.drop_last(), indices, bound);
        assert(entries.drop_last().take(bound) =~= entries.take(bound));
        assert(entries.drop_last().skip(bound).push(entries.last()) =~= entries.skip(bound));
        assert(without(entries, indices) =~= without(entries.take(bound), indices) + entries.skip(
            bound,
        ));
    }
}

/// Only the indices below the number of entries matter.
proof fn lemma_without_drop_last_index<T>(entries: Seq<T>, indices: Seq<usize>)
    requires
        indices.len() > 0,
        entries.len() <= indices.last(),
    ensures
        without(entries, indices) == without(entries, indices.drop_last()),
    decreases entries.len(),
{
    if entries.len() > 0 {
        lemma_without_drop_last_index(entries.drop_last(), indices);
        let n = (entries.len() - 1) as usize;
        let shorter = indices.drop_last();
        if indices.contains(n) {
            let i = choose|i: int| 0 <= i < indices.len() && indices[i] == n;
            assert(shorter[i] == n);
        }
        if shorter.contains(n) {
            let i = choose|i: int| 0 <= i < shorter.len() && shorter[i] == n;
            assert(indices[i] == n);
        }
    }
}

/// Taking the entry at the last index out first and the others afterwards takes out the same
/// entries.
proof fn lemma_without_last_index<T>(entries: Seq<T>, indices: Seq<usize>)
    requires
        indices.len() > 0,
        entries.len() <= usize::MAX,
        ascending_below(indices, entries.len() as int),
    ensures
        without(entries.remove(indices.last() as int), indices.drop_last()) == without(
            entries,
            indices,
        ),
{
    let last = indices.last() as int;
    let shorter = indices.drop_last();
    assert(ascending_below(indices, last + 1));
    assert(ascending_below(shorter, last));
    lemma_without_beyond(entries, indices, last + 1);
    assert(entries.take(last + 1).drop_last() =~= entries.take(last));
    assert(indices[indices.len() - 1] == last as usize);
    assert(without(entries.take(last + 1), indices) == without(entries.take(last), indices));
    lemma_without_drop_last_index(entries.take(last), indices);

    let removed = entries.remove(last);
    lemma_without_beyond(removed, shorter, last);
    assert(removed.take(last) =~= entries.take(last));
    assert(removed.skip(last) =~= entries.skip(last + 1));
}

/// What is awaited, and how far the running sweep has come.
///
/// A sweep visits the entries one by one. The cursor counts the entries that were visited. A
/// visited entry that turned out to be over is marked, and is taken out when the sweep ends.
#[verifier::ext_equal]
pub struct Awaited<P> {
    /// The responses that are awaited, each with the context of the request that it will answer,
    /// oldest first.
    pub entries: Seq<(P, RequestContext)>,
    /// How many entries the running sweep has visited.
    pub cursor: nat,
    /// The visited entries that are over, by index.
    pub completed: Seq<usize>,
}

impl<P> Awaited<P> {
    /// Nothing is awaited.
    pub open spec fn nothing() -> Self {
        Awaited { entries: seq![], cursor: 0, completed: seq![] }
    }

    /// The cursor is within the entries, and what is marked was visited, in order.
    pub open spec fn well_formed(self) -> bool {
        &&& self.cursor <= self.entries.len() <= usize::MAX
        &&& ascending_below(self.completed, self.cursor as int)
    }

    /// No sweep is running.
    pub open spec fn at_rest(self) -> bool {
        &&& self.cursor == 0
        &&& self.completed == Seq::<usize>::empty()
    }

    /// Whether the sweep has an entry left to visit.
    pub open spec fn unvisited(self) -> bool {
        self.cursor < self.entries.len()
    }

    /// The entry that is visited next.
    pub open spec fn current(self) -> (P, RequestContext)
        recommends
            self.unvisited(),
    {
        self.entries[self.cursor as int]
    }

    /// One more response is awaited.
    pub open spec fn push(self, response: P, context: RequestContext) -> Self {
        Awaited { entries: self.entries.push((response, context)), ..self }
    }

    /// The next entry was visited, and found to be over or not.
    pub open spec fn visit(self, over: bool) -> Self {
        Awaited {
            entries: self.entries,
            cursor: self.cursor + 1,
            completed: if over {
                self.completed.push(self.cursor as usize)
            } else {
                self.completed
            },
        }
    }

    /// The sweep has ended.
    pub open spec fn end_sweep(self) -> Self {
        Awaited { entries: without(self.entries, self.completed), cursor: 0, completed: seq![] }
    }
}

/// What is awaited changes by one step at a time. A response that is submitted joins the others
/// as the last one and leaves a running sweep as it is. A visit moves on by one entry, takes none
/// out, and marks the entry that it visited exactly if that one is over. The end of a sweep leaves
/// nothing visited and nothing marked.
pub proof fn awaited_changes_step_by_step<P>(
    awaited: Awaited<P>,
    response: P,
    context: RequestContext,
    over: bool,
)
    ensures
        awaited.push(response, context).entries.drop_last() == awaited.entries,
        awaited.push(response, context).entries.last() == (response, context),
        awaited.push(response, context).cursor == awaited.cursor,
        awaited.push(response, context).completed == awaited.completed,
        awaited.unvisited() <==> awaited.cursor < awaited.entries.len(),
        awaited.current() == awaited.entries[awaited.cursor as int],
        awaited.visit(over).entries == awaited.entries,
        awaited.visit(over).cursor == awaited.cursor + 1,
        over ==> awaited.visit(over).completed == awaited.completed.push(awaited.cursor as usize),
        !over ==> awaited.visit(over).completed == awaited.completed,
        awaited.end_sweep().cursor == 0,
        awaited.end_sweep().completed.len() == 0,
{
    assert(awaited.push(response, context).entries.drop_last() =~= awaited.entries);
}

/// Whatever is done to what is awaited, the invariant holds: it holds of nothing, and every step
/// keeps it.
pub proof fn awaited_stays_well_formed<P>(
    awaited: Awaited<P>,
    response: P,
    context: RequestContext,
    over: bool,
)
    requires
        awaited.cursor <= awaited.entries.len() < usize::MAX,
        forall|i: int, j: int|
            0 <= i < j < awaited.completed.len() ==> awaited.completed[i] < awaited.completed[j],
        forall|i: int|
            0 <= i < awaited.completed.len() ==> (#[trigger] awaited.completed[i] as int)
                < awaited.cursor,
    ensures
        Awaited::<P>::nothing().well_formed(),
        Awaited::<P>::nothing().at_rest(),
        awaited.well_formed(),
        awaited.push(response, context).well_formed(),
        awaited.cursor < awaited.entries.len() ==> awaited.visit(over).well_formed(),
        awaited.end_sweep().well_formed(),
        awaited.end_sweep().at_rest(),
{
    lemma_without_closes_the_gaps(
        awaited.entries,
        awaited.completed,
        awaited.completed.len() as int,
        0,
        0,
    );
}

/// Responses of local servers that are awaited on behalf of remote clients.
#[derive(Debug)]
pub struct PendingResponses<P> {
    entries: Vec<(P, RequestContext)>,
    cursor: usize,
    completed: Vec<usize>,
}

impl<P> View for PendingResponses<P> {
    type V = Awaited<P>;

    closed spec fn view(&self) -> Awaited<P> {
        Awaited {
            entries: self.entries@,
            cursor: self.cursor as nat,
            completed: self.completed@,
        }
    }
}

impl<P> PendingResponses<P> {
    /// Nothing is awaited.
    pub fn new() -> (responses: Self)
        ensures
            responses@ == Awaited::<P>::nothing(),
            responses@.well_formed(),
            responses@.entries.len() == 0,
            responses@.cursor == 0,
            responses@.completed.len() == 0,
    {
        PendingResponses { entries: Vec::new(), cursor: 0, completed: Vec::new() }
    }

    /// Awaits one more response.
    pub fn push(&mut self, response: P, context: RequestContext)
        requires
            old(self)@.well_formed(),
        ensures
            final(self)@ == old(self)@.push(response, context),
            final(self)@.well_formed(),
            final(self)@.entries == old(self)@.entries.push((response, context)),
            final(self)@.cursor == old(self)@.cursor,
            final(self)@.completed == old(self)@.completed,
    {
        self.entries.push((response, context));
        assert(self.entries.len() <= usize::MAX);
    }

    /// The entry that the sweep visits next, if there is one left.
    pub fn current(&self) -> (entry: Option<&(P, RequestContext)>)
        ensures
            entry == (if self@.unvisited() {
                Some(&self@.current())
            } else {
                None
            }),
            entry is Some <==> self@.cursor < self@.entries.len(),
            entry matches Some(current) ==> *current == self@.entries[self@.cursor as int],
    {
        if self.cursor < self.entries.len() {
            Some(&self.entries[self.cursor])
        } else {
            None
        }
    }

    /// The context of the entry that the sweep visits next.
    pub fn current_context(&self) -> (context: &RequestContext)
        requires
            self@.unvisited(),
        ensures
            *context == self@.current().1,
            *context == self@.entries[self@.cursor as int].1,
    {
        &self.entries[self.cursor].1
    }

    /// Moves on to the next entry, and marks the visited one if it is over.
    pub fn visit(&mut self, over: bool)
        requires
            old(self)@.well_formed(),
            old(self)@.unvisited(),
        ensures
            final(self)@ == old(self)@.visit(over),
            final(self)@.well_formed(),
            final(self)@.entries == old(self)@.entries,
            final(self)@.cursor == old(self)@.cursor + 1,
            over ==> final(self)@.completed == old(self)@.completed.push(
                old(self)@.cursor as usize,
            ),
            !over ==> final(self)@.completed == old(self)@.completed,
    {
        if over {
            self.completed.push(self.cursor);
        }
        self.cursor = self.cursor + 1;
    }

    /// Takes the marked entries out, the last one first so that the indices of the others keep
    /// their meaning, and ends the sweep.
    pub fn end_sweep(&mut self)
        requires
            old(self)@.well_formed(),
        ensures
            final(self)@ == old(self)@.end_sweep(),
            final(self)@.well_formed(),
            final(self)@.cursor == 0,
            final(self)@.completed.len() == 0,
            final(self)@.entries.len() == old(self)@.entries.len() - old(self)@.completed.len(),
            forall|i: int, k: int|
                0 <= i < old(self)@.entries.len() && #[trigger] marked_before(
                    old(self)@.completed,
                    i,
                    k,
                ) ==> final(self)@.entries[i - k] == #[trigger] old(self)@.entries[i],
    {
        proof {
            let entries = self.entries@;
            let completed = self.completed@;
            let m = completed.len() as int;
            lemma_without_closes_the_gaps(entries, completed, m, 0, 0);
            assert forall|i: int, k: int|
                0 <= i < entries.len() && #[trigger] marked_before(completed, i, k) implies without(
                entries,
                completed,
            )[i - k] == #[trigger] entries[i] by {
                lemma_without_closes_the_gaps(entries, completed, m, i, k);
            }
        }
        let ghost goal = without(self.entries@, self.completed@);
        loop
            invariant
                self.entries.len() <= usize::MAX,
                ascending_below(self.completed@, self.entries@.len() as int),
                without(self.entries@, self.completed@) == goal,
            ensures
                self.completed@.len() == 0,
            decreases self.completed.len(),
        {
            let ghost entries = self.entries@;
            let ghost completed = self.completed@;
            match self.completed.pop() {
                Some(index) => {
                    proof {
                        lemma_without_last_index(entries, completed);
                    }
                    self.entries.remove(index);
                },
                None => {
                    break ;
                },
            }
        }
        proof {
            lemma_without_beyond(self.entries@, self.completed@, 0);
            assert(self.entries@.take(0) =~= seq![]);
            assert(self.entries@.skip(0) =~= self.entries@);
            assert(without(self.entries@, self.completed@) =~= self.entries@);
        }
        self.cursor = 0;
    }
}

/// `awaited` after visits that found the entries to be over or not as `over` says.
pub open spec fn sweep<P>(awaited: Awaited<P>, over: Seq<bool>) -> Awaited<P>
    decreases over.len(),
{
    if over.len() == 0 {
        awaited
    } else {
        sweep(awaited, over.drop_last()).visit(over.last())
    }
}

/// The entries that are not over, in their order.
pub open spec fn still_awaited<T>(entries: Seq<T>, over: Seq<bool>) -> Seq<T>
    recommends
        entries.len() == over.len(),
    decreases entries.len(),
{
    if entries.len() == 0 {
        seq![]
    } else {
        let rest = still_awaited(entries.drop_last(), over.drop_last());
        if over.last() {
            rest
        } else {
            rest.push(entries.last())
        }
    }
}

/// The entries that are not over are all there is left, and each of them comes after exactly those
/// that came before it and are not over either.
pub proof fn still_awaited_are_those_not_over<T>(entries: Seq<T>, over: Seq<bool>, i: int)
    requires
        entries.len() == over.len(),
    ensures
        still_awaited(entries, over).len() == over.to_multiset().count(false),
        0 <= i < entries.len() && !over[i] ==> {
            let place = over.take(i).to_multiset().count(false);
            &&& place < still_awaited(entries, over).len()
            &&& still_awaited(entries, over)[place as int] == entries[i]
        },
    decreases entries.len(),
{
    over.to_multiset_ensures();
    if entries.len() > 0 {
        let shorter = entries.drop_last();
        let before = over.drop_last();
        still_awaited_are_those_not_over(shorter, before, i);
        before.to_multiset_ensures();
        assert(over =~= before.push(over.last()));
        if 0 <= i < shorter.len() {
            assert(over.take(i) =~= before.take(i));
        } else if i == shorter.len() {
            assert(over.take(i) =~= before);
        }
    }
}

proof fn lemma_sweep<P>(awaited: Awaited<P>, over: Seq<bool>)
    requires
        awaited.at_rest(),
        awaited.well_formed(),
        over.len() <= awaited.entries.len(),
    ensures
        sweep(awaited, over).entries == awaited.entries,
        sweep(awaited, over).cursor == over.len(),
        ascending_below(sweep(awaited, over).completed, over.len() as int),
        forall|i: int|
            0 <= i < over.len() ==> (over[i] <==> sweep(awaited, over).completed.contains(
                i as usize,
            )),
    decreases over.len(),
{
    if over.len() > 0 {
        let shorter = over.drop_last();
        let last = (over.len() - 1) as usize;
        lemma_sweep(awaited, shorter);
        let before = sweep(awaited, shorter).completed;
        let after = sweep(awaited, over).completed;
        assert forall|i: int| 0 <= i < over.len() implies (over[i] <==> after.contains(
            i as usize,
        )) by {
            if i < last {
                assert(over[i] == shorter[i]);
                if before.contains(i as usize) {
                    let k = choose|k: int| 0 <= k < before.len() && before[k] == i as usize;
                    assert(after[k] == i as usize);
                }
                if after.contains(i as usize) {
                    let k = choose|k: int| 0 <= k < after.len() && after[k] == i as usize;
                    assert(before[k] == i as usize);
                }
            } else {
                if over.last() {
                    assert(after[before.len() as int] == last);
                }
            }
        }
    }
}

proof fn lemma_without_is_still_awaited<T>(entries: Seq<T>, indices: Seq<usize>, over: Seq<bool>)
    requires
        entries.len() == over.len(),
        entries.len() <= usize::MAX,
        forall|i: int| 0 <= i < over.len() ==> (over[i] <==> indices.contains(i as usize)),
    ensures
        without(entries, indices) == still_awaited(entries, over),
    decreases entries.len(),
{
    if entries.len() > 0 {
        assert forall|i: int| 0 <= i < over.drop_last().len() implies (over.drop_last()[i]
            <==> indices.contains(i as usize)) by {
            assert(over.drop_last()[i] == over[i]);
        }
        lemma_without_is_still_awaited(entries.drop_last(), indices, over.drop_last());
        assert(over[over.len() - 1] == over.last());
    }
}

/// A sweep that visits every entry once gives up exactly those that it found to be over. The
/// others stay, in their order, and nothing is marked any more.
pub proof fn sweep_gives_up_what_is_over<P>(awaited: Awaited<P>, over: Seq<bool>)
    requires
        awaited.at_rest(),
        awaited.well_formed(),
        over.len() == awaited.entries.len(),
    ensures
        !sweep(awaited, over).unvisited(),
        sweep(awaited, over).end_sweep().entries == still_awaited(awaited.entries, over),
        sweep(awaited, over).end_sweep().at_rest(),
        forall|n: int|
            0 <= n < over.len() ==> {
                let midway = #[trigger] sweep(awaited, over.take(n));
                midway.unvisited() && midway.current() == awaited.entries[n]
            },
{
    lemma_sweep(awaited, over);
    lemma_without_is_still_awaited(awaited.entries, sweep(awaited, over).completed, over);
    assert forall|n: int| 0 <= n < over.len() implies {
        let midway = #[trigger] sweep(awaited, over.take(n));
        midway.unvisited() && midway.current() == awaited.entries[n]
    } by {
        lemma_sweep(awaited, over.take(n));
    }
}

} // verus!
