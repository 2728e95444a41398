//! Endpoint-selection policies and the endpoint-set structure they share.
//!
//! A `VectorSet` keeps a dense sequence of distinct elements and removes by
//! swapping with the last element, so a removal disturbs the position of at
//! most one other element.

use rand::Rng;
use std::collections::hash_map::DefaultHasher;
use std::hash::Hasher;
use vstd::prelude::*;
use vstd::std_specs::hash::DefaultHasherAdditionalSpecFns;
use vstd::string::StringExecFns;
use vstd::string::StringSliceAdditionalSpecFns;

verus! {

/// True when no element of `s` occurs at two different positions.
pub open spec fn distinct<A>(s: Seq<A>) -> bool {
    forall|i: int, j: int| 0 <= i < j < s.len() ==> s[i] != s[j]
}

/// An element that a `VectorSet` can hold: its abstract value is its view,
/// and equality of views is decidable at run time.
pub trait Elem: Sized + View {
    /// Decides whether two elements have the same abstract value.
    fn eq_val(&self, other: &Self) -> (r: bool)
        ensures
            r == (self@ == other@),
    ;
}

impl Elem for String {
    fn eq_val(&self, other: &Self) -> (r: bool) {
        *self == *other
    }
}

impl Elem for i32 {
    fn eq_val(&self, other: &Self) -> (r: bool) {
        *self == *other
    }
}

/// A set of distinct elements held in a dense vector, so that membership,
/// length, indexed access and removal are all available, and removal keeps
/// every index stable except the one slot the last element is swapped into.
pub struct VectorSet<T: Elem> {
    vec_elems: Vec<T>,
}

impl<T: Elem> View for VectorSet<T> {
    type V = Seq<T::V>;

    closed spec fn view(&self) -> Seq<T::V> {
        self.vec_elems@.map_values(|e: T| e@)
    }
}

impl<T: Elem> VectorSet<T> {
    /// The set never holds two elements with the same abstract value.
    pub open spec fn wf(&self) -> bool {
        distinct(self@)
    }

    /// Builds the set from a duplicate-free list; the caller is responsible
    /// for deduplication.
    pub fn new(elems: Vec<T>) -> (r: Self)
        requires
            distinct(elems@.map_values(|e: T| e@)),
        ensures
            r.wf(),
            r@ == elems@.map_values(|e: T| e@),
    {
        VectorSet { vec_elems: elems }
    }

    pub fn is_empty(&self) -> (r: bool)
        ensures
            r == (self@.len() == 0),
    {
        self.vec_elems.len() == 0
    }

    pub fn len(&self) -> (r: usize)
        ensures
            r == self@.len(),
    {
        self.vec_elems.len()
    }

    /// Finds the position of `key`, if it is present.
    fn position_of(&self, key: &T) -> (r: Option<usize>)
        ensures
            match r {
                Some(i) => i < self@.len() && self@[i as int] == key@,
                None => !self@.contains(key@),
            },
    {
        let mut i: usize = 0;
        while i < self.vec_elems.len()
            invariant
                i <= self.vec_elems.len(),
                forall|k: int| 0 <= k < i ==> self@[k] != key@,
            decreases self.vec_elems.len() - i,
        {
            if self.vec_elems[i].eq_val(key) {
                assert(self@[i as int] == key@);
                return Some(i);
            }
            i = i + 1;
        }
        None
    }

    pub fn contains(&self, key: &T) -> (r: bool)
        ensures
            r == self@.contains(key@),
    {
        match self.position_of(key) {
            Some(i) => {
                assert(self@[i as int] == key@);
                true
            },
            None => false,
        }
    }

    /// Indexed access; callers only index below the current length.
    pub fn index(&self, i: usize) -> (r: &T)
        requires
            i < self@.len(),
        ensures
            r@ == self@[i as int],
    {
        &self.vec_elems[i]
    }

    /// Removes `el` if present, by swapping it with the last element and
    /// shrinking the sequence; absent elements leave the set unchanged.
    pub fn remove(&mut self, el: &T)
        requires
            old(self).wf(),
        ensures
            final(self).wf(),
            old(self)@.contains(el@) ==> final(self)@ == swap_removed(old(self)@, el@),
            !old(self)@.contains(el@) ==> final(self)@ == old(self)@,
    {
        let ghost s = old(self)@;
        match self.position_of(el) {
            Some(i) => {
                proof {
                    lemma_distinct_index_of(s, el@, i as int);
                }
                self.vec_elems.swap_remove(i);
                proof {
                    assert(self@ =~= s.update(i as int, s.last()).drop_last());
                    lemma_swap_removed_effect(s, el@);
                }
            },
            None => {},
        }
    }
}

/// The index at which `x` stands in a duplicate-free sequence is the one
/// `Seq::index_of` picks.
pub proof fn lemma_distinct_index_of<A>(s: Seq<A>, x: A, i: int)
    requires
        distinct(s),
        0 <= i < s.len(),
        s[i] == x,
    ensures
        s.contains(x),
        s.index_of(x) == i,
{
    assert(s.contains(x));
    let j = s.index_of(x);
    assert(0 <= j < s.len() && s[j] == x);
    if i < j {
        assert(s[i] != s[j]);
    } else if j < i {
        assert(s[j] != s[i]);
    }
}

/// The sequence left when `x` is removed from `s` by swapping it with the
/// last element and dropping the shortened tail.
pub open spec fn swap_removed<A>(s: Seq<A>, x: A) -> Seq<A> {
    s.update(s.index_of(x), s.last()).drop_last()
}

/// Removal law: taking a present element out of a duplicate-free sequence by
/// swap-removal makes exactly that element absent, keeps every other element's
/// membership, shortens the sequence by one, preserves distinctness, and moves
/// no element other than the one swapped into the vacated slot.
pub proof fn lemma_swap_removed_effect<A>(s: Seq<A>, x: A)
    requires
        distinct(s),
        s.contains(x),
    ensures
        swap_removed(s, x).len() == s.len() - 1,
        !swap_removed(s, x).contains(x),
        forall|y: A| y != x ==> (swap_removed(s, x).contains(y) <==> s.contains(y)),
        distinct(swap_removed(s, x)),
        forall|i: int|
            0 <= i < swap_removed(s, x).len() && i != s.index_of(x) ==> swap_removed(s, x)[i]
                == s[i],
{
    let idx = s.index_of(x);
    let t = swap_removed(s, x);
    assert(0 <= idx < s.len() && s[idx] == x);
    assert(t.len() == s.len() - 1);
    assert forall|i: int| 0 <= i < t.len() implies t[i] == (if i == idx {
        s.last()
    } else {
        s[i]
    }) by {}
    assert forall|i: int| 0 <= i < t.len() implies t[i] != x by {
        if i == idx {
            assert(t[i] == s[s.len() - 1]);
            if s.len() - 1 != idx {
                assert(s[idx] != s[s.len() - 1]);
            }
        }
    }
    assert(!t.contains(x));
    assert forall|y: A| y != x && s.contains(y) implies t.contains(y) by {
        let j = choose|j: int| 0 <= j < s.len() && s[j] == y;
        if j == s.len() - 1 {
            assert(idx != j);
            assert(t[idx] == y);
        } else if j == idx {
            assert(false);
        } else {
            assert(t[j] == y);
        }
    }
    assert forall|y: A| y != x && t.contains(y) implies s.contains(y) by {
        let j = choose|j: int| 0 <= j < t.len() && t[j] == y;
        if j == idx {
            assert(s[s.len() - 1] == y);
        } else {
            assert(s[j] == y);
        }
    }
    assert forall|i: int, j: int| 0 <= i < j < t.len() implies t[i] != t[j] by {
        if i == idx {
            assert(t[i] == s[s.len() - 1] && t[j] == s[j]);
        } else if j == idx {
            assert(t[i] == s[i] && t[j] == s[s.len() - 1]);
        } else {
            assert(t[i] == s[i] && t[j] == s[j]);
        }
    }
}

/// A swappable endpoint-selection strategy over a set of endpoint
/// identifiers. Selection never invents an endpoint: whatever the strategy,
/// a returned endpoint is a member of the current set, and exhaustion
/// (`None`) is reported exactly when the set is empty. Removal evicts an
/// endpoint from all future selection.
pub trait Policy: Sized {
    /// The endpoints currently selectable, in the order the strategy indexes
    /// them.
    spec fn endpoints(&self) -> Seq<Seq<char>>;

    /// The strategy's internal invariant.
    spec fn wf(&self) -> bool;

    /// Picks an endpoint for the client at `client_addr`, or reports
    /// exhaustion with `None` exactly when no endpoint remains.
    fn select(&mut self, client_addr: &str) -> (r: Option<String>)
        requires
            old(self).wf(),
        ensures
            final(self).wf(),
            final(self).endpoints() == old(self).endpoints(),
            r is Some <==> old(self).endpoints().len() > 0,
            (r matches Some(e) ==> old(self).endpoints().contains(e@)),
    ;

    /// Evicts `el` from future selection; absent endpoints are ignored.
    fn remove(&mut self, el: &str)
        requires
            old(self).wf(),
        ensures
            final(self).wf(),
            old(self).endpoints().contains(el@) ==> final(self).endpoints() == swap_removed(
                old(self).endpoints(),
                el@,
            ),
            !old(self).endpoints().contains(el@) ==> final(self).endpoints() == old(
                self,
            ).endpoints(),
    ;
}

/// The successor of a round-robin cursor, wrapping at the machine limit.
pub open spec fn wrapping_inc(c: usize) -> usize {
    if c == usize::MAX {
        0
    } else {
        (c + 1) as usize
    }
}

/// Round-robin selection: a monotonic cursor, reduced modulo the live set
/// length at each selection, walks the endpoint sequence.
pub struct SimpleRoundRobinPolicy {
    curr: usize,
    choices: VectorSet<String>,
}

impl SimpleRoundRobinPolicy {
    /// The cursor that the next selection will reduce modulo the set length.
    pub closed spec fn cursor(&self) -> usize {
        self.curr
    }

    /// Builds the policy over a non-empty, duplicate-free endpoint list,
    /// with the cursor at the start.
    pub fn new(choices: Vec<String>) -> (r: Self)
        requires
            choices@.len() > 0,
            distinct(choices@.map_values(|s: String| s@)),
        ensures
            r.wf(),
            r.endpoints() == choices@.map_values(|s: String| s@),
            r.cursor() == 0,
    {
        SimpleRoundRobinPolicy { curr: 0, choices: VectorSet::new(choices) }
    }
}

impl Policy for SimpleRoundRobinPolicy {
    closed spec fn endpoints(&self) -> Seq<Seq<char>> {
        self.choices@
    }

    closed spec fn wf(&self) -> bool {
        self.choices.wf()
    }

    fn select(&mut self, _client_addr: &str) -> (r: Option<String>)
        ensures
            old(self).endpoints().len() > 0 ==> final(self).cursor() == wrapping_inc(
                old(self).cursor(),
            ),
            old(self).endpoints().len() > 0 ==> (r matches Some(e) && e@ == old(
                self,
            ).endpoints()[old(self).cursor() as int % old(self).endpoints().len() as int]),
            old(self).endpoints().len() == 0 ==> final(self).cursor() == old(self).cursor(),
    {
        if self.choices.is_empty() {
            return None;
        }
        let len = self.choices.len();
        let choice = self.choices.index(self.curr % len).clone();
        self.curr = if self.curr == usize::MAX {
            0
        } else {
            self.curr + 1
        };
        Some(choice)
    }

    fn remove(&mut self, el: &str)
        ensures
            final(self).cursor() == old(self).cursor(),
    {
        self.choices.remove(&el.to_owned());
    }
}

/// Relies on rand's `Rng::gen_range` over `0..n`: the sample lies in the
/// range, which must be non-empty.
#[verifier::external_body]
fn random_index(n: usize) -> (r: usize)
    requires
        n > 0,
    ensures
        r < n,
{
    rand::thread_rng().gen_range(0..n)
}

/// Random selection: each call draws a fresh uniformly random index into the
/// live endpoint sequence; no selection state is kept between calls.
pub struct RandomPolicy {
    choices: VectorSet<String>,
}

impl RandomPolicy {
    /// Builds the policy over a non-empty, duplicate-free endpoint list.
    pub fn new(choices: Vec<String>) -> (r: Self)
        requires
            choices@.len() > 0,
            distinct(choices@.map_values(|s: String| s@)),
        ensures
            r.wf(),
            r.endpoints() == choices@.map_values(|s: String| s@),
    {
        RandomPolicy { choices: VectorSet::new(choices) }
    }
}

impl Policy for RandomPolicy {
    closed spec fn endpoints(&self) -> Seq<Seq<char>> {
        self.choices@
    }

    closed spec fn wf(&self) -> bool {
        self.choices.wf()
    }

    fn select(&mut self, _client_addr: &str) -> (r: Option<String>) {
        if self.choices.is_empty() {
            return None;
        }
        let i = random_index(self.choices.len());
        Some(self.choices.index(i).clone())
    }

    fn remove(&mut self, el: &str) {
        self.choices.remove(&el.to_owned());
    }
}

/// The digest that a fresh `DefaultHasher` computes over one write of the
/// given bytes.
pub open spec fn client_key_hash(key: Seq<u8>) -> u64 {
    DefaultHasher::spec_finish(seq![key])
}

/// The position that hashed-affinity selection picks for a client key over
/// the given endpoint sequence.
pub open spec fn hashed_pick(eps: Seq<Seq<char>>, key: Seq<u8>) -> int {
    (client_key_hash(key) as usize) as int % eps.len() as int
}

/// Affinity law: the endpoint position picked for a client depends on the
/// client key's bytes and the endpoint sequence alone, so the same key
/// against an unchanged set is assigned the same endpoint on every call.
pub proof fn lemma_hashed_affinity(
    eps1: Seq<Seq<char>>,
    eps2: Seq<Seq<char>>,
    key1: Seq<u8>,
    key2: Seq<u8>,
)
    requires
        eps1 == eps2,
        key1 == key2,
    ensures
        hashed_pick(eps1, key1) == hashed_pick(eps2, key2),
{
}

/// Hashed-affinity selection: the client address is hashed and reduced
/// modulo the live set length, so affinity is stable while the set is
/// unchanged and may silently reassign after a removal.
pub struct HashedIpPolicy {
    choices: VectorSet<String>,
}

impl HashedIpPolicy {
    /// Builds the policy over a non-empty, duplicate-free endpoint list.
    pub fn new(choices: Vec<String>) -> (r: Self)
        requires
            choices@.len() > 0,
            distinct(choices@.map_values(|s: String| s@)),
        ensures
            r.wf(),
            r.endpoints() == choices@.map_values(|s: String| s@),
    {
        HashedIpPolicy { choices: VectorSet::new(choices) }
    }
}

impl Policy for HashedIpPolicy {
    closed spec fn endpoints(&self) -> Seq<Seq<char>> {
        self.choices@
    }

    closed spec fn wf(&self) -> bool {
        self.choices.wf()
    }

    fn select(&mut self, client_addr: &str) -> (r: Option<String>)
        ensures
            old(self).endpoints().len() > 0 ==> (r matches Some(e) && e@ == old(
                self,
            ).endpoints()[hashed_pick(old(self).endpoints(), client_addr.spec_bytes())]),
    {
        if self.choices.is_empty() {
            return None;
        }
        let mut hasher = DefaultHasher::new();
        hasher.write(client_addr.as_bytes());
        let h = hasher.finish();
        proof {
            assert(hasher@ =~= seq![client_addr.spec_bytes()]);
        }
        let i = (h as usize) % self.choices.len();
        Some(self.choices.index(i).clone())
    }

    fn remove(&mut self, el: &str) {
        self.choices.remove(&el.to_owned());
    }
}

/// The closed set of selection strategies, chosen by name at startup.
#[derive(Debug)]
pub enum PolicyType {
    SimpleRoundRobin,
    Random,
    HashedIp,
}

impl PolicyType {
    /// Parses a strategy name; an unrecognized name is a configuration
    /// error, reported before any selection can happen.
    pub fn try_from(value: String) -> (r: Result<PolicyType, String>)
        ensures
            value@ == "round-robin"@ ==> (r matches Ok(p) && p is SimpleRoundRobin),
            value@ == "random"@ ==> (r matches Ok(p) && p is Random),
            value@ == "hashed-ip"@ ==> (r matches Ok(p) && p is HashedIp),
            (r is Err <==> !(value@ == "round-robin"@ || value@ == "random"@ || value@
                == "hashed-ip"@)),
            (r matches Err(m) ==> m@ == "Unknown policy type \""@ + value@ + "\""@),
    {
        proof {
            reveal_strlit("round-robin");
            reveal_strlit("random");
            reveal_strlit("hashed-ip");
            assert("round-robin"@.len() == 11);
            assert("random"@.len() == 6);
            assert("hashed-ip"@.len() == 9);
        }
        if value == String::from_str("round-robin") {
            Ok(PolicyType::SimpleRoundRobin)
        } else if value == String::from_str("random") {
            Ok(PolicyType::Random)
        } else if value == String::from_str("hashed-ip") {
            Ok(PolicyType::HashedIp)
        } else {
            let mut msg = String::from_str("Unknown policy type \"");
            msg.append(value.as_str());
            msg.append("\"");
            Err(msg)
        }
    }
}

/// A strategy picked at startup: one closed variant per strategy, presented
/// through the uniform `Policy` interface.
pub enum AnyPolicy {
    RoundRobin(SimpleRoundRobinPolicy),
    Random(RandomPolicy),
    HashedIp(HashedIpPolicy),
}

impl Policy for AnyPolicy {
    closed spec fn endpoints(&self) -> Seq<Seq<char>> {
        match self {
            AnyPolicy::RoundRobin(p) => p.endpoints(),
            AnyPolicy::Random(p) => p.endpoints(),
            AnyPolicy::HashedIp(p) => p.endpoints(),
        }
    }

    closed spec fn wf(&self) -> bool {
        match self {
            AnyPolicy::RoundRobin(p) => p.wf(),
            AnyPolicy::Random(p) => p.wf(),
            AnyPolicy::HashedIp(p) => p.wf(),
        }
    }

    fn select(&mut self, client_addr: &str) -> (r: Option<String>) {
        match self {
            AnyPolicy::RoundRobin(p) => p.select(client_addr),
            AnyPolicy::Random(p) => p.select(client_addr),
            AnyPolicy::HashedIp(p) => p.select(client_addr),
        }
    }

    fn remove(&mut self, el: &str) {
        match self {
            AnyPolicy::RoundRobin(p) => p.remove(el),
            AnyPolicy::Random(p) => p.remove(el),
            AnyPolicy::HashedIp(p) => p.remove(el),
        }
    }
}

/// The duplicate-free subsequence of `s` that keeps the first occurrence of
/// each element.
pub open spec fn spec_dedup<A>(s: Seq<A>) -> Seq<A>
    decreases s.len(),
{
    if s.len() == 0 {
        Seq::empty()
    } else {
        let rest = spec_dedup(s.drop_last());
        if rest.contains(s.last()) {
            rest
        } else {
            rest.push(s.last())
        }
    }
}

/// Deduplication keeps exactly the elements of its input, one occurrence
/// each, and keeps a non-empty input non-empty.
pub proof fn lemma_dedup_properties<A>(s: Seq<A>)
    ensures
        distinct(spec_dedup(s)),
        forall|x: A| spec_dedup(s).contains(x) <==> s.contains(x),
        s.len() > 0 ==> spec_dedup(s).len() > 0,
    decreases s.len(),
{
    if s.len() == 0 {
    } else {
        let pre = s.drop_last();
        lemma_dedup_properties(pre);
        let rest = spec_dedup(pre);
        let d = spec_dedup(s);
        assert forall|x: A| d.contains(x) implies s.contains(x) by {
            if rest.contains(x) {
                assert(pre.contains(x));
                let j = choose|j: int| 0 <= j < pre.len() && pre[j] == x;
                assert(s[j] == x);
            } else {
                if rest.contains(s.last()) {
                    assert(d == rest);
                    assert(false);
                } else {
                    assert(d == rest.push(s.last()));
                    let k = choose|k: int| 0 <= k < d.len() && d[k] == x;
                    if k < rest.len() {
                        assert(rest[k] == x);
                        assert(rest.contains(rest[k]));
                        assert(false);
                    }
                    assert(x == s.last());
                    assert(s[s.len() - 1] == x);
                }
            }
        }
        assert forall|x: A| s.contains(x) implies d.contains(x) by {
            let j = choose|j: int| 0 <= j < s.len() && s[j] == x;
            if j < s.len() - 1 {
                assert(pre[j] == x);
                assert(pre.contains(x));
                assert(rest.contains(x));
                if rest.contains(s.last()) {
                    assert(d == rest);
                } else {
                    let k = choose|k: int| 0 <= k < rest.len() && rest[k] == x;
                    assert(d[k] == x);
                }
            } else {
                if rest.contains(s.last()) {
                    assert(d == rest);
                    assert(rest.contains(x));
                } else {
                    assert(d == rest.push(s.last()));
                    assert(d[rest.len() as int] == x);
                }
            }
        }
        if rest.contains(s.last()) {
            let k = choose|k: int| 0 <= k < rest.len() && rest[k] == s.last();
            assert(rest.len() > 0);
        } else {
            let t = rest.push(s.last());
            assert forall|i: int, j: int| 0 <= i < j < t.len() implies t[i] != t[j] by {
                if j < t.len() - 1 {
                    assert(t[i] == rest[i] && t[j] == rest[j]);
                } else {
                    assert(t[j] == s.last());
                    assert(rest[i] == t[i]);
                    assert(rest.contains(rest[i]));
                }
            }
        }
    }
}

/// Keeps the first occurrence of each endpoint, in order.
fn dedup_endpoints(src: &Vec<String>) -> (r: Vec<String>)
    ensures
        r@.map_values(|s: String| s@) == spec_dedup(src@.map_values(|s: String| s@)),
{
    let ghost t = src@.map_values(|s: String| s@);
    let mut out: Vec<String> = Vec::new();
    let mut i: usize = 0;
    while i < src.len()
        invariant
            i <= src.len(),
            t == src@.map_values(|s: String| s@),
            out@.map_values(|s: String| s@) == spec_dedup(t.take(i as int)),
        decreases src.len() - i,
    {
        proof {
            assert(t.take(i + 1).drop_last() =~= t.take(i as int));
            assert(t.take(i + 1).last() == t[i as int]);
        }
        if !vec_contains_string(&out, &src[i]) {
            out.push(src[i].clone());
            proof {
                assert(out@.map_values(|s: String| s@) =~= spec_dedup(t.take(i + 1)));
            }
        } else {
            proof {
                assert(out@.map_values(|s: String| s@) =~= spec_dedup(t.take(i + 1)));
            }
        }
        i = i + 1;
    }
    proof {
        assert(t.take(src@.len() as int) =~= t);
    }
    out
}

/// Decides whether some element of `v` has the same characters as `x`.
fn vec_contains_string(v: &Vec<String>, x: &String) -> (r: bool)
    ensures
        r == v@.map_values(|s: String| s@).contains(x@),
{
    let ghost t = v@.map_values(|s: String| s@);
    let mut i: usize = 0;
    while i < v.len()
        invariant
            i <= v.len(),
            t == v@.map_values(|s: String| s@),
            forall|k: int| 0 <= k < i ==> t[k] != x@,
        decreases v.len() - i,
    {
        if v[i] == *x {
            assert(t[i as int] == x@);
            return true;
        }
        i = i + 1;
    }
    false
}

/// Builds the strategy of the requested kind over the given endpoints,
/// deduplicating the list first; the list must name at least one endpoint.
pub fn create_policy(kind: PolicyType, endpoints: Vec<String>) -> (r: AnyPolicy)
    requires
        endpoints@.len() > 0,
    ensures
        r.wf(),
        r.endpoints() == spec_dedup(endpoints@.map_values(|s: String| s@)),
        (kind is SimpleRoundRobin <==> r is RoundRobin),
        (kind is Random <==> r is Random),
        (kind is HashedIp <==> r is HashedIp),
        (r matches AnyPolicy::RoundRobin(p) ==> p.cursor() == 0),
{
    let choices = dedup_endpoints(&endpoints);
    proof {
        lemma_dedup_properties(endpoints@.map_values(|s: String| s@));
    }
    match kind {
        PolicyType::SimpleRoundRobin => AnyPolicy::RoundRobin(SimpleRoundRobinPolicy::new(choices)),
        PolicyType::Random => AnyPolicy::Random(RandomPolicy::new(choices)),
        PolicyType::HashedIp => AnyPolicy::HashedIp(HashedIpPolicy::new(choices)),
    }
}

/// Construction law: in a duplicate-free sequence every element is reachable
/// through some index, and no two indices yield the same element.
pub proof fn lemma_distinct_indexing<A>(s: Seq<A>)
    requires
        distinct(s),
    ensures
        forall|x: A| s.contains(x) ==> exists|i: int| 0 <= i < s.len() && s[i] == x,
        forall|i: int, j: int|
            0 <= i < s.len() && 0 <= j < s.len() && i != j ==> s[i] != s[j],
{
    assert forall|i: int, j: int|
        0 <= i < s.len() && 0 <= j < s.len() && i != j implies s[i] != s[j] by {
        if i < j {
            assert(s[i] != s[j]);
        } else {
            assert(s[j] != s[i]);
        }
    }
}

} // verus!
