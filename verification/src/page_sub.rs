//! The subscription page: subscriptions, the samples received on each key,
//! and the tree of received keys split at '/'.

use vstd::prelude::*;
use crate::key_map::KeyMap;
use crate::text::{split_chars, split_on, lemma_split_on_nonempty, string_views, contains_seq, contains_str, strip_blanks, remove_blanks, name_lt, lemma_name_lt_irreflexive};
use crate::task_zenoh::{Sample, SubData};
use crate::zenoh_data::{value_abstract, zenoh_value_abstract, ZLocality};
use crate::sample_viewer::{stamp_parts, stamp_parts_of, SampleViewer};
use crate::text::result_view;
use crate::outside::{check_key_expr, key_expr_verdict, map_get_mut};
use crate::id_list::{DndItem, find_item, item_ids};
use std::collections::BTreeMap;
use std::collections::VecDeque;

verus! {

/// The number that marks "no parent" on a top-level node.
pub const NO_PARENT: u32 = 4294967295;

/// The separator of the levels of a key.
pub open spec fn key_path(key: Seq<char>) -> Seq<Seq<char>> {
    split_on(key, '/')
}

/// The pieces of a path put back together with '/' between them.
pub open spec fn join_path(parts: Seq<Seq<char>>) -> Seq<char>
    decreases parts.len(),
{
    if parts.len() <= 1 {
        if parts.len() == 0 { Seq::empty() } else { parts[0] }
    } else {
        join_path(parts.drop_last()) + seq!['/'] + parts.last()
    }
}

/// Splitting a key at '/' and joining the pieces again gives the key back.
pub proof fn lemma_join_split(s: Seq<char>)
    ensures
        join_path(key_path(s)) == s,
    decreases s.len(),
{
    if s.len() > 0 {
        let prev = key_path(s.drop_last());
        lemma_split_on_nonempty(s.drop_last(), '/');
        lemma_join_split(s.drop_last());
        if s.last() == '/' {
            assert(key_path(s) == prev.push(Seq::empty()));
            assert(key_path(s).drop_last() == prev);
            assert(s == s.drop_last() + seq!['/'] + Seq::<char>::empty());
        } else {
            let cur = prev.update(prev.len() - 1, prev.last().push(s.last()));
            assert(key_path(s) == cur);
            if prev.len() == 1 {
                assert(s == prev[0].push(s.last()));
            } else {
                assert(cur.drop_last() == prev.drop_last());
                assert(join_path(prev) == join_path(prev.drop_last()) + seq!['/'] + prev.last());
                assert(s == s.drop_last().push(s.last()));
                assert(join_path(cur) =~= (join_path(prev.drop_last()) + seq!['/'] + prev.last()).push(s.last()));
            }
        }
    }
}

/// Two keys with the same pieces are the same key.
pub proof fn lemma_key_path_injective(a: Seq<char>, b: Seq<char>)
    requires
        key_path(a) == key_path(b),
    ensures
        a == b,
{
    lemma_join_split(a);
    lemma_join_split(b);
}

/// The number of pieces of all the keys together.
pub open spec fn pieces_total(keys: Seq<Seq<char>>) -> int
    decreases keys.len(),
{
    if keys.len() == 0 {
        0
    } else {
        pieces_total(keys.drop_last()) + key_path(keys.last()).len()
    }
}

/// The pieces of a prefix of the keys are no more than those of all of
/// them.
pub proof fn lemma_pieces_total_prefix(keys: Seq<Seq<char>>, i: int)
    requires
        0 <= i <= keys.len(),
    ensures
        pieces_total(keys.take(i)) <= pieces_total(keys),
    decreases keys.len(),
{
    if i < keys.len() {
        assert(keys.drop_last().take(i) == keys.take(i));
        lemma_pieces_total_prefix(keys.drop_last(), i);
    } else {
        assert(keys.take(i) == keys);
    }
}

/// `d` followed by those of the first `m` leading runs of `path` (its first
/// piece, its first two, and so on) that `d` does not hold yet, in order.
pub open spec fn runs_added(d: Seq<Seq<Seq<char>>>, path: Seq<Seq<char>>, m: int) -> Seq<Seq<Seq<char>>>
    decreases m,
{
    if m <= 0 {
        d
    } else {
        let e = runs_added(d, path, m - 1);
        if e.contains(path.take(m)) { e } else { e.push(path.take(m)) }
    }
}

/// The distinct leading runs of pieces of `keys`, in the order they first
/// appear when the keys are read in order, the shorter runs of each key first.
pub open spec fn key_runs(keys: Seq<Seq<char>>) -> Seq<Seq<Seq<char>>>
    decreases keys.len(),
{
    if keys.len() == 0 {
        Seq::empty()
    } else {
        let p = key_path(keys.last());
        runs_added(key_runs(keys.drop_last()), p, p.len() as int)
    }
}

/// Where the first `k` leading runs of `path` are in `d` and the longer ones
/// are not, adding the first `m` runs appends those beyond the `k`-th.
pub proof fn lemma_runs_added(d: Seq<Seq<Seq<char>>>, path: Seq<Seq<char>>, k: int, m: int)
    requires
        0 <= k <= path.len(),
        0 <= m <= path.len(),
        forall|q: int| 1 <= q <= k ==> d.contains(#[trigger] path.take(q)),
        forall|q: int| k < q <= path.len() ==> !d.contains(#[trigger] path.take(q)),
    ensures
        m <= k ==> runs_added(d, path, m) == d,
        m > k ==> runs_added(d, path, m).len() == d.len() + m - k,
        forall|i: int| 0 <= i < d.len() ==> #[trigger] runs_added(d, path, m)[i] == d[i],
        forall|j: int| k < j <= m ==> #[trigger] runs_added(d, path, m)[d.len() + j - k - 1] == path.take(j),
    decreases m,
{
    if m > 0 {
        lemma_runs_added(d, path, k, m - 1);
        let e = runs_added(d, path, m - 1);
        if m > k {
            assert(!e.contains(path.take(m))) by {
                if e.contains(path.take(m)) {
                    let i = choose|i: int| 0 <= i < e.len() && e[i] == path.take(m);
                    if i < d.len() {
                        assert(d[i] == path.take(m));
                    } else {
                        let j = i - d.len() + k + 1;
                        assert(e[d.len() + j - k - 1] == path.take(j));
                        assert(path.take(j).len() == j);
                    }
                }
            }
        } else {
            assert(d.contains(path.take(m)));
        }
    }
}

/// How many samples a key keeps at the least, and at first.
pub const VALUE_BUFFER_SIZE_DEFAULT: usize = 10;

/// Nanoseconds in a second.
pub const NANOS_PER_SEC: u64 = 1_000_000_000;

/// The earliest time the rate scan starts from: a hundred years of 365
/// days after the Unix epoch, in nanoseconds.
pub const SCAN_MIN_START: u64 = 3_153_600_000_000_000_000;

/// Whole seconds from `earlier` to `later` (nanoseconds), or 0 when `later`
/// comes first.
pub open spec fn elapsed_secs(later: u64, earlier: u64) -> u64 {
    if later >= earlier {
        ((later - earlier) / (NANOS_PER_SEC as int)) as u64
    } else {
        0
    }
}

/// What the receiving rate of a key is computed from: the whole seconds
/// since the last sample when that is one or more, a single sample, or a
/// number of intervals and the whole seconds they span.
#[derive(Copy, Clone, Debug, PartialEq, Eq, Structural)]
pub enum FrequencyBasis {
    Seconds(u32),
    Single,
    Rate { count: u32, secs: u64 },
}

/// The scan from the newest sample back: it widens the span of times seen
/// until it covers ten seconds, has passed a hundred samples, or runs out.
pub open spec fn rate_scan(ts: Seq<u64>, i: int, mx: u64, mn: u64) -> (u32, u64)
    decreases ts.len() - i,
    when 0 <= i < ts.len()
{
    let mx2 = if ts[i] > mx { ts[i] } else { mx };
    let mn2 = if ts[i] < mn { ts[i] } else { mn };
    let secs = elapsed_secs(mx2, mn2);
    if i >= 100 || secs >= 10 || i + 1 >= ts.len() {
        (i as u32, secs)
    } else {
        rate_scan(ts, i + 1, mx2, mn2)
    }
}

/// The receive times, newest first.
pub open spec fn times_newest_first(samples: Seq<(Sample, u64)>) -> Seq<u64> {
    Seq::new(samples.len(), |i: int| samples[samples.len() - 1 - i].1)
}

/// The basis of the receiving rate of the samples `samples`, the last
/// received at `latest`, seen at time `now`.
pub open spec fn frequency_of(samples: Seq<(Sample, u64)>, latest: u64, now: u64) -> Option<FrequencyBasis> {
    if samples.len() == 0 {
        None
    } else if elapsed_secs(now, latest) as u32 >= 1 {
        Some(FrequencyBasis::Seconds(elapsed_secs(now, latest) as u32))
    } else if samples.len() == 1 {
        Some(FrequencyBasis::Single)
    } else {
        let r = rate_scan(times_newest_first(samples), 0, 0, SCAN_MIN_START);
        Some(FrequencyBasis::Rate { count: r.0, secs: r.1 })
    }
}

/// The samples received on one key, newest last, at most `buffer_size` of
/// them, with the time each came in.
pub struct DataValues {
    deque: VecDeque<(Sample, u64)>,
    buffer_size: usize,
    lately_local_timestamp: u64,
}

impl DataValues {
    /// The samples kept, oldest first, each with the time it came in.
    pub closed spec fn samples(&self) -> Seq<(Sample, u64)> {
        self.deque@
    }

    /// The most samples kept.
    pub closed spec fn capacity(&self) -> usize {
        self.buffer_size
    }

    /// The time the last sample came in.
    pub closed spec fn latest(&self) -> u64 {
        self.lately_local_timestamp
    }

    /// No more samples than the buffer holds, and a buffer of at least the
    /// default size.
    pub open spec fn wf(&self) -> bool {
        &&& self.samples().len() <= self.capacity()
        &&& self.capacity() >= VALUE_BUFFER_SIZE_DEFAULT
    }

    /// No samples yet, and a buffer of the default size.
    pub fn new() -> (d: DataValues)
        ensures
            d.wf(),
            d.samples() == Seq::<(Sample, u64)>::empty(),
            d.capacity() == VALUE_BUFFER_SIZE_DEFAULT,
            d.latest() == 0,
    {
        DataValues { deque: VecDeque::new(), buffer_size: VALUE_BUFFER_SIZE_DEFAULT, lately_local_timestamp: 0 }
    }

    /// The samples, newest last.
    pub fn deque(&self) -> (d: &VecDeque<(Sample, u64)>)
        ensures
            d@ == self.samples(),
    {
        &self.deque
    }

    /// The number of samples the buffer holds at most.
    pub fn buffer_size(&self) -> (n: usize)
        ensures
            n == self.capacity(),
    {
        self.buffer_size
    }

    /// Keeps `sample`, received at `system_time`; when the buffer is full
    /// the oldest sample goes.
    pub fn add_data(&mut self, sample: Sample, system_time: u64)
        requires
            old(self).wf(),
        ensures
            final(self).wf(),
            final(self).capacity() == old(self).capacity(),
            final(self).latest() == system_time,
            final(self).samples() == (if old(self).samples().len() == old(self).capacity() {
                old(self).samples().drop_first()
            } else {
                old(self).samples()
            }).push((sample, system_time)),
    {
        if self.deque.len() == self.buffer_size {
            let _ = self.deque.pop_front();
        }
        self.deque.push_back((sample, system_time));
        self.lately_local_timestamp = system_time;
    }

    /// Drops every sample.
    pub fn clear(&mut self)
        requires
            old(self).wf(),
        ensures
            final(self).wf(),
            final(self).samples() == Seq::<(Sample, u64)>::empty(),
            final(self).capacity() == old(self).capacity(),
            final(self).latest() == old(self).latest(),
    {
        self.deque.clear();
    }

    /// Sets the buffer to `size` samples, and at least the default; when the
    /// buffer is then full, the oldest samples go until one place is free.
    pub fn set_buffer_size(&mut self, size: usize)
        requires
            old(self).wf(),
        ensures
            final(self).wf(),
            final(self).capacity() == (if size < VALUE_BUFFER_SIZE_DEFAULT { VALUE_BUFFER_SIZE_DEFAULT } else { size }),
            final(self).latest() == old(self).latest(),
            final(self).samples() == (if old(self).samples().len() >= final(self).capacity() {
                old(self).samples().skip(old(self).samples().len() - (final(self).capacity() - 1))
            } else {
                old(self).samples()
            }),
    {
        self.buffer_size = if size < VALUE_BUFFER_SIZE_DEFAULT {
            VALUE_BUFFER_SIZE_DEFAULT
        } else {
            size
        };
        let ghost start = self.deque@;
        while self.deque.len() >= self.buffer_size
            invariant
                self.buffer_size >= VALUE_BUFFER_SIZE_DEFAULT,
                self.buffer_size == (if size < VALUE_BUFFER_SIZE_DEFAULT { VALUE_BUFFER_SIZE_DEFAULT } else { size }),
                self.lately_local_timestamp == old(self).lately_local_timestamp,
                start == old(self).deque@,
                start.len() >= self.buffer_size ==> self.deque@.len() >= self.buffer_size - 1,
                start.len() < self.buffer_size ==> self.deque@.len() == start.len(),
                start.len() >= self.deque@.len(),
                self.deque@ == start.skip(start.len() - self.deque@.len()),
            decreases self.deque@.len(),
        {
            let _ = self.deque.pop_front();
        }
        proof {
            if start.len() < self.buffer_size {
                assert(start.skip(0) == start);
            }
        }
    }

    /// The basis of the receiving rate at time `now` (nanoseconds since the
    /// Unix epoch); none without samples.
    pub fn frequency_basis(&self, now: u64) -> (f: Option<FrequencyBasis>)
        requires
            self.wf(),
        ensures
            f == frequency_of(self.samples(), self.latest(), now),
    {
        let len = self.deque.len();
        if len == 0 {
            return None;
        }
        let elapsed: u64 = if now >= self.lately_local_timestamp {
            (now - self.lately_local_timestamp) / NANOS_PER_SEC
        } else {
            0
        };
        let dt: u32 = #[verifier::truncate] (elapsed as u32);
        if dt >= 1 {
            return Some(FrequencyBasis::Seconds(dt));
        } else if len == 1 {
            return Some(FrequencyBasis::Single);
        }
        let ghost ts = times_newest_first(self.deque@);
        assert(elapsed == elapsed_secs(now, self.latest()));
        let mut system_time_max: u64 = 0;
        let mut system_time_min: u64 = SCAN_MIN_START;
        let mut i: usize = 0;
        loop
            invariant
                len == self.deque@.len(),
                len >= 2,
                ts == times_newest_first(self.deque@),
                i < len,
                rate_scan(ts, 0, 0, SCAN_MIN_START) == rate_scan(ts, i as int, system_time_max, system_time_min),
                frequency_of(self.samples(), self.latest(), now) == Some(FrequencyBasis::Rate {
                    count: rate_scan(ts, 0, 0, SCAN_MIN_START).0,
                    secs: rate_scan(ts, 0, 0, SCAN_MIN_START).1,
                }),
            decreases len - i,
        {
            let ghost mx0 = system_time_max;
            let ghost mn0 = system_time_min;
            let t = self.deque[len - 1 - i].1;
            assert(t == ts[i as int]);
            if t > system_time_max {
                system_time_max = t;
            }
            if t < system_time_min {
                system_time_min = t;
            }
            let secs: u64 = if system_time_max >= system_time_min {
                (system_time_max - system_time_min) / NANOS_PER_SEC
            } else {
                0
            };
            assert(secs == elapsed_secs(system_time_max, system_time_min));
            if i >= 100 || secs >= 10 || i + 1 >= len {
                assert(rate_scan(ts, i as int, mx0, mn0) == (i as u32, secs));
                return Some(FrequencyBasis::Rate { count: i as u32, secs });
            }
            assert(rate_scan(ts, i as int, mx0, mn0) == rate_scan(ts, i + 1, system_time_max, system_time_min));
            i += 1;
        }
    }
}

impl Default for DataValues {
    fn default() -> (d: DataValues)
        ensures
            d.wf(),
            d.samples() == Seq::<(Sample, u64)>::empty(),
            d.capacity() == VALUE_BUFFER_SIZE_DEFAULT,
            d.latest() == 0,
    {
        DataValues::new()
    }
}

/// One node of the key tree: one level of one or more keys.
pub struct TreeNode {
    pub name: String,
    pub index_own: u32,
    pub index_parent: u32,
    pub index_children: KeyMap<u32>,
    pub key: Option<String>,
}

impl TreeNode {
    /// Names the node.
    pub fn set_name(&mut self, name: &str)
        ensures
            final(self).name@ == name@,
            final(self).index_own == old(self).index_own,
            final(self).index_parent == old(self).index_parent,
            final(self).index_children == old(self).index_children,
            final(self).key == old(self).key,
    {
        self.name = name.to_owned();
    }

    /// Makes node `index` the parent of this one.
    pub fn set_parent(&mut self, index: u32)
        ensures
            final(self).index_parent == index,
            final(self).name == old(self).name,
            final(self).index_own == old(self).index_own,
            final(self).index_children == old(self).index_children,
            final(self).key == old(self).key,
    {
        self.index_parent = index;
    }

    /// Makes the node stand for `key`.
    pub fn set_key(&mut self, key: &str)
        ensures
            final(self).key is Some,
            final(self).key.unwrap()@ == key@,
            final(self).name == old(self).name,
            final(self).index_own == old(self).index_own,
            final(self).index_parent == old(self).index_parent,
            final(self).index_children == old(self).index_children,
    {
        self.key = Some(key.to_owned());
    }
}

/// The key of a node, as characters.
pub open spec fn key_view(k: Option<String>) -> Option<Seq<char>> {
    match k {
        Some(s) => Some(s@),
        None => None,
    }
}

/// The received keys arranged by their levels: a node for each distinct
/// leading run of pieces, numbered in the order they were added.
pub struct Tree {
    index_top_node: KeyMap<u32>,
    mem: Vec<TreeNode>,
}

impl Default for Tree {
    fn default() -> (t: Tree)
        ensures
            t.wf(),
            t.inv(),
            t.count() == 0,
            t.top() == Map::<Seq<char>, u32>::empty(),
    {
        Tree::empty()
    }
}

impl Tree {
    /// The number of nodes.
    pub closed spec fn count(&self) -> int {
        self.mem@.len() as int
    }

    /// The `i`-th node.
    pub closed spec fn node(&self, i: int) -> TreeNode {
        self.mem@[i]
    }

    /// The top-level names and their nodes.
    pub closed spec fn top(&self) -> Map<Seq<char>, u32> {
        self.index_top_node.as_map()
    }

    /// The top nodes by name.
    pub closed spec fn top_map(&self) -> KeyMap<u32> {
        self.index_top_node
    }

    /// The names of the children of node `i` and their nodes.
    pub open spec fn children(&self, i: int) -> Map<Seq<char>, u32> {
        self.node(i).index_children.as_map()
    }

    /// The node reached from the top by following the pieces of `path`.
    pub open spec fn lookup(&self, path: Seq<Seq<char>>) -> Option<int>
        decreases path.len(),
    {
        if path.len() == 0 {
            None
        } else if path.len() == 1 {
            if self.top().contains_key(path[0]) {
                Some(self.top()[path[0]] as int)
            } else {
                None
            }
        } else {
            match self.lookup(path.drop_last()) {
                Some(p) => if 0 <= p < self.count() && self.children(p).contains_key(path.last()) {
                    Some(self.children(p)[path.last()] as int)
                } else {
                    None
                },
                None => None,
            }
        }
    }

    /// The shape of the tree: every node knows its own number, its parent
    /// and its name, the children come after their parent, and a node that
    /// holds a key is the one its pieces lead to.
    pub open spec fn wf(&self) -> bool {
        &&& self.count() < NO_PARENT
        &&& self.top_map().wf()
        &&& forall|i: int| 0 <= i < self.count() ==> (#[trigger] self.node(i)).index_children.wf()
        &&& forall|i: int| 0 <= i < self.count() ==> (#[trigger] self.node(i)).index_own == i
        &&& forall|name: Seq<char>| #[trigger] self.top().contains_key(name) ==> {
            let j = self.top()[name] as int;
            &&& 0 <= j < self.count()
            &&& self.node(j).name@ == name
            &&& self.node(j).index_parent == NO_PARENT
        }
        &&& forall|i: int, name: Seq<char>| 0 <= i < self.count() && #[trigger] self.children(i).contains_key(name) ==> {
            let j = self.children(i)[name] as int;
            &&& i < j < self.count()
            &&& self.node(j).name@ == name
            &&& self.node(j).index_parent == i
        }
        &&& forall|i: int| 0 <= i < self.count() && (#[trigger] self.node(i)).key is Some ==>
            self.lookup(key_path(self.node(i).key.unwrap()@)) == Some(i)
    }

    /// A lookup that succeeds lands on a node whose name is the last piece
    /// and whose parent is where the rest of the path leads.
    pub proof fn lemma_lookup_node(&self, path: Seq<Seq<char>>)
        requires
            self.wf(),
            self.lookup(path) is Some,
        ensures
            0 <= self.lookup(path).unwrap() < self.count(),
            path.len() >= 1,
            self.node(self.lookup(path).unwrap()).name@ == path.last(),
            path.len() == 1 ==> self.node(self.lookup(path).unwrap()).index_parent == NO_PARENT,
            path.len() > 1 ==> self.lookup(path.drop_last()) is Some && self.node(self.lookup(path).unwrap()).index_parent
                == self.lookup(path.drop_last()).unwrap(),
    {
        if path.len() == 1 {
            assert(self.top().contains_key(path[0]));
        } else {
            let p = self.lookup(path.drop_last()).unwrap();
            assert(self.children(p).contains_key(path.last()));
        }
    }

    /// Different paths lead to different nodes.
    pub proof fn lemma_lookup_injective(&self, p: Seq<Seq<char>>, q: Seq<Seq<char>>)
        requires
            self.wf(),
            self.lookup(p) is Some,
            self.lookup(p) == self.lookup(q),
        ensures
            p == q,
        decreases p.len(),
    {
        self.lemma_lookup_node(p);
        self.lemma_lookup_node(q);
        if p.len() > 1 && q.len() > 1 {
            self.lemma_lookup_node(p.drop_last());
            self.lemma_lookup_injective(p.drop_last(), q.drop_last());
            assert(p == p.drop_last().push(p.last()));
            assert(q == q.drop_last().push(q.last()));
        } else if p.len() > 1 {
            self.lemma_lookup_node(p.drop_last());
        } else if q.len() > 1 {
            self.lemma_lookup_node(q.drop_last());
        } else {
            assert(p == seq![p[0]]);
            assert(q == seq![q[0]]);
        }
    }


    /// `self` holds everything `old` holds: the same nodes with the same
    /// names and parents, and every link of `old`, perhaps with more.
    pub open spec fn extends(&self, old: Tree) -> bool {
        &&& old.count() <= self.count()
        &&& forall|name: Seq<char>| #[trigger] old.top().contains_key(name) ==>
            self.top().contains_key(name) && self.top()[name] == old.top()[name]
        &&& forall|i: int, name: Seq<char>| 0 <= i < old.count() && #[trigger] old.children(i).contains_key(name) ==>
            self.children(i).contains_key(name) && self.children(i)[name] == old.children(i)[name]
        &&& forall|i: int| 0 <= i < old.count() ==> {
            &&& (#[trigger] self.node(i)).name == old.node(i).name
            &&& self.node(i).index_parent == old.node(i).index_parent
            &&& self.node(i).index_own == old.node(i).index_own
        }
    }

    /// What a lookup finds in `old`, it finds in a tree that extends `old`.
    pub proof fn lemma_extends_lookup(&self, old: Tree, path: Seq<Seq<char>>)
        requires
            self.extends(old),
            old.wf(),
            old.lookup(path) is Some,
        ensures
            self.lookup(path) == old.lookup(path),
        decreases path.len(),
    {
        if path.len() == 1 {
            assert(old.top().contains_key(path[0]));
        } else {
            old.lemma_lookup_node(path);
            self.lemma_extends_lookup(old, path.drop_last());
            let p = old.lookup(path.drop_last()).unwrap();
            old.lemma_lookup_node(path.drop_last());
            assert(old.children(p).contains_key(path.last()));
        }
    }

    /// If a path leads somewhere, so does every leading part of it.
    pub proof fn lemma_prefix_closed(&self, path: Seq<Seq<char>>, q: int, m: int)
        requires
            1 <= m <= q <= path.len(),
            self.lookup(path.take(q)) is Some,
        ensures
            self.lookup(path.take(m)) is Some,
        decreases q - m,
    {
        if q > m {
            assert(path.take(q).drop_last() == path.take(q - 1));
            self.lemma_prefix_closed(path, q - 1, m);
        }
    }

    /// After a new top-level link to a fresh node, the tree is well formed
    /// again and holds everything it held.
    proof fn lemma_top_insert(&self, t0: Tree, name: Seq<char>, idx: int)
        requires
            t0.wf(),
            !t0.top().contains_key(name),
            idx == t0.count(),
            self.count() == t0.count() + 1,
            self.count() < NO_PARENT,
            self.top_map().wf(),
            self.top() == t0.top().insert(name, idx as u32),
            forall|i: int| 0 <= i < t0.count() ==> #[trigger] self.node(i) == t0.node(i),
            self.node(idx).index_children.wf(),
            self.node(idx).index_own == idx,
            self.node(idx).name@ == name,
            self.node(idx).index_parent == NO_PARENT,
            self.node(idx).key is None,
            self.children(idx) == Map::<Seq<char>, u32>::empty(),
        ensures
            self.wf(),
            self.extends(t0),
            forall|i: int| 0 <= i < self.count() ==> #[trigger] self.node(i).key == (if i < t0.count() { t0.node(i).key } else { None::<String> }),
            self.lookup(seq![name]) == Some(idx),
    {
        assert forall|i: int, n: Seq<char>| 0 <= i < self.count() && #[trigger] self.children(i).contains_key(n) implies {
            let j = self.children(i)[n] as int;
            &&& i < j < self.count()
            &&& self.node(j).name@ == n
            &&& self.node(j).index_parent == i
        } by {
            if i < t0.count() {
                assert(t0.children(i).contains_key(n));
                let j = t0.children(i)[n] as int;
                assert(self.node(j) == t0.node(j));
            }
        }
        assert forall|n: Seq<char>| #[trigger] self.top().contains_key(n) implies {
            let j = self.top()[n] as int;
            &&& 0 <= j < self.count()
            &&& self.node(j).name@ == n
            &&& self.node(j).index_parent == NO_PARENT
        } by {
            if n != name {
                let j = t0.top()[n] as int;
                assert(self.node(j) == t0.node(j));
            }
        }
        assert forall|i: int| 0 <= i < self.count() implies (#[trigger] self.node(i)).index_own == i by {
            if i < t0.count() {
                assert(self.node(i) == t0.node(i));
            }
        }
        assert forall|i: int| 0 <= i < self.count() implies (#[trigger] self.node(i)).index_children.wf() by {
            if i < t0.count() {
                assert(self.node(i) == t0.node(i));
            }
        }
        assert(self.extends(t0));
        self.lemma_keys_carry(t0);
        assert(seq![name].len() == 1 && seq![name][0] == name);
    }

    /// After a new link from node `p` to a fresh node, the tree is well
    /// formed again and holds everything it held.
    proof fn lemma_child_insert(&self, before: Tree, t0: Tree, p: int, name: Seq<char>, idx: int)
        requires
            before.wf(),
            t0.wf(),
            before.extends(t0),
            forall|i: int| 0 <= i < before.count() ==> #[trigger] before.node(i).key == (if i < t0.count() { t0.node(i).key } else { None::<String> }),
            0 <= p < before.count(),
            !before.children(p).contains_key(name),
            idx == before.count(),
            self.count() == before.count() + 1,
            self.top() == before.top(),
            self.top_map() == before.top_map(),
            forall|i: int| 0 <= i < before.count() && i != p ==> #[trigger] self.node(i) == before.node(i),
            self.node(p).name == before.node(p).name,
            self.node(p).index_parent == before.node(p).index_parent,
            self.node(p).index_own == before.node(p).index_own,
            self.node(p).key == before.node(p).key,
            self.node(p).index_children.wf(),
            self.children(p) == before.children(p).insert(name, idx as u32),
            self.node(idx).index_children.wf(),
            self.node(idx).index_own == idx,
            self.node(idx).name@ == name,
            self.node(idx).index_parent == p,
            self.node(idx).key is None,
            self.children(idx) == Map::<Seq<char>, u32>::empty(),
            self.count() < NO_PARENT,
        ensures
            self.wf(),
            self.extends(before),
            self.extends(t0),
            forall|i: int| 0 <= i < self.count() ==> #[trigger] self.node(i).key == (if i < t0.count() { t0.node(i).key } else { None::<String> }),
    {
        assert forall|i: int, n: Seq<char>| 0 <= i < self.count() && #[trigger] self.children(i).contains_key(n) implies {
            let j = self.children(i)[n] as int;
            &&& i < j < self.count()
            &&& self.node(j).name@ == n
            &&& self.node(j).index_parent == i
        } by {
            if i < before.count() && !(i == p && n == name) {
                assert(before.children(i).contains_key(n));
                let j = before.children(i)[n] as int;
                if j != p {
                    assert(self.node(j) == before.node(j));
                }
            }
        }
        assert forall|n: Seq<char>| #[trigger] self.top().contains_key(n) implies {
            let j = self.top()[n] as int;
            &&& 0 <= j < self.count()
            &&& self.node(j).name@ == n
            &&& self.node(j).index_parent == NO_PARENT
        } by {
            let j = before.top()[n] as int;
            if j != p {
                assert(self.node(j) == before.node(j));
            }
        }
        assert forall|i: int| 0 <= i < self.count() implies (#[trigger] self.node(i)).index_own == i by {
            if i < before.count() && i != p {
                assert(self.node(i) == before.node(i));
            }
        }
        assert forall|i: int| 0 <= i < self.count() implies (#[trigger] self.node(i)).index_children.wf() by {
            if i < before.count() && i != p {
                assert(self.node(i) == before.node(i));
            }
        }
        assert(self.extends(before));
        assert(self.extends(t0));
        assert forall|i: int| 0 <= i < self.count() implies #[trigger] self.node(i).key == (if i < t0.count() { t0.node(i).key } else { None::<String> }) by {
            if i < before.count() {
                assert(before.node(i).key == (if i < t0.count() { t0.node(i).key } else { None::<String> }));
            }
        }
        self.lemma_keys_carry(t0);
    }

    /// Keys kept from a well-formed tree still lead to their nodes in a tree
    /// that extends it.
    proof fn lemma_keys_carry(&self, t0: Tree)
        requires
            t0.wf(),
            self.extends(t0),
            forall|i: int| 0 <= i < self.count() ==> #[trigger] self.node(i).key == (if i < t0.count() { t0.node(i).key } else { None::<String> }),
        ensures
            forall|i: int| 0 <= i < self.count() && (#[trigger] self.node(i)).key is Some ==>
                self.lookup(key_path(self.node(i).key.unwrap()@)) == Some(i),
    {
        assert forall|i: int| 0 <= i < self.count() && (#[trigger] self.node(i)).key is Some implies
            self.lookup(key_path(self.node(i).key.unwrap()@)) == Some(i) by {
            assert(self.node(i).key == (if i < t0.count() { t0.node(i).key } else { None::<String> }));
            assert(i < t0.count());
            assert(t0.node(i).key is Some);
            self.lemma_extends_lookup(t0, key_path(self.node(i).key.unwrap()@));
        }
    }

    /// Recording a key on the node its pieces lead to keeps the tree well
    /// formed.
    proof fn lemma_set_key(&self, t2: Tree, n: int, key: Seq<char>)
        requires
            t2.wf(),
            0 <= n < t2.count(),
            t2.lookup(key_path(key)) == Some(n),
            self.count() == t2.count(),
            self.top_map() == t2.top_map(),
            forall|i: int| 0 <= i < self.count() && i != n ==> #[trigger] self.node(i) == t2.node(i),
            self.node(n).name == t2.node(n).name,
            self.node(n).index_own == t2.node(n).index_own,
            self.node(n).index_parent == t2.node(n).index_parent,
            self.node(n).index_children == t2.node(n).index_children,
            key_view(self.node(n).key) == Some(key),
        ensures
            self.wf(),
            self.extends(t2),
            forall|p: Seq<Seq<char>>| #[trigger] self.lookup(p) == t2.lookup(p),
    {
        assert forall|i: int| 0 <= i < self.count() implies #[trigger] self.children(i) == t2.children(i) by {
            if i != n {
                assert(self.node(i) == t2.node(i));
            }
        }
        assert forall|p: Seq<Seq<char>>| #[trigger] self.lookup(p) == t2.lookup(p) by {
            self.lemma_same_links_lookup(t2, p);
        }
        assert forall|i: int, nm: Seq<char>| 0 <= i < self.count() && #[trigger] self.children(i).contains_key(nm) implies {
            let j = self.children(i)[nm] as int;
            &&& i < j < self.count()
            &&& self.node(j).name@ == nm
            &&& self.node(j).index_parent == i
        } by {
            assert(t2.children(i).contains_key(nm));
            let j = t2.children(i)[nm] as int;
            if j != n {
                assert(self.node(j) == t2.node(j));
            }
        }
        assert forall|nm: Seq<char>| #[trigger] self.top().contains_key(nm) implies {
            let j = self.top()[nm] as int;
            &&& 0 <= j < self.count()
            &&& self.node(j).name@ == nm
            &&& self.node(j).index_parent == NO_PARENT
        } by {
            let j = t2.top()[nm] as int;
            if j != n {
                assert(self.node(j) == t2.node(j));
            }
        }
        assert forall|i: int| 0 <= i < self.count() implies (#[trigger] self.node(i)).index_own == i by {
            if i != n {
                assert(self.node(i) == t2.node(i));
            }
        }
        assert forall|i: int| 0 <= i < self.count() implies (#[trigger] self.node(i)).index_children.wf() by {
            if i != n {
                assert(self.node(i) == t2.node(i));
            }
        }
        assert forall|i: int| 0 <= i < self.count() && (#[trigger] self.node(i)).key is Some implies
            self.lookup(key_path(self.node(i).key.unwrap()@)) == Some(i) by {
            if i != n {
                assert(self.node(i) == t2.node(i));
                assert(self.lookup(key_path(self.node(i).key.unwrap()@)) == t2.lookup(key_path(self.node(i).key.unwrap()@)));
            } else {
                assert(self.node(i).key.unwrap()@ == key);
            }
        }
        assert(self.extends(t2));
    }

    /// Trees with the same links give the same lookups.
    proof fn lemma_same_links_lookup(&self, t2: Tree, p: Seq<Seq<char>>)
        requires
            self.count() == t2.count(),
            self.top() == t2.top(),
            forall|i: int| 0 <= i < self.count() ==> #[trigger] self.children(i) == t2.children(i),
        ensures
            self.lookup(p) == t2.lookup(p),
        decreases p.len(),
    {
        if p.len() > 1 {
            self.lemma_same_links_lookup(t2, p.drop_last());
            match self.lookup(p.drop_last()) {
                Some(q) => {
                    if 0 <= q < self.count() {
                        assert(self.children(q) == t2.children(q));
                    }
                },
                None => {},
            }
        }
    }

    /// Appends a node without a name, a parent, children or a key, and
    /// returns its number.
    pub fn new_node(&mut self) -> (index: u32)
        requires
            old(self).wf(),
            old(self).count() + 1 < NO_PARENT,
        ensures
            final(self).wf(),
            final(self).extends(*old(self)),
            index == old(self).count(),
            final(self).count() == old(self).count() + 1,
            final(self).top() == old(self).top(),
            final(self).top_map() == old(self).top_map(),
            forall|i: int| 0 <= i < old(self).count() ==> #[trigger] final(self).node(i) == old(self).node(i),
            final(self).node(index as int).name@ == Seq::<char>::empty(),
            final(self).node(index as int).index_parent == NO_PARENT,
            final(self).node(index as int).key is None,
            final(self).children(index as int) == Map::<Seq<char>, u32>::empty(),
    {
        let ghost t0 = *self;
        let index = self.mem.len() as u32;
        let children = KeyMap::new();
        self.mem.push(TreeNode {
            name: String::new(),
            index_own: index,
            index_parent: NO_PARENT,
            index_children: children,
            key: None,
        });
        proof {
            assert forall|i: int| 0 <= i < t0.count() implies #[trigger] self.node(i) == t0.node(i) by {}
            assert(self.children(index as int) =~= Map::<Seq<char>, u32>::empty());
            assert forall|i: int, name: Seq<char>| 0 <= i < self.count() && #[trigger] self.children(i).contains_key(name) implies {
                let j = self.children(i)[name] as int;
                &&& i < j < self.count()
                &&& self.node(j).name@ == name
                &&& self.node(j).index_parent == i
            } by {
                if i < t0.count() {
                    assert(self.node(i) == t0.node(i));
                    assert(t0.children(i).contains_key(name));
                    let j = t0.children(i)[name] as int;
                    assert(self.node(j) == t0.node(j));
                }
            }
            assert(self.extends(t0));
            assert forall|i: int| 0 <= i < self.count() && (#[trigger] self.node(i)).key is Some implies
                self.lookup(key_path(self.node(i).key.unwrap()@)) == Some(i) by {
                self.lemma_extends_lookup(t0, key_path(self.node(i).key.unwrap()@));
            }
        }
        index
    }

    /// `self` is `old` with `key` added: it is well formed and holds all of
    /// `old`; the pieces of `key` lead to a node that records `key`; no other
    /// node's key changed, and new nodes have none; and the runs of pieces
    /// that `old` lacked, from the first one missing on, got new nodes
    /// numbered from `old`'s count up, shorter runs first.
    pub open spec fn key_added(&self, old: Tree, key: Seq<char>) -> bool {
        &&& self.wf()
        &&& self.extends(old)
        &&& self.lookup(key_path(key)) is Some
        &&& key_view(self.node(self.lookup(key_path(key)).unwrap()).key) == Some(key)
        &&& forall|i: int| 0 <= i < self.count() && Some(i) != self.lookup(key_path(key)) ==>
            #[trigger] self.node(i).key == (if i < old.count() { old.node(i).key } else { None::<String> })
        &&& exists|k: int| #![trigger old.lookup(key_path(key).take(k + 1))] {
            &&& 0 <= k <= key_path(key).len()
            &&& forall|m: int| 1 <= m <= k ==> (#[trigger] old.lookup(key_path(key).take(m))) is Some
            &&& k < key_path(key).len() ==> old.lookup(key_path(key).take(k + 1)) is None
            &&& self.count() == old.count() + key_path(key).len() - k
            &&& forall|m: int| k < m <= key_path(key).len() ==>
                (#[trigger] self.lookup(key_path(key).take(m))) == Some(old.count() + m - k - 1)
        }
    }

    #[verifier::spinoff_prover]
    #[verifier::rlimit(40)]
    /// Adds `key`: follows its pieces from the top, adds a node for each
    /// piece that is not there yet, and records the key on the last one.
    pub fn add_node(&mut self, key: &str)
        requires
            old(self).wf(),
            old(self).count() + key_path(key@).len() < NO_PARENT,
        ensures
            final(self).key_added(*old(self), key@),
            old(self).reached() ==> final(self).reached(),
    {
        let ghost t0 = *self;
        let ghost path = key_path(key@);
        let segs = split_chars(key, '/');
        proof {
            lemma_split_on_nonempty(key@, '/');
            assert(path.take(1) == seq![path[0]]);
        }
        let ghost mut created: bool = false;
        let ghost mut k: int = 0;
        let mut index_now: u32;
        match self.index_top_node.get(segs[0].as_str()) {
            Some(i) => {
                index_now = *i;
            },
            None => {
                let idx = self.new_node();
                let ghost tn = *self;
                self.mem[idx as usize].set_name(segs[0].as_str());
                let ghost t1 = *self;
                let first = segs[0].clone();
                self.index_top_node.insert(first, idx);
                index_now = idx;
                proof {
                    created = true;
                    k = 0;
                    assert(!t0.top().contains_key(path[0]));
                    assert forall|i: int| 0 <= i < self.count() && i != idx implies #[trigger] self.node(i) == tn.node(i) by {
                        assert(t1.node(i) == tn.node(i));
                    }
                    assert(self.top() == t0.top().insert(path[0], idx));
                    self.lemma_top_insert(t0, path[0], idx as int);
                }
            },
        }
        let mut j: usize = 1;
        while j < segs.len()
            invariant
                self.wf(),
                self.extends(t0),
                t0.wf(),
                path == key_path(key@),
                segs@.len() == path.len(),
                forall|i: int| 0 <= i < segs@.len() ==> #[trigger] segs@[i]@ == path[i],
                1 <= j <= segs@.len(),
                self.lookup(path.take(j as int)) == Some(index_now as int),
                self.count() + (path.len() - j) < NO_PARENT,
                forall|i: int| 0 <= i < self.count() ==> #[trigger] self.node(i).key == (if i < t0.count() { t0.node(i).key } else { None::<String> }),
                !created ==> *self == t0,
                created ==> {
                    &&& 0 <= k < j
                    &&& forall|m: int| 1 <= m <= k ==> (#[trigger] t0.lookup(path.take(m))) is Some
                    &&& t0.lookup(path.take(k + 1)) is None
                    &&& self.count() == t0.count() + j - k
                    &&& forall|m: int| k < m <= j ==> (#[trigger] self.lookup(path.take(m))) == Some(t0.count() + m - k - 1)
                    &&& self.children(index_now as int) == Map::<Seq<char>, u32>::empty()
                },
            decreases segs@.len() - j,
        {
            let ghost before = *self;
            proof {
                assert(path.take(j + 1).drop_last() == path.take(j as int));
                assert(path.take(j + 1).last() == path[j as int]);
                self.lemma_lookup_node(path.take(j as int));
            }
            match self.mem[index_now as usize].index_children.get(segs[j].as_str()) {
                Some(c) => {
                    index_now = *c;
                    proof {
                        if !created {
                            assert forall|m: int| 1 <= m <= j + 1 implies (#[trigger] t0.lookup(path.take(m))) is Some by {
                                t0.lemma_prefix_closed(path, j + 1, m);
                            }
                        }
                    }
                },
                None => {
                    let idx = self.new_node();
                    let ghost tn = *self;
                    self.mem[idx as usize].set_name(segs[j].as_str());
                    self.mem[idx as usize].set_parent(index_now);
                    let ghost t1 = *self;
                    let name = segs[j].clone();
                    self.mem[index_now as usize].index_children.insert(name, idx);
                    proof {
                        if !created {
                            created = true;
                            k = j as int;
                            assert forall|m: int| 1 <= m <= k implies (#[trigger] t0.lookup(path.take(m))) is Some by {
                                t0.lemma_prefix_closed(path, j as int, m);
                            }
                        }
                        assert(!before.children(index_now as int).contains_key(path[j as int]));
                        assert forall|i: int| 0 <= i < self.count() && i != idx && i != index_now implies #[trigger] self.node(i) == tn.node(i) by {
                            assert(t1.node(i) == tn.node(i));
                        }
                        assert(self.node(index_now as int).name == tn.node(index_now as int).name);
                        assert(self.node(index_now as int).index_parent == tn.node(index_now as int).index_parent);
                        assert(self.node(index_now as int).index_own == tn.node(index_now as int).index_own);
                        assert(self.node(index_now as int).key == tn.node(index_now as int).key);
                        assert(self.children(index_now as int) == before.children(index_now as int).insert(path[j as int], idx));
                        self.lemma_child_insert(before, t0, index_now as int, path[j as int], idx as int);
                        assert forall|m: int| k < m <= j implies (#[trigger] self.lookup(path.take(m))) == Some(t0.count() + m - k - 1) by {
                            self.lemma_extends_lookup(before, path.take(m));
                        }
                        self.lemma_extends_lookup(before, path.take(j as int));
                        assert(self.lookup(path.take(j + 1)) == Some(idx as int));
                    }
                    index_now = idx;
                },
            }
            j += 1;
        }
        let ghost t2 = *self;
        self.mem[index_now as usize].set_key(key);
        proof {
            assert(path.take(path.len() as int) == path);
            assert forall|i: int| 0 <= i < self.count() && i != index_now implies #[trigger] self.node(i) == t2.node(i) by {}
            self.lemma_set_key(t2, index_now as int, key@);
        }
        proof {
            if !created {
                k = path.len() as int;
                assert forall|m: int| 1 <= m <= k implies (#[trigger] t0.lookup(path.take(m))) is Some by {
                    t0.lemma_prefix_closed(path, path.len() as int, m);
                }
            }
            assert(0 <= k <= path.len());
            assert(self.count() == t0.count() + path.len() - k);
            assert forall|m: int| k < m <= path.len() implies
                (#[trigger] self.lookup(path.take(m))) == Some(t0.count() + m - k - 1) by {
                self.lemma_extends_lookup(t2, path.take(m));
            }
            assert(k < path.len() ==> t0.lookup(path.take(k + 1)) is None);
            assert(self.key_added(t0, key@));
            if t0.reached() {
                self.lemma_add_node_keeps_reach(t0, key@);
            }
        }
    }

    /// The node that the pieces of `key` lead to records `key`.
    pub open spec fn holds_key(&self, key: Seq<char>) -> bool {
        &&& self.lookup(key_path(key)) is Some
        &&& key_view(self.node(self.lookup(key_path(key)).unwrap()).key) == Some(key)
    }

    /// Node `i` is reached by a leading part of the pieces of `key`.
    pub open spec fn on_path(&self, i: int, key: Seq<char>) -> bool {
        exists|m: int| 1 <= m <= key_path(key).len() && #[trigger] self.lookup(key_path(key).take(m)) == Some(i)
    }

    /// Node `i` lies on the path of one of `keys`.
    pub open spec fn on_some_path(&self, i: int, keys: Seq<Seq<char>>) -> bool {
        exists|a: int| 0 <= a < keys.len() && #[trigger] self.on_path(i, keys[a])
    }

    /// The tree shows exactly `keys`: each of them is recorded on the node
    /// its pieces lead to, every recorded key is one of them, and every node
    /// lies on the path of one of them.
    pub open spec fn shows_keys(&self, keys: Seq<Seq<char>>) -> bool {
        &&& self.wf()
        &&& forall|a: int| 0 <= a < keys.len() ==> self.holds_key(#[trigger] keys[a])
        &&& forall|i: int| 0 <= i < self.count() && (#[trigger] self.node(i)).key is Some ==>
            keys.contains(self.node(i).key.unwrap()@)
        &&& forall|i: int| 0 <= i < self.count() ==> #[trigger] self.on_some_path(i, keys)
    }

    /// The nodes are numbered by `runs`: the `i`-th run of pieces leads to
    /// node `i`, and every path that leads somewhere is one of them.
    pub open spec fn numbered_by(&self, runs: Seq<Seq<Seq<char>>>) -> bool {
        &&& self.count() == runs.len()
        &&& forall|i: int| 0 <= i < runs.len() ==> self.lookup(#[trigger] runs[i]) == Some(i)
        &&& forall|p: Seq<Seq<char>>| #[trigger] self.lookup(p) is Some ==> runs.contains(p)
    }

    /// Adding a key to a tree numbered by `d` gives a tree numbered by `d`
    /// followed by the runs of pieces of the key that `d` lacks, shorter first.
    pub proof fn lemma_numbered_after_add(&self, old: Tree, key: Seq<char>, d: Seq<Seq<Seq<char>>>)
        requires
            old.wf(),
            old.numbered_by(d),
            self.key_added(old, key),
        ensures
            self.numbered_by(runs_added(d, key_path(key), key_path(key).len() as int)),
    {
        let p = key_path(key);
        let n = p.len() as int;
        let k = choose|k: int| #![trigger old.lookup(p.take(k + 1))] {
            &&& 0 <= k <= p.len()
            &&& forall|m: int| 1 <= m <= k ==> (#[trigger] old.lookup(p.take(m))) is Some
            &&& k < p.len() ==> old.lookup(p.take(k + 1)) is None
            &&& self.count() == old.count() + p.len() - k
            &&& forall|m: int| k < m <= p.len() ==> (#[trigger] self.lookup(p.take(m))) == Some(old.count() + m - k - 1)
        };
        assert forall|q: int| 1 <= q <= k implies d.contains(#[trigger] p.take(q)) by {
            assert(old.lookup(p.take(q)) is Some);
        }
        assert forall|q: int| k < q <= n implies !d.contains(#[trigger] p.take(q)) by {
            if d.contains(p.take(q)) {
                let i = choose|i: int| 0 <= i < d.len() && d[i] == p.take(q);
                assert(old.lookup(d[i]) == Some(i));
                old.lemma_prefix_closed(p, q, k + 1);
            }
        }
        lemma_runs_added(d, p, k, n);
        let r = runs_added(d, p, n);
        assert(r.len() == self.count());
        assert forall|i: int| 0 <= i < r.len() implies self.lookup(#[trigger] r[i]) == Some(i) by {
            if i < d.len() {
                assert(old.lookup(d[i]) == Some(i));
                self.lemma_extends_lookup(old, d[i]);
            } else {
                let j = i - d.len() + k + 1;
                assert(r[d.len() + j - k - 1] == p.take(j));
                assert(self.lookup(p.take(j)) == Some(old.count() + j - k - 1));
            }
        }
        assert forall|q: Seq<Seq<char>>| #[trigger] self.lookup(q) is Some implies r.contains(q) by {
            self.lemma_lookup_node(q);
            let i = self.lookup(q).unwrap();
            assert(self.lookup(r[i]) == Some(i));
            self.lemma_lookup_injective(q, r[i]);
        }
    }

    /// Node `i` is reached from the top by some path of pieces.
    pub open spec fn is_reached(&self, i: int) -> bool {
        exists|p: Seq<Seq<char>>| #[trigger] self.lookup(p) == Some(i)
    }

    /// Every node is reached from the top by some path of pieces.
    pub open spec fn reached(&self) -> bool {
        forall|i: int| 0 <= i < self.count() ==> #[trigger] self.is_reached(i)
    }

    /// The tree's invariant: it is well formed, and every node is reached
    /// from the top, by exactly one path (see `lemma_lookup_injective`).
    /// Every tree built from an empty one by adding keys keeps it.
    pub open spec fn inv(&self) -> bool {
        &&& self.wf()
        &&& self.reached()
    }

    /// `self` and `other` have the same nodes: the same names, numbers,
    /// parents, keys and links.
    pub open spec fn same_nodes(&self, other: Tree) -> bool {
        &&& self.count() == other.count()
        &&& self.top() == other.top()
        &&& forall|i: int| 0 <= i < self.count() ==> #[trigger] self.children(i) == other.children(i)
        &&& forall|i: int| 0 <= i < self.count() ==> {
            &&& (#[trigger] self.node(i)).name@ == other.node(i).name@
            &&& self.node(i).index_own == other.node(i).index_own
            &&& self.node(i).index_parent == other.node(i).index_parent
            &&& key_view(self.node(i).key) == key_view(other.node(i).key)
        }
    }

    /// Adding a key keeps every node reached from the top, and each node is
    /// reached by exactly one path.
    pub proof fn lemma_add_node_keeps_reach(&self, old: Tree, key: Seq<char>)
        requires
            old.wf(),
            old.reached(),
            self.key_added(old, key),
        ensures
            self.reached(),
            forall|p: Seq<Seq<char>>, q: Seq<Seq<char>>| #[trigger] self.lookup(p) is Some && self.lookup(p) == #[trigger] self.lookup(q) ==> p == q,
    {
        let path = key_path(key);
        let k = choose|k: int| #![trigger old.lookup(path.take(k + 1))] {
            &&& 0 <= k <= path.len()
            &&& forall|m: int| 1 <= m <= k ==> (#[trigger] old.lookup(path.take(m))) is Some
            &&& k < path.len() ==> old.lookup(path.take(k + 1)) is None
            &&& self.count() == old.count() + path.len() - k
            &&& forall|m: int| k < m <= path.len() ==> (#[trigger] self.lookup(path.take(m))) == Some(old.count() + m - k - 1)
        };
        assert forall|i: int| 0 <= i < self.count() implies #[trigger] self.is_reached(i) by {
            if i < old.count() {
                assert(old.is_reached(i));
                let p = choose|p: Seq<Seq<char>>| #[trigger] old.lookup(p) == Some(i);
                self.lemma_extends_lookup(old, p);
                assert(self.lookup(p) == Some(i));
            } else {
                let m = i - old.count() + k + 1;
                assert(self.lookup(path.take(m)) == Some(i));
            }
        }
        assert forall|p: Seq<Seq<char>>, q: Seq<Seq<char>>| #[trigger] self.lookup(p) is Some && self.lookup(p) == #[trigger] self.lookup(q) implies p == q by {
            self.lemma_lookup_injective(p, q);
        }
    }

    /// Adding the same key twice leaves the tree as adding it once did.
    pub proof fn lemma_add_node_twice(&self, once: Tree, start: Tree, key: Seq<char>)
        requires
            start.inv(),
            once.key_added(start, key),
            self.key_added(once, key),
        ensures
            self.same_nodes(once),
    {
        once.lemma_add_node_keeps_reach(start, key);
        let path = key_path(key);
        let k = choose|k: int| #![trigger once.lookup(path.take(k + 1))] {
            &&& 0 <= k <= path.len()
            &&& forall|m: int| 1 <= m <= k ==> (#[trigger] once.lookup(path.take(m))) is Some
            &&& k < path.len() ==> once.lookup(path.take(k + 1)) is None
            &&& self.count() == once.count() + path.len() - k
            &&& forall|m: int| k < m <= path.len() ==> (#[trigger] self.lookup(path.take(m))) == Some(once.count() + m - k - 1)
        };
        once.lemma_lookup_node(path);
        assert(path.take(path.len() as int) == path);
        if k < path.len() {
            once.lemma_prefix_closed(path, path.len() as int, k + 1);
        }
        assert(self.count() == once.count());
        assert forall|name: Seq<char>| #[trigger] self.top().contains_key(name) implies once.top().contains_key(name) by {
            let j = self.top()[name] as int;
            assert(once.is_reached(j));
            let q = choose|q: Seq<Seq<char>>| #[trigger] once.lookup(q) == Some(j);
            once.lemma_lookup_node(q);
            if q.len() > 1 {
                once.lemma_lookup_node(q.drop_last());
            }
            assert(q.len() == 1);
        }
        assert(self.top() =~= once.top());
        assert forall|i: int| 0 <= i < self.count() implies #[trigger] self.children(i) == once.children(i) by {
            assert forall|name: Seq<char>| #[trigger] self.children(i).contains_key(name) implies once.children(i).contains_key(name) by {
                let j = self.children(i)[name] as int;
                assert(once.is_reached(j));
                let q = choose|q: Seq<Seq<char>>| #[trigger] once.lookup(q) == Some(j);
                once.lemma_lookup_node(q);
                assert(q.len() > 1);
                once.lemma_lookup_node(q.drop_last());
            }
            assert(self.children(i) =~= once.children(i));
        }
        self.lemma_extends_lookup(once, path);
    }

    /// The tree of the keys in `key_list`, added in order.
    pub fn new(key_list: &Vec<String>) -> (tree: Tree)
        requires
            pieces_total(string_views(key_list@)) < NO_PARENT,
        ensures
            tree.shows_keys(string_views(key_list@)),
            tree.numbered_by(key_runs(string_views(key_list@))),
            tree.inv(),
    {
        let ghost ks = string_views(key_list@);
        let mut tree = Tree::empty();
        proof {
            assert forall|p: Seq<Seq<char>>| #[trigger] tree.lookup(p) is Some implies key_runs(ks.take(0)).contains(p) by {
                tree.lemma_lookup_node(p);
            }
        }
        let mut i: usize = 0;
        while i < key_list.len()
            invariant
                i <= key_list@.len(),
                ks == string_views(key_list@),
                pieces_total(ks) < NO_PARENT,
                tree.count() <= pieces_total(ks.take(i as int)),
                tree.shows_keys(ks.take(i as int)),
                tree.numbered_by(key_runs(ks.take(i as int))),
            decreases key_list@.len() - i,
        {
            let ghost t0 = tree;
            let ghost key = ks[i as int];
            let ghost pre = ks.take(i as int);
            let ghost post = ks.take(i + 1);
            proof {
                assert(post.drop_last() == pre);
                assert(post.last() == key);
                lemma_pieces_total_prefix(ks, i + 1);
            }
            tree.add_node(key_list[i].as_str());
            proof {
                tree.lemma_numbered_after_add(t0, key, key_runs(pre));
                let n = tree.lookup(key_path(key)).unwrap();
                assert forall|a: int| 0 <= a < post.len() implies tree.holds_key(#[trigger] post[a]) by {
                    if a < i {
                        let e = post[a];
                        assert(e == pre[a]);
                        assert(t0.holds_key(pre[a]));
                        tree.lemma_extends_lookup(t0, key_path(e));
                        let na = t0.lookup(key_path(e)).unwrap();
                        if na == n {
                            tree.lemma_lookup_injective(key_path(e), key_path(key));
                            lemma_key_path_injective(e, key);
                        } else {
                            assert(tree.node(na).key == t0.node(na).key);
                        }
                    }
                }
                assert forall|m: int| 0 <= m < tree.count() && (#[trigger] tree.node(m)).key is Some implies
                    post.contains(tree.node(m).key.unwrap()@) by {
                    if m == n {
                        assert(post[i as int] == tree.node(m).key.unwrap()@);
                    } else {
                        assert(tree.node(m).key == (if m < t0.count() { t0.node(m).key } else { None::<String> }));
                        assert(t0.node(m).key is Some);
                        assert(pre.contains(t0.node(m).key.unwrap()@));
                        let a = choose|a: int| 0 <= a < pre.len() && pre[a] == t0.node(m).key.unwrap()@;
                        assert(post[a] == tree.node(m).key.unwrap()@);
                    }
                }
                assert forall|m: int| 0 <= m < tree.count() implies #[trigger] tree.on_some_path(m, post) by {
                    if m < t0.count() {
                        assert(t0.on_some_path(m, pre));
                        let a = choose|a: int| 0 <= a < pre.len() && #[trigger] t0.on_path(m, pre[a]);
                        let e = pre[a];
                        assert(post[a] == e);
                        let q = choose|q: int| 1 <= q <= key_path(e).len() && #[trigger] t0.lookup(key_path(e).take(q)) == Some(m);
                        tree.lemma_extends_lookup(t0, key_path(e).take(q));
                        assert(tree.on_path(m, post[a]));
                    } else {
                        let k = choose|k: int| #![trigger t0.lookup(key_path(key).take(k + 1))] {
                            &&& 0 <= k <= key_path(key).len()
                            &&& forall|q: int| 1 <= q <= k ==> (#[trigger] t0.lookup(key_path(key).take(q))) is Some
                            &&& k < key_path(key).len() ==> t0.lookup(key_path(key).take(k + 1)) is None
                            &&& tree.count() == t0.count() + key_path(key).len() - k
                            &&& forall|q: int| k < q <= key_path(key).len() ==>
                                (#[trigger] tree.lookup(key_path(key).take(q))) == Some(t0.count() + q - k - 1)
                        };
                        let q = m - t0.count() + k + 1;
                        assert(tree.lookup(key_path(key).take(q)) == Some(m));
                        assert(tree.on_path(m, post[i as int]));
                    }
                }
            }
            i += 1;
        }
        assert(ks.take(key_list@.len() as int) == ks);
        proof {
            let runs = key_runs(ks);
            assert forall|i: int| 0 <= i < tree.count() implies #[trigger] tree.is_reached(i) by {
                assert(tree.lookup(runs[i]) == Some(i));
            }
        }
        tree
    }

    /// The top-level names and their nodes.
    pub fn index_top_node(&self) -> (m: &KeyMap<u32>)
        ensures
            m.as_map() == self.top(),
    {
        &self.index_top_node
    }

    /// The nodes, in the order they were added.
    pub fn mem(&self) -> (v: &Vec<TreeNode>)
        ensures
            v@.len() == self.count(),
            forall|i: int| 0 <= i < v@.len() ==> #[trigger] v@[i] == self.node(i),
    {
        &self.mem
    }

    /// A tree without nodes.
    pub fn empty() -> (t: Tree)
        ensures
            t.wf(),
            t.inv(),
            t.count() == 0,
            t.top() == Map::<Seq<char>, u32>::empty(),
    {
        Tree { index_top_node: KeyMap::new(), mem: Vec::new() }
    }
}


/// The keys of `list` that contain `f`, in order.
pub open spec fn filter_keys(list: Seq<Seq<char>>, f: Seq<char>) -> Seq<Seq<char>>
    decreases list.len(),
{
    if list.len() == 0 {
        Seq::empty()
    } else {
        let rest = filter_keys(list.drop_last(), f);
        if contains_seq(list.last(), f) {
            rest.push(list.last())
        } else {
            rest
        }
    }
}

/// `f` occurs in `k` somewhere, as a run of consecutive characters.
pub open spec fn occurs_in(f: Seq<char>, k: Seq<char>) -> bool {
    exists|i: int| 0 <= i && i + f.len() <= k.len() && #[trigger] k.subrange(i, i + f.len()) == f
}

/// Filtering keeps exactly the keys of the list in which the filter text
/// occurs, anywhere in them, in the order of the list: every such key is
/// kept, and no other.
pub proof fn lemma_filter_keys_exact(list: Seq<Seq<char>>, f: Seq<char>)
    ensures
        filter_keys(list, f) == list.filter(|k: Seq<char>| occurs_in(f, k)),
        forall|i: int| 0 <= i < list.len() && occurs_in(f, #[trigger] list[i]) ==> filter_keys(list, f).contains(list[i]),
        forall|k: Seq<char>| #[trigger] filter_keys(list, f).contains(k) ==> list.contains(k) && occurs_in(f, k),
    decreases list.len(),
{
    reveal(Seq::filter);
    lemma_filter_keys_pieces(list, f);
    if list.len() > 0 {
        lemma_filter_keys_exact(list.drop_last(), f);
        let k = list.last();
        assert(contains_seq(k, f) == occurs_in(f, k)) by {
            if contains_seq(k, f) {
                let i = choose|i: int| 0 <= i <= k.len() - f.len() && #[trigger] k.subrange(i, i + f.len()) == f;
                assert(k.subrange(i, i + f.len()) == f);
            }
            if occurs_in(f, k) {
                let i = choose|i: int| 0 <= i && i + f.len() <= k.len() && #[trigger] k.subrange(i, i + f.len()) == f;
                assert(k.subrange(i, i + f.len()) == f);
            }
        }
        let rest = filter_keys(list.drop_last(), f);
        assert forall|i: int| 0 <= i < list.len() && occurs_in(f, #[trigger] list[i]) implies filter_keys(list, f).contains(list[i]) by {
            if i < list.len() - 1 {
                assert(list.drop_last()[i] == list[i]);
                assert(rest.contains(list[i]));
                let j = rest.index_of(list[i]);
                if contains_seq(k, f) {
                    assert(rest.push(k)[j] == list[i]);
                }
            } else {
                assert(rest.push(k)[rest.len() as int] == k);
            }
        }
    }
}

/// Filtering keeps keys of the list, and so never adds pieces.
pub proof fn lemma_filter_keys_pieces(list: Seq<Seq<char>>, f: Seq<char>)
    ensures
        pieces_total(filter_keys(list, f)) <= pieces_total(list),
        forall|k: Seq<char>| #[trigger] filter_keys(list, f).contains(k) ==> list.contains(k) && contains_seq(k, f),
    decreases list.len(),
{
    if list.len() > 0 {
        lemma_filter_keys_pieces(list.drop_last(), f);
        let rest = filter_keys(list.drop_last(), f);
        if contains_seq(list.last(), f) {
            assert(rest.push(list.last()).drop_last() == rest);
        }
        assert forall|k: Seq<char>| #[trigger] filter_keys(list, f).contains(k) implies list.contains(k) && contains_seq(k, f) by {
            if rest.contains(k) {
                let j = rest.index_of(k);
                assert(list.drop_last().contains(k));
                let p = list.drop_last().index_of(k);
                assert(list[p] == k);
            } else {
                assert(k == list.last());
                assert(list[list.len() - 1] == k);
            }
        }
    }
}

/// The strings of `list` that contain `filter_str`, in order.
pub fn filter(list: &Vec<String>, filter_str: &str) -> (out: Vec<String>)
    ensures
        string_views(out@) == filter_keys(string_views(list@), filter_str@),
{
    let mut out: Vec<String> = Vec::new();
    let mut i: usize = 0;
    while i < list.len()
        invariant
            i <= list@.len(),
            string_views(out@) == filter_keys(string_views(list@).take(i as int), filter_str@),
        decreases list@.len() - i,
    {
        let ghost pre = string_views(list@).take(i as int);
        assert(string_views(list@).take(i + 1).drop_last() == pre);
        assert(string_views(list@).take(i + 1).last() == list@[i as int]@);
        if contains_str(list[i].as_str(), filter_str) {
            let ghost before = out@;
            out.push(list[i].clone());
            assert(string_views(out@) == string_views(before).push(list@[i as int]@));
        }
        i += 1;
    }
    assert(string_views(list@).take(list@.len() as int) == string_views(list@));
    out
}

/// A subscription as a file stores it.
pub struct ArchivePageSubData {
    pub name: String,
    pub key_expr: String,
}

/// The subscriptions of the page as a file stores them, in list order.
pub struct ArchivePageSub {
    pub subs: Vec<ArchivePageSubData>,
}

impl ArchivePageSub {
    /// The name and key expression of each stored subscription.
    pub open spec fn entries(&self) -> Seq<(Seq<char>, Seq<char>)> {
        archive_entries(self.subs@)
    }
}

/// The name and key expression of each stored subscription of `subs`.
pub open spec fn archive_entries(subs: Seq<ArchivePageSubData>) -> Seq<(Seq<char>, Seq<char>)> {
    Seq::new(subs.len(), |i: int| (subs[i].name@, subs[i].key_expr@))
}

impl Default for ArchivePageSub {
    fn default() -> (a: ArchivePageSub)
        ensures
            a.subs@.len() == 0,
    {
        ArchivePageSub { subs: Vec::new() }
    }
}

/// One subscription of the page: its settings, whether it is declared, the
/// samples received per key, and the tree of those keys.
pub struct PageSubData {
    pub subscribed: bool,
    pub name: String,
    pub key_expr: String,
    pub err_str: Option<String>,
    pub selected_key: String,
    pub filtered: bool,
    pub filter_str: String,
    pub buffer_size_tmp: u32,
    pub buffer_size: u32,
    pub key_tree: Tree,
    pub map: KeyMap<DataValues>,
}

impl PageSubData {
    /// The tree of the keys last shown.
    pub open spec fn tree(&self) -> Tree {
        self.key_tree
    }

    /// The samples received, per key.
    pub open spec fn values(&self) -> KeyMap<DataValues> {
        self.map
    }

    /// The tree and the samples are well formed.
    pub open spec fn wf(&self) -> bool {
        &&& self.tree().inv()
        &&& self.values().wf()
        &&& forall|i: int| 0 <= i < self.values().keys().len() ==> (#[trigger] self.values().vals()[i]).wf()
    }

    /// The keys that the tree shows: the received keys, or those holding the
    /// filter text when filtering is on.
    pub open spec fn shown_keys(&self) -> Seq<Seq<char>> {
        if self.filtered {
            filter_keys(self.values().keys(), self.filter_str@)
        } else {
            self.values().keys()
        }
    }

    /// A fresh subscription, not declared, without samples.
    pub fn new(name: String, key_expr: String) -> (d: PageSubData)
        ensures
            d.wf(),
            d.name == name,
            d.key_expr == key_expr,
            !d.subscribed,
            d.err_str is None,
            d.selected_key@ == Seq::<char>::empty(),
            !d.filtered,
            d.filter_str@ == Seq::<char>::empty(),
            d.buffer_size_tmp == VALUE_BUFFER_SIZE_DEFAULT,
            d.buffer_size == VALUE_BUFFER_SIZE_DEFAULT,
            d.tree().count() == 0,
            d.values().keys().len() == 0,
    {
        PageSubData {
            subscribed: false,
            name,
            key_expr,
            err_str: None,
            selected_key: String::new(),
            filtered: false,
            filter_str: String::new(),
            buffer_size_tmp: 10,
            buffer_size: 10,
            key_tree: Tree::empty(),
            map: KeyMap::new(),
        }
    }

    /// A fresh subscription with the name and key expression of this one.
    pub fn duplicate(&self) -> (d: PageSubData)
        ensures
            d.wf(),
            d.name@ == self.name@,
            d.key_expr@ == self.key_expr@,
            !d.subscribed,
            d.err_str is None,
            d.values().keys().len() == 0,
            d.tree().count() == 0,
    {
        PageSubData::new(self.name.clone(), self.key_expr.clone())
    }

    /// The subscription as a file stores it.
    pub fn to_archive(&self) -> (a: ArchivePageSubData)
        ensures
            a.name@ == self.name@,
            a.key_expr@ == self.key_expr@,
    {
        ArchivePageSubData { name: self.name.clone(), key_expr: self.key_expr.clone() }
    }

    /// A fresh subscription from its stored form; this never fails.
    pub fn from_archive(value: ArchivePageSubData) -> (r: Result<PageSubData, String>)
        ensures
            r matches Ok(d) && d.wf() && d.name == value.name && d.key_expr == value.key_expr && !d.subscribed
                && d.err_str is None && d.values().keys().len() == 0 && d.tree().count() == 0,
    {
        Ok(PageSubData::new(value.name, value.key_expr))
    }

    /// The tree of the keys last shown.
    pub fn key_tree(&self) -> (t: &Tree)
        ensures
            *t == self.tree(),
    {
        &self.key_tree
    }

    /// The samples received, per key.
    pub fn map(&self) -> (m: &KeyMap<DataValues>)
        ensures
            *m == self.values(),
    {
        &self.map
    }

    /// The typed key expression without its blank characters.
    pub fn key_expr_input(&self) -> (k: String)
        ensures
            k@ == strip_blanks(self.key_expr@),
    {
        remove_blanks(self.key_expr.as_str())
    }

    /// Whether the tree of every received key fits the numbering of nodes.
    pub fn tree_fits(&self) -> (b: bool)
        requires
            self.wf(),
        ensures
            b == (pieces_total(self.values().keys()) < NO_PARENT),
    {
        let keys = self.map.key_list();
        let mut total: u64 = 0;
        let mut i: usize = 0;
        proof {
            assert(string_views(keys@) == self.values().keys());
        }
        while i < keys.len()
            invariant
                i <= keys@.len(),
                string_views(keys@) == self.values().keys(),
                total == pieces_total(string_views(keys@).take(i as int)),
                total < NO_PARENT,
            decreases keys@.len() - i,
        {
            let parts = split_chars(keys[i].as_str(), '/');
            proof {
                assert(string_views(keys@).take(i + 1).drop_last() == string_views(keys@).take(i as int));
                assert(string_views(keys@)[i as int] == keys@[i as int]@);
            }
            let n = parts.len() as u64;
            if n >= NO_PARENT as u64 - total {
                proof {
                    lemma_pieces_total_prefix(string_views(keys@), i + 1);
                }
                return false;
            }
            total = total + n;
            i += 1;
        }
        assert(string_views(keys@).take(keys@.len() as int) == string_views(keys@));
        true
    }

    /// Rebuilds the tree from the received keys, or from those that hold the
    /// filter text when filtering is on.
    pub fn update_tree(&mut self)
        requires
            old(self).wf(),
            pieces_total(old(self).values().keys()) < NO_PARENT,
        ensures
            final(self).wf(),
            final(self).tree().shows_keys(old(self).shown_keys()),
            final(self).tree().numbered_by(key_runs(old(self).shown_keys())),
            final(self).values() == old(self).values(),
            final(self).name == old(self).name,
            final(self).key_expr == old(self).key_expr,
            final(self).subscribed == old(self).subscribed,
            final(self).err_str == old(self).err_str,
            final(self).selected_key == old(self).selected_key,
            final(self).filtered == old(self).filtered,
            final(self).filter_str == old(self).filter_str,
            final(self).buffer_size == old(self).buffer_size,
            final(self).buffer_size_tmp == old(self).buffer_size_tmp,
    {
        let keys = self.map.key_list();
        proof {
            assert(string_views(keys@) == self.values().keys());
        }
        let keys = if self.filtered {
            let f = filter(&keys, self.filter_str.as_str());
            proof {
                lemma_filter_keys_pieces(self.values().keys(), self.filter_str@);
            }
            f
        } else {
            keys
        };
        self.key_tree = Tree::new(&keys);
    }

    /// Keeps a sample received at `receipt_time` under its key.
    pub fn add_sample(&mut self, sample: Sample, receipt_time: u64)
        requires
            old(self).wf(),
        ensures
            final(self).wf(),
            sample_added(*old(self), *final(self), sample, receipt_time),
    {
        let key = sample.key_expr.clone();
        let ghost k = sample.key_expr@;
        let ghost m0 = self.values().as_map();
        match self.map.position(key.as_str()) {
            Some(i) => {
                proof {
                    self.map.lemma_pos(i as int);
                }
                let ghost old_map = self.map;
                let dv = self.map.value_at_mut(i);
                dv.add_data(sample, receipt_time);
                proof {
                    let m1 = self.values().as_map();
                    assert(self.values().keys() == old_map.keys());
                    assert forall|j: int| 0 <= j < self.values().keys().len() implies (#[trigger] self.values().vals()[j]).wf() by {
                        if j != i {
                            assert(self.values().vals()[j] == old_map.vals()[j]);
                        }
                    }
                    self.map.lemma_pos(i as int);
                    assert(m1.dom() =~= m0.dom().insert(k));
                    assert forall|k2: Seq<char>| m0.contains_key(k2) && k2 != k implies #[trigger] m1[k2] == m0[k2] by {
                        let p = old_map.keys().index_of(k2);
                        old_map.lemma_pos(p);
                        self.map.lemma_pos(p);
                    }
                }
            },
            None => {
                let mut dv = DataValues::new();
                dv.add_data(sample, receipt_time);
                let ghost dv_v = dv;
                let ghost old_map = self.map;
                self.map.insert(key, dv);
                proof {
                    let m1 = self.values().as_map();
                    assert(m1 == m0.insert(k, dv_v));
                    assert(dv_v.samples() =~= seq![(sample, receipt_time)]);
                    assert forall|j: int| 0 <= j < self.values().keys().len() implies (#[trigger] self.values().vals()[j]).wf() by {
                        let kj = self.values().keys()[j];
                        self.map.lemma_pos(j);
                        if kj != k {
                            assert(m0.contains_key(kj));
                            let p = old_map.keys().index_of(kj);
                            old_map.lemma_pos(p);
                        }
                    }
                    assert(m1.dom() =~= m0.dom().insert(k));
                    assert(m1.contains_key(k));
                }
            },
        }
    }

    /// Drops the samples kept for `key`.
    pub fn clear_values(&mut self, key: &str)
        requires
            old(self).wf(),
        ensures
            final(self).wf(),
            final(self).values().keys() == old(self).values().keys(),
            final(self).tree() == old(self).tree(),
            *final(self) == (PageSubData { map: final(self).map, ..*old(self) }),
            forall|i: int| 0 <= i < old(self).values().keys().len() ==> {
                let v0 = #[trigger] old(self).values().vals()[i];
                let v1 = final(self).values().vals()[i];
                if old(self).values().keys()[i] == key@ {
                    v1.samples() == Seq::<(Sample, u64)>::empty() && v1.capacity() == v0.capacity() && v1.latest() == v0.latest()
                } else {
                    v1 == v0
                }
            },
    {
        if let Some(i) = self.map.position(key) {
            let ghost old_map = self.map;
            let dv = self.map.value_at_mut(i);
            dv.clear();
            proof {
                assert forall|j: int| 0 <= j < self.values().keys().len() implies (#[trigger] self.values().vals()[j]).wf() by {
                    if j != i {
                        assert(self.values().vals()[j] == old_map.vals()[j]);
                    }
                }
                assert forall|j: int| 0 <= j < old_map.keys().len() && old_map.keys()[j] == key@ implies j == i by {
                    if j != i {
                        if j < i {
                            assert(name_lt(old_map.keys()[j], old_map.keys()[i as int]));
                        } else {
                            assert(name_lt(old_map.keys()[i as int], old_map.keys()[j]));
                        }
                        lemma_name_lt_irreflexive(key@);
                    }
                }
            }
        }
    }

    /// Sets the number of samples kept for `key` (at least the default),
    /// dropping the oldest as that requires.
    pub fn set_values_buffer_size(&mut self, key: &str, size: usize)
        requires
            old(self).wf(),
        ensures
            *final(self) == (PageSubData { map: final(self).map, ..*old(self) }),
            final(self).wf(),
            final(self).values().keys() == old(self).values().keys(),
            final(self).tree() == old(self).tree(),
            forall|i: int| 0 <= i < old(self).values().keys().len() ==> {
                let v0 = #[trigger] old(self).values().vals()[i];
                let v1 = final(self).values().vals()[i];
                if old(self).values().keys()[i] == key@ {
                    &&& v1.capacity() == (if size < VALUE_BUFFER_SIZE_DEFAULT { VALUE_BUFFER_SIZE_DEFAULT } else { size })
                    &&& v1.latest() == v0.latest()
                    &&& v1.samples() == (if v0.samples().len() >= v1.capacity() {
                        v0.samples().skip(v0.samples().len() - (v1.capacity() - 1))
                    } else {
                        v0.samples()
                    })
                } else {
                    v1 == v0
                }
            },
    {
        if let Some(i) = self.map.position(key) {
            let ghost old_map = self.map;
            let dv = self.map.value_at_mut(i);
            dv.set_buffer_size(size);
            proof {
                assert forall|j: int| 0 <= j < self.values().keys().len() implies (#[trigger] self.values().vals()[j]).wf() by {
                    if j != i {
                        assert(self.values().vals()[j] == old_map.vals()[j]);
                    }
                }
                assert forall|j: int| 0 <= j < old_map.keys().len() && old_map.keys()[j] == key@ implies j == i by {
                    if j != i {
                        if j < i {
                            assert(name_lt(old_map.keys()[j], old_map.keys()[i as int]));
                        } else {
                            assert(name_lt(old_map.keys()[i as int], old_map.keys()[j]));
                        }
                        lemma_name_lt_irreflexive(key@);
                    }
                }
            }
        }
    }
}

/// Subscription `d1` is `d0` once it kept `sample`, received at `t`,
/// under its key: the samples of that key, at most the buffer size of
/// them, get it last; nothing else changes.
pub open spec fn sample_added(d0: PageSubData, d1: PageSubData, sample: Sample, t: u64) -> bool {
    let k = sample.key_expr@;
    let m0 = d0.values().as_map();
    let m1 = d1.values().as_map();
    &&& d1.values().keys().contains(k)
    &&& d1.tree() == d0.tree()
    &&& d1.name == d0.name
    &&& d1.key_expr == d0.key_expr
    &&& d1.subscribed == d0.subscribed
    &&& d1.err_str == d0.err_str
    &&& d1.filtered == d0.filtered
    &&& d1.filter_str == d0.filter_str
    &&& d1.selected_key == d0.selected_key
    &&& d1.buffer_size == d0.buffer_size
    &&& d1.buffer_size_tmp == d0.buffer_size_tmp
    &&& m1.dom() == m0.dom().insert(k)
    &&& forall|k2: Seq<char>| m0.contains_key(k2) && k2 != k ==> #[trigger] m1[k2] == m0[k2]
    &&& m1[k].latest() == t
    &&& if m0.contains_key(k) {
        &&& m1[k].capacity() == m0[k].capacity()
        &&& m1[k].samples() == (if m0[k].samples().len() == m0[k].capacity() {
            m0[k].samples().drop_first()
        } else {
            m0[k].samples()
        }).push((sample, t))
    } else {
        &&& m1[k].capacity() == VALUE_BUFFER_SIZE_DEFAULT
        &&& m1[k].samples() == seq![(sample, t)]
    }
}

/// One row of the table of samples of a key: the short summary of the
/// payload, its encoding number and the time of its time stamp.
pub struct SampleRow {
    pub value: Result<String, String>,
    pub encoding_id: u16,
    pub time_text: String,
}

/// `row` shows `sample`.
pub open spec fn shows_sample(row: SampleRow, sample: Sample) -> bool {
    &&& result_view(row.value) == value_abstract(sample.encoding.id, sample.payload@)
    &&& row.encoding_id == sample.encoding.id
    &&& row.time_text@ == (match sample.timestamp {
        Some(t) => stamp_parts_of(t.time, t.id@).0,
        None => "-"@,
    })
}

impl PageSubData {
    /// The rows of the table of the selected key's samples, oldest first;
    /// none when the key has received nothing.
    pub fn value_rows(&self) -> (rows: Vec<SampleRow>)
        requires
            self.wf(),
        ensures
            match self.values().as_map().get(self.selected_key@) {
                Some(dv) => rows@.len() == dv.samples().len()
                    && forall|i: int| 0 <= i < rows@.len() ==> shows_sample(#[trigger] rows@[i], dv.samples()[i].0),
                None => rows@.len() == 0,
            },
    {
        let mut rows: Vec<SampleRow> = Vec::new();
        if let Some(dv) = self.map.get(self.selected_key.as_str()) {
            let d = dv.deque();
            let mut i: usize = 0;
            while i < d.len()
                invariant
                    i <= d@.len(),
                    rows@.len() == i,
                    forall|j: int| 0 <= j < i ==> shows_sample(#[trigger] rows@[j], d@[j].0),
                decreases d@.len() - i,
            {
                let sample = &d[i].0;
                let value = zenoh_value_abstract(&sample.encoding, sample.payload.as_slice());
                let time_text = match &sample.timestamp {
                    Some(t) => stamp_parts(t).0,
                    None => "-".to_owned(),
                };
                rows.push(SampleRow { value, encoding_id: sample.encoding.id, time_text });
                i += 1;
            }
        }
        rows
    }

    /// The buffer size shown follows that of the selected key, when it has
    /// received samples.
    pub fn sync_buffer_size(&mut self)
        requires
            old(self).wf(),
        ensures
            final(self).wf(),
            final(self).buffer_size == (match old(self).values().as_map().get(old(self).selected_key@) {
                Some(dv) => dv.capacity() as u32,
                None => old(self).buffer_size,
            }),
            *final(self) == (PageSubData { buffer_size: final(self).buffer_size, ..*old(self) }),
    {
        if let Some(dv) = self.map.get(self.selected_key.as_str()) {
            self.buffer_size = #[verifier::truncate] (dv.buffer_size() as u32);
        }
    }

    /// A click on node `index` of the tree selects the key it stands for,
    /// if it stands for one.
    pub fn select_node(&mut self, index: usize)
        ensures
            (index < old(self).tree().count() && old(self).tree().node(index as int).key is Some) ==>
                final(self).selected_key == old(self).tree().node(index as int).key->0,
            *final(self) == (PageSubData { selected_key: final(self).selected_key, ..*old(self) }),
            !(index < old(self).tree().count() && old(self).tree().node(index as int).key is Some) ==>
                final(self).selected_key == old(self).selected_key,
    {
        let mem = self.key_tree.mem();
        if index < mem.len() {
            if let Some(k) = &mem[index].key {
                self.selected_key = k.clone();
            }
        }
    }
}

/// The subscriptions `g1` are `g0` once subscription `id`, if there is
/// one, kept `sample`, received at `t`.
pub open spec fn sub_cb_applied(g0: Map<u64, PageSubData>, g1: Map<u64, PageSubData>, id: u64, sample: Sample, t: u64) -> bool {
    &&& g1.dom() == g0.dom()
    &&& forall|id2: u64| #[trigger] g0.contains_key(id2) && id2 != id ==> g1[id2] == g0[id2]
    &&& g0.contains_key(id) ==> sample_added(g0[id], g1[id], sample, t)
}

/// The subscriptions once the session answered the declaration of
/// subscription `id`: declared with no error, or not declared with the
/// error.
pub open spec fn add_sub_answered(g: Map<u64, PageSubData>, id: u64, r: Result<(), String>) -> Map<u64, PageSubData> {
    if g.contains_key(id) {
        g.insert(id, match r {
            Ok(_) => PageSubData { err_str: None, subscribed: true, ..g[id] },
            Err(e) => PageSubData { err_str: Some(e), subscribed: false, ..g[id] },
        })
    } else {
        g
    }
}

/// The subscriptions once the session reported subscription `id` closed.
pub open spec fn del_sub_answered(g: Map<u64, PageSubData>, id: u64) -> Map<u64, PageSubData> {
    if g.contains_key(id) {
        g.insert(id, PageSubData { subscribed: false, ..g[id] })
    } else {
        g
    }
}

/// What the subscription page asks of the session.
pub enum Event {
    AddSub(Box<SubData>),
    DelSub(u64),
}

/// The stored form of the subscriptions listed under `ids`, in list order,
/// skipping ids that have no subscription.
pub open spec fn sub_archive(ids: Seq<u64>, group: Map<u64, PageSubData>) -> Seq<(Seq<char>, Seq<char>)>
    decreases ids.len(),
{
    if ids.len() == 0 {
        Seq::empty()
    } else {
        let rest = sub_archive(ids.drop_last(), group);
        if group.contains_key(ids.last()) {
            rest.push((group[ids.last()].name@, group[ids.last()].key_expr@))
        } else {
            rest
        }
    }
}

/// The subscription page: the subscriptions by id, their order in the
/// list, the selected one, and the requests for the session.
pub struct PageSub {
    pub events: VecDeque<Event>,
    pub sub_id_count: u64,
    pub selected_sub_id: u64,
    pub sub_data_group: BTreeMap<u64, PageSubData>,
    pub dnd_items: Vec<DndItem>,
    pub show_sample_viewer_window: bool,
    pub sample_viewer_window: SampleViewer,
}

impl PageSub {
    /// The subscription ids in list order.
    pub open spec fn ids(&self) -> Seq<u64> {
        item_ids(self.dnd_items@)
    }

    /// The subscriptions by id.
    pub open spec fn group(&self) -> Map<u64, PageSubData> {
        self.sub_data_group@
    }

    /// The list holds each subscription once, every subscription is listed,
    /// and ids run from 1 to the last one handed out.
    pub open spec fn wf(&self) -> bool {
        &&& self.ids().no_duplicates()
        &&& forall|i: int| 0 <= i < self.ids().len() ==> self.group().contains_key(#[trigger] self.ids()[i])
        &&& forall|id: u64| #[trigger] self.group().contains_key(id) ==> self.ids().contains(id)
        &&& forall|i: int| 0 <= i < self.ids().len() ==> 1 <= #[trigger] self.ids()[i] <= self.sub_id_count
        &&& forall|id: u64| #[trigger] self.group().contains_key(id) ==> self.group()[id].wf()
    }

    /// The stored form of the page.
    pub open spec fn archive(&self) -> Seq<(Seq<char>, Seq<char>)> {
        sub_archive(self.ids(), self.group())
    }

    /// Adds a subscription under the next id, lists it last and selects it.
    pub fn add_sub_data(&mut self, data: PageSubData)
        requires
            old(self).wf(),
            data.wf(),
            old(self).sub_id_count < u64::MAX,
        ensures
            final(self).wf(),
            final(self).sub_id_count == old(self).sub_id_count + 1,
            final(self).group() == old(self).group().insert(final(self).sub_id_count, data),
            final(self).ids() == old(self).ids().push(final(self).sub_id_count),
            final(self).selected_sub_id == final(self).sub_id_count,
            final(self).events@ == old(self).events@,
            final(self).archive() == old(self).archive().push((data.name@, data.key_expr@)),
    {
        let ghost d = data;
        self.sub_id_count += 1;
        let id = self.sub_id_count;
        self.sub_data_group.insert(id, data);
        self.selected_sub_id = id;
        self.dnd_items.push(DndItem::new(id));
        proof {
            let ids0 = old(self).ids();
            assert(self.ids() =~= ids0.push(id));
            assert(!ids0.contains(id)) by {
                if ids0.contains(id) {
                    let p = ids0.index_of(id);
                    assert(ids0[p] <= old(self).sub_id_count);
                }
            }
            assert forall|id2: u64| #[trigger] self.group().contains_key(id2) implies self.ids().contains(id2) by {
                if id2 != id {
                    assert(old(self).group().contains_key(id2));
                    assert(ids0.contains(id2));
                    let p = ids0.index_of(id2);
                    assert(self.ids()[p] == id2);
                } else {
                    assert(self.ids()[ids0.len() as int] == id);
                }
            }
            assert(self.ids().drop_last() == ids0);
            lemma_sub_archive_insert_absent(ids0, old(self).group(), id, d);
        }
    }

    /// Removes the subscription `sub_id` when it is not declared and is not
    /// the last one left.
    pub fn del_sub_data(&mut self, sub_id: u64)
        requires
            old(self).wf(),
        ensures
            final(self).wf(),
            final(self).sub_id_count == old(self).sub_id_count,
            final(self).selected_sub_id == old(self).selected_sub_id,
            final(self).events@ == old(self).events@,
            (old(self).group().len() >= 2 && old(self).group().contains_key(sub_id) && !old(self).group()[sub_id].subscribed) ==> {
                &&& final(self).group() == old(self).group().remove(sub_id)
                &&& final(self).ids() == old(self).ids().remove(old(self).ids().index_of(sub_id))
            },
            !(old(self).group().len() >= 2 && old(self).group().contains_key(sub_id) && !old(self).group()[sub_id].subscribed) ==> {
                &&& final(self).group() == old(self).group()
                &&& final(self).ids() == old(self).ids()
            },
    {
        if self.sub_data_group.len() < 2 {
            return;
        }
        let mut flag = false;
        if let Some(data_group) = self.sub_data_group.get(&sub_id) {
            flag = !data_group.subscribed;
        }
        if flag {
            let _ = self.sub_data_group.remove(&sub_id);
            let del_index = find_item(&self.dnd_items, sub_id);
            proof {
                let ids0 = old(self).ids();
                assert(ids0.contains(sub_id));
            }
            if let Some(i) = del_index {
                let _ = self.dnd_items.remove(i);
                proof {
                    let ids0 = old(self).ids();
                    assert(ids0[i as int] == sub_id);
                    assert(ids0.index_of(sub_id) == i) by {
                        let p = ids0.index_of(sub_id);
                        if p != i {
                            assert(ids0[p] == ids0[i as int]);
                        }
                    }
                    assert(self.ids() =~= ids0.remove(i as int));
                    assert forall|a: int, b: int| 0 <= a < b < self.ids().len() implies self.ids()[a] != self.ids()[b] by {
                        let a0 = if a < i { a } else { a + 1 };
                        let b0 = if b < i { b } else { b + 1 };
                        assert(self.ids()[a] == ids0[a0] && self.ids()[b] == ids0[b0]);
                    }
                    assert forall|j: int| 0 <= j < self.ids().len() implies self.group().contains_key(#[trigger] self.ids()[j]) by {
                        let j0 = if j < i { j } else { j + 1 };
                        assert(self.ids()[j] == ids0[j0]);
                    }
                    assert forall|j: int| 0 <= j < self.ids().len() implies 1 <= #[trigger] self.ids()[j] <= self.sub_id_count by {
                        let j0 = if j < i { j } else { j + 1 };
                        assert(self.ids()[j] == ids0[j0]);
                    }
                    assert forall|id2: u64| #[trigger] self.group().contains_key(id2) implies self.ids().contains(id2) by {
                        let p = ids0.index_of(id2);
                        if p < i {
                            assert(self.ids()[p] == id2);
                        } else {
                            assert(self.ids()[p - 1] == id2);
                        }
                    }
                }
            }
        }
    }

    /// Drops every subscription; the ids already handed out stay used.
    pub fn clean_all_sub_data(&mut self)
        ensures
            final(self).group() == Map::<u64, PageSubData>::empty(),
            final(self).ids() == Seq::<u64>::empty(),
            final(self).selected_sub_id == 0,
            final(self).sub_id_count == old(self).sub_id_count,
            final(self).events@ == old(self).events@,
            final(self).wf(),
    {
        self.sub_data_group.clear();
        self.dnd_items.clear();
        self.selected_sub_id = 0;
        assert(self.ids() =~= Seq::<u64>::empty());
    }
}

/// Adding a subscription under a new id lists it last in the stored form.
pub proof fn lemma_sub_archive_insert_absent(ids: Seq<u64>, group: Map<u64, PageSubData>, id: u64, d: PageSubData)
    requires
        !ids.contains(id),
    ensures
        sub_archive(ids.push(id), group.insert(id, d)) == sub_archive(ids, group).push((d.name@, d.key_expr@)),
{
    assert(ids.push(id).drop_last() == ids);
    lemma_sub_archive_unrelated(ids, group, id, d);
}

/// The stored form of a list does not depend on subscriptions it does not list.
pub proof fn lemma_sub_archive_unrelated(ids: Seq<u64>, group: Map<u64, PageSubData>, id: u64, d: PageSubData)
    requires
        !ids.contains(id),
    ensures
        sub_archive(ids, group.insert(id, d)) == sub_archive(ids, group),
    decreases ids.len(),
{
    if ids.len() > 0 {
        assert(!ids.drop_last().contains(id)) by {
            if ids.drop_last().contains(id) {
                let p = ids.drop_last().index_of(id);
                assert(ids[p] == id);
            }
        }
        assert(ids.last() != id) by {
            assert(ids[ids.len() - 1] == ids.last());
        }
        lemma_sub_archive_unrelated(ids.drop_last(), group, id, d);
    }
}

impl PageSub {
    /// The stored form of the page.
    pub fn to_archive(&self) -> (a: ArchivePageSub)
        requires
            self.wf(),
        ensures
            a.entries() == self.archive(),
    {
        let mut subs: Vec<ArchivePageSubData> = Vec::new();
        let mut i: usize = 0;
        while i < self.dnd_items.len()
            invariant
                self.wf(),
                i <= self.dnd_items@.len(),
                archive_entries(subs@) == sub_archive(self.ids().take(i as int), self.group()),
            decreases self.dnd_items@.len() - i,
        {
            let ghost before = subs@;
            proof {
                assert(self.ids().take(i + 1).drop_last() == self.ids().take(i as int));
                assert(self.ids().take(i + 1).last() == self.ids()[i as int]);
            }
            if let Some(d) = self.sub_data_group.get(&self.dnd_items[i].key_id) {
                subs.push(d.to_archive());
                assert(archive_entries(subs@) =~= archive_entries(before).push((d.name@, d.key_expr@)));
            }
            i += 1;
        }
        assert(self.ids().take(self.dnd_items@.len() as int) == self.ids());
        ArchivePageSub { subs }
    }

    /// Replaces every subscription by those of `archive`, in its order,
    /// under new ids; this never fails.
    pub fn load(&mut self, archive: ArchivePageSub) -> (r: Result<(), String>)
        requires
            old(self).wf(),
            old(self).sub_id_count + archive.subs@.len() < u64::MAX,
        ensures
            r is Ok,
            final(self).wf(),
            final(self).archive() == archive.entries(),
            final(self).sub_id_count == old(self).sub_id_count + archive.subs@.len(),
            final(self).ids() == Seq::new(archive.subs@.len(), |j: int| (old(self).sub_id_count + 1 + j) as u64),
            final(self).group().dom() == Set::new(|id: u64| old(self).sub_id_count < id <= final(self).sub_id_count),
            forall|j: int| 0 <= j < archive.subs@.len() ==> {
                let d = #[trigger] final(self).group()[(old(self).sub_id_count + 1 + j) as u64];
                &&& d.name == archive.subs@[j].name
                &&& d.key_expr == archive.subs@[j].key_expr
                &&& !d.subscribed
                &&& d.err_str is None
                &&& d.values().keys().len() == 0
            },
            final(self).selected_sub_id == (if archive.subs@.len() == 0 { 0 } else { final(self).sub_id_count }),
            final(self).events@ == old(self).events@,
    {
        let ghost entries = archive.entries();
        let ghost subs0 = archive.subs@;
        let n = archive.subs.len();
        let mut data: Vec<PageSubData> = Vec::new();
        for d in it: archive.subs.into_iter()
            invariant
                it.seq() == subs0,
                data@.len() == it.index(),
                forall|j: int| 0 <= j < data@.len() ==> {
                    let x = #[trigger] data@[j];
                    &&& x.wf()
                    &&& x.name == subs0[j].name
                    &&& x.key_expr == subs0[j].key_expr
                    &&& !x.subscribed
                    &&& x.err_str is None
                    &&& x.values().keys().len() == 0
                },
        {
            let page_sub_data = match PageSubData::from_archive(d) {
                Ok(o) => o,
                Err(e) => {
                    return Err(e);
                },
            };
            data.push(page_sub_data);
        }
        let ghost base = self.sub_id_count;
        assert(entries == archive_entries(subs0));
        self.clean_all_sub_data();
        let ghost all = data@;
        for d in it: data.into_iter()
            invariant
                it.seq() == all,
                all.len() == subs0.len(),
                entries == archive_entries(subs0),
                forall|j: int| 0 <= j < all.len() ==> {
                    let x = #[trigger] all[j];
                    &&& x.wf()
                    &&& x.name == subs0[j].name
                    &&& x.key_expr == subs0[j].key_expr
                    &&& !x.subscribed
                    &&& x.err_str is None
                    &&& x.values().keys().len() == 0
                },
                base + subs0.len() < u64::MAX,
                self.wf(),
                self.sub_id_count == base + it.index(),
                self.ids() == Seq::new(it.index() as nat, |j: int| (base + 1 + j) as u64),
                self.group().dom() == Set::new(|id: u64| base < id <= self.sub_id_count),
                forall|j: int| 0 <= j < it.index() ==> #[trigger] self.group()[(base + 1 + j) as u64] == all[j],
                self.archive() == entries.take(it.index() as int),
                self.selected_sub_id == (if it.index() == 0 { 0 } else { self.sub_id_count }),
                self.events@ == old(self).events@,
        {
            let ghost k = it.index();
            let ghost g0 = self.group();
            proof {
                assert(all[k] == d);
            }
            self.add_sub_data(d);
            proof {
                let id = self.sub_id_count;
                assert(self.ids() =~= Seq::new((k + 1) as nat, |j: int| (base + 1 + j) as u64));
                assert(self.group().dom() =~= Set::new(|id2: u64| base < id2 <= self.sub_id_count));
                assert forall|j: int| 0 <= j < k + 1 implies #[trigger] self.group()[(base + 1 + j) as u64] == all[j] by {
                    if j < k {
                        assert(g0[(base + 1 + j) as u64] == all[j]);
                    }
                }
                assert(entries[k] == (d.name@, d.key_expr@));
                assert(entries.take(k + 1) =~= entries.take(k).push(entries[k]));
            }
        }
        assert(entries.take(subs0.len() as int) == entries);
        Ok(())
    }

    /// The selected subscription.
    pub fn selected_data(&self) -> (r: Option<&PageSubData>)
        ensures
            match r {
                Some(d) => self.group().contains_key(self.selected_sub_id) && *d == self.group()[self.selected_sub_id],
                None => !self.group().contains_key(self.selected_sub_id),
            },
    {
        self.sub_data_group.get(&self.selected_sub_id)
    }

    /// The "copy add" action: a fresh copy of the selected subscription, or
    /// the demo subscription when none is selected.
    pub fn add_copy_of_selected(&mut self)
        requires
            old(self).wf(),
            old(self).sub_id_count < u64::MAX,
        ensures
            final(self).wf(),
            final(self).sub_id_count == old(self).sub_id_count + 1,
            final(self).ids() == old(self).ids().push(final(self).sub_id_count),
            final(self).selected_sub_id == final(self).sub_id_count,
            final(self).events@ == old(self).events@,
            old(self).group().contains_key(old(self).selected_sub_id) ==> final(self).archive() == old(self).archive().push(
                (old(self).group()[old(self).selected_sub_id].name@, old(self).group()[old(self).selected_sub_id].key_expr@)),
            !old(self).group().contains_key(old(self).selected_sub_id) ==> final(self).archive() == old(self).archive().push(
                ("demo"@, "demo/**"@)),
            forall|id: u64| #[trigger] old(self).group().contains_key(id) ==> final(self).group()[id] == old(self).group()[id],
            !final(self).group()[final(self).sub_id_count].subscribed,
            final(self).group().dom() == old(self).group().dom().insert(final(self).sub_id_count),
    {
        let data = match self.sub_data_group.get(&self.selected_sub_id) {
            Some(d) => d.duplicate(),
            None => PageSubData::new("demo".to_owned(), "demo/**".to_owned()),
        };
        self.add_sub_data(data);
    }

    /// Marks subscription `id` as no longer declared.
    pub fn processing_del_sub_res(&mut self, id: u64)
        requires
            old(self).wf(),
        ensures
            final(self).wf(),
            final(self).ids() == old(self).ids(),
            final(self).sub_id_count == old(self).sub_id_count,
            final(self).selected_sub_id == old(self).selected_sub_id,
            final(self).events@ == old(self).events@,
            final(self).group() == del_sub_answered(old(self).group(), id),
    {
        if let Some(data_group) = map_get_mut(&mut self.sub_data_group, id) {
            data_group.subscribed = false;
        }
        proof {
            self.lemma_wf_after_update(*old(self), id);
        }
    }

    /// Records the session's answer to the declaration of subscription `id`.
    pub fn processing_add_sub_res(&mut self, id: u64, r: Result<(), String>)
        requires
            old(self).wf(),
        ensures
            final(self).wf(),
            final(self).ids() == old(self).ids(),
            final(self).sub_id_count == old(self).sub_id_count,
            final(self).selected_sub_id == old(self).selected_sub_id,
            final(self).events@ == old(self).events@,
            final(self).group() == add_sub_answered(old(self).group(), id, r),
    {
        if let Some(data_group) = map_get_mut(&mut self.sub_data_group, id) {
            match r {
                Ok(_) => {
                    data_group.err_str = None;
                    data_group.subscribed = true;
                },
                Err(e) => {
                    data_group.err_str = Some(e);
                    data_group.subscribed = false;
                },
            }
        }
        proof {
            self.lemma_wf_after_update(*old(self), id);
        }
    }

    /// Keeps a sample that subscription `id` received at `receipt_time`.
    pub fn processing_sub_cb(&mut self, id: u64, sample: Sample, receipt_time: u64)
        requires
            old(self).wf(),
        ensures
            final(self).wf(),
            final(self).ids() == old(self).ids(),
            final(self).sub_id_count == old(self).sub_id_count,
            final(self).selected_sub_id == old(self).selected_sub_id,
            final(self).events@ == old(self).events@,
            sub_cb_applied(old(self).group(), final(self).group(), id, sample, receipt_time),
    {
        proof {
            if self.group().contains_key(id) {
                assert(self.group()[id].wf());
            }
        }
        if let Some(data_group) = map_get_mut(&mut self.sub_data_group, id) {
            data_group.add_sample(sample, receipt_time);
        }
        proof {
            self.lemma_wf_after_update(*old(self), id);
        }
    }

    /// The page is still well formed after one subscription changed in a
    /// well-formed way.
    proof fn lemma_wf_after_update(&self, old: PageSub, id: u64)
        requires
            old.wf(),
            self.dnd_items == old.dnd_items,
            self.sub_id_count == old.sub_id_count,
            old.group().contains_key(id) ==> self.group() == old.group().insert(id, self.group()[id]) && self.group()[id].wf(),
            !old.group().contains_key(id) ==> self.group() == old.group(),
        ensures
            self.wf(),
            self.group().dom() == old.group().dom(),
    {
        if old.group().contains_key(id) {
            assert(self.group().dom() =~= old.group().dom());
        }
        assert forall|id2: u64| #[trigger] self.group().contains_key(id2) implies self.group()[id2].wf() by {
            assert(old.group().contains_key(id2));
        }
    }

    /// The "declare" switch of the selected subscription. Declaring takes
    /// the typed key expression without blanks, which must not be empty
    /// and must be a key expression for zenoh.
    pub fn toggle_declare(&mut self)
        requires
            old(self).wf(),
        ensures
            final(self).wf(),
            final(self).ids() == old(self).ids(),
            final(self).sub_id_count == old(self).sub_id_count,
            final(self).selected_sub_id == old(self).selected_sub_id,
            final(self).group().dom() == old(self).group().dom(),
            forall|id2: u64| #[trigger] old(self).group().contains_key(id2) && id2 != old(self).selected_sub_id ==>
                final(self).group()[id2] == old(self).group()[id2],
            ({
                let id = old(self).selected_sub_id;
                let d0 = old(self).group()[id];
                let d1 = final(self).group()[id];
                let key = strip_blanks(d0.key_expr@);
                if !old(self).group().contains_key(id) {
                    final(self).events@ == old(self).events@
                } else if d0.subscribed {
                    &&& final(self).events@.len() == old(self).events@.len() + 1
                    &&& final(self).events@.drop_last() == old(self).events@
                    &&& final(self).events@.last() matches Event::DelSub(x) && x == id
                    &&& d1 == PageSubData { err_str: None, subscribed: false, ..d0 }
                } else if key.len() == 0 {
                    &&& final(self).events@ == old(self).events@
                    &&& d1.err_str matches Some(e) && e@ == "key expr is empty"@
                    &&& d1 == PageSubData { err_str: d1.err_str, ..d0 }
                } else {
                    match key_expr_verdict(key) {
                        Err(e) => {
                            &&& final(self).events@ == old(self).events@
                            &&& d1.err_str matches Some(m) && m@ == e
                            &&& d1 == PageSubData { err_str: d1.err_str, ..d0 }
                        },
                        Ok(_) => {
                            &&& final(self).events@.len() == old(self).events@.len() + 1
                            &&& final(self).events@.drop_last() == old(self).events@
                            &&& final(self).events@.last() matches Event::AddSub(b)
                                && b.id == id && b.key_expr@ == key && b.origin == ZLocality::Any
                            &&& d1 == PageSubData { err_str: None, subscribed: true, ..d0 }
                        },
                    }
                }
            }),
    {
        let id = self.selected_sub_id;
        let ghost ev0 = self.events@;
        if let Some(data_group) = map_get_mut(&mut self.sub_data_group, id) {
            if !data_group.subscribed {
                let key_expr_str = data_group.key_expr_input();
                if key_expr_str.as_str().is_empty() {
                    data_group.err_str = Some("key expr is empty".to_owned());
                } else {
                    match check_key_expr(key_expr_str.as_str()) {
                        Err(e) => {
                            data_group.err_str = Some(e);
                        },
                        Ok(_) => {
                            self.events.push_back(Event::AddSub(Box::new(SubData {
                                id,
                                key_expr: key_expr_str,
                                origin: ZLocality::Any,
                            })));
                            data_group.err_str = None;
                            data_group.subscribed = true;
                        },
                    }
                }
            } else {
                self.events.push_back(Event::DelSub(id));
                data_group.err_str = None;
                data_group.subscribed = false;
            }
        }
        proof {
            self.lemma_wf_after_update(*old(self), id);
        }
    }
}

impl PageSub {
    /// A click on sample `index` of the selected key of the selected
    /// subscription opens the sample window on it.
    pub fn open_sample_viewer(&mut self, index: usize)
        requires
            old(self).wf(),
        ensures
            final(self).sub_id_count == old(self).sub_id_count,
            final(self).selected_sub_id == old(self).selected_sub_id,
            final(self).sub_data_group == old(self).sub_data_group,
            final(self).dnd_items == old(self).dnd_items,
            final(self).events == old(self).events,
            ({
                let opened = match old(self).group().get(old(self).selected_sub_id) {
                    Some(d) => match d.values().as_map().get(d.selected_key@) {
                        Some(dv) => index < dv.samples().len(),
                        None => false,
                    },
                    None => false,
                };
                &&& final(self).show_sample_viewer_window == (old(self).show_sample_viewer_window || opened)
                &&& !opened ==> final(self).sample_viewer_window == old(self).sample_viewer_window
                &&& opened ==> final(self).sample_viewer_window.opened_on(
                    old(self).group()[old(self).selected_sub_id].values().as_map()[
                        old(self).group()[old(self).selected_sub_id].selected_key@].samples()[index as int].0)
            }),
    {
        let viewer = match self.sub_data_group.get(&self.selected_sub_id) {
            Some(d) => {
                proof {
                    assert(self.group()[self.selected_sub_id].wf());
                }
                match d.map.get(d.selected_key.as_str()) {
                    Some(dv) => {
                        if index < dv.deque().len() {
                            Some(SampleViewer::new_from_sample(&dv.deque()[index].0))
                        } else {
                            None
                        }
                    },
                    None => None,
                }
            },
            None => None,
        };
        if let Some(v) = viewer {
            self.sample_viewer_window = v;
            self.show_sample_viewer_window = true;
        }
    }
}

impl Default for PageSub {
    fn default() -> (p: PageSub)
        ensures
            p.wf(),
            p.sub_id_count == 1,
            p.selected_sub_id == 1,
            p.ids() == seq![1u64],
            p.events@.len() == 0,
            p.archive() == seq![("demo"@, "demo/**"@)],
    {
        let mut p = PageSub {
            events: VecDeque::new(),
            sub_id_count: 0,
            selected_sub_id: 1,
            sub_data_group: BTreeMap::new(),
            dnd_items: Vec::new(),
            show_sample_viewer_window: false,
            sample_viewer_window: SampleViewer::default(),
        };
        proof {
            assert(p.ids() =~= Seq::<u64>::empty());
            assert(p.group() =~= Map::<u64, PageSubData>::empty());
        }
        p.add_sub_data(PageSubData::new("demo".to_owned(), "demo/**".to_owned()));
        proof {
            assert(p.ids() =~= seq![1u64]);
        }
        p
    }
}

} // verus!
