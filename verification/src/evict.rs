//! Cache eviction: which files a run deletes, oldest first, to keep the
//! cache within its bounds on age and total size.

use vstd::prelude::*;

verus! {

/// The longest a file may stay in the cache, in nanoseconds: three days.
pub const MAX_AGE_NANOS: i128 = 259_200_000_000_000;

/// The most the files of the cache may take together, in bytes: one
/// gibibyte.
pub const MAX_TOTAL_BYTES: u64 = 1_073_741_824;

/// The time between two runs of the evictor, in seconds: one hour.
pub const RUN_INTERVAL_SECS: u64 = 3600;

/// What the file system reports of one file of the cache directory. The
/// place of a file in the listing identifies it.
#[derive(Clone, Copy, Debug)]
pub struct CacheFile {
    /// The time of the last modification, in nanoseconds since the Unix
    /// epoch; negative for a time before it.
    pub modified: i128,
    /// The size in bytes.
    pub size: u64,
}

/// Whether a file modified at `modified` is older at `now` than the cache
/// keeps files. A file modified after `now` has age zero.
pub open spec fn too_old(now: int, modified: int) -> bool {
    now - modified > MAX_AGE_NANOS
}

/// Whether the file at place `a` of the listing comes before the file at
/// place `b` when the oldest go first: by modification time, and among
/// files of the same time by place.
pub open spec fn precedes(files: Seq<CacheFile>, a: int, b: int) -> bool {
    files[a].modified < files[b].modified || (files[a].modified == files[b].modified && a < b)
}

/// Whether `order` lists the places of the first `count` files of `files`,
/// each once, the oldest first.
pub open spec fn orders_prefix(files: Seq<CacheFile>, order: Seq<usize>, count: int) -> bool {
    &&& order.len() == count
    &&& forall|i: int| 0 <= i < order.len() ==> 0 <= #[trigger] order[i] < count
    &&& forall|i: int, j: int|
        0 <= i < j < order.len() ==> precedes(files, #[trigger] order[i] as int, #[trigger] order[j] as int)
    &&& forall|k: usize| k < count ==> #[trigger] order.contains(k)
}

/// Whether `order` lists the places of all files of `files`, each once,
/// the oldest first and files of the same age in the order of the listing.
pub open spec fn is_oldest_first(files: Seq<CacheFile>, order: Seq<usize>) -> bool {
    orders_prefix(files, order, files.len() as int)
}

/// The sizes of the files at the places `order`, added up.
pub open spec fn order_size(files: Seq<CacheFile>, order: Seq<usize>) -> int
    decreases order.len(),
{
    if order.len() == 0 {
        0
    } else {
        files[order.first() as int].size + order_size(files, order.drop_first())
    }
}

/// The sizes of `files`, added up.
pub open spec fn total_size(files: Seq<CacheFile>) -> int
    decreases files.len(),
{
    if files.len() == 0 {
        0
    } else {
        total_size(files.drop_last()) + files.last().size
    }
}

proof fn lemma_order_size_insert(files: Seq<CacheFile>, order: Seq<usize>, p: int, x: usize)
    requires
        0 <= p <= order.len(),
    ensures
        order_size(files, order.insert(p, x)) == order_size(files, order) + files[x as int].size,
    decreases order.len(),
{
    order.insert_ensures(p, x);
    let longer = order.insert(p, x);
    if p == 0 {
        assert(longer.drop_first() =~= order);
    } else {
        assert(longer.drop_first() =~= order.drop_first().insert(p - 1, x));
        assert(longer.first() == order.first());
        lemma_order_size_insert(files, order.drop_first(), p - 1, x);
    }
}

proof fn lemma_order_size_nonnegative(files: Seq<CacheFile>, order: Seq<usize>)
    ensures
        0 <= order_size(files, order),
    decreases order.len(),
{
    if order.len() > 0 {
        lemma_order_size_nonnegative(files, order.drop_first());
    }
}

proof fn lemma_total_size_bounds(files: Seq<CacheFile>)
    ensures
        0 <= total_size(files) <= files.len() * u64::MAX,
    decreases files.len(),
{
    if files.len() > 0 {
        lemma_total_size_bounds(files.drop_last());
        assert((files.len() - 1) * u64::MAX + u64::MAX == files.len() * u64::MAX)
            by (nonlinear_arith);
    }
}

proof fn lemma_orders_agree_up_to(files: Seq<CacheFile>, a: Seq<usize>, b: Seq<usize>, n: int)
    requires
        is_oldest_first(files, a),
        is_oldest_first(files, b),
        0 <= n <= files.len(),
    ensures
        forall|i: int| 0 <= i < n ==> a[i] == b[i],
    decreases n,
{
    if n > 0 {
        lemma_orders_agree_up_to(files, a, b, n - 1);
        let i = n - 1;
        if a[i] != b[i] {
            assert(b.contains(a[i]));
            let j = choose|j: int| 0 <= j < b.len() && b[j] == a[i];
            if j < i {
                assert(precedes(files, a[j] as int, a[i] as int));
            }
            assert(precedes(files, b[i] as int, b[j] as int));
            assert(a.contains(b[i]));
            let k = choose|k: int| 0 <= k < a.len() && a[k] == b[i];
            if k < i {
                assert(precedes(files, b[k] as int, b[i] as int));
            }
            assert(precedes(files, a[i] as int, a[k] as int));
        }
    }
}

/// A listing has one order that puts the oldest first and keeps files of
/// the same age in the order of the listing.
pub proof fn lemma_oldest_first_is_unique(files: Seq<CacheFile>, a: Seq<usize>, b: Seq<usize>)
    requires
        is_oldest_first(files, a),
        is_oldest_first(files, b),
    ensures
        a == b,
{
    lemma_orders_agree_up_to(files, a, b, files.len() as int);
    assert(a =~= b);
}

/// The places of `files`, the oldest file first; files of the same age
/// keep the order of the listing.
pub fn oldest_first(files: &Vec<CacheFile>) -> (order: Vec<usize>)
    ensures
        is_oldest_first(files@, order@),
        order_size(files@, order@) == total_size(files@),
{
    let mut order: Vec<usize> = Vec::new();
    let mut i: usize = 0;
    assert(files@.take(0) =~= Seq::<CacheFile>::empty());
    while i < files.len()
        invariant
            i <= files.len(),
            orders_prefix(files@, order@, i as int),
            order_size(files@, order@) == total_size(files@.take(i as int)),
        decreases files.len() - i,
    {
        let modified = files[i].modified;
        let mut p: usize = order.len();
        while p > 0 && files[order[p - 1]].modified > modified
            invariant
                p <= order.len(),
                i < files.len(),
                modified == files@[i as int].modified,
                orders_prefix(files@, order@, i as int),
                forall|q: int|
                    p <= q < order.len() ==> files@[#[trigger] order@[q] as int].modified
                        > modified,
            decreases p,
        {
            p -= 1;
        }
        let ghost before = order@;
        order.insert(p, i);
        proof {
            before.insert_ensures(p as int, i);
            let after = order@;
            assert forall|a: int, b: int| 0 <= a < b < after.len() implies precedes(
                files@,
                #[trigger] after[a] as int,
                #[trigger] after[b] as int,
            ) by {
                if b < p {
                    assert(after[a] == before[a] && after[b] == before[b]);
                } else if b == p {
                    assert(after[a] == before[a]);
                    if p > 0 {
                        assert(files@[before[p - 1] as int].modified <= modified);
                        if a < p - 1 {
                            assert(precedes(files@, before[a] as int, before[p - 1] as int));
                        }
                    }
                } else if a < p {
                    assert(after[a] == before[a] && after[b] == before[b - 1]);
                } else if a == p {
                    assert(after[b] == before[b - 1]);
                } else {
                    assert(after[a] == before[a - 1] && after[b] == before[b - 1]);
                }
            }
            assert forall|k: usize| k < i + 1 implies #[trigger] after.contains(k) by {
                if k == i {
                    assert(after[p as int] == i);
                } else {
                    assert(before.contains(k));
                    let q = choose|q: int| 0 <= q < before.len() && before[q] == k;
                    if q < p {
                        assert(after[q] == before[q]);
                    } else {
                        assert(after[q + 1] == before[q]);
                    }
                }
            }
            assert forall|a: int| 0 <= a < after.len() implies 0 <= #[trigger] after[a] < i
                + 1 by {
                if a < p {
                    assert(after[a] == before[a]);
                } else if a > p {
                    assert(after[a] == before[a - 1]);
                }
            }
            lemma_order_size_insert(files@, before, p as int, i);
            assert(files@.take(i + 1).drop_last() == files@.take(i as int));
        }
        i += 1;
    }
    assert(files@.take(files.len() as int) == files@);
    order
}

/// The sizes of `files`, added up.
pub fn sum_sizes(files: &Vec<CacheFile>) -> (total: u128)
    ensures
        total == total_size(files@),
{
    let mut total: u128 = 0;
    let mut i: usize = 0;
    assert(files@.take(0) =~= Seq::<CacheFile>::empty());
    while i < files.len()
        invariant
            i <= files.len(),
            total == total_size(files@.take(i as int)),
        decreases files.len() - i,
    {
        proof {
            lemma_total_size_bounds(files@.take(i as int));
            assert(files@.take(i + 1).drop_last() == files@.take(i as int));
            assert(i * u64::MAX + u64::MAX <= 0xffff_ffff_ffff_ffff * 0x1_0000_0000_0000_0000)
                by (nonlinear_arith)
                requires
                    i < 0xffff_ffff_ffff_ffff,
            ;
        }
        total = total + files[i].size as u128;
        i += 1;
    }
    assert(files@.take(files.len() as int) == files@);
    total
}

/// The mathematical content of an [`EvictionWalk`].
pub struct WalkModel {
    /// The listing of the cache directory.
    pub files: Seq<CacheFile>,
    /// The places of the listing, the oldest file first.
    pub order: Seq<usize>,
    /// The time of the run.
    pub now: int,
    /// How many files of `order` the walk has passed.
    pub cursor: int,
    /// What the files that are left take together.
    pub total: int,
    /// Whether the walk has stopped before the end of `order`.
    pub finished: bool,
}

/// The file that the walk asks to delete next, if any. The walk is over at
/// the end of the list and at the first file that is within the retention
/// period while the total is within the budget.
pub open spec fn candidate_of(m: WalkModel) -> Option<usize> {
    if m.finished || m.cursor < 0 || m.cursor >= m.order.len() {
        None
    } else {
        let place = m.order[m.cursor];
        if too_old(m.now, m.files[place as int].modified as int) || m.total > MAX_TOTAL_BYTES {
            Some(place)
        } else {
            None
        }
    }
}

/// The walk after the deletion it asked for was tried. A deletion that
/// succeeded takes the file's size off the total; a failed one changes
/// nothing. The walk then stops where the total is within the budget and
/// the file is within the retention period, and else goes on to the next
/// file.
pub open spec fn after_removal(m: WalkModel, succeeded: bool) -> WalkModel {
    match candidate_of(m) {
        None => m,
        Some(place) => {
            let file = m.files[place as int];
            let total = if succeeded {
                m.total - file.size
            } else {
                m.total
            };
            if total <= MAX_TOTAL_BYTES && !too_old(m.now, file.modified as int) {
                WalkModel { total, finished: true, ..m }
            } else {
                WalkModel { total, cursor: m.cursor + 1, ..m }
            }
        },
    }
}

/// The walk at its start over the listing `files` at time `now`.
pub open spec fn starts_walk(m: WalkModel, files: Seq<CacheFile>, now: int) -> bool {
    &&& m.files == files
    &&& is_oldest_first(files, m.order)
    &&& m.now == now
    &&& m.cursor == 0
    &&& m.total == total_size(files)
    &&& !m.finished
}

/// One run of the evictor over a listing of the cache directory. The
/// caller deletes the file that [`EvictionWalk::candidate`] names and
/// reports the outcome with [`EvictionWalk::after_removal`], until no
/// candidate is left.
#[derive(Debug)]
pub struct EvictionWalk {
    files: Vec<CacheFile>,
    order: Vec<usize>,
    now: i128,
    cursor: usize,
    total: u128,
    finished: bool,
}

impl View for EvictionWalk {
    type V = WalkModel;

    closed spec fn view(&self) -> WalkModel {
        WalkModel {
            files: self.files@,
            order: self.order@,
            now: self.now as int,
            cursor: self.cursor as int,
            total: self.total as int,
            finished: self.finished,
        }
    }
}

/// Whether a file modified at `modified` is older at `now` than the cache
/// keeps files.
pub fn is_too_old(now: i128, modified: i128) -> (r: bool)
    ensures
        r == too_old(now as int, modified as int),
{
    if modified > i128::MAX - MAX_AGE_NANOS {
        false
    } else {
        now > modified + MAX_AGE_NANOS
    }
}

impl EvictionWalk {
    #[verifier::type_invariant]
    spec fn well_formed(self) -> bool {
        &&& is_oldest_first(self.files@, self.order@)
        &&& self.cursor <= self.order.len()
        &&& self.finished || self.total >= order_size(
            self.files@,
            self.order@.skip(self.cursor as int),
        )
    }

    /// Starts a run at time `now` over the listing `files`.
    pub fn new(files: Vec<CacheFile>, now: i128) -> (walk: EvictionWalk)
        ensures
            starts_walk(walk@, files@, now as int),
    {
        let order = oldest_first(&files);
        let total = sum_sizes(&files);
        assert(order@.skip(0) == order@);
        EvictionWalk { files, order, now, cursor: 0, total, finished: false }
    }

    /// The place in the listing of the file to delete next, or `None` when
    /// the run is over.
    pub fn candidate(&self) -> (r: Option<usize>)
        ensures
            r == candidate_of(self@),
            r matches Some(place) ==> place < self@.files.len(),
    {
        proof {
            use_type_invariant(self);
        }
        if self.finished || self.cursor >= self.order.len() {
            return None;
        }
        let place = self.order[self.cursor];
        if is_too_old(self.now, self.files[place].modified) || self.total > MAX_TOTAL_BYTES as u128 {
            Some(place)
        } else {
            None
        }
    }

    /// The walk after the deletion of its candidate was tried, with or
    /// without success. Without a candidate nothing changes.
    pub fn after_removal(self, succeeded: bool) -> (walk: EvictionWalk)
        ensures
            walk@ == after_removal(self@, succeeded),
    {
        proof {
            use_type_invariant(&self);
        }
        let place = match self.candidate() {
            Some(place) => place,
            None => {
                return self;
            },
        };
        let file = self.files[place];
        proof {
            let tail = self.order@.skip(self.cursor as int);
            assert(tail.first() == place);
            assert(tail.drop_first() == self.order@.skip(self.cursor + 1));
            lemma_order_size_nonnegative(self.files@, tail.drop_first());
        }
        let total = if succeeded {
            self.total - file.size as u128
        } else {
            self.total
        };
        let stop = total <= MAX_TOTAL_BYTES as u128 && !is_too_old(self.now, file.modified);
        if stop {
            EvictionWalk {
                files: self.files,
                order: self.order,
                now: self.now,
                cursor: self.cursor,
                total,
                finished: true,
            }
        } else {
            EvictionWalk {
                files: self.files,
                order: self.order,
                now: self.now,
                cursor: self.cursor + 1,
                total,
                finished: false,
            }
        }
    }

    /// What the files that are left take together, in bytes.
    pub fn total(&self) -> (r: u128)
        ensures
            r == self@.total,
    {
        self.total
    }
}

/// The files that a run deletes from `m` on, in the order of deletion,
/// when every deletion succeeds.
pub open spec fn removed_by(m: WalkModel) -> Seq<usize>
    decreases m.order.len() - m.cursor,
{
    match candidate_of(m) {
        None => Seq::empty(),
        Some(place) => {
            let next = after_removal(m, true);
            if next.finished {
                seq![place]
            } else {
                seq![place] + removed_by(next)
            }
        },
    }
}

/// Whether `m` is a walk under way: its order lists the files oldest
/// first, and it has not stopped.
pub open spec fn under_way(m: WalkModel) -> bool {
    &&& is_oldest_first(m.files, m.order)
    &&& 0 <= m.cursor <= m.order.len()
    &&& !m.finished
}

proof fn lemma_old_file_ahead_is_removed(m: WalkModel, p: int)
    requires
        under_way(m),
        m.cursor <= p < m.order.len(),
        too_old(m.now, m.files[m.order[p] as int].modified as int),
    ensures
        removed_by(m).contains(m.order[p]),
    decreases m.order.len() - m.cursor,
{
    let place = m.order[m.cursor];
    if p > m.cursor {
        assert(precedes(m.files, m.order[m.cursor] as int, m.order[p] as int));
    }
    assert(candidate_of(m) == Some(place));
    let next = after_removal(m, true);
    assert(!next.finished);
    if p == m.cursor {
        assert((seq![place] + removed_by(next))[0] == place);
    } else {
        lemma_old_file_ahead_is_removed(next, p);
        let q = choose|q: int| 0 <= q < removed_by(next).len() && removed_by(next)[q] == m.order[p];
        assert((seq![place] + removed_by(next))[q + 1] == m.order[p]);
    }
}

/// A run deletes every file that is older than the retention period,
/// whatever the files take together.
pub proof fn lemma_old_files_are_removed(m: WalkModel, files: Seq<CacheFile>, now: int, k: usize)
    requires
        starts_walk(m, files, now),
        k < files.len(),
        too_old(now, files[k as int].modified as int),
    ensures
        removed_by(m).contains(k),
{
    assert(m.order.contains(k));
    let p = choose|p: int| 0 <= p < m.order.len() && m.order[p] == k;
    lemma_old_file_ahead_is_removed(m, p);
}

/// A run over files that are all within the retention period and together
/// within the budget deletes nothing.
pub proof fn lemma_nothing_removed_within_bounds(m: WalkModel, files: Seq<CacheFile>, now: int)
    requires
        starts_walk(m, files, now),
        total_size(files) <= MAX_TOTAL_BYTES,
        forall|k: int| 0 <= k < files.len() ==> !too_old(now, #[trigger] files[k].modified as int),
    ensures
        removed_by(m) == Seq::<usize>::empty(),
{
    if m.order.len() > 0 {
        assert(0 <= m.order[0] < files.len());
    }
}

proof fn lemma_removed_is_next_in_order(m: WalkModel)
    requires
        under_way(m),
    ensures
        m.cursor + removed_by(m).len() <= m.order.len(),
        removed_by(m) == m.order.subrange(m.cursor, m.cursor + removed_by(m).len()),
        m.total - order_size(m.files, removed_by(m)) <= MAX_TOTAL_BYTES || m.cursor + removed_by(
            m,
        ).len() == m.order.len(),
    decreases m.order.len() - m.cursor,
{
    match candidate_of(m) {
        None => {
            assert(removed_by(m) =~= m.order.subrange(m.cursor, m.cursor));
        },
        Some(place) => {
            let next = after_removal(m, true);
            let size = m.files[place as int].size;
            if next.finished {
                assert(seq![place].drop_first() =~= Seq::<usize>::empty());
                assert(order_size(m.files, seq![place]) == size + order_size(
                    m.files,
                    Seq::<usize>::empty(),
                ));
                assert(removed_by(m) =~= m.order.subrange(m.cursor, m.cursor + 1));
            } else {
                lemma_removed_is_next_in_order(next);
                let rest = removed_by(next);
                assert((seq![place] + rest).drop_first() =~= rest);
                assert(order_size(m.files, seq![place] + rest) == size + order_size(
                    m.files,
                    rest,
                ));
                assert(removed_by(m) =~= m.order.subrange(
                    m.cursor,
                    m.cursor + removed_by(m).len(),
                ));
            }
        },
    }
}

/// A run deletes the oldest files first: what it deletes is a beginning of
/// the files in order of age. It goes on until what is left is within the
/// budget, or no file is left.
pub proof fn lemma_removal_proceeds_oldest_first(m: WalkModel, files: Seq<CacheFile>, now: int)
    requires
        starts_walk(m, files, now),
    ensures
        removed_by(m).len() <= files.len(),
        removed_by(m) == m.order.take(removed_by(m).len() as int),
        total_size(files) - order_size(files, removed_by(m)) <= MAX_TOTAL_BYTES || removed_by(
            m,
        ).len() == files.len(),
{
    lemma_removed_is_next_in_order(m);
}

} // verus!
