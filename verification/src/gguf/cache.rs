//! Caches of experts.
use crate::dtype::DType;
use vstd::prelude::*;

verus! {

/// What is kept: an expert of a tensor, decoded to a type. Caches that hold no decoded experts
/// leave the type at zero.
#[derive(Clone, Copy, Debug, PartialEq, Eq, Structural)]
pub struct CacheKey {
    pub tensor: usize,
    pub expert: usize,
    pub dtype: u8,
}

/// The number of a type in a key.
pub open spec fn dtype_number(dtype: DType) -> u8 {
    match dtype {
        DType::U8 => 0,
        DType::U32 => 1,
        DType::I64 => 2,
        DType::BF16 => 3,
        DType::F16 => 4,
        DType::F32 => 5,
        DType::F64 => 6,
        _ => 255,
    }
}

/// The number of a type in a key.
pub fn dtype_key(dtype: DType) -> (key: u8)
    ensures
        key == dtype_number(dtype),
{
    match dtype {
        DType::U8 => 0,
        DType::U32 => 1,
        DType::I64 => 2,
        DType::BF16 => 3,
        DType::F16 => 4,
        DType::F32 => 5,
        DType::F64 => 6,
        _ => 255,
    }
}

/// A cache that forgets what it has held longest. Keys and values stand in the order in which
/// they came.
pub struct FifoCache<V> {
    pub keys: Vec<CacheKey>,
    pub values: Vec<V>,
}

/// What is left of a sequence once all but the last `limit` are forgotten.
pub open spec fn newest<T>(items: Seq<T>, limit: nat) -> Seq<T> {
    if items.len() <= limit {
        items
    } else {
        items.skip(items.len() - limit)
    }
}

impl<V> FifoCache<V> {
    /// Each key has its value, and no key occurs twice.
    pub open spec fn wf(&self) -> bool {
        &&& self.keys@.len() == self.values@.len()
        &&& forall|i: int, j: int|
            0 <= i < j < self.keys@.len() ==> #[trigger] self.keys@[i] != #[trigger] self.keys@[j]
    }

    /// Whether a key has this value.
    pub open spec fn holds(&self, key: CacheKey, value: V) -> bool {
        exists|i: int|
            0 <= i < self.keys@.len() && #[trigger] self.keys@[i] == key && self.values@[i] == value
    }

    /// An empty cache.
    pub fn new() -> (cache: Self)
        ensures
            cache.wf(),
            cache.keys@.len() == 0,
    {
        FifoCache { keys: Vec::new(), values: Vec::new() }
    }

    fn position(&self, key: CacheKey) -> (index: Option<usize>)
        ensures
            match index {
                Some(i) => i < self.keys@.len() && self.keys@[i as int] == key,
                None => !self.keys@.contains(key),
            },
    {
        let mut i: usize = 0;
        while i < self.keys.len()
            invariant
                i <= self.keys@.len(),
                forall|j: int| 0 <= j < i ==> #[trigger] self.keys@[j] != key,
            decreases self.keys@.len() - i,
        {
            if self.keys[i] == key {
                return Some(i);
            }
            i += 1;
        }
        None
    }

    /// The value of a key.
    pub fn get(&self, key: CacheKey) -> (value: Option<&V>)
        requires
            self.wf(),
        ensures
            match value {
                Some(v) => self.holds(key, *v),
                None => !self.keys@.contains(key),
            },
    {
        match self.position(key) {
            Some(i) => {
                assert(self.keys@[i as int] == key);
                Some(&self.values[i])
            },
            None => None,
        }
    }

    /// Keeps a value, unless its key has one already or nothing is to be kept, and forgets the
    /// oldest values until `limit` are left.
    pub fn insert(&mut self, key: CacheKey, value: V, limit: usize)
        requires
            old(self).wf(),
        ensures
            final(self).wf(),
            limit == 0 || old(self).keys@.contains(key) ==> *final(self) == *old(self),
            limit > 0 && !old(self).keys@.contains(key) ==> {
                &&& final(self).keys@ == newest(old(self).keys@.push(key), limit as nat)
                &&& final(self).values@ == newest(old(self).values@.push(value), limit as nat)
                &&& final(self).keys@.len() <= limit
            },
    {
        if limit == 0 {
            return;
        }
        if self.position(key).is_some() {
            return;
        }
        let ghost keys = self.keys@.push(key);
        let ghost values = self.values@.push(value);
        self.keys.push(key);
        self.values.push(value);
        let ghost mut dropped: int = 0;
        assert(keys.skip(0) =~= keys);
        assert(values.skip(0) =~= values);
        while self.keys.len() > limit
            invariant
                limit > 0,
                keys.len() == values.len(),
                0 <= dropped <= keys.len(),
                keys.len() - dropped >= limit || dropped == 0,
                self.keys@ == keys.skip(dropped),
                self.values@ == values.skip(dropped),
                forall|i: int, j: int|
                    0 <= i < j < keys.len() ==> #[trigger] keys[i] != #[trigger] keys[j],
            decreases self.keys@.len(),
        {
            self.keys.remove(0);
            self.values.remove(0);
            proof {
                dropped = dropped + 1;
                assert(self.keys@ =~= keys.skip(dropped));
                assert(self.values@ =~= values.skip(dropped));
            }
        }
    }
}

/// A value that was kept is found under its key.
pub proof fn kept_value_is_found<V>(
    before: FifoCache<V>,
    after: FifoCache<V>,
    key: CacheKey,
    value: V,
    limit: nat,
)
    requires
        before.wf(),
        limit > 0,
        after.keys@ == newest(before.keys@.push(key), limit),
        after.values@ == newest(before.values@.push(value), limit),
    ensures
        after.holds(key, value),
{
    let n = before.keys@.len() as int;
    let drop = if n + 1 <= limit {
        0
    } else {
        n + 1 - limit
    };
    assert(after.keys@[n - drop] == key);
    assert(after.values@[n - drop] == value);
}

/// The values that came just before one that is kept are still there, as far as the limit goes.
pub proof fn recent_values_stay<V>(
    before: FifoCache<V>,
    after: FifoCache<V>,
    key: CacheKey,
    value: V,
    limit: nat,
    i: int,
)
    requires
        before.wf(),
        limit > 0,
        after.keys@ == newest(before.keys@.push(key), limit),
        after.values@ == newest(before.values@.push(value), limit),
        0 <= i < before.keys@.len(),
        before.keys@.len() - i < limit,
    ensures
        after.holds(before.keys@[i], before.values@[i]),
{
    let n = before.keys@.len() as int;
    let drop = if n + 1 <= limit {
        0
    } else {
        n + 1 - limit
    };
    assert(after.keys@[i - drop] == before.keys@[i]);
    assert(after.values@[i - drop] == before.values@[i]);
}

/// What a staged tensor is kept under: the tensor it comes from, its device, and its experts.
pub struct StagedKey {
    pub tensor: usize,
    pub device: usize,
    pub experts: Vec<usize>,
}

impl StagedKey {
    /// Whether two keys are the same.
    pub open spec fn is(&self, other: StagedKey) -> bool {
        &&& self.tensor == other.tensor
        &&& self.device == other.device
        &&& self.experts@ == other.experts@
    }

    fn same(&self, other: &StagedKey) -> (yes: bool)
        ensures
            yes == self.is(*other),
    {
        if self.tensor != other.tensor || self.device != other.device || self.experts.len()
            != other.experts.len() {
            return false;
        }
        let mut i: usize = 0;
        while i < self.experts.len()
            invariant
                self.experts@.len() == other.experts@.len(),
                i <= self.experts@.len(),
                forall|j: int| 0 <= j < i ==> self.experts@[j] == other.experts@[j],
            decreases self.experts@.len() - i,
        {
            if self.experts[i] != other.experts[i] {
                return false;
            }
            i += 1;
        }
        assert(self.experts@ =~= other.experts@);
        true
    }
}

/// A tensor that is kept, with its size.
pub struct StagedEntry<V> {
    pub key: StagedKey,
    pub value: V,
    pub bytes: usize,
}

/// The size of all entries.
pub open spec fn total_bytes<V>(entries: Seq<StagedEntry<V>>) -> nat
    decreases entries.len(),
{
    if entries.len() == 0 {
        0
    } else {
        total_bytes(entries.drop_first()) + entries.first().bytes as nat
    }
}

/// What is left once the entries used longest ago are forgotten until the rest fits; the last
/// entry stays.
pub open spec fn evicted<V>(entries: Seq<StagedEntry<V>>, max_bytes: nat) -> Seq<StagedEntry<V>>
    decreases entries.len(),
{
    if entries.len() <= 1 || total_bytes(entries) <= max_bytes {
        entries
    } else {
        evicted(entries.drop_first(), max_bytes)
    }
}

/// A cache of bounded size that forgets what was used longest ago. The entries stand in the
/// order of their last use.
pub struct StagedCache<V> {
    pub entries: Vec<StagedEntry<V>>,
    pub bytes: usize,
}

/// Where an entry is.
pub open spec fn entry_at<V>(entries: Seq<StagedEntry<V>>, key: StagedKey, i: int) -> bool {
    0 <= i < entries.len() && entries[i].key.is(key)
}

/// Whether there is an entry of a key.
pub open spec fn has_entry<V>(entries: Seq<StagedEntry<V>>, key: StagedKey) -> bool {
    exists|i: int| #[trigger] entry_at(entries, key, i)
}

impl<V> StagedCache<V> {
    /// No key occurs twice, and the sizes add up.
    pub open spec fn wf(&self) -> bool {
        &&& forall|i: int, j: int|
            0 <= i < j < self.entries@.len() ==> !(#[trigger] self.entries@[i]).key.is(
                (#[trigger] self.entries@[j]).key,
            )
        &&& self.bytes == total_bytes(self.entries@)
    }

    /// An empty cache.
    pub fn new() -> (cache: Self)
        ensures
            cache.wf(),
            cache.entries@.len() == 0,
    {
        StagedCache { entries: Vec::new(), bytes: 0 }
    }

    fn position(&self, key: &StagedKey) -> (index: Option<usize>)
        ensures
            match index {
                Some(i) => entry_at(self.entries@, *key, i as int),
                None => !has_entry(self.entries@, *key),
            },
    {
        let mut i: usize = 0;
        while i < self.entries.len()
            invariant
                i <= self.entries@.len(),
                forall|j: int| 0 <= j < i ==> !(#[trigger] self.entries@[j]).key.is(*key),
            decreases self.entries@.len() - i,
        {
            if self.entries[i].key.same(key) {
                return Some(i);
            }
            i += 1;
        }
        None
    }

    /// Marks an entry as used last, if there is one of this key; then it is the last entry.
    pub fn touch(&mut self, key: &StagedKey) -> (hit: bool)
        requires
            old(self).wf(),
        ensures
            final(self).wf(),
            hit == has_entry(old(self).entries@, *key),
            !hit ==> *final(self) == *old(self),
            hit ==> exists|i: int|
                {
                    &&& #[trigger] entry_at(old(self).entries@, *key, i)
                    &&& final(self).entries@ == old(self).entries@.remove(i).push(
                        old(self).entries@[i],
                    )
                },
    {
        match self.position(key) {
            None => false,
            Some(i) => {
                let ghost before = self.entries@;
                let entry: StagedEntry<V> = self.entries.remove(i);
                self.entries.push(entry);
                proof {
                    total_of_removed(before, i as int);
                    total_of_pushed(before.remove(i as int), before[i as int]);
                    moved_keys_stay_distinct(before, i as int);
                    assert(self.entries@ =~= before.remove(i as int).push(before[i as int]));
                }
                true
            },
        }
    }

    /// The value that was used last.
    pub fn last(&self) -> (value: Option<&V>)
        ensures
            match value {
                Some(v) => self.entries@.len() > 0 && *v == self.entries@.last().value,
                None => self.entries@.len() == 0,
            },
    {
        if self.entries.len() == 0 {
            None
        } else {
            Some(&self.entries[self.entries.len() - 1].value)
        }
    }

    /// Keeps a tensor in place of one of the same key, and forgets the tensors used longest ago
    /// until the rest fits.
    pub fn insert(&mut self, key: StagedKey, value: V, bytes: usize, max_bytes: usize)
        requires
            old(self).wf(),
            old(self).bytes + bytes <= usize::MAX,
            bytes <= max_bytes,
        ensures
            final(self).wf(),
            final(self).bytes <= max_bytes,
            ({
                let entry = (StagedEntry { key, value, bytes });
                let before = old(self).entries@;
                if has_entry(before, key) {
                    exists|i: int|
                        {
                            &&& #[trigger] entry_at(before, key, i)
                            &&& final(self).entries@ == evicted(
                                before.remove(i).push(entry),
                                max_bytes as nat,
                            )
                        }
                } else {
                    final(self).entries@ == evicted(before.push(entry), max_bytes as nat)
                }
            }),
    {
        let ghost before = self.entries@;
        let ghost entry = StagedEntry { key, value, bytes };
        let found: Option<usize> = self.position(&key);
        let ghost mut kept: Seq<StagedEntry<V>> = before;
        if let Some(i) = found {
            proof {
                total_of_removed(before, i as int);
                kept = before.remove(i as int);
                removed_keys_stay_distinct(before, i as int);
            }
            let old_entry: StagedEntry<V> = self.entries.remove(i);
            self.bytes = self.bytes - old_entry.bytes;
        }
        proof {
            total_of_pushed(kept, entry);
            pushed_keys_stay_distinct(kept, entry);
        }
        self.entries.push(StagedEntry { key, value, bytes });
        self.bytes = self.bytes + bytes;
        let ghost full = kept.push(entry);
        assert(self.entries@ =~= full);
        while self.bytes > max_bytes
            invariant
                self.entries@.len() >= 1,
                self.entries@.last().bytes == bytes,
                bytes <= max_bytes,
                evicted(self.entries@, max_bytes as nat) == evicted(full, max_bytes as nat),
                self.wf(),
            decreases self.entries@.len(),
        {
            let ghost current = self.entries@;
            proof {
                if current.len() == 1 {
                    assert(current.drop_first() =~= Seq::<StagedEntry<V>>::empty());
                    assert(total_bytes(current.drop_first()) == 0);
                    assert(current.first() == current.last());
                }
                total_of_removed(current, 0);
                removed_keys_stay_distinct(current, 0);
                assert(current.remove(0) =~= current.drop_first());
            }
            let evicted_entry: StagedEntry<V> = self.entries.remove(0);
            self.bytes = self.bytes - evicted_entry.bytes;
        }
    }
}

proof fn total_of_pushed<V>(entries: Seq<StagedEntry<V>>, entry: StagedEntry<V>)
    ensures
        total_bytes(entries.push(entry)) == total_bytes(entries) + entry.bytes,
    decreases entries.len(),
{
    let more = entries.push(entry);
    if entries.len() == 0 {
        assert(more.drop_first() =~= Seq::<StagedEntry<V>>::empty());
        assert(total_bytes(more.drop_first()) == 0);
    } else {
        total_of_pushed(entries.drop_first(), entry);
        assert(more.drop_first() =~= entries.drop_first().push(entry));
        assert(more.first() == entries.first());
    }
}

proof fn total_of_removed<V>(entries: Seq<StagedEntry<V>>, i: int)
    requires
        0 <= i < entries.len(),
    ensures
        total_bytes(entries.remove(i)) + entries[i].bytes == total_bytes(entries),
    decreases entries.len(),
{
    let rest = entries.remove(i);
    if i == 0 {
        assert(rest =~= entries.drop_first());
    } else {
        total_of_removed(entries.drop_first(), i - 1);
        assert(rest.drop_first() =~= entries.drop_first().remove(i - 1));
        assert(rest.first() == entries.first());
        assert(entries.drop_first()[i - 1] == entries[i]);
    }
}

spec fn keys_are_distinct<V>(entries: Seq<StagedEntry<V>>) -> bool {
    forall|i: int, j: int|
        0 <= i < j < entries.len() ==> !(#[trigger] entries[i]).key.is((#[trigger] entries[j]).key)
}

proof fn removed_keys_stay_distinct<V>(entries: Seq<StagedEntry<V>>, at: int)
    requires
        keys_are_distinct(entries),
        0 <= at < entries.len(),
    ensures
        keys_are_distinct(entries.remove(at)),
        !has_entry(entries.remove(at), entries[at].key),
        forall|key: StagedKey|
            entries[at].key.is(key) ==> !#[trigger] has_entry(entries.remove(at), key),
{
    let rest = entries.remove(at);
    assert forall|i: int, j: int| 0 <= i < j < rest.len() implies !(#[trigger] rest[i]).key.is(
        (#[trigger] rest[j]).key,
    ) by {
        let i2 = if i < at {
            i
        } else {
            i + 1
        };
        let j2 = if j < at {
            j
        } else {
            j + 1
        };
        assert(!entries[i2].key.is(entries[j2].key));
    }
    assert forall|key: StagedKey| entries[at].key.is(key) implies !#[trigger] has_entry(
        rest,
        key,
    ) by {
        assert forall|i: int| !#[trigger] entry_at(rest, key, i) by {
            if entry_at(rest, key, i) {
                if i < at {
                    assert(rest[i] == entries[i]);
                    assert(!entries[i].key.is(entries[at].key));
                } else {
                    assert(rest[i] == entries[i + 1]);
                    assert(!entries[at].key.is(entries[i + 1].key));
                }
            }
        }
    }
}

proof fn pushed_keys_stay_distinct<V>(entries: Seq<StagedEntry<V>>, entry: StagedEntry<V>)
    requires
        keys_are_distinct(entries),
        !has_entry(entries, entry.key),
    ensures
        keys_are_distinct(entries.push(entry)),
{
    let more = entries.push(entry);
    assert forall|i: int, j: int| 0 <= i < j < more.len() implies !(#[trigger] more[i]).key.is(
        (#[trigger] more[j]).key,
    ) by {
        if j < entries.len() {
            assert(!entries[i].key.is(entries[j].key));
        } else {
            assert(!entry_at(entries, entry.key, i));
        }
    }
}

proof fn moved_keys_stay_distinct<V>(entries: Seq<StagedEntry<V>>, at: int)
    requires
        keys_are_distinct(entries),
        0 <= at < entries.len(),
    ensures
        keys_are_distinct(entries.remove(at).push(entries[at])),
{
    removed_keys_stay_distinct(entries, at);
    pushed_keys_stay_distinct(entries.remove(at), entries[at]);
}

/// Types that experts are decoded to have numbers of their own.
pub proof fn key_number_tells_the_type(dtype: DType)
    ensures
        dtype_number(dtype) == 0 <==> dtype == DType::U8,
        dtype_number(dtype) == 1 <==> dtype == DType::U32,
        dtype_number(dtype) == 2 <==> dtype == DType::I64,
        dtype_number(dtype) == 3 <==> dtype == DType::BF16,
        dtype_number(dtype) == 4 <==> dtype == DType::F16,
        dtype_number(dtype) == 5 <==> dtype == DType::F32,
        dtype_number(dtype) == 6 <==> dtype == DType::F64,
        dtype_number(dtype) <= 6 || dtype_number(dtype) == 255,
{
}

/// What is forgotten is what came first: as many as the limit are left, and they are the last
/// ones in their order.
pub proof fn oldest_are_forgotten<T>(items: Seq<T>, limit: nat, i: int)
    ensures
        newest(items, limit).len() <= limit,
        newest(items, limit).len() == items.len() || newest(items, limit).len() == limit,
        newest(items, limit).len() <= items.len(),
        0 <= i < newest(items, limit).len() ==> newest(items, limit)[i] == items[items.len()
            - newest(items, limit).len() + i],
{
}

/// Keys of staged tensors are the same only if tensor, device and experts are, in their order.
pub proof fn staged_keys_tell_tensors_apart(a: StagedKey, b: StagedKey, i: int)
    requires
        a.is(b),
    ensures
        a.tensor == b.tensor,
        a.device == b.device,
        a.experts@.len() == b.experts@.len(),
        0 <= i < a.experts@.len() ==> a.experts@[i] == b.experts@[i],
{
}

/// The sizes of entries add up, whichever way they are counted.
pub proof fn sizes_of_entries_add_up<V>(
    entries: Seq<StagedEntry<V>>,
    more: Seq<StagedEntry<V>>,
    one: StagedEntry<V>,
)
    ensures
        total_bytes(entries + more) == total_bytes(entries) + total_bytes(more),
        total_bytes(seq![one]) == one.bytes,
        total_bytes(Seq::<StagedEntry<V>>::empty()) == 0,
    decreases entries.len(),
{
    let single = seq![one];
    assert(single.drop_first() =~= Seq::<StagedEntry<V>>::empty());
    assert(total_bytes(single.drop_first()) == 0);
    if entries.len() == 0 {
        assert(entries + more =~= more);
    } else {
        sizes_of_entries_add_up(entries.drop_first(), more, one);
        assert((entries + more).drop_first() =~= entries.drop_first() + more);
    }
}

/// What is forgotten of staged tensors are the ones used longest ago, and no more of them than
/// has to be: the rest is what was there without its first entries, it fits unless it is the
/// last entry alone, and with one more of them it would not.
pub proof fn longest_unused_are_forgotten<V>(
    entries: Seq<StagedEntry<V>>,
    max_bytes: nat,
) -> (dropped: int)
    ensures
        0 <= dropped <= entries.len(),
        evicted(entries, max_bytes) == entries.skip(dropped),
        entries.len() > 0 ==> dropped < entries.len(),
        total_bytes(evicted(entries, max_bytes)) <= max_bytes || evicted(entries, max_bytes).len()
            <= 1,
        dropped > 0 ==> total_bytes(entries.skip(dropped - 1)) > max_bytes,
    decreases entries.len(),
{
    if entries.len() <= 1 || total_bytes(entries) <= max_bytes {
        assert(entries.skip(0) =~= entries);
        0
    } else {
        let rest = entries.drop_first();
        let more = longest_unused_are_forgotten(rest, max_bytes);
        assert(rest.skip(more) =~= entries.skip(more + 1));
        if more > 0 {
            assert(rest.skip(more - 1) =~= entries.skip(more));
        } else {
            assert(entries.skip(0) =~= entries);
        }
        more + 1
    }
}

} // verus!
