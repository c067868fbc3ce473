use vstd::prelude::*;

use crate::error::ReceiveError;

verus! {

/// A UTC instant as whole seconds since the Unix epoch and the nanoseconds
/// within that second (a leap second may carry more than a billion).
#[derive(Clone, Copy, Debug, PartialEq, Eq, Structural)]
pub struct Timestamp {
    pub secs: i64,
    pub nanos: u32,
}

/// `a` comes strictly after `b`: seconds first, then nanoseconds.
pub open spec fn is_later(a: Timestamp, b: Timestamp) -> bool {
    a.secs > b.secs || (a.secs == b.secs && a.nanos > b.nanos)
}

impl Timestamp {
    pub fn is_after(&self, other: &Timestamp) -> (r: bool)
        ensures
            r == is_later(*self, *other),
    {
        self.secs > other.secs || (self.secs == other.secs && self.nanos > other.nanos)
    }
}

/// The map that a list of entries describes when they are inserted in order,
/// a later entry for a device replacing an earlier one.
pub open spec fn entries_map(s: Seq<(u128, Timestamp)>) -> Map<u128, Timestamp>
    decreases s.len(),
{
    if s.len() == 0 {
        Map::empty()
    } else {
        entries_map(s.drop_last()).insert(s.last().0, s.last().1)
    }
}

/// No device appears twice.
pub open spec fn unique_devices(s: Seq<(u128, Timestamp)>) -> bool {
    forall|i: int, j: int| 0 <= i < s.len() && 0 <= j < s.len() && i != j ==> s[i].0 != s[j].0
}

/// The watermark after one merge: the stored value only ever moves forward.
pub open spec fn merged(m: Map<u128, Timestamp>, device: u128, t: Timestamp) -> Map<u128, Timestamp> {
    if m.contains_key(device) && !is_later(t, m[device]) {
        m
    } else {
        m.insert(device, t)
    }
}

/// The watermark after merging each pair of `ops` in order.
pub open spec fn merged_all(m: Map<u128, Timestamp>, ops: Seq<(u128, Timestamp)>) -> Map<u128, Timestamp>
    decreases ops.len(),
{
    if ops.len() == 0 {
        m
    } else {
        let prev = merged_all(m, ops.drop_last());
        merged(prev, ops.last().0, ops.last().1)
    }
}

/// One persisted entry: device, seconds, nanoseconds.
pub open spec fn flat_entry(e: (u128, Timestamp)) -> (u128, i64, u32) {
    (e.0, e.1.secs, e.1.nanos)
}

pub open spec fn unflat_entry(e: (u128, i64, u32)) -> (u128, Timestamp) {
    (e.0, Timestamp { secs: e.1, nanos: e.2 })
}

/// The mapping that a decoded list of persisted entries stands for.
pub open spec fn decoded_map(e: Seq<(u128, i64, u32)>) -> Map<u128, Timestamp> {
    entries_map(e.map_values(|x: (u128, i64, u32)| unflat_entry(x)))
}

/// What postcard writes for a list of persisted entries.
pub uninterp spec fn postcard_watermark_bytes(entries: Seq<(u128, i64, u32)>) -> Seq<u8>;

#[verifier::external_type_specification]
#[verifier::external_body]
pub struct ExPostcardError(postcard::Error);

/// Relies on postcard::to_stdvec: the bytes are postcard's encoding of the
/// list. Encoding into a heap vector cannot run out of room, and a `Vec`
/// always announces its length, so this never fails.
#[verifier::external_body]
fn postcard_encode_entries(entries: &Vec<(u128, i64, u32)>) -> (r: Result<Vec<u8>, postcard::Error>)
    ensures
        match r {
            Ok(b) => b@ == postcard_watermark_bytes(entries@),
            Err(_) => false,
        },
{
    postcard::to_stdvec(entries)
}

/// Relies on postcard::from_bytes: bytes that postcard wrote for a list of
/// entries decode to that same list.
#[verifier::external_body]
fn postcard_decode_entries(bytes: &[u8]) -> (r: Result<Vec<(u128, i64, u32)>, postcard::Error>)
    ensures
        match r {
            Ok(v) => forall|e: Seq<(u128, i64, u32)>|
                #[trigger] postcard_watermark_bytes(e) == bytes@ ==> v@ == e,
            Err(_) => forall|e: Seq<(u128, i64, u32)>|
                #[trigger] postcard_watermark_bytes(e) != bytes@,
        },
{
    postcard::from_bytes(bytes)
}

proof fn lemma_entries_map_contains(s: Seq<(u128, Timestamp)>, d: u128)
    ensures
        entries_map(s).contains_key(d) <==> exists|i: int| 0 <= i < s.len() && s[i].0 == d,
    decreases s.len(),
{
    if s.len() > 0 {
        lemma_entries_map_contains(s.drop_last(), d);
        if entries_map(s.drop_last()).contains_key(d) {
            let i = choose|i: int| 0 <= i < s.drop_last().len() && s.drop_last()[i].0 == d;
            assert(s[i].0 == d);
        }
        if exists|i: int| 0 <= i < s.len() && s[i].0 == d {
            let i = choose|i: int| 0 <= i < s.len() && s[i].0 == d;
            if i < s.len() - 1 {
                assert(s.drop_last()[i].0 == d);
            }
        }
    }
}

proof fn lemma_entries_map_value(s: Seq<(u128, Timestamp)>, i: int)
    requires
        unique_devices(s),
        0 <= i < s.len(),
    ensures
        entries_map(s).contains_key(s[i].0),
        entries_map(s)[s[i].0] == s[i].1,
    decreases s.len(),
{
    if i < s.len() - 1 {
        lemma_entries_map_value(s.drop_last(), i);
    }
}

proof fn lemma_entries_map_update(s: Seq<(u128, Timestamp)>, i: int, e: (u128, Timestamp))
    requires
        unique_devices(s),
        0 <= i < s.len(),
        s[i].0 == e.0,
    ensures
        entries_map(s.update(i, e)) == entries_map(s).insert(e.0, e.1),
    decreases s.len(),
{
    let t = s.update(i, e);
    if i == s.len() - 1 {
        assert(t.drop_last() =~= s.drop_last());
        lemma_entries_map_contains(s.drop_last(), e.0);
        assert(entries_map(t) =~= entries_map(s).insert(e.0, e.1));
    } else {
        assert(t.drop_last() =~= s.drop_last().update(i, e));
        lemma_entries_map_update(s.drop_last(), i, e);
        assert(entries_map(t) =~= entries_map(s).insert(e.0, e.1));
    }
}

/// Per-device watermarks: the last timestamp fully received from each device.
pub struct WatermarkMap {
    entries: Vec<(u128, Timestamp)>,
}

impl View for WatermarkMap {
    type V = Map<u128, Timestamp>;

    closed spec fn view(&self) -> Map<u128, Timestamp> {
        entries_map(self.entries@)
    }
}

impl WatermarkMap {
    /// Each device is stored once.
    pub closed spec fn wf(&self) -> bool {
        unique_devices(self.entries@)
    }

    #[verifier::type_invariant]
    spec fn inv(&self) -> bool {
        self.wf()
    }

    /// The entries in storage order, as persisted.
    pub closed spec fn encoded_entries(&self) -> Seq<(u128, i64, u32)> {
        self.entries@.map_values(|e: (u128, Timestamp)| flat_entry(e))
    }

    pub fn new() -> (r: WatermarkMap)
        ensures
            r.wf(),
            r@ == Map::<u128, Timestamp>::empty(),
    {
        WatermarkMap { entries: Vec::new() }
    }

    fn find(&self, device: u128) -> (r: Option<usize>)
        ensures
            match r {
                Some(i) => i < self.entries@.len() && self.entries@[i as int].0 == device,
                None => !self@.contains_key(device),
            },
    {
        proof {
            use_type_invariant(self);
        }
        let mut i: usize = 0;
        while i < self.entries.len()
            invariant
                i <= self.entries@.len(),
                forall|j: int| 0 <= j < i ==> self.entries@[j].0 != device,
            decreases self.entries@.len() - i,
        {
            if self.entries[i].0 == device {
                return Some(i);
            }
            i = i + 1;
        }
        proof {
            lemma_entries_map_contains(self.entries@, device);
        }
        None
    }

    /// The stored watermark of `device`, if any.
    pub fn get(&self, device: u128) -> (r: Option<Timestamp>)
        ensures
            match r {
                Some(t) => self@.contains_key(device) && self@[device] == t,
                None => !self@.contains_key(device),
            },
    {
        proof {
            use_type_invariant(self);
        }
        match self.find(device) {
            Some(i) => {
                proof {
                    lemma_entries_map_value(self.entries@, i as int);
                }
                Some(self.entries[i].1)
            },
            None => None,
        }
    }

    /// Number of devices with a watermark.
    pub fn len(&self) -> (r: usize)
        ensures
            r == self@.len(),
    {
        proof {
            use_type_invariant(self);
        }
        proof {
            lemma_entries_map_len(self.entries@);
        }
        self.entries.len()
    }

    /// Sets the watermark of `device` to `t`, whatever was stored before.
    pub fn set(&mut self, device: u128, t: Timestamp)
        ensures
            final(self).wf(),
            final(self)@ == old(self)@.insert(device, t),
    {
        proof {
            use_type_invariant(&*self);
        }
        match self.find(device) {
            Some(i) => {
                proof {
                    lemma_entries_map_update(self.entries@, i as int, (device, t));
                }
                let mut entries: Vec<(u128, Timestamp)> = Vec::new();
                std::mem::swap(&mut self.entries, &mut entries);
                entries.set(i, (device, t));
                std::mem::swap(&mut self.entries, &mut entries);
            },
            None => {
                proof {
                    lemma_entries_map_contains(self.entries@, device);
                }
                let mut entries: Vec<(u128, Timestamp)> = Vec::new();
                std::mem::swap(&mut self.entries, &mut entries);
                entries.push((device, t));
                std::mem::swap(&mut self.entries, &mut entries);
                proof {
                    assert(self.entries@.drop_last() =~= old(self).entries@);
                }
            },
        }
    }

    /// Records that `device` has been received up to `t`: the stored value is
    /// replaced only where `t` is strictly later, or where there was none.
    pub fn merge(&mut self, device: u128, t: Timestamp)
        ensures
            final(self).wf(),
            final(self)@ == merged(old(self)@, device, t),
    {
        proof {
            use_type_invariant(&*self);
        }
        match self.get(device) {
            Some(current) => {
                if t.is_after(&current) {
                    self.set(device, t);
                }
            },
            None => {
                self.set(device, t);
            },
        }
    }

    /// Merges every pair of `ops` in order.
    pub fn merge_all(&mut self, ops: &Vec<(u128, Timestamp)>)
        ensures
            final(self).wf(),
            final(self)@ == merged_all(old(self)@, ops@),
    {
        proof {
            use_type_invariant(&*self);
        }
        let mut i: usize = 0;
        while i < ops.len()
            invariant
                i <= ops@.len(),
                self.wf(),
                self@ == merged_all(old(self)@, ops@.subrange(0, i as int)),
            decreases ops@.len() - i,
        {
            let (d, t) = ops[i];
            proof {
                assert(ops@.subrange(0, i + 1).drop_last() =~= ops@.subrange(0, i as int));
            }
            self.merge(d, t);
            i = i + 1;
        }
        proof {
            assert(ops@.subrange(0, ops@.len() as int) =~= ops@);
        }
    }

    /// The watermarks as (device, timestamp) pairs, used as the start of the
    /// next pull.
    pub fn start_times(&self) -> (r: Vec<(u128, Timestamp)>)
        ensures
            unique_devices(r@),
            entries_map(r@) == self@,
    {
        proof {
            use_type_invariant(self);
        }
        let mut r: Vec<(u128, Timestamp)> = Vec::new();
        let mut i: usize = 0;
        while i < self.entries.len()
            invariant
                i <= self.entries@.len(),
                r@ == self.entries@.subrange(0, i as int),
            decreases self.entries@.len() - i,
        {
            r.push(self.entries[i]);
            i = i + 1;
            proof {
                assert(r@ =~= self.entries@.subrange(0, i as int));
            }
        }
        proof {
            assert(r@ =~= self.entries@);
        }
        r
    }

    /// Serialises the watermarks for the watermark file.
    pub fn to_bytes(&self) -> (r: Result<Vec<u8>, ReceiveError>)
        ensures
            r matches Ok(b) && b@ == postcard_watermark_bytes(self.encoded_entries()),
    {
        proof {
            use_type_invariant(self);
        }
        let mut flat: Vec<(u128, i64, u32)> = Vec::new();
        let mut i: usize = 0;
        while i < self.entries.len()
            invariant
                i <= self.entries@.len(),
                flat@ == self.entries@.subrange(0, i as int).map_values(
                    |e: (u128, Timestamp)| flat_entry(e),
                ),
            decreases self.entries@.len() - i,
        {
            let (d, t) = self.entries[i];
            flat.push((d, t.secs, t.nanos));
            i = i + 1;
            proof {
                assert(flat@ =~= self.entries@.subrange(0, i as int).map_values(
                    |e: (u128, Timestamp)| flat_entry(e),
                ));
            }
        }
        proof {
            assert(self.entries@.subrange(0, i as int) =~= self.entries@);
        }
        match postcard_encode_entries(&flat) {
            Ok(b) => Ok(b),
            Err(_) => Err(ReceiveError::WatermarkSerialization),
        }
    }

    /// Reads the watermarks back from the bytes of the watermark file.
    pub fn from_bytes(bytes: &[u8]) -> (r: Result<WatermarkMap, ReceiveError>)
        ensures
            r matches Ok(w) ==> w.wf(),
            r matches Err(e) ==> e == ReceiveError::WatermarkSerialization,
            forall|e: Seq<(u128, i64, u32)>|
                #[trigger] postcard_watermark_bytes(e) == bytes@ ==> (r matches Ok(w) && w@
                    == decoded_map(e)),
    {
        match postcard_decode_entries(bytes) {
            Ok(v) => {
                let w = Self::from_entries(&v);
                Ok(w)
            },
            Err(_) => Err(ReceiveError::WatermarkSerialization),
        }
    }

    fn from_entries(v: &Vec<(u128, i64, u32)>) -> (r: WatermarkMap)
        ensures
            r.wf(),
            r@ == decoded_map(v@),
    {
        let mut w = WatermarkMap::new();
        let mut i: usize = 0;
        while i < v.len()
            invariant
                i <= v@.len(),
                w.wf(),
                w@ == decoded_map(v@.subrange(0, i as int)),
            decreases v@.len() - i,
        {
            let (d, s, n) = v[i];
            w.set(d, Timestamp { secs: s, nanos: n });
            proof {
                let f = |x: (u128, i64, u32)| unflat_entry(x);
                let next = v@.subrange(0, i + 1).map_values(f);
                assert(next.drop_last() =~= v@.subrange(0, i as int).map_values(f));
            }
            i = i + 1;
        }
        proof {
            assert(v@.subrange(0, v@.len() as int) =~= v@);
        }
        w
    }

    /// The watermarks found in the watermark file: an absent file gives an
    /// empty map, a file that does not decode is an error.
    pub fn from_file_contents(contents: Option<&[u8]>) -> (r: Result<WatermarkMap, ReceiveError>)
        ensures
            r matches Ok(w) ==> w.wf(),
            contents is None ==> (r matches Ok(w) && w@ == Map::<u128, Timestamp>::empty()),
            r matches Err(e) ==> contents is Some && e == ReceiveError::WatermarkSerialization,
            contents matches Some(b) ==> forall|e: Seq<(u128, i64, u32)>|
                #[trigger] postcard_watermark_bytes(e) == b@ ==> (r matches Ok(w) && w@
                    == decoded_map(e)),
    {
        match contents {
            None => Ok(WatermarkMap::new()),
            Some(b) => WatermarkMap::from_bytes(b),
        }
    }
}

proof fn lemma_entries_map_len(s: Seq<(u128, Timestamp)>)
    requires
        unique_devices(s),
    ensures
        entries_map(s).len() == s.len(),
        entries_map(s).dom().finite(),
    decreases s.len(),
{
    if s.len() > 0 {
        let p = s.drop_last();
        lemma_entries_map_len(p);
        lemma_entries_map_contains(p, s.last().0);
        if entries_map(p).contains_key(s.last().0) {
            let i = choose|i: int| 0 <= i < p.len() && p[i].0 == s.last().0;
            assert(s[i].0 == s[s.len() - 1].0);
        }
    }
}

/// Merging is a running maximum: after any sequence of merges into an empty
/// map, a device has a watermark exactly when some merge named it, and that
/// watermark is one of the timestamps merged for it, with none later.
pub proof fn lemma_merge_keeps_maximum(ops: Seq<(u128, Timestamp)>, device: u128)
    ensures
        merged_all(Map::empty(), ops).contains_key(device) <==> exists|i: int|
            0 <= i < ops.len() && ops[i].0 == device,
        merged_all(Map::empty(), ops).contains_key(device) ==> {
            let w = merged_all(Map::empty(), ops)[device];
            &&& exists|i: int| 0 <= i < ops.len() && ops[i] == (device, w)
            &&& forall|i: int| 0 <= i < ops.len() && ops[i].0 == device ==> !is_later(ops[i].1, w)
        },
    decreases ops.len(),
{
    if ops.len() > 0 {
        let p = ops.drop_last();
        lemma_merge_keeps_maximum(p, device);
        let last = ops.len() - 1;
        assert(ops[last] == ops.last());
        assert forall|i: int| 0 <= i < p.len() implies ops[i] == p[i] by {}
        if merged_all(Map::empty(), p).contains_key(device) {
            let j = choose|j: int| 0 <= j < p.len() && p[j] == (device, merged_all(Map::empty(), p)[device]);
            assert(ops[j] == p[j]);
        }
    }
}

/// Saving and loading round-trip: the entries written for a watermark map
/// decode to that same map.
pub proof fn lemma_save_load_round_trip(m: WatermarkMap)
    requires
        m.wf(),
    ensures
        decoded_map(m.encoded_entries()) == m@,
{
    let f = |e: (u128, Timestamp)| flat_entry(e);
    let g = |x: (u128, i64, u32)| unflat_entry(x);
    assert(m.encoded_entries().map_values(g) =~= m.entries@);
}

} // verus!
