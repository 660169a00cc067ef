//! A deduplicating, never-blocking cache of decoded images, keyed by URL.
//!
//! A URL is in one of four states: being downloaded, failed, a still image,
//! or an animation. A request for a URL that the cache does not know marks it
//! as being downloaded and queues one fetch; the caller takes the queued
//! fetches (`take_fetches`), runs them off its own thread, and hands each
//! result back (`finish_download`). A failure stays in the cache, so a broken
//! URL is fetched once only. Entries are never evicted.

use vstd::prelude::*;
use vstd::string::*;

verus! {

broadcast use vstd::string::group_string_axioms;

/// An animation: its frames, how long each is shown (in milliseconds), the
/// frame shown now, and the time it has been shown.
pub struct AnimatedEmoji<T> {
    pub textures: Vec<T>,
    pub frame_durations: Vec<u32>,
    pub current_frame: usize,
    pub elapsed_ms: u32,
}

impl<T> AnimatedEmoji<T> {
    /// As many durations as frames, at least one frame, every duration
    /// positive, and the cursor on a frame whose duration has not run out.
    pub open spec fn wf(&self) -> bool {
        &&& self.textures@.len() == self.frame_durations@.len()
        &&& self.textures@.len() > 0
        &&& self.current_frame < self.frame_durations@.len()
        &&& forall|i: int| 0 <= i < self.frame_durations@.len() ==> self.frame_durations@[i] > 0
        &&& self.elapsed_ms < self.frame_durations@[self.current_frame as int]
    }
}

/// The state of one URL in the cache.
pub enum CacheEntry<T> {
    Downloading,
    Failed,
    Static(T),
    Animated(AnimatedEmoji<T>),
}

/// What a finished download gave, once decoded.
pub enum Asset<T> {
    Static(T),
    /// The frames and the duration of each, in milliseconds.
    Animated(Vec<T>, Vec<u32>),
}

struct CacheSlot<T> {
    url: String,
    entry: CacheEntry<T>,
}

/// The cache. `T` is what the renderer draws (a texture).
pub struct EmojiCache<T> {
    slots: Vec<CacheSlot<T>>,
    fetches: Vec<String>,
}

// ---------------------------------------------------------------------------
// The model
// ---------------------------------------------------------------------------

/// Frame cursor and remaining time after `acc` milliseconds have been added
/// at frame `cur`: while the time reaches the frame's duration, the duration
/// is taken off and the cursor moves on, wrapping at the last frame.
pub open spec fn advance(durs: Seq<u32>, cur: int, acc: int) -> (int, int)
    decreases acc,
{
    if 0 <= cur < durs.len() && durs[cur] > 0 && acc >= durs[cur] {
        advance(durs, (cur + 1) % (durs.len() as int), acc - durs[cur])
    } else {
        (cur, acc)
    }
}

/// An entry after `dt` milliseconds: animations move on, the rest stay.
pub open spec fn advanced<T>(e: CacheEntry<T>, dt: u32) -> CacheEntry<T> {
    match e {
        CacheEntry::Animated(a) => {
            let (c, t) = advance(
                a.frame_durations@,
                a.current_frame as int,
                a.elapsed_ms + dt,
            );
            CacheEntry::Animated(
                AnimatedEmoji {
                    textures: a.textures,
                    frame_durations: a.frame_durations,
                    current_frame: c as usize,
                    elapsed_ms: t as u32,
                },
            )
        },
        _ => e,
    }
}

/// The entry that a finished download leaves: a failure where nothing was
/// decoded or an animation is malformed.
pub open spec fn entry_of<T>(a: Option<Asset<T>>) -> CacheEntry<T> {
    match a {
        None => CacheEntry::Failed,
        Some(Asset::Static(t)) => CacheEntry::Static(t),
        Some(Asset::Animated(ts, ds)) => {
            if ts@.len() == ds@.len() && ts@.len() > 0 && forall|i: int|
                0 <= i < ds@.len() ==> ds@[i] > 0 {
                CacheEntry::Animated(
                    AnimatedEmoji {
                        textures: ts,
                        frame_durations: ds,
                        current_frame: 0,
                        elapsed_ms: 0,
                    },
                )
            } else {
                CacheEntry::Failed
            }
        },
    }
}

/// Whether a request for `u` starts a fetch: only where the cache does not
/// know `u` at all.
pub open spec fn starts_fetch<T>(m: Map<Seq<char>, CacheEntry<T>>, u: Seq<char>) -> bool {
    !m.contains_key(u)
}

/// The cache after a request for `u`.
pub open spec fn after_request<T>(m: Map<Seq<char>, CacheEntry<T>>, u: Seq<char>) -> Map<
    Seq<char>,
    CacheEntry<T>,
> {
    if m.contains_key(u) {
        m
    } else {
        m.insert(u, CacheEntry::Downloading)
    }
}

/// What a request for `u` shows: the current frame of an animation, or a
/// still image; nothing while downloading, after a failure, or on a miss.
pub open spec fn shown<T>(m: Map<Seq<char>, CacheEntry<T>>, u: Seq<char>) -> Option<T> {
    if m.contains_key(u) {
        match m[u] {
            CacheEntry::Static(t) => Some(t),
            CacheEntry::Animated(a) => Some(a.textures@[a.current_frame as int]),
            _ => None,
        }
    } else {
        None
    }
}

spec fn unique_urls<T>(s: Seq<CacheSlot<T>>) -> bool {
    forall|i: int, j: int| 0 <= i < s.len() && 0 <= j < s.len() && i != j ==> s[i].url@ != s[j].url@
}

spec fn slot_map<T>(s: Seq<CacheSlot<T>>) -> Map<Seq<char>, CacheEntry<T>> {
    Map::new(
        |u: Seq<char>| exists|i: int| 0 <= i < s.len() && s[i].url@ == u,
        |u: Seq<char>| s[choose|i: int| 0 <= i < s.len() && s[i].url@ == u].entry,
    )
}

proof fn lemma_slot_map_at<T>(s: Seq<CacheSlot<T>>, i: int)
    requires
        unique_urls(s),
        0 <= i < s.len(),
    ensures
        slot_map(s).contains_key(s[i].url@),
        slot_map(s)[s[i].url@] == s[i].entry,
{
    let u = s[i].url@;
    assert(exists|j: int| 0 <= j < s.len() && s[j].url@ == u);
    let j = choose|j: int| 0 <= j < s.len() && s[j].url@ == u;
    assert(j == i);
}

proof fn lemma_slot_map_update<T>(s: Seq<CacheSlot<T>>, i: int, e: CacheEntry<T>, url: String)
    requires
        unique_urls(s),
        0 <= i < s.len(),
        url@ == s[i].url@,
    ensures
        unique_urls(s.update(i, CacheSlot { url, entry: e })),
        slot_map(s.update(i, CacheSlot { url, entry: e })) =~= slot_map(s).insert(s[i].url@, e),
{
    let t = s.update(i, CacheSlot { url, entry: e });
    assert forall|u: Seq<char>| #[trigger] slot_map(t).contains_key(u) implies slot_map(t)[u] == slot_map(s).insert(s[i].url@, e)[u] by {
        let j = choose|j: int| 0 <= j < t.len() && t[j].url@ == u;
        lemma_slot_map_at(t, j);
        if j != i {
            lemma_slot_map_at(s, j);
        }
    }
    assert forall|u: Seq<char>| #[trigger] slot_map(s).insert(s[i].url@, e).contains_key(u) implies slot_map(t).contains_key(u) by {
        if u != s[i].url@ {
            let j = choose|j: int| 0 <= j < s.len() && s[j].url@ == u;
            assert(t[j].url@ == u);
        } else {
            assert(t[i].url@ == u);
        }
    }
}

proof fn lemma_slot_map_push<T>(s: Seq<CacheSlot<T>>, x: CacheSlot<T>)
    requires
        unique_urls(s),
        !slot_map(s).contains_key(x.url@),
    ensures
        unique_urls(s.push(x)),
        slot_map(s.push(x)) =~= slot_map(s).insert(x.url@, x.entry),
{
    let t = s.push(x);
    assert forall|i: int, j: int| 0 <= i < t.len() && 0 <= j < t.len() && i != j implies t[i].url@ != t[j].url@ by {
        if i == s.len() as int {
            assert(slot_map(s).contains_key(t[j].url@));
        } else if j == s.len() as int {
            assert(slot_map(s).contains_key(t[i].url@));
        }
    }
    assert forall|u: Seq<char>| #[trigger] slot_map(t).contains_key(u) implies slot_map(t)[u] == slot_map(s).insert(x.url@, x.entry)[u] by {
        let j = choose|j: int| 0 <= j < t.len() && t[j].url@ == u;
        lemma_slot_map_at(t, j);
        if j != s.len() as int {
            lemma_slot_map_at(s, j);
        }
    }
    assert forall|u: Seq<char>| #[trigger] slot_map(s).insert(x.url@, x.entry).contains_key(u) implies slot_map(t).contains_key(u) by {
        if u != x.url@ {
            let j = choose|j: int| 0 <= j < s.len() && s[j].url@ == u;
            assert(t[j].url@ == u);
        } else {
            assert(t[s.len() as int].url@ == u);
        }
    }
}


proof fn lemma_slot_map_pointwise<T>(s: Seq<CacheSlot<T>>, t: Seq<CacheSlot<T>>, dt: u32)
    requires
        unique_urls(s),
        s.len() == t.len(),
        forall|j: int| 0 <= j < s.len() ==> #[trigger] t[j].url@ == s[j].url@,
        forall|j: int| 0 <= j < s.len() ==> #[trigger] t[j].entry == advanced(s[j].entry, dt),
    ensures
        unique_urls(t),
        slot_map(t) =~= slot_map(s).map_values(|e: CacheEntry<T>| advanced(e, dt)),
{
    assert forall|i: int, j: int| 0 <= i < t.len() && 0 <= j < t.len() && i != j implies t[i].url@ != t[j].url@ by {
        assert(t[i].url@ == s[i].url@);
        assert(t[j].url@ == s[j].url@);
    }
    assert forall|u: Seq<char>| #[trigger] slot_map(t).contains_key(u) implies slot_map(s).contains_key(u) && slot_map(t)[u] == advanced(slot_map(s)[u], dt) by {
        let j = choose|j: int| 0 <= j < t.len() && t[j].url@ == u;
        assert(s[j].url@ == u);
        lemma_slot_map_at(t, j);
        lemma_slot_map_at(s, j);
    }
    assert forall|u: Seq<char>| #[trigger] slot_map(s).contains_key(u) implies slot_map(t).contains_key(u) by {
        let j = choose|j: int| 0 <= j < s.len() && s[j].url@ == u;
        assert(t[j].url@ == u);
    }
}

fn all_positive(ds: &Vec<u32>) -> (r: bool)
    ensures
        r == forall|i: int| 0 <= i < ds@.len() ==> ds@[i] > 0,
{
    let mut i: usize = 0;
    while i < ds.len()
        invariant
            i <= ds@.len(),
            forall|j: int| 0 <= j < i ==> ds@[j] > 0,
        decreases ds@.len() - i,
    {
        if ds[i] == 0 {
            return false;
        }
        i = i + 1;
    }
    true
}

/// Moves an animation on by `dt` milliseconds, however large.
fn advance_animation<T>(a: &mut AnimatedEmoji<T>, dt: u32)
    requires
        old(a).wf(),
    ensures
        final(a).wf(),
        final(a).textures == old(a).textures,
        final(a).frame_durations == old(a).frame_durations,
        (final(a).current_frame as int, final(a).elapsed_ms as int) == advance(
            old(a).frame_durations@,
            old(a).current_frame as int,
            old(a).elapsed_ms + dt,
        ),
{
    let ghost durs = a.frame_durations@;
    let ghost start = advance(durs, a.current_frame as int, a.elapsed_ms + dt);
    let n = a.frame_durations.len();
    let mut acc: u64 = a.elapsed_ms as u64 + dt as u64;
    let mut cur = a.current_frame;
    while acc >= a.frame_durations[cur] as u64
        invariant
            durs == a.frame_durations@,
            n == durs.len(),
            n > 0,
            cur < n,
            forall|i: int| 0 <= i < durs.len() ==> durs[i] > 0,
            advance(durs, cur as int, acc as int) == start,
        decreases acc,
    {
        acc = acc - a.frame_durations[cur] as u64;
        cur = (cur + 1) % n;
    }
    a.current_frame = cur;
    a.elapsed_ms = acc as u32;
}

impl<T> View for EmojiCache<T> {
    type V = Map<Seq<char>, CacheEntry<T>>;

    closed spec fn view(&self) -> Map<Seq<char>, CacheEntry<T>> {
        slot_map(self.slots@)
    }
}

impl<T> EmojiCache<T> {
    /// The URLs whose fetch was scheduled and not yet taken, oldest first.
    pub closed spec fn queued(&self) -> Seq<Seq<char>> {
        self.fetches@.map_values(|s: String| s@)
    }

    /// Keys are unique and every animation is well formed.
    pub closed spec fn wf(&self) -> bool {
        &&& unique_urls(self.slots@)
        &&& forall|i: int| #![trigger self.slots@[i]]
            0 <= i < self.slots@.len() ==> match self.slots@[i].entry {
                CacheEntry::Animated(a) => a.wf(),
                _ => true,
            }
    }

    pub fn new() -> (r: Self)
        ensures
            r.wf(),
            r@ == Map::<Seq<char>, CacheEntry<T>>::empty(),
            r.queued() == Seq::<Seq<char>>::empty(),
    {
        let r = EmojiCache { slots: Vec::new(), fetches: Vec::new() };
        assert(r@ =~= Map::<Seq<char>, CacheEntry<T>>::empty());
        assert(r.queued() =~= Seq::<Seq<char>>::empty());
        r
    }

    fn find(&self, url: &String) -> (r: Option<usize>)
        requires
            self.wf(),
        ensures
            match r {
                Some(i) => i < self.slots@.len() && self.slots@[i as int].url@ == url@,
                None => !self@.contains_key(url@),
            },
    {
        let mut i: usize = 0;
        while i < self.slots.len()
            invariant
                i <= self.slots@.len(),
                forall|j: int| 0 <= j < i ==> self.slots@[j].url@ != url@,
            decreases self.slots@.len() - i,
        {
            if self.slots[i].url == *url {
                return Some(i);
            }
            i = i + 1;
        }
        None
    }

    /// The entry of `url`, where the cache knows it.
    pub fn entry(&self, url: &str) -> (r: Option<&CacheEntry<T>>)
        requires
            self.wf(),
        ensures
            self@.contains_key(url@) ==> r == Some(&self@[url@]),
            !self@.contains_key(url@) ==> r is None,
    {
        let key = String::from_str(url);
        match self.find(&key) {
            Some(i) => {
                proof {
                    lemma_slot_map_at(self.slots@, i as int);
                }
                Some(&self.slots[i].entry)
            },
            None => None,
        }
    }

    /// Asks for the image at `url` and never waits: shows what the cache
    /// holds, and on a miss marks `url` as being downloaded and queues one
    /// fetch of it.
    pub fn load_emoji(&mut self, url: &str) -> (r: Option<&T>)
        requires
            old(self).wf(),
        ensures
            final(self).wf(),
            final(self)@ == after_request(old(self)@, url@),
            final(self).queued() == if starts_fetch(old(self)@, url@) {
                old(self).queued().push(url@)
            } else {
                old(self).queued()
            },
            match shown(old(self)@, url@) {
                Some(t) => r == Some(&t),
                None => r is None,
            },
    {
        let key = String::from_str(url);
        match self.find(&key) {
            Some(i) => {
                proof {
                    lemma_slot_map_at(self.slots@, i as int);
                }
                match &self.slots[i].entry {
                    CacheEntry::Static(t) => Some(t),
                    CacheEntry::Animated(a) => {
                        assert(a.wf());
                        Some(&a.textures[a.current_frame])
                    },
                    _ => None,
                }
            },
            None => {
                let ghost s0 = self.slots@;
                let slot = CacheSlot { url: key.clone(), entry: CacheEntry::Downloading };
                proof {
                    lemma_slot_map_push(s0, slot);
                }
                self.slots.push(slot);
                let ghost f0 = self.fetches@;
                self.fetches.push(key);
                assert(self.fetches@.map_values(|s: String| s@) =~= f0.map_values(
                    |s: String| s@,
                ).push(url@));
                None
            },
        }
    }

    /// Stores what the download of `url` gave; a failure is kept as such.
    pub fn finish_download(&mut self, url: &str, asset: Option<Asset<T>>)
        requires
            old(self).wf(),
        ensures
            final(self).wf(),
            final(self)@ == old(self)@.insert(url@, entry_of(asset)),
            final(self).queued() == old(self).queued(),
    {
        let ghost spec_entry = entry_of(asset);
        let entry = match asset {
            None => CacheEntry::Failed,
            Some(Asset::Static(t)) => CacheEntry::Static(t),
            Some(Asset::Animated(ts, ds)) => {
                if ts.len() == ds.len() && ts.len() > 0 && all_positive(&ds) {
                    CacheEntry::Animated(
                        AnimatedEmoji {
                            textures: ts,
                            frame_durations: ds,
                            current_frame: 0,
                            elapsed_ms: 0,
                        },
                    )
                } else {
                    CacheEntry::Failed
                }
            },
        };
        assert(entry == spec_entry);
        let key = String::from_str(url);
        let ghost s0 = self.slots@;
        match self.find(&key) {
            Some(i) => {
                proof {
                    lemma_slot_map_update(s0, i as int, entry, key);
                }
                self.slots.set(i, CacheSlot { url: key, entry });
                assert(forall|j: int|
                    0 <= j < s0.len() && j != i ==> self.slots@[j] == s0[j]);
            },
            None => {
                let slot = CacheSlot { url: key, entry };
                proof {
                    lemma_slot_map_push(s0, slot);
                }
                self.slots.push(slot);
            },
        }
    }

    /// Moves every animation on by `dt_ms` milliseconds.
    pub fn update_animations(&mut self, dt_ms: u32)
        requires
            old(self).wf(),
        ensures
            final(self).wf(),
            final(self)@ == old(self)@.map_values(|e: CacheEntry<T>| advanced(e, dt_ms)),
            final(self).queued() == old(self).queued(),
    {
        let ghost s0 = self.slots@;
        let ghost f0 = self.fetches@;
        let n = self.slots.len();
        for i in 0..n
            invariant
                n == s0.len(),
                self.fetches@ == f0,
                self.slots@.len() == n,
                unique_urls(s0),
                forall|j: int| #![trigger s0[j]]
                    0 <= j < s0.len() ==> match s0[j].entry {
                        CacheEntry::Animated(a) => a.wf(),
                        _ => true,
                    },
                forall|j: int| #![trigger self.slots@[j]]
                    0 <= j < n ==> self.slots@[j].url@ == s0[j].url@,
                forall|j: int| #![trigger self.slots@[j]]
                    0 <= j < i ==> self.slots@[j].entry == advanced(s0[j].entry, dt_ms),
                forall|j: int| #![trigger self.slots@[j]]
                    i <= j < n ==> self.slots@[j].entry == s0[j].entry,
                forall|j: int| #![trigger self.slots@[j]]
                    0 <= j < n ==> match self.slots@[j].entry {
                        CacheEntry::Animated(a) => a.wf(),
                        _ => true,
                    },
        {
            let ghost before = self.slots@;
            let slot = &mut self.slots[i];
            match &mut slot.entry {
                CacheEntry::Animated(a) => {
                    advance_animation(a, dt_ms);
                },
                _ => {},
            }
            assert(self.slots@[i as int].entry == advanced(s0[i as int].entry, dt_ms));
        }
        proof {
            lemma_slot_map_pointwise(s0, self.slots@, dt_ms);
        }
    }

    /// Hands over the queued fetches and empties the queue.
    pub fn take_fetches(&mut self) -> (r: Vec<String>)
        ensures
            r@.map_values(|s: String| s@) == old(self).queued(),
            final(self).queued() == Seq::<Seq<char>>::empty(),
            final(self)@ == old(self)@,
            final(self).wf() == old(self).wf(),
    {
        let mut r: Vec<String> = Vec::new();
        std::mem::swap(&mut self.fetches, &mut r);
        assert(self.queued() =~= Seq::<Seq<char>>::empty());
        r
    }
}

// ---------------------------------------------------------------------------
// Guarantees
// ---------------------------------------------------------------------------

/// The cache after `n` requests for `u`.
pub open spec fn after_requests<T>(m: Map<Seq<char>, CacheEntry<T>>, u: Seq<char>, n: nat) -> Map<
    Seq<char>,
    CacheEntry<T>,
>
    decreases n,
{
    if n == 0 {
        m
    } else {
        after_request(after_requests(m, u, (n - 1) as nat), u)
    }
}

/// How many of `n` requests for `u` start a fetch.
pub open spec fn fetches_started<T>(m: Map<Seq<char>, CacheEntry<T>>, u: Seq<char>, n: nat) -> nat
    decreases n,
{
    if n == 0 {
        0
    } else {
        fetches_started(m, u, (n - 1) as nat) + if starts_fetch(
            after_requests(m, u, (n - 1) as nat),
            u,
        ) {
            1nat
        } else {
            0nat
        }
    }
}

/// Any number of requests for one URL, made before its download finishes,
/// start exactly one fetch where the cache did not know the URL, and none
/// where it did.
pub proof fn lemma_one_fetch_per_url<T>(m: Map<Seq<char>, CacheEntry<T>>, u: Seq<char>, n: nat)
    ensures
        fetches_started(m, u, n) == if n > 0 && !m.contains_key(u) {
            1nat
        } else {
            0nat
        },
        n > 0 ==> after_requests(m, u, n).contains_key(u),
        n > 0 ==> after_requests(m, u, n) == after_request(m, u),
    decreases n,
{
    if n == 1 {
        assert(after_requests(m, u, 0) == m);
        assert(fetches_started(m, u, 0) == 0);
    } else if n > 1 {
        lemma_one_fetch_per_url(m, u, (n - 1) as nat);
        let p = after_requests(m, u, (n - 1) as nat);
        assert(p.contains_key(u));
        assert(after_request(p, u) == p);
    }
}

/// A URL whose download failed stays in the cache as a failure: a later
/// request shows nothing, starts no fetch and changes nothing, and the
/// passing of time leaves the failure as it is.
pub proof fn lemma_failure_kept<T>(m: Map<Seq<char>, CacheEntry<T>>, u: Seq<char>, dt: u32)
    ensures
        ({
            let m1 = m.insert(u, entry_of::<T>(None));
            &&& m1.contains_key(u)
            &&& m1[u] is Failed
            &&& !starts_fetch(m1, u)
            &&& after_request(m1, u) == m1
            &&& shown(m1, u) is None
            &&& m1.map_values(|e: CacheEntry<T>| advanced(e, dt))[u] is Failed
        }),
{
}

} // verus!
