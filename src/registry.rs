use vstd::prelude::*;

use crate::error::DisplayError;
use crate::fault::{check_step, ignore_step, ErrorSlot};

verus! {

/// One connection to the display server, identified by its native handle.
/// An owned connection was opened by this crate and is closed when its last
/// owner lets go; a borrowed one wraps a handle that other code opened.
/// Two connections are equal exactly when their handles are.
#[derive(Clone, Copy, Debug)]
pub struct Display {
    display: usize,
    owned: bool,
}

impl PartialEq for Display {
    fn eq(&self, o: &Display) -> (r: bool) {
        self.display == o.display
    }
}

impl vstd::std_specs::cmp::PartialEqSpecImpl for Display {
    open spec fn obeys_eq_spec() -> bool {
        true
    }

    open spec fn eq_spec(&self, o: &Display) -> bool {
        self.handle() == o.handle()
    }
}

impl Eq for Display {}

impl Display {
    /// The native handle.
    pub closed spec fn handle(&self) -> usize {
        self.display
    }

    /// Whether the connection was opened here.
    pub closed spec fn owned_spec(&self) -> bool {
        self.owned
    }

    /// The connection with handle `h` and ownership `owned`.
    pub closed spec fn fresh_spec(h: usize, owned: bool) -> Display {
        Display { display: h, owned }
    }

    /// A connection is determined by its handle and ownership.
    pub proof fn lemma_fresh(h: usize, owned: bool)
        ensures
            Display::fresh_spec(h, owned).handle() == h,
            Display::fresh_spec(h, owned).owned_spec() == owned,
            forall|d: Display| d.handle() == h && d.owned_spec() == owned ==> d == Display::fresh_spec(h, owned),
    {
    }
}

/// A registry entry: a connection and how many owners hold it.
#[derive(Clone, Copy, Debug)]
pub struct Slot {
    pub display: Display,
    pub owners: usize,
}

/// Every entry has an owner, and no two entries share a handle: at most one
/// live connection exists per native handle.
pub open spec fn registry_wf(s: Seq<Slot>) -> bool {
    &&& forall|i: int| 0 <= i < s.len() ==> s[i].owners > 0
    &&& forall|i: int, j: int|
        0 <= i < s.len() && 0 <= j < s.len() && i != j ==> s[i].display.handle()
            != s[j].display.handle()
}

/// The entry that holds handle `h`, if any.
pub open spec fn slot_of(s: Seq<Slot>, h: usize) -> Option<int> {
    if exists|i: int| 0 <= i < s.len() && s[i].display.handle() == h {
        Some(choose|i: int| 0 <= i < s.len() && s[i].display.handle() == h)
    } else {
        None
    }
}

/// Whether a connection for handle `h` is alive.
pub open spec fn is_live(s: Seq<Slot>, h: usize) -> bool {
    entry_of(s, h) is Some
}

/// How many owners hold the connection for `h` (zero when there is none).
pub open spec fn owners_of(s: Seq<Slot>, h: usize) -> nat {
    match entry_of(s, h) {
        Some(e) => e.owners as nat,
        None => 0,
    }
}

/// Whether one more owner can be counted for `h`.
pub open spec fn can_share(s: Seq<Slot>, h: usize) -> bool {
    owners_of(s, h) < usize::MAX
}

/// Taking hold of handle `h`: a live connection for it gains an owner and is
/// handed out again; otherwise a new connection is entered with one owner.
pub open spec fn adopted(s: Seq<Slot>, h: usize, owned: bool) -> (Seq<Slot>, Display) {
    match slot_of(s, h) {
        Some(i) => (
            s.update(i, Slot { display: s[i].display, owners: (s[i].owners + 1) as usize }),
            s[i].display,
        ),
        None => (
            s.push(Slot { display: Display::fresh_spec(h, owned), owners: 1 }),
            Display::fresh_spec(h, owned),
        ),
    }
}

/// Entering a connection that was just opened for `h`: the entry for `h`
/// becomes an owned connection with one more owner. An entry that was there
/// can only be a stale borrowed wrapper whose handle the native library has
/// reused. Every other entry stays as it was.
pub open spec fn opened(s: Seq<Slot>, h: usize) -> Seq<Slot> {
    match slot_of(s, h) {
        Some(i) => s.update(
            i,
            Slot { display: Display::fresh_spec(h, true), owners: (s[i].owners + 1) as usize },
        ),
        None => s.push(Slot { display: Display::fresh_spec(h, true), owners: 1 }),
    }
}

/// Letting go of one owner of `h`. The last owner's departure removes the
/// entry, and the flag tells whether the native connection must be closed
/// (only for an owned one).
pub open spec fn released(s: Seq<Slot>, h: usize) -> (Seq<Slot>, bool) {
    match slot_of(s, h) {
        Some(i) => if s[i].owners > 1 {
            (s.update(i, Slot { display: s[i].display, owners: (s[i].owners - 1) as usize }), false)
        } else {
            (s.remove(i), s[i].display.owned_spec())
        },
        None => (s, false),
    }
}

/// The entry for handle `q`, if any.
pub open spec fn entry_of(s: Seq<Slot>, q: usize) -> Option<Slot> {
    match slot_of(s, q) {
        Some(i) => Some(s[i]),
        None => None,
    }
}

/// Every handle other than `h` has the same entry, or none, in `s` and `t`.
pub open spec fn others_kept(s: Seq<Slot>, t: Seq<Slot>, h: usize) -> bool {
    forall|q: usize| q != h ==> #[trigger] entry_of(t, q) == entry_of(s, q)
}

proof fn lemma_frame_update(s: Seq<Slot>, i: int, v: Slot, h: usize)
    requires
        registry_wf(s),
        registry_wf(s.update(i, v)),
        0 <= i < s.len(),
        s[i].display.handle() == h,
        v.display.handle() == h,
    ensures
        others_kept(s, s.update(i, v), h),
{
    let t = s.update(i, v);
    assert forall|q: usize| q != h implies #[trigger] entry_of(t, q) == entry_of(s, q) by {
        match slot_of(s, q) {
            Some(j) => {
                assert(t[j] == s[j]);
                lemma_slot_of_unique(t, q, j);
            },
            None => {
                assert forall|k: int| 0 <= k < t.len() implies t[k].display.display != q by {
                    if k != i {
                        assert(t[k] == s[k]);
                    }
                }
                lemma_slot_of_none(t, q);
            },
        }
    }
}

proof fn lemma_frame_push(s: Seq<Slot>, v: Slot, h: usize)
    requires
        registry_wf(s),
        registry_wf(s.push(v)),
        v.display.handle() == h,
    ensures
        others_kept(s, s.push(v), h),
{
    let t = s.push(v);
    assert forall|q: usize| q != h implies #[trigger] entry_of(t, q) == entry_of(s, q) by {
        match slot_of(s, q) {
            Some(j) => {
                assert(t[j] == s[j]);
                lemma_slot_of_unique(t, q, j);
            },
            None => {
                assert forall|k: int| 0 <= k < t.len() implies t[k].display.display != q by {
                    if k < s.len() {
                        assert(t[k] == s[k]);
                    }
                }
                lemma_slot_of_none(t, q);
            },
        }
    }
}

proof fn lemma_frame_remove(s: Seq<Slot>, i: int, h: usize)
    requires
        registry_wf(s),
        registry_wf(s.remove(i)),
        0 <= i < s.len(),
        s[i].display.handle() == h,
    ensures
        others_kept(s, s.remove(i), h),
        !is_live(s.remove(i), h),
{
    let t = s.remove(i);
    assert forall|k: int| 0 <= k < t.len() implies t[k].display.display != h by {
        let k2 = if k < i { k } else { k + 1 };
        assert(t[k] == s[k2]);
    }
    lemma_slot_of_none(t, h);
    assert forall|q: usize| q != h implies #[trigger] entry_of(t, q) == entry_of(s, q) by {
        match slot_of(s, q) {
            Some(j) => {
                let k = if j < i { j } else { j - 1 };
                assert(t[k] == s[j]);
                lemma_slot_of_unique(t, q, k);
            },
            None => {
                assert forall|k: int| 0 <= k < t.len() implies t[k].display.display != q by {
                    let k2 = if k < i { k } else { k + 1 };
                    assert(t[k] == s[k2]);
                }
                lemma_slot_of_none(t, q);
            },
        }
    }
}

/// Taking hold of or opening handle `h` leaves the entry of every other
/// handle as it was.
pub proof fn law_others_kept(s: Seq<Slot>, h: usize, owned: bool)
    requires
        registry_wf(s),
        can_share(s, h),
    ensures
        others_kept(s, adopted(s, h, owned).0, h),
        others_kept(s, opened(s, h), h),
{
    lemma_adopted_wf(s, h, owned);
    lemma_opened_wf(s, h);
    Display::lemma_fresh(h, owned);
    Display::lemma_fresh(h, true);
    match slot_of(s, h) {
        Some(i) => {
            lemma_frame_update(s, i, adopted(s, h, owned).0[i], h);
            lemma_frame_update(s, i, opened(s, h)[i], h);
        },
        None => {
            lemma_frame_push(s, adopted(s, h, owned).0[s.len() as int], h);
            lemma_frame_push(s, opened(s, h)[s.len() as int], h);
        },
    }
}

/// Letting go of an owner of handle `h` leaves the entry of every other
/// handle as it was.
pub proof fn law_release_keeps_others(s: Seq<Slot>, h: usize)
    requires
        registry_wf(s),
    ensures
        others_kept(s, released(s, h).0, h),
{
    lemma_released_wf(s, h);
    if let Some(i) = slot_of(s, h) {
        if s[i].owners > 1 {
            lemma_frame_update(s, i, released(s, h).0[i], h);
        } else {
            lemma_frame_remove(s, i, h);
        }
    }
}

/// Letting go of an owner of `h` counts one owner fewer; when none is left
/// the handle is no longer live.
pub proof fn law_release_counts(s: Seq<Slot>, h: usize)
    requires
        registry_wf(s),
    ensures
        owners_of(released(s, h).0, h) == (if owners_of(s, h) > 0 {
            owners_of(s, h) - 1
        } else {
            0
        }),
        owners_of(released(s, h).0, h) == 0 <==> !is_live(released(s, h).0, h),
        released(s, h).1 ==> !is_live(released(s, h).0, h),
        released(s, h).1 == (entry_of(s, h) matches Some(e) && e.owners == 1
            && e.display.owned_spec()),
        owners_of(s, h) > 1 ==> entry_of(released(s, h).0, h) == Some(
            Slot { display: entry_of(s, h)->Some_0.display, owners: (owners_of(s, h) - 1) as usize },
        ),
{
    lemma_released_wf(s, h);
    let t = released(s, h).0;
    if let Some(i) = slot_of(s, h) {
        if s[i].owners > 1 {
            lemma_slot_of_unique(t, h, i);
        } else {
            lemma_frame_remove(s, i, h);
        }
    }
    if let Some(k) = slot_of(t, h) {
        assert(t[k].owners > 0);
    }
}

/// Opening keeps the registry well formed.
pub proof fn lemma_opened_wf(s: Seq<Slot>, h: usize)
    requires
        registry_wf(s),
        can_share(s, h),
    ensures
        registry_wf(opened(s, h)),
{
}

/// Letting go of an owner keeps the registry well formed.
pub proof fn lemma_released_wf(s: Seq<Slot>, h: usize)
    requires
        registry_wf(s),
    ensures
        registry_wf(released(s, h).0),
{
    if let Some(i) = slot_of(s, h) {
        if s[i].owners <= 1 {
            let t = s.remove(i);
            assert forall|a: int, b: int|
                0 <= a < t.len() && 0 <= b < t.len() && a != b implies t[a].display.display
                != t[b].display.display by {
                let a2 = if a < i { a } else { a + 1 };
                let b2 = if b < i { b } else { b + 1 };
                assert(t[a] == s[a2]);
                assert(t[b] == s[b2]);
            }
            assert forall|a: int| 0 <= a < t.len() implies t[a].owners > 0 by {
                let a2 = if a < i { a } else { a + 1 };
                assert(t[a] == s[a2]);
            }
        }
    }
}

/// Taking hold of a handle keeps the registry well formed.
pub proof fn lemma_adopted_wf(s: Seq<Slot>, h: usize, owned: bool)
    requires
        registry_wf(s),
        can_share(s, h),
    ensures
        registry_wf(adopted(s, h, owned).0),
{
}

proof fn lemma_slot_of_unique(s: Seq<Slot>, h: usize, i: int)
    requires
        registry_wf(s),
        0 <= i < s.len(),
        s[i].display.display == h,
    ensures
        slot_of(s, h) == Some(i),
{
}

proof fn lemma_slot_of_none(s: Seq<Slot>, h: usize)
    requires
        forall|j: int| 0 <= j < s.len() ==> s[j].display.display != h,
    ensures
        slot_of(s, h) is None,
{
}

/// The process-wide record of live connections, counting the owners of
/// each. An entry goes away at the moment its last owner lets go, so the
/// registry never holds dead entries.
pub struct Registry {
    slots: Vec<Slot>,
}

impl Registry {
    pub closed spec fn view(&self) -> Seq<Slot> {
        self.slots@
    }

    pub open spec fn wf(&self) -> bool {
        registry_wf(self@)
    }

    pub fn new() -> (r: Registry)
        ensures
            r.wf(),
            r@ == Seq::<Slot>::empty(),
    {
        Registry { slots: Vec::new() }
    }

    /// Number of live connections.
    pub fn len(&self) -> (r: usize)
        ensures
            r == self@.len(),
    {
        self.slots.len()
    }

    /// The position of the live connection for `h`, if there is one.
    pub fn find_live(&self, h: usize) -> (r: Option<usize>)
        requires
            self.wf(),
        ensures
            match r {
                Some(i) => slot_of(self@, h) == Some(i as int),
                None => slot_of(self@, h) is None,
            },
    {
        let mut i: usize = 0;
        while i < self.slots.len()
            invariant
                0 <= i <= self@.len(),
                self.wf(),
                forall|j: int| 0 <= j < i ==> self@[j].display.display != h,
            decreases self@.len() - i,
        {
            if self.slots[i].display.display == h {
                proof {
                    lemma_slot_of_unique(self@, h, i as int);
                }
                return Some(i);
            }
            i = i + 1;
        }
        proof {
            lemma_slot_of_none(self@, h);
        }
        None
    }

    /// The live connection for `h`, if there is one.
    pub fn lookup(&self, h: usize) -> (r: Option<Display>)
        requires
            self.wf(),
        ensures
            match slot_of(self@, h) {
                Some(i) => r == Some(self@[i].display),
                None => r is None,
            },
    {
        match self.find_live(h) {
            Some(i) => Some(self.slots[i].display),
            None => None,
        }
    }

    /// How many owners hold the connection for `h`.
    pub fn owners(&self, h: usize) -> (r: usize)
        requires
            self.wf(),
        ensures
            r == owners_of(self@, h),
    {
        match self.find_live(h) {
            Some(i) => self.slots[i].owners,
            None => 0,
        }
    }

    /// Whether another owner of `h` can still be counted.
    pub fn can_share(&self, h: usize) -> (r: bool)
        requires
            self.wf(),
        ensures
            r == can_share(self@, h),
    {
        self.owners(h) < usize::MAX
    }

    /// Takes hold of handle `h` (see `adopted`).
    pub fn adopt(&mut self, h: usize, owned: bool) -> (r: Display)
        requires
            old(self).wf(),
            can_share(old(self)@, h),
        ensures
            final(self).wf(),
            (final(self)@, r) == adopted(old(self)@, h, owned),
    {
        match self.find_live(h) {
            Some(i) => {
                let slot = self.slots[i];
                let d = slot.display;
                self.slots.set(i, Slot { display: d, owners: slot.owners + 1 });
                assert(self@ =~= adopted(old(self)@, h, owned).0);
                d
            },
            None => {
                let d = Display { display: h, owned };
                self.slots.push(Slot { display: d, owners: 1 });
                assert(self@ =~= adopted(old(self)@, h, owned).0);
                d
            },
        }
    }

    /// Enters a connection just opened for `h` (see `opened`).
    pub fn enter_opened(&mut self, h: usize) -> (r: Display)
        requires
            old(self).wf(),
            can_share(old(self)@, h),
        ensures
            final(self).wf(),
            final(self)@ == opened(old(self)@, h),
            r.handle() == h,
            r.owned_spec(),
    {
        let d = Display { display: h, owned: true };
        match self.find_live(h) {
            Some(i) => {
                let n = self.slots[i].owners;
                self.slots.set(i, Slot { display: d, owners: n + 1 });
            },
            None => {
                self.slots.push(Slot { display: d, owners: 1 });
            },
        }
        assert(self@ =~= opened(old(self)@, h));
        d
    }

    /// Lets go of one owner of the connection for `h` (see `released`).
    /// Returns whether the native connection must now be closed.
    pub fn release(&mut self, h: usize) -> (close: bool)
        requires
            old(self).wf(),
        ensures
            final(self).wf(),
            (final(self)@, close) == released(old(self)@, h),
            owners_of(final(self)@, h) == (if owners_of(old(self)@, h) > 0 {
                owners_of(old(self)@, h) - 1
            } else {
                0
            }),
            others_kept(old(self)@, final(self)@, h),
            close ==> !is_live(final(self)@, h),
            close == (entry_of(old(self)@, h) matches Some(e) && e.owners == 1
                && e.display.owned_spec()),
            owners_of(old(self)@, h) > 1 ==> entry_of(final(self)@, h) == Some(
                Slot {
                    display: entry_of(old(self)@, h)->Some_0.display,
                    owners: (owners_of(old(self)@, h) - 1) as usize,
                },
            ),
    {
        proof {
            law_release_counts(self@, h);
            law_release_keeps_others(self@, h);
        }
        match self.find_live(h) {
            Some(i) => {
                let slot = self.slots[i];
                if slot.owners > 1 {
                    self.slots.set(i, Slot { display: slot.display, owners: slot.owners - 1 });
                    assert(self@ =~= released(old(self)@, h).0);
                    false
                } else {
                    self.slots.remove(i);
                    assert(self@ =~= released(old(self)@, h).0);
                    proof {
                        lemma_released_wf(old(self)@, h);
                    }
                    slot.display.owned
                }
            },
            None => false,
        }
    }
}

impl Display {
    /// Wraps a freshly opened native connection as an owned one and enters
    /// it in the registry. A null handle means that the display could not be
    /// opened.
    pub fn new(registry: &mut Registry, handle: usize) -> (r: Result<Display, DisplayError>)
        requires
            old(registry).wf(),
            handle != 0 ==> can_share(old(registry)@, handle),
        ensures
            final(registry).wf(),
            handle == 0 ==> r == Err::<Display, DisplayError>(DisplayError::XOpenDisplayFailed)
                && final(registry)@ == old(registry)@,
            handle != 0 ==> (r matches Ok(d) && d.handle() == handle && d.owned_spec()
                && final(registry)@ == opened(old(registry)@, handle)),
            handle != 0 ==> is_live(final(registry)@, handle) && owners_of(final(registry)@, handle)
                == owners_of(old(registry)@, handle) + 1 && others_kept(
                old(registry)@,
                final(registry)@,
                handle,
            ),
            handle != 0 && !is_live(old(registry)@, handle) ==> (r matches Ok(d)
                && final(registry)@ == old(registry)@.push(Slot { display: d, owners: 1 })),
            handle != 0 ==> (r matches Ok(d) && entry_of(final(registry)@, handle) == Some(
                Slot { display: d, owners: (owners_of(old(registry)@, handle) + 1) as usize },
            )),
    {
        if handle != 0 {
            proof {
                law_open_owned(registry@, handle);
                law_others_kept(registry@, handle, true);
                Display::lemma_fresh(handle, true);
            }
        }
        if handle == 0 {
            Err(DisplayError::XOpenDisplayFailed)
        } else {
            Ok(registry.enter_opened(handle))
        }
    }

    /// The connection for a handle that other code supplied: the live one
    /// for that handle if there is one, which then gains an owner, else a new
    /// borrowed connection.
    pub fn from_raw(registry: &mut Registry, handle: usize) -> (r: Display)
        requires
            old(registry).wf(),
            can_share(old(registry)@, handle),
        ensures
            final(registry).wf(),
            (final(registry)@, r) == adopted(old(registry)@, handle, false),
            r.handle() == handle,
            is_live(final(registry)@, handle),
            owners_of(final(registry)@, handle) == owners_of(old(registry)@, handle) + 1,
            others_kept(old(registry)@, final(registry)@, handle),
            is_live(old(registry)@, handle) ==> r == old(registry)@[slot_of(
                old(registry)@,
                handle,
            )->Some_0].display && final(registry)@.len() == old(registry)@.len(),
            !is_live(old(registry)@, handle) ==> !r.owned_spec() && final(registry)@ == old(
                registry,
            )@.push(Slot { display: r, owners: 1 }),
            entry_of(final(registry)@, handle) == Some(
                Slot { display: r, owners: (owners_of(old(registry)@, handle) + 1) as usize },
            ),
    {
        proof {
            law_adopt_shares(registry@, handle, false);
            law_others_kept(registry@, handle, false);
            Display::lemma_fresh(handle, false);
        }
        registry.adopt(handle, false)
    }

    /// The native handle.
    pub fn raw(&self) -> (r: usize)
        ensures
            r == self.handle(),
    {
        self.display
    }

    /// Whether this connection was opened here and must be closed here.
    pub fn is_owned(&self) -> (r: bool)
        ensures
            r == self.owned_spec(),
    {
        self.owned
    }

    /// Reports, and consumes, the latest fault that the error callback
    /// recorded. A second call right after always succeeds.
    pub fn check_errors(&self, slot: &mut ErrorSlot) -> (r: Result<(), DisplayError>)
        ensures
            check_step(old(slot)@, final(slot)@, r),
    {
        match slot.take() {
            Some(e) => Err(DisplayError::Protocol(e)),
            None => Ok(()),
        }
    }

    /// Forgets any recorded fault.
    pub fn ignore_error(&self, slot: &mut ErrorSlot)
        ensures
            ignore_step(old(slot)@, final(slot)@),
    {
        slot.clear();
    }
}

/// Every connection handed out for handle `h` carries handle `h`, so any two
/// of them compare equal; and while a connection for `h` is alive, taking
/// hold of `h` again hands out that same connection, adds no entry, and
/// counts one more owner of it.
pub proof fn law_adopt_shares(s: Seq<Slot>, h: usize, owned: bool)
    requires
        registry_wf(s),
        can_share(s, h),
    ensures
        adopted(s, h, owned).1.handle() == h,
        registry_wf(adopted(s, h, owned).0),
        is_live(adopted(s, h, owned).0, h),
        owners_of(adopted(s, h, owned).0, h) == owners_of(s, h) + 1,
        is_live(s, h) ==> adopted(s, h, owned).1 == s[slot_of(s, h)->Some_0].display
            && adopted(s, h, owned).0.len() == s.len(),
        entry_of(adopted(s, h, owned).0, h) == Some(
            Slot { display: adopted(s, h, owned).1, owners: (owners_of(s, h) + 1) as usize },
        ),
{
    lemma_adopted_wf(s, h, owned);
    let t = adopted(s, h, owned).0;
    match slot_of(s, h) {
        Some(i) => {
            assert(t[i].display.display == h);
        },
        None => {
            assert(t[s.len() as int].display.display == h);
        },
    }
}

/// Takes hold of handle `h` `k` times in a row as a borrowed connection.
pub open spec fn adopt_times(s: Seq<Slot>, h: usize, k: nat) -> Seq<Slot>
    decreases k,
{
    if k == 0 {
        s
    } else {
        adopted(adopt_times(s, h, (k - 1) as nat), h, false).0
    }
}

proof fn lemma_adopt_times(s: Seq<Slot>, h: usize, k: nat)
    requires
        registry_wf(s),
        is_live(s, h),
        owners_of(s, h) + k <= usize::MAX,
    ensures
        registry_wf(adopt_times(s, h, k)),
        slot_of(adopt_times(s, h, k), h) == slot_of(s, h),
        adopt_times(s, h, k).len() == s.len(),
        adopt_times(s, h, k)[slot_of(s, h)->Some_0].display == s[slot_of(s, h)->Some_0].display,
        owners_of(adopt_times(s, h, k), h) == owners_of(s, h) + k,
    decreases k,
{
    if k > 0 {
        let p = adopt_times(s, h, (k - 1) as nat);
        lemma_adopt_times(s, h, (k - 1) as nat);
        law_adopt_shares(p, h, false);
        let i = slot_of(s, h)->Some_0;
        assert(adopted(p, h, false).0[i].display.display == h);
        assert(slot_of(adopted(p, h, false).0, h) == Some(i));
    }
}

/// A run of `from_raw` calls on a handle whose connection is alive: each
/// call hands out that same connection, the registry gains no entry, and the
/// connection ends with one more owner per call.
pub proof fn law_repeated_from_raw(s: Seq<Slot>, h: usize, k: nat, j: nat)
    requires
        registry_wf(s),
        is_live(s, h),
        owners_of(s, h) + k <= usize::MAX,
        j < k,
    ensures
        adopted(adopt_times(s, h, j), h, false).1 == s[slot_of(s, h)->Some_0].display,
        adopt_times(s, h, k).len() == s.len(),
        owners_of(adopt_times(s, h, k), h) == owners_of(s, h) + k,
        registry_wf(adopt_times(s, h, k)),
{
    lemma_adopt_times(s, h, k);
    lemma_adopt_times(s, h, j);
    law_adopt_shares(adopt_times(s, h, j), h, false);
}

/// Lets go of `k` owners of handle `h` one after another; gives the final
/// registry and how many times the native connection was closed.
pub open spec fn release_times(s: Seq<Slot>, h: usize, k: nat) -> (Seq<Slot>, nat)
    decreases k,
{
    if k == 0 {
        (s, 0)
    } else {
        let (s1, closed) = released(s, h);
        let (s2, n) = release_times(s1, h, (k - 1) as nat);
        (s2, n + if closed { 1nat } else { 0nat })
    }
}

/// However many times the owners of a connection let go, its native
/// connection is closed at most once: exactly once when it is owned and all
/// of its owners have let go, never before.
pub proof fn law_close_at_most_once(s: Seq<Slot>, h: usize, k: nat)
    requires
        registry_wf(s),
    ensures
        release_times(s, h, k).1 == (if is_live(s, h) && s[slot_of(s, h)->Some_0].display.owned_spec()
            && k >= owners_of(s, h) {
            1nat
        } else {
            0nat
        }),
        k >= owners_of(s, h) ==> !is_live(release_times(s, h, k).0, h),
    decreases k,
{
    if k > 0 {
        let s1 = released(s, h).0;
        lemma_released_wf(s, h);
        match slot_of(s, h) {
            Some(i) => {
                if s[i].owners > 1 {
                    assert(s1[i].display == s[i].display);
                    assert(slot_of(s1, h) == Some(i));
                } else {
                    assert forall|j: int| 0 <= j < s1.len() implies s1[j].display.display != h by {
                        let j2 = if j < i { j } else { j + 1 };
                        assert(s1[j] == s[j2]);
                    }
                    assert(slot_of(s1, h) is None);
                }
            },
            None => {},
        }
        law_close_at_most_once(s1, h, (k - 1) as nat);
    }
}

/// Once the last owner of a connection lets go, the registry no longer has
/// a live connection for its handle.
pub proof fn law_last_release_forgets(s: Seq<Slot>, h: usize)
    requires
        registry_wf(s),
        owners_of(s, h) <= 1,
    ensures
        !is_live(released(s, h).0, h),
        released(s, h).1 ==> is_live(s, h) && s[slot_of(s, h)->Some_0].display.owned_spec(),
{
    law_close_at_most_once(s, h, 1);
    assert(release_times(s, h, 1).0 == released(s, h).0) by {
        reveal_with_fuel(release_times, 2);
    }
}

/// Opening a connection always yields an owned one for the new handle: its
/// entry is owned and counts one more owner than before (one, when the handle
/// was not live), and every entry for another handle stays as it was.
pub proof fn law_open_owned(s: Seq<Slot>, h: usize)
    requires
        registry_wf(s),
        can_share(s, h),
    ensures
        registry_wf(opened(s, h)),
        is_live(opened(s, h), h),
        opened(s, h)[slot_of(opened(s, h), h)->Some_0].display.handle() == h,
        opened(s, h)[slot_of(opened(s, h), h)->Some_0].display.owned_spec(),
        owners_of(opened(s, h), h) == owners_of(s, h) + 1,
        forall|j: int|
            0 <= j < s.len() && s[j].display.handle() != h ==> opened(s, h)[j] == s[j],
        entry_of(opened(s, h), h) == Some(
            Slot { display: Display::fresh_spec(h, true), owners: (owners_of(s, h) + 1) as usize },
        ),
{
    let t = opened(s, h);
    match slot_of(s, h) {
        Some(i) => {
            assert(t[i].display.display == h);
            lemma_slot_of_unique(t, h, i);
        },
        None => {
            assert(t[s.len() as int].display.display == h);
            lemma_slot_of_unique(t, h, s.len() as int);
        },
    }
}

} // verus!
