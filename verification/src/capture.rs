//! The table of property addresses captured from the selected component.

use vstd::prelude::*;

verus! {

/// Number of properties a component can have.
pub const MAX_PROPS: usize = 5;

/// Properties of one component arrive in a quick burst; a gap larger than this
/// (in milliseconds) means a new component was selected.
pub const BURST_MS: u64 = 25;

/// The captured addresses, in the order in which they arrived. A slot that
/// holds 0 is free.
#[derive(Clone, Copy)]
pub struct CaptureTable {
    pub addrs: [u64; MAX_PROPS],
    /// Moves on whenever the captured addresses change.
    pub serial: u32,
    /// When an address that was not in the table last arrived; 0 for never.
    pub last_ms: u64,
}

/// Whether an address that arrives at `now` belongs to another component than
/// the one that arrived at `last`.
pub open spec fn burst_over(last: u64, now: u64) -> bool {
    last != 0 && now - last > BURST_MS
}

/// The first index at or after `from` whose slot is free, or the length.
pub open spec fn first_free(addrs: Seq<u64>, from: int) -> int
    decreases addrs.len() - from,
{
    if from >= addrs.len() || addrs[from] == 0 {
        from
    } else {
        first_free(addrs, from + 1)
    }
}

/// The first index at or after `from` whose slot is taken, or the length.
pub open spec fn first_taken(addrs: Seq<u64>, from: int) -> int
    decreases addrs.len() - from,
{
    if from >= addrs.len() || addrs[from] != 0 {
        from
    } else {
        first_taken(addrs, from + 1)
    }
}

/// `n` free slots.
pub open spec fn free_slots(n: nat) -> Seq<u64> {
    Seq::new(n, |i: int| 0u64)
}

/// The slots with `prop` in the first free one, if there is one.
pub open spec fn inserted(addrs: Seq<u64>, prop: u64) -> Seq<u64> {
    if first_free(addrs, 0) < addrs.len() {
        addrs.update(first_free(addrs, 0), prop)
    } else {
        addrs
    }
}

/// The slots after `prop` arrived at `now`.
pub open spec fn recorded(addrs: Seq<u64>, last: u64, prop: u64, now: u64) -> Seq<u64> {
    if addrs.contains(prop) {
        addrs
    } else if burst_over(last, now) {
        inserted(free_slots(addrs.len()), prop)
    } else {
        inserted(addrs, prop)
    }
}

/// How far the serial moves when `prop` arrives at `now`: one for emptying the
/// table, one for taking a slot.
pub open spec fn serial_moves(addrs: Seq<u64>, last: u64, prop: u64, now: u64) -> int {
    if addrs.contains(prop) {
        0
    } else if burst_over(last, now) {
        2
    } else if first_free(addrs, 0) < addrs.len() {
        1
    } else {
        0
    }
}

/// A serial `by` moves on, around the end of the `u32` range.
pub open spec fn moved(serial: u32, by: int) -> u32 {
    ((serial + by) % 0x1_0000_0000) as u32
}

/// What `record` makes of a table.
pub open spec fn records(before: CaptureTable, prop: u64, now: u64, after: CaptureTable) -> bool {
    &&& after.addrs@ == recorded(before.addrs@, before.last_ms, prop, now)
    &&& after.serial == moved(
        before.serial,
        serial_moves(before.addrs@, before.last_ms, prop, now),
    )
    &&& after.last_ms == (if before.addrs@.contains(prop) {
        before.last_ms
    } else {
        now
    })
}

/// The table after the user emptied it.
pub open spec fn cleared(table: CaptureTable) -> CaptureTable {
    CaptureTable { addrs: [0u64; MAX_PROPS], serial: moved(table.serial, 1), last_ms: 0 }
}

/// No address is in two slots.
pub open spec fn distinct(addrs: Seq<u64>) -> bool {
    forall|i: int, j: int|
        0 <= i < j < addrs.len() && #[trigger] addrs[i] != 0 ==> addrs[i] != #[trigger] addrs[j]
}

/// A table that captures alone have filled: the taken slots come first, and no
/// address is in two of them.
pub open spec fn packed(addrs: Seq<u64>) -> bool {
    &&& forall|i: int, j: int|
        0 <= i < j < addrs.len() && #[trigger] addrs[i] == 0 ==> #[trigger] addrs[j] == 0
    &&& distinct(addrs)
}

/// The addresses in front of the first free slot: all that a packed table holds.
pub open spec fn captured(addrs: Seq<u64>) -> Seq<u64> {
    addrs.take(first_free(addrs, 0))
}

/// What `first_free` finds.
pub proof fn lemma_first_free(addrs: Seq<u64>, from: int)
    requires
        0 <= from <= addrs.len(),
    ensures
        from <= first_free(addrs, from) <= addrs.len(),
        forall|i: int| from <= i < first_free(addrs, from) ==> #[trigger] addrs[i] != 0,
        first_free(addrs, from) < addrs.len() ==> addrs[first_free(addrs, from)] == 0,
    decreases addrs.len() - from,
{
    if from < addrs.len() && addrs[from] != 0 {
        lemma_first_free(addrs, from + 1);
    }
}

/// What `first_taken` finds.
pub proof fn lemma_first_taken(addrs: Seq<u64>, from: int)
    requires
        0 <= from <= addrs.len(),
    ensures
        from <= first_taken(addrs, from) <= addrs.len(),
        forall|i: int| from <= i < first_taken(addrs, from) ==> #[trigger] addrs[i] == 0,
        first_taken(addrs, from) < addrs.len() ==> addrs[first_taken(addrs, from)] != 0,
    decreases addrs.len() - from,
{
    if from < addrs.len() && addrs[from] == 0 {
        lemma_first_taken(addrs, from + 1);
    }
}

/// `first_free` stays where nothing in front of it changed.
proof fn lemma_first_free_is(addrs: Seq<u64>, from: int, at: int)
    requires
        0 <= from <= at <= addrs.len(),
        forall|i: int| from <= i < at ==> #[trigger] addrs[i] != 0,
        at < addrs.len() ==> addrs[at] == 0,
    ensures
        first_free(addrs, from) == at,
    decreases at - from,
{
    if from < at {
        lemma_first_free_is(addrs, from + 1, at);
    }
}

/// Whether `prop` is in one of the slots.
fn holds(addrs: &[u64; MAX_PROPS], prop: u64) -> (found: bool)
    ensures
        found == addrs@.contains(prop),
{
    let mut i: usize = 0;
    while i < MAX_PROPS
        invariant
            i <= MAX_PROPS,
            forall|j: int| 0 <= j < i ==> addrs@[j] != prop,
        decreases MAX_PROPS - i,
    {
        if addrs[i] == prop {
            assert(addrs@[i as int] == prop);
            return true;
        }
        i += 1;
    }
    false
}

/// The index of the first free slot, or `MAX_PROPS`.
fn free_slot(addrs: &[u64; MAX_PROPS]) -> (at: usize)
    ensures
        at <= MAX_PROPS,
        at == first_free(addrs@, 0),
{
    let mut i: usize = 0;
    while i < MAX_PROPS && addrs[i] != 0
        invariant
            i <= MAX_PROPS,
            first_free(addrs@, 0) == first_free(addrs@, i as int),
        decreases MAX_PROPS - i,
    {
        i += 1;
    }
    i
}

impl CaptureTable {
    /// A table that nothing was captured into.
    pub fn new() -> (table: Self)
        ensures
            table.addrs@ == free_slots(MAX_PROPS as nat),
            forall|i: int| 0 <= i < MAX_PROPS ==> #[trigger] table.addrs@[i] == 0,
            table.serial == 0,
            table.last_ms == 0,
    {
        let table = CaptureTable { addrs: [0u64; MAX_PROPS], serial: 0, last_ms: 0 };
        assert(table.addrs@ =~= free_slots(MAX_PROPS as nat));
        table
    }

    /// Takes note that the game wrote the property at `prop` at `now`.
    ///
    /// A known address changes nothing. Another one goes to the first free
    /// slot, if there is one, after the table was emptied if a new burst began.
    pub fn record(&mut self, prop: u64, now: u64)
        ensures
            records(*old(self), prop, now, *final(self)),
    {
        if holds(&self.addrs, prop) {
            return;
        }
        let last: u64 = self.last_ms;
        self.last_ms = now;
        if last != 0 && now.saturating_sub(last) > BURST_MS {
            self.addrs = [0u64; MAX_PROPS];
            self.serial = self.serial.wrapping_add(1);
            assert(self.addrs@ =~= free_slots(MAX_PROPS as nat));
            assert(first_free(self.addrs@, 0) == 0);
        }
        let at: usize = free_slot(&self.addrs);
        if at < MAX_PROPS {
            self.addrs[at] = prop;
            self.serial = self.serial.wrapping_add(1);
        }
    }

    /// Empties the table at the user's request.
    pub fn clear(&mut self)
        ensures
            *final(self) == cleared(*old(self)),
            final(self).addrs@ == free_slots(MAX_PROPS as nat),
    {
        self.addrs = [0u64; MAX_PROPS];
        self.serial = self.serial.wrapping_add(1);
        self.last_ms = 0;
        assert(self.addrs@ =~= free_slots(MAX_PROPS as nat));
    }

    /// Whether a component is captured: its first property went to slot 0.
    pub fn has_selection(&self) -> (selected: bool)
        ensures
            selected == (self.addrs@[0] != 0),
    {
        self.addrs[0] != 0
    }

    /// The index of the first taken slot at or after `from`, or `MAX_PROPS`.
    pub fn next_taken(&self, from: usize) -> (at: usize)
        requires
            from <= MAX_PROPS,
        ensures
            from <= at <= MAX_PROPS,
            at == first_taken(self.addrs@, from as int),
            at < MAX_PROPS ==> self.addrs@[at as int] != 0,
    {
        let mut i: usize = from;
        while i < MAX_PROPS && self.addrs[i] == 0
            invariant
                from <= i <= MAX_PROPS,
                first_taken(self.addrs@, from as int) == first_taken(self.addrs@, i as int),
            decreases MAX_PROPS - i,
        {
            i += 1;
        }
        i
    }
}

/// An empty table is packed and holds nothing.
pub proof fn law_free_slots_hold_nothing(n: nat)
    ensures
        packed(free_slots(n)),
        captured(free_slots(n)) == Seq::<u64>::empty(),
{
    lemma_first_free_is(free_slots(n), 0, 0);
}

/// In a packed table the captured addresses are exactly the nonzero slots, and
/// slot 0 is taken if and only if anything is captured.
pub proof fn law_captured_is_all(addrs: Seq<u64>)
    requires
        packed(addrs),
        addrs.len() > 0,
    ensures
        captured(addrs).no_duplicates(),
        forall|a: u64| a != 0 ==> (#[trigger] captured(addrs).contains(a) <==> addrs.contains(a)),
        !captured(addrs).contains(0),
        addrs[0] != 0 <==> captured(addrs).len() > 0,
{
    lemma_first_free(addrs, 0);
    let n = first_free(addrs, 0);
    assert forall|a: u64| a != 0 implies (#[trigger] captured(addrs).contains(a)
        <==> addrs.contains(a)) by {
        if addrs.contains(a) {
            let i = choose|i: int| 0 <= i < addrs.len() && addrs[i] == a;
            assert(i < n);
            assert(captured(addrs)[i] == a);
        }
        if captured(addrs).contains(a) {
            let i = choose|i: int| 0 <= i < captured(addrs).len() && captured(addrs)[i] == a;
            assert(addrs[i] == a);
        }
    }
}

/// A capture keeps a table packed, and does one of four things to what it
/// holds: an address that is already there changes nothing; one that starts a
/// new burst is all that is left; any other goes to the end; and where all
/// slots are taken it is left out.
pub proof fn law_record_captures(addrs: Seq<u64>, last: u64, prop: u64, now: u64)
    requires
        packed(addrs),
        addrs.len() > 0,
        prop != 0,
    ensures
        packed(recorded(addrs, last, prop, now)),
        captured(recorded(addrs, last, prop, now)) == (if captured(addrs).contains(prop) {
            captured(addrs)
        } else if burst_over(last, now) {
            seq![prop]
        } else if captured(addrs).len() < addrs.len() {
            captured(addrs).push(prop)
        } else {
            captured(addrs)
        }),
{
    law_captured_is_all(addrs);
    if !addrs.contains(prop) {
        let base = if burst_over(last, now) {
            free_slots(addrs.len())
        } else {
            addrs
        };
        law_free_slots_hold_nothing(addrs.len());
        lemma_insert(base, prop);
    }
}

/// Taking the first free slot of a packed table appends to what it holds.
proof fn lemma_insert(addrs: Seq<u64>, prop: u64)
    requires
        packed(addrs),
        prop != 0,
        !addrs.contains(prop),
    ensures
        packed(inserted(addrs, prop)),
        captured(inserted(addrs, prop)) == (if captured(addrs).len() < addrs.len() {
            captured(addrs).push(prop)
        } else {
            captured(addrs)
        }),
{
    lemma_first_free(addrs, 0);
    let n = first_free(addrs, 0);
    if n < addrs.len() {
        let next = inserted(addrs, prop);
        lemma_first_free_is(next, 0, n + 1);
        assert(captured(next) =~= captured(addrs).push(prop));
    }
}

/// The slots, the serial and the time stamp after each of `props` arrived, at
/// the time that stands at the same place in `times`.
pub open spec fn recorded_all(
    addrs: Seq<u64>,
    serial: u32,
    last: u64,
    props: Seq<u64>,
    times: Seq<u64>,
) -> (Seq<u64>, u32, u64)
    decreases props.len(),
{
    if props.len() == 0 {
        (addrs, serial, last)
    } else {
        let (a, s, l) = recorded_all(addrs, serial, last, props.drop_last(), times.drop_last());
        (
            recorded(a, l, props.last(), times.last()),
            moved(s, serial_moves(a, l, props.last(), times.last())),
            if a.contains(props.last()) {
                l
            } else {
                times.last()
            },
        )
    }
}

/// How many of `n` addresses there are slots for.
pub open spec fn stored(n: nat, slots: nat) -> nat {
    if n < slots {
        n
    } else {
        slots
    }
}

/// A burst of distinct new addresses leaves the table with exactly those
/// addresses, in their order, as many as there are slots for: what an earlier
/// component left there is gone. The serial moves by one for each address that
/// is stored, and by one more where an earlier burst was dropped. The time
/// stamp is that of the last arrival.
pub proof fn law_burst_is_captured(
    addrs: Seq<u64>,
    serial: u32,
    last: u64,
    props: Seq<u64>,
    times: Seq<u64>,
)
    requires
        packed(addrs),
        addrs.len() > 0,
        props.len() == times.len(),
        props.len() > 0,
        props.no_duplicates(),
        !props.contains(0),
        !addrs.contains(props[0]),
        burst_over(last, times[0]) || captured(addrs).len() == 0,
        forall|i: int|
            0 < i < times.len() ==> !burst_over(#[trigger] times[i - 1], times[i]),
    ensures
        ({
            let (a, s, l) = recorded_all(addrs, serial, last, props, times);
            let n = stored(props.len(), addrs.len());
            &&& packed(a)
            &&& a.len() == addrs.len()
            &&& captured(a) == props.take(n as int)
            &&& s == moved(
                serial,
                n + if burst_over(last, times[0]) {
                    1int
                } else {
                    0
                },
            )
            &&& l == times.last()
        }),
    decreases props.len(),
{
    let n = props.len() - 1;
    let front = props.drop_last();
    let (a, s, l) = recorded_all(addrs, serial, last, front, times.drop_last());
    assert(props.contains(props[n]));
    if n == 0 {
        assert(front.len() == 0);
        law_record_captures(addrs, last, props[0], times[0]);
        law_captured_is_all(addrs);
        lemma_first_free(addrs, 0);
        assert(captured(recorded(addrs, last, props[0], times[0])) =~= props.take(1));
        lemma_recorded_len(addrs, last, props[0], times[0]);
    } else {
        assert forall|i: int| 0 < i < n implies !burst_over(
            #[trigger] times.drop_last()[i - 1],
            times.drop_last()[i],
        ) by {
            assert(times[i - 1] == times.drop_last()[i - 1]);
        }
        assert(!front.contains(0)) by {
            if front.contains(0) {
                let i = choose|i: int| 0 <= i < front.len() && front[i] == 0;
                assert(props[i] == 0);
            }
        }
        law_burst_is_captured(addrs, serial, last, front, times.drop_last());
        assert(!burst_over(times[n - 1], times[n]));
        law_captured_is_all(a);
        assert(!captured(a).contains(props[n]));
        law_record_captures(a, l, props[n], times[n]);
        lemma_recorded_len(a, l, props[n], times[n]);
        lemma_first_free(a, 0);
        if n < addrs.len() {
            assert(captured(a).push(props[n]) =~= props.take(n + 1));
        } else {
            assert(captured(a) =~= props.take(addrs.len() as int));
        }
    }
}

/// A packed table is what it holds, with free slots behind.
pub proof fn law_packed_is_captured_and_free(addrs: Seq<u64>)
    requires
        packed(addrs),
    ensures
        addrs == captured(addrs) + free_slots((addrs.len() - captured(addrs).len()) as nat),
{
    lemma_first_free(addrs, 0);
    let n = first_free(addrs, 0);
    assert forall|i: int| n <= i < addrs.len() implies addrs[i] == 0 by {
        assert(addrs[n] == 0);
    }
    assert(addrs =~= captured(addrs) + free_slots((addrs.len() - captured(addrs).len()) as nat));
}

proof fn lemma_recorded_len(addrs: Seq<u64>, last: u64, prop: u64, now: u64)
    ensures
        recorded(addrs, last, prop, now).len() == addrs.len(),
{
    lemma_first_free(addrs, 0);
    lemma_first_free(free_slots(addrs.len()), 0);
}

/// The serial moves if and only if a capture changes the table.
pub proof fn law_serial_follows_table(addrs: Seq<u64>, serial: u32, last: u64, prop: u64, now: u64)
    requires
        addrs.len() > 0,
        prop != 0,
    ensures
        moved(serial, serial_moves(addrs, last, prop, now)) != serial <==> recorded(
            addrs,
            last,
            prop,
            now,
        ) != addrs,
{
    lemma_first_free(addrs, 0);
    let next = recorded(addrs, last, prop, now);
    if !addrs.contains(prop) {
        if burst_over(last, now) {
            assert(next[0] == prop);
            assert(next != addrs);
        } else if first_free(addrs, 0) < addrs.len() {
            assert(next[first_free(addrs, 0)] == prop);
            assert(next != addrs);
        }
    }
}

/// A slot that a capture leaves taken holds the new address or the one that it
/// held before.
pub proof fn law_record_keeps_slots(addrs: Seq<u64>, last: u64, prop: u64, now: u64)
    ensures
        recorded(addrs, last, prop, now).len() == addrs.len(),
        forall|i: int|
            0 <= i < addrs.len() && #[trigger] recorded(addrs, last, prop, now)[i] != 0 ==> {
                ||| recorded(addrs, last, prop, now)[i] == prop
                ||| recorded(addrs, last, prop, now)[i] == addrs[i]
            },
{
    lemma_recorded_len(addrs, last, prop, now);
    lemma_first_free(addrs, 0);
    lemma_first_free(free_slots(addrs.len()), 0);
}

/// Emptying the table moves the serial, and leaves a packed table that holds
/// nothing.
pub proof fn law_clear_moves_serial(table: CaptureTable)
    ensures
        cleared(table).serial != table.serial,
        packed(cleared(table).addrs@),
        captured(cleared(table).addrs@) == Seq::<u64>::empty(),
{
    assert(cleared(table).addrs@ =~= free_slots(MAX_PROPS as nat));
    law_free_slots_hold_nothing(MAX_PROPS as nat);
}

/// An address that is in the table already changes nothing, whenever it
/// arrives.
pub proof fn law_known_address_changes_nothing(
    before: CaptureTable,
    prop: u64,
    now: u64,
    after: CaptureTable,
    slot: int,
)
    requires
        records(before, prop, now, after),
        0 <= slot < MAX_PROPS,
        before.addrs@[slot] == prop,
    ensures
        after.addrs@ == before.addrs@,
        after.serial == before.serial,
        after.last_ms == before.last_ms,
{
    assert(before.addrs@.contains(prop));
}

/// An unknown address that arrives more than `BURST_MS` after the last one,
/// however much more, belongs to another component: it is all that the table
/// holds then, in slot 0. The serial moves by two.
pub proof fn law_gap_starts_afresh(
    before: CaptureTable,
    prop: u64,
    now: u64,
    after: CaptureTable,
)
    requires
        records(before, prop, now, after),
        forall|i: int| 0 <= i < MAX_PROPS ==> #[trigger] before.addrs@[i] != prop,
        before.last_ms != 0,
        now > before.last_ms + BURST_MS,
    ensures
        after.addrs@[0] == prop,
        forall|i: int| 1 <= i < MAX_PROPS ==> #[trigger] after.addrs@[i] == 0,
        after.serial == (before.serial + 2) % 0x1_0000_0000,
        after.last_ms == now,
{
    assert(!before.addrs@.contains(prop));
    assert(first_free(free_slots(MAX_PROPS as nat), 0) == 0);
}

/// An unknown address that arrives within `BURST_MS` of the last one, or before
/// any other, frees no slot. It goes to the first free slot, and the serial
/// moves by one; where no slot is free it is left out, and the serial stays.
pub proof fn law_burst_goes_on(before: CaptureTable, prop: u64, now: u64, after: CaptureTable)
    requires
        records(before, prop, now, after),
        forall|i: int| 0 <= i < MAX_PROPS ==> #[trigger] before.addrs@[i] != prop,
        before.last_ms == 0 || now <= before.last_ms + BURST_MS,
    ensures
        forall|i: int|
            0 <= i < MAX_PROPS && #[trigger] before.addrs@[i] != 0 ==> after.addrs@[i]
                == before.addrs@[i],
        forall|k: int|
            0 <= k < MAX_PROPS && #[trigger] before.addrs@[k] == 0 && (forall|j: int|
                0 <= j < k ==> #[trigger] before.addrs@[j] != 0) ==> {
                &&& after.addrs@ == before.addrs@.update(k, prop)
                &&& after.serial == (before.serial + 1) % 0x1_0000_0000
            },
        (forall|i: int| 0 <= i < MAX_PROPS ==> #[trigger] before.addrs@[i] != 0) ==> {
            &&& after.addrs@ == before.addrs@
            &&& after.serial == before.serial
        },
        after.last_ms == now,
{
    let addrs = before.addrs@;
    assert(!addrs.contains(prop));
    lemma_first_free(addrs, 0);
    assert forall|k: int|
        0 <= k < MAX_PROPS && #[trigger] addrs[k] == 0 && (forall|j: int|
            0 <= j < k ==> #[trigger] addrs[j] != 0) implies {
        &&& after.addrs@ == addrs.update(k, prop)
        &&& after.serial == (before.serial + 1) % 0x1_0000_0000
    } by {
        lemma_first_free_is(addrs, 0, k);
    }
}

/// The addresses of a component take the place of those of the one before: where
/// the first of them is unknown and arrives more than `BURST_MS` after the last
/// that was captured, and each other within `BURST_MS` of its predecessor, the
/// table holds them and nothing else, in their order, as far as there are slots.
pub proof fn law_new_component_takes_over(
    addrs: Seq<u64>,
    serial: u32,
    last: u64,
    props: Seq<u64>,
    times: Seq<u64>,
)
    requires
        packed(addrs),
        addrs.len() > 0,
        props.len() == times.len(),
        props.len() > 0,
        props.no_duplicates(),
        !props.contains(0),
        !addrs.contains(props[0]),
        last != 0,
        times[0] > last + BURST_MS,
        forall|i: int| 0 < i < times.len() ==> #[trigger] times[i] <= times[i - 1] + BURST_MS,
    ensures
        ({
            let (a, s, l) = recorded_all(addrs, serial, last, props, times);
            let n: int = if props.len() < addrs.len() {
                props.len() as int
            } else {
                addrs.len() as int
            };
            &&& a.len() == addrs.len()
            &&& forall|i: int| 0 <= i < n ==> #[trigger] a[i] == props[i]
            &&& forall|i: int| n <= i < addrs.len() ==> #[trigger] a[i] == 0
            &&& s == (serial + n + 1) % 0x1_0000_0000
            &&& l == times[times.len() - 1]
        }),
{
    assert forall|i: int| 0 < i < times.len() implies !burst_over(
        #[trigger] times[i - 1],
        times[i],
    ) by {
        assert(times[i] <= times[i - 1] + BURST_MS);
    }
    law_burst_is_captured(addrs, serial, last, props, times);
    let a = recorded_all(addrs, serial, last, props, times).0;
    law_packed_is_captured_and_free(a);
    let n = stored(props.len(), addrs.len());
    assert forall|i: int| 0 <= i < n implies #[trigger] a[i] == props[i] by {
        assert(captured(a)[i] == props.take(n as int)[i]);
    }
}

/// However many captures come one after the other, the serial tells whether the
/// table changed: if it is where it was, so are the slots, and if it moved, a
/// component is captured. The serial comes round only after 2^32 moves, of which
/// a capture makes two at most.
pub proof fn law_serial_tells_changes(
    addrs: Seq<u64>,
    serial: u32,
    last: u64,
    props: Seq<u64>,
    times: Seq<u64>,
)
    requires
        addrs.len() > 0,
        props.len() == times.len(),
        props.len() < 0x8000_0000,
        !props.contains(0),
    ensures
        ({
            let (a, s, l) = recorded_all(addrs, serial, last, props, times);
            &&& a.len() == addrs.len()
            &&& s == serial ==> a == addrs
            &&& s != serial ==> a[0] != 0
        }),
{
    lemma_total_moves(addrs, serial, last, props, times);
}

/// How far the serial moves in all.
spec fn total_moves(
    addrs: Seq<u64>,
    serial: u32,
    last: u64,
    props: Seq<u64>,
    times: Seq<u64>,
) -> int
    decreases props.len(),
{
    if props.len() == 0 {
        0
    } else {
        let (a, s, l) = recorded_all(addrs, serial, last, props.drop_last(), times.drop_last());
        total_moves(addrs, serial, last, props.drop_last(), times.drop_last()) + serial_moves(
            a,
            l,
            props.last(),
            times.last(),
        )
    }
}

proof fn lemma_total_moves(
    addrs: Seq<u64>,
    serial: u32,
    last: u64,
    props: Seq<u64>,
    times: Seq<u64>,
)
    requires
        addrs.len() > 0,
        props.len() == times.len(),
        props.len() < 0x8000_0000,
        !props.contains(0),
    ensures
        ({
            let (a, s, l) = recorded_all(addrs, serial, last, props, times);
            let total = total_moves(addrs, serial, last, props, times);
            &&& a.len() == addrs.len()
            &&& 0 <= total <= 2 * props.len()
            &&& s == moved(serial, total)
            &&& total == 0 ==> a == addrs
            &&& total > 0 ==> a[0] != 0
        }),
    decreases props.len(),
{
    if props.len() > 0 {
        let front = props.drop_last();
        let (a, s, l) = recorded_all(addrs, serial, last, front, times.drop_last());
        let prop = props.last();
        assert(props[props.len() - 1] == prop);
        assert(prop != 0);
        assert(!front.contains(0)) by {
            if front.contains(0) {
                let i = choose|i: int| 0 <= i < front.len() && front[i] == 0;
                assert(props[i] == 0);
            }
        }
        lemma_total_moves(addrs, serial, last, front, times.drop_last());
        lemma_recorded_len(a, l, prop, times.last());
        lemma_first_free(a, 0);
        assert(first_free(free_slots(a.len()), 0) == 0);
    }
}

/// Emptying the table frees every slot and forgets when the last address
/// arrived. The serial moves by one.
pub proof fn law_clear_frees_all(table: CaptureTable)
    ensures
        forall|i: int| 0 <= i < MAX_PROPS ==> #[trigger] cleared(table).addrs@[i] == 0,
        cleared(table).last_ms == 0,
        cleared(table).serial == (table.serial + 1) % 0x1_0000_0000,
{
}

/// How to carry a change of the table over to where other threads see it.
#[derive(Clone, Copy)]
pub struct TableUpdate {
    /// Free all slots first.
    pub free_all: bool,
    /// The addresses to put in free slots, each in its own; 0 for none.
    pub claims: [u64; MAX_PROPS],
    /// How far to move the serial: by one for freeing the slots, and by one for
    /// each claim.
    pub serial_moves: u32,
    pub last_ms: u64,
}

/// The addresses that came to their slots between two tables.
pub open spec fn claims_between(before: Seq<u64>, after: Seq<u64>) -> Seq<u64> {
    Seq::new(
        after.len(),
        |i: int|
            if after[i] == before[i] {
                0
            } else {
                after[i]
            },
    )
}

/// The number of claims from `from` on.
pub open spec fn claim_count(claims: Seq<u64>, from: int) -> nat
    decreases claims.len() - from,
{
    if from >= claims.len() {
        0
    } else if claims[from] == 0 {
        claim_count(claims, from + 1)
    } else {
        1 + claim_count(claims, from + 1)
    }
}

/// What `table_update` gives. Since each claim moves the serial by one, any
/// other move is that of emptying the table.
pub open spec fn updates(before: CaptureTable, after: CaptureTable, update: TableUpdate) -> bool {
    &&& update.claims@ == claims_between(before.addrs@, after.addrs@)
    &&& moved(before.serial, update.serial_moves as int) == after.serial
    &&& update.free_all == (update.serial_moves != claim_count(update.claims@, 0))
    &&& update.last_ms == after.last_ms
}

/// The slots after an update.
pub open spec fn updated(addrs: Seq<u64>, update: TableUpdate) -> Seq<u64> {
    Seq::new(
        addrs.len(),
        |i: int|
            if update.claims@[i] != 0 {
                update.claims@[i]
            } else if update.free_all {
                0
            } else {
                addrs[i]
            },
    )
}

/// How to carry the change from `before` to `after` over.
pub fn table_update(before: &CaptureTable, after: &CaptureTable) -> (update: TableUpdate)
    ensures
        updates(*before, *after, update),
{
    let mut claims: [u64; MAX_PROPS] = [0u64; MAX_PROPS];
    let mut i: usize = 0;
    while i < MAX_PROPS
        invariant
            i <= MAX_PROPS,
            forall|j: int|
                0 <= j < i ==> #[trigger] claims@[j] == claims_between(
                    before.addrs@,
                    after.addrs@,
                )[j],
            forall|j: int| i <= j < MAX_PROPS ==> #[trigger] claims@[j] == 0,
        decreases MAX_PROPS - i,
    {
        if after.addrs[i] != before.addrs[i] {
            claims[i] = after.addrs[i];
        }
        i += 1;
    }
    assert(claims@ =~= claims_between(before.addrs@, after.addrs@));
    let mut count: u32 = 0;
    let mut k: usize = 0;
    while k < MAX_PROPS
        invariant
            k <= MAX_PROPS,
            count <= k,
            claim_count(claims@, 0) == count + claim_count(claims@, k as int),
        decreases MAX_PROPS - k,
    {
        if claims[k] != 0 {
            count += 1;
        }
        k += 1;
    }
    let serial_moves: u32 = after.serial.wrapping_sub(before.serial);
    TableUpdate { free_all: serial_moves != count, claims, serial_moves, last_ms: after.last_ms }
}

/// An update carries a capture over: it frees the slots exactly where a new
/// burst began, claims a slot exactly where the address was stored, and leaves
/// the slots as the capture did.
pub proof fn law_update_carries_capture(
    before: CaptureTable,
    prop: u64,
    now: u64,
    after: CaptureTable,
    update: TableUpdate,
)
    requires
        records(before, prop, now, after),
        prop != 0,
        updates(before, after, update),
    ensures
        updated(before.addrs@, update) == after.addrs@,
        update.free_all <==> !before.addrs@.contains(prop) && burst_over(before.last_ms, now),
        update.serial_moves == serial_moves(before.addrs@, before.last_ms, prop, now),
        claim_count(update.claims@, 0) == update.serial_moves - if update.free_all {
            1int
        } else {
            0
        },
{
    let addrs = before.addrs@;
    let k = serial_moves(addrs, before.last_ms, prop, now);
    lemma_first_free(addrs, 0);
    law_record_keeps_slots(addrs, before.last_ms, prop, now);
    assert(update.serial_moves == k);
    reveal_with_fuel(claim_count, 6);
    let claims = update.claims@;
    if !addrs.contains(prop) {
        assert forall|i: int| 0 <= i < MAX_PROPS implies addrs[i] != prop by {}
        if burst_over(before.last_ms, now) {
            assert(first_free(free_slots(addrs.len()), 0) == 0);
            assert(after.addrs@[0] == prop);
            assert(claims[0] == prop);
            assert forall|i: int| 1 <= i < MAX_PROPS implies claims[i] == 0 by {
                assert(after.addrs@[i] == 0);
            }
        } else if first_free(addrs, 0) < addrs.len() {
            let n = first_free(addrs, 0);
            assert(claims[n] == prop);
            assert forall|i: int| 0 <= i < MAX_PROPS && i != n implies claims[i] == 0 by {
                assert(after.addrs@[i] == addrs[i]);
            }
        } else {
            assert forall|i: int| 0 <= i < MAX_PROPS implies claims[i] == 0 by {}
        }
    } else {
        assert forall|i: int| 0 <= i < MAX_PROPS implies claims[i] == 0 by {}
    }
    assert(updated(addrs, update) =~= after.addrs@);
}

/// An update carries emptying the table over: it frees all slots, those that
/// another thread took meanwhile among them, and moves the serial by one.
/// Where the table did not change, an update does nothing.
pub proof fn law_update_carries_clear(
    before: CaptureTable,
    after: CaptureTable,
    update: TableUpdate,
)
    requires
        updates(before, after, update),
        after == before || after == cleared(before),
    ensures
        claim_count(update.claims@, 0) == 0,
        after == before ==> !update.free_all && update.serial_moves == 0,
        after == cleared(before) ==> update.free_all && update.serial_moves == 1,
        forall|addrs: Seq<u64>|
            addrs.len() == MAX_PROPS ==> #[trigger] updated(addrs, update) == (if after == before {
                addrs
            } else {
                free_slots(MAX_PROPS as nat)
            }),
{
    reveal_with_fuel(claim_count, 6);
    assert forall|i: int| 0 <= i < MAX_PROPS implies update.claims@[i] == 0 by {}
    assert forall|addrs: Seq<u64>| addrs.len() == MAX_PROPS implies #[trigger] updated(
        addrs,
        update,
    ) == (if after == before {
        addrs
    } else {
        free_slots(MAX_PROPS as nat)
    }) by {
        assert(updated(addrs, update) =~= if after == before {
            addrs
        } else {
            free_slots(MAX_PROPS as nat)
        });
    }
}

/// An update claims the slots that a capture gave the address to, and carries
/// the time stamp over. It frees all slots exactly where an unknown address came
/// more than `BURST_MS` after the last one; a slot that it does not claim is free
/// afterwards or as it was.
pub proof fn law_update_gives_table(
    before: CaptureTable,
    prop: u64,
    now: u64,
    after: CaptureTable,
    update: TableUpdate,
)
    requires
        records(before, prop, now, after),
        prop != 0,
        updates(before, after, update),
    ensures
        update.last_ms == after.last_ms,
        (before.serial + update.serial_moves) % 0x1_0000_0000 == after.serial as int,
        forall|i: int|
            0 <= i < MAX_PROPS ==> (#[trigger] update.claims@[i] != 0 <==> after.addrs@[i]
                != before.addrs@[i] && after.addrs@[i] != 0),
        forall|i: int|
            0 <= i < MAX_PROPS && #[trigger] update.claims@[i] != 0 ==> update.claims@[i] == prop
                && after.addrs@[i] == prop,
        update.free_all <==> before.last_ms != 0 && now > before.last_ms + BURST_MS && (forall|
            i: int,
        |
            0 <= i < MAX_PROPS ==> #[trigger] before.addrs@[i] != prop),
        update.free_all ==> forall|i: int|
            0 <= i < MAX_PROPS && #[trigger] update.claims@[i] == 0 ==> after.addrs@[i] == 0,
        !update.free_all ==> forall|i: int|
            0 <= i < MAX_PROPS && #[trigger] update.claims@[i] == 0 ==> after.addrs@[i]
                == before.addrs@[i],
{
    law_update_carries_capture(before, prop, now, after, update);
    law_record_keeps_slots(before.addrs@, before.last_ms, prop, now);
    assert forall|i: int| 0 <= i < MAX_PROPS && #[trigger] update.claims@[i] == 0
        && update.free_all implies after.addrs@[i] == 0 by {
        assert(updated(before.addrs@, update)[i] == after.addrs@[i]);
    }
    assert forall|i: int| 0 <= i < MAX_PROPS && #[trigger] update.claims@[i] == 0
        && !update.free_all implies after.addrs@[i] == before.addrs@[i] by {
        assert(updated(before.addrs@, update)[i] == after.addrs@[i]);
    }
}

} // verus!
