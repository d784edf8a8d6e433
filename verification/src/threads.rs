//! Which threads of the process get the hardware breakpoint, and how.

use vstd::prelude::*;

verus! {

/// The access rights a thread is opened with: those to read and write its
/// register context among them.
pub const THREAD_ACCESS: u32 = 0x0010 | 0x0008 | 0x0002 | 0x0004;

/// The handle that stands for a snapshot that could not be taken.
pub const NO_SNAPSHOT: u64 = 0xffff_ffff_ffff_ffff;

/// The debug registers that hold the breakpoint.
#[derive(Clone, Copy, PartialEq, Eq, Structural, Debug)]
pub struct BreakpointRegisters {
    /// The watched address.
    pub dr0: u64,
    /// The debug control: bit 0 enables the breakpoint in `dr0`.
    pub dr7: u64,
}

/// The write that arms the breakpoint, if the registers could be read.
pub open spec fn arming(read: bool, addr: u64) -> Option<BreakpointRegisters> {
    if read {
        Some(BreakpointRegisters { dr0: addr, dr7: 1 })
    } else {
        None
    }
}

/// The write that removes the breakpoint, if the registers could be read.
pub open spec fn disarming(read: bool) -> Option<BreakpointRegisters> {
    if read {
        Some(BreakpointRegisters { dr0: 0, dr7: 0 })
    } else {
        None
    }
}

/// What to write to the debug registers of a thread to arm the execution
/// breakpoint at `addr`; nothing if its registers could not be read.
pub fn set_breakpoint(read: bool, addr: u64) -> (write: Option<BreakpointRegisters>)
    ensures
        write == arming(read, addr),
        write == (if read {
            Some(BreakpointRegisters { dr0: addr, dr7: 1 })
        } else {
            None
        }),
{
    if read {
        Some(BreakpointRegisters { dr0: addr, dr7: 1 })
    } else {
        None
    }
}

/// What to write to the debug registers of a thread to remove the breakpoint;
/// nothing if its registers could not be read.
pub fn clear_breakpoint(read: bool) -> (write: Option<BreakpointRegisters>)
    ensures
        write == disarming(read),
        write == (if read {
            Some(BreakpointRegisters { dr0: 0, dr7: 0 })
        } else {
            None
        }),
{
    if read {
        Some(BreakpointRegisters { dr0: 0, dr7: 0 })
    } else {
        None
    }
}

/// A thread in a snapshot of the system.
#[derive(Clone, Copy, PartialEq, Eq, Structural, Debug)]
pub struct ThreadEntry {
    /// The process that the thread belongs to.
    pub owner: u32,
    pub thread: u32,
}

/// What to do next on the way through the threads of the process.
#[derive(Clone, Copy, PartialEq, Eq, Structural, Debug)]
pub enum WalkAction {
    /// Take a snapshot of all threads; the reply is its handle.
    TakeSnapshot,
    /// Read the first entry of the snapshot; the reply is the entry, if any.
    FirstEntry { snapshot: u64 },
    /// Open a thread with `THREAD_ACCESS`; the reply is its handle, or 0.
    OpenThread { snapshot: u64, thread: u32 },
    /// Do with the thread what the walk is for.
    Visit { snapshot: u64, handle: u64 },
    /// Close the thread's handle.
    CloseThread { snapshot: u64, handle: u64 },
    /// Read the next entry of the snapshot; the reply is the entry, if any.
    NextEntry { snapshot: u64 },
    /// Close the snapshot.
    CloseSnapshot { snapshot: u64 },
    /// The walk is over.
    Done,
}

/// What an action gave: a handle or an entry, where it gives one.
#[derive(Clone, Copy, PartialEq, Eq, Structural, Debug)]
pub struct WalkReply {
    pub handle: u64,
    pub entry: Option<ThreadEntry>,
}

/// A walk through the threads that the process `pid` owns.
#[derive(Clone, Copy, PartialEq, Eq, Structural, Debug)]
pub struct ThreadWalk {
    pub pid: u32,
    pub action: WalkAction,
}

/// What follows an entry that was read: threads of other processes are passed
/// over, and the walk ends after the last entry.
pub open spec fn after_entry(pid: u32, snapshot: u64, entry: Option<ThreadEntry>) -> WalkAction {
    match entry {
        Some(e) => if e.owner == pid {
            WalkAction::OpenThread { snapshot, thread: e.thread }
        } else {
            WalkAction::NextEntry { snapshot }
        },
        None => WalkAction::CloseSnapshot { snapshot },
    }
}

/// What follows `action` when it gave `reply`.
pub open spec fn after_action(pid: u32, action: WalkAction, reply: WalkReply) -> WalkAction {
    match action {
        WalkAction::TakeSnapshot => if reply.handle == NO_SNAPSHOT {
            WalkAction::Done
        } else {
            WalkAction::FirstEntry { snapshot: reply.handle }
        },
        WalkAction::FirstEntry { snapshot } => after_entry(pid, snapshot, reply.entry),
        WalkAction::OpenThread { snapshot, .. } => if reply.handle == 0 {
            WalkAction::NextEntry { snapshot }
        } else {
            WalkAction::Visit { snapshot, handle: reply.handle }
        },
        WalkAction::Visit { snapshot, handle } => WalkAction::CloseThread { snapshot, handle },
        WalkAction::CloseThread { snapshot, .. } => WalkAction::NextEntry { snapshot },
        WalkAction::NextEntry { snapshot } => after_entry(pid, snapshot, reply.entry),
        WalkAction::CloseSnapshot { .. } => WalkAction::Done,
        WalkAction::Done => WalkAction::Done,
    }
}

impl ThreadWalk {
    /// A walk that is about to begin.
    pub fn for_each_thread(pid: u32) -> (walk: Self)
        ensures
            walk == (ThreadWalk { pid, action: WalkAction::TakeSnapshot }),
    {
        ThreadWalk { pid, action: WalkAction::TakeSnapshot }
    }

    /// The walk after its action was performed and gave `reply`.
    pub fn advance(self, reply: WalkReply) -> (walk: Self)
        ensures
            walk == (ThreadWalk {
                pid: self.pid,
                action: after_action(self.pid, self.action, reply),
            }),
    {
        let action = match self.action {
            WalkAction::TakeSnapshot => if reply.handle == NO_SNAPSHOT {
                WalkAction::Done
            } else {
                WalkAction::FirstEntry { snapshot: reply.handle }
            },
            WalkAction::FirstEntry { snapshot } => self.inspect(snapshot, reply.entry),
            WalkAction::OpenThread { snapshot, .. } => if reply.handle == 0 {
                WalkAction::NextEntry { snapshot }
            } else {
                WalkAction::Visit { snapshot, handle: reply.handle }
            },
            WalkAction::Visit { snapshot, handle } => WalkAction::CloseThread { snapshot, handle },
            WalkAction::CloseThread { snapshot, .. } => WalkAction::NextEntry { snapshot },
            WalkAction::NextEntry { snapshot } => self.inspect(snapshot, reply.entry),
            WalkAction::CloseSnapshot { .. } => WalkAction::Done,
            WalkAction::Done => WalkAction::Done,
        };
        ThreadWalk { pid: self.pid, action }
    }

    fn inspect(&self, snapshot: u64, entry: Option<ThreadEntry>) -> (action: WalkAction)
        ensures
            action == after_entry(self.pid, snapshot, entry),
    {
        match entry {
            Some(e) => if e.owner == self.pid {
                WalkAction::OpenThread { snapshot, thread: e.thread }
            } else {
                WalkAction::NextEntry { snapshot }
            },
            None => WalkAction::CloseSnapshot { snapshot },
        }
    }
}

/// What the system answers to an action: `snapshot` is the handle that taking
/// a snapshot gives, `left` are the entries not read yet, and `opens` maps a
/// thread to the handle that opening it gives.
pub open spec fn system_reply(
    action: WalkAction,
    snapshot: u64,
    left: Seq<ThreadEntry>,
    opens: spec_fn(u32) -> u64,
) -> WalkReply {
    WalkReply {
        handle: match action {
            WalkAction::OpenThread { thread, .. } => opens(thread),
            _ => snapshot,
        },
        entry: if left.len() > 0 {
            Some(left[0])
        } else {
            None
        },
    }
}

/// The entries not read yet after an action.
pub open spec fn left_after(action: WalkAction, left: Seq<ThreadEntry>) -> Seq<ThreadEntry> {
    if left.len() > 0 && (action is FirstEntry || action is NextEntry) {
        left.drop_first()
    } else {
        left
    }
}

/// How much of the work on one entry is still ahead.
pub open spec fn rank(action: WalkAction) -> nat {
    match action {
        WalkAction::TakeSnapshot => 7,
        WalkAction::FirstEntry { .. } => 6,
        WalkAction::OpenThread { .. } => 5,
        WalkAction::Visit { .. } => 4,
        WalkAction::CloseThread { .. } => 3,
        WalkAction::NextEntry { .. } => 2,
        WalkAction::CloseSnapshot { .. } => 1,
        WalkAction::Done => 0,
    }
}

/// All the actions of a walk, from `action` on.
pub open spec fn walked(
    pid: u32,
    action: WalkAction,
    snapshot: u64,
    left: Seq<ThreadEntry>,
    opens: spec_fn(u32) -> u64,
) -> Seq<WalkAction>
    decreases left.len(), rank(action),
{
    if action is Done {
        seq![]
    } else {
        let next = after_action(pid, action, system_reply(action, snapshot, left, opens));
        seq![action] + walked(pid, next, snapshot, left_after(action, left), opens)
    }
}

/// The actions that one entry calls for: a thread of the process is opened
/// and, where that succeeds, visited and closed.
pub open spec fn entry_actions(
    pid: u32,
    snapshot: u64,
    entry: ThreadEntry,
    opens: spec_fn(u32) -> u64,
) -> Seq<WalkAction> {
    let handle = opens(entry.thread);
    if entry.owner != pid {
        seq![]
    } else if handle == 0 {
        seq![WalkAction::OpenThread { snapshot, thread: entry.thread }]
    } else {
        seq![
            WalkAction::OpenThread { snapshot, thread: entry.thread },
            WalkAction::Visit { snapshot, handle },
            WalkAction::CloseThread { snapshot, handle },
        ]
    }
}

/// The actions that the entries call for, one after the other, with the
/// snapshot closed at the end.
pub open spec fn entries_actions(
    pid: u32,
    snapshot: u64,
    entries: Seq<ThreadEntry>,
    opens: spec_fn(u32) -> u64,
) -> Seq<WalkAction>
    decreases entries.len(),
{
    if entries.len() == 0 {
        seq![WalkAction::CloseSnapshot { snapshot }]
    } else {
        entry_actions(pid, snapshot, entries[0], opens) + seq![WalkAction::NextEntry { snapshot }]
            + entries_actions(pid, snapshot, entries.drop_first(), opens)
    }
}

/// A walk visits each thread of the process that can be opened, once and in
/// the order of the snapshot, closes each thread that it opened, and closes the
/// snapshot. Without a snapshot it does nothing more.
pub proof fn law_walk_visits_own_threads(
    pid: u32,
    snapshot: u64,
    entries: Seq<ThreadEntry>,
    opens: spec_fn(u32) -> u64,
)
    ensures
        walked(pid, WalkAction::TakeSnapshot, snapshot, entries, opens) == seq![
            WalkAction::TakeSnapshot,
        ] + (if snapshot == NO_SNAPSHOT {
            seq![]
        } else {
            seq![WalkAction::FirstEntry { snapshot }] + entries_actions(
                pid,
                snapshot,
                entries,
                opens,
            )
        }),
{
    reveal_with_fuel(walked, 2);
    if snapshot != NO_SNAPSHOT {
        let first = WalkAction::FirstEntry { snapshot };
        lemma_walk_entries(pid, first, snapshot, entries, opens);
    }
}

proof fn lemma_walk_entries(
    pid: u32,
    action: WalkAction,
    snapshot: u64,
    entries: Seq<ThreadEntry>,
    opens: spec_fn(u32) -> u64,
)
    requires
        action == (WalkAction::FirstEntry { snapshot }) || action == (WalkAction::NextEntry {
            snapshot,
        }),
    ensures
        walked(pid, action, snapshot, entries, opens) == seq![action] + entries_actions(
            pid,
            snapshot,
            entries,
            opens,
        ),
    decreases entries.len(),
{
    if entries.len() == 0 {
        reveal_with_fuel(walked, 3);
        assert(walked(pid, action, snapshot, entries, opens) =~= seq![action] + entries_actions(
            pid,
            snapshot,
            entries,
            opens,
        ));
    } else {
        let next = WalkAction::NextEntry { snapshot };
        let rest = entries.drop_first();
        lemma_walk_entries(pid, next, snapshot, rest, opens);
        reveal_with_fuel(walked, 5);
        assert(walked(pid, action, snapshot, entries, opens) =~= seq![action] + entry_actions(
            pid,
            snapshot,
            entries[0],
            opens,
        ) + walked(pid, next, snapshot, rest, opens));
        assert(walked(pid, action, snapshot, entries, opens) =~= seq![action] + entries_actions(
            pid,
            snapshot,
            entries,
            opens,
        ));
    }
}

/// The registers of a thread are written exactly if they could be read. Arming
/// puts the address in the first debug register and enables that breakpoint alone,
/// for execution; removing it leaves no breakpoint enabled and no address behind.
pub proof fn law_breakpoint_registers(read: bool, addr: u64)
    ensures
        arming(read, addr) is Some <==> read,
        disarming(read) is Some <==> read,
        arming(read, addr) matches Some(regs) ==> {
            &&& regs.dr0 == addr
            &&& regs.dr7 & 1u64 == 1u64
            &&& regs.dr7 & !1u64 == 0u64
        },
        disarming(read) matches Some(regs) ==> regs.dr0 == 0 && regs.dr7 == 0,
{
    assert(1u64 & 1u64 == 1u64) by (bit_vector);
    assert(1u64 & !1u64 == 0u64) by (bit_vector);
}

/// The actions that open a thread.
pub open spec fn opening() -> spec_fn(WalkAction) -> bool {
    |action: WalkAction| action is OpenThread
}

/// The actions that visit a thread.
pub open spec fn visiting() -> spec_fn(WalkAction) -> bool {
    |action: WalkAction| action is Visit
}

/// The actions that close a thread.
pub open spec fn closing() -> spec_fn(WalkAction) -> bool {
    |action: WalkAction| action is CloseThread
}

/// The threads of a process.
pub open spec fn owned_by(pid: u32) -> spec_fn(ThreadEntry) -> bool {
    |entry: ThreadEntry| entry.owner == pid
}

/// The threads of a process that can be opened.
pub open spec fn reachable(pid: u32, opens: spec_fn(u32) -> u64) -> spec_fn(ThreadEntry) -> bool {
    |entry: ThreadEntry| entry.owner == pid && opens(entry.thread) != 0
}

proof fn lemma_filter_entries(
    pid: u32,
    snapshot: u64,
    entries: Seq<ThreadEntry>,
    opens: spec_fn(u32) -> u64,
    kind: spec_fn(WalkAction) -> bool,
    threads: spec_fn(ThreadEntry) -> bool,
    made: spec_fn(ThreadEntry) -> WalkAction,
)
    requires
        !kind(WalkAction::NextEntry { snapshot }),
        !kind(WalkAction::CloseSnapshot { snapshot }),
        forall|entry: ThreadEntry|
            (#[trigger] entry_actions(pid, snapshot, entry, opens)).filter(kind) == (if threads(
                entry,
            ) {
                seq![made(entry)]
            } else {
                seq![]
            }),
    ensures
        entries_actions(pid, snapshot, entries, opens).filter(kind) == entries.filter(
            threads,
        ).map_values(made),
    decreases entries.len(),
{
    reveal_with_fuel(Seq::filter, 2);
    if entries.len() == 0 {
        assert(entries_actions(pid, snapshot, entries, opens).drop_last() =~= seq![]);
        assert(entries.filter(threads).map_values(made) =~= seq![]);
    } else {
        let rest = entries.drop_first();
        lemma_filter_entries(pid, snapshot, rest, opens, kind, threads, made);
        let first = entry_actions(pid, snapshot, entries[0], opens);
        let next = seq![WalkAction::NextEntry { snapshot }];
        let others = entries_actions(pid, snapshot, rest, opens);
        Seq::filter_distributes_over_add(first + next, others, kind);
        Seq::filter_distributes_over_add(first, next, kind);
        assert(next.drop_last() =~= seq![]);
        assert(next.filter(kind) =~= seq![]);
        let one = seq![entries[0]];
        assert(entries =~= one + rest);
        Seq::filter_distributes_over_add(one, rest, threads);
        assert(one.drop_last() =~= seq![]);
        assert(entries.filter(threads).map_values(made) =~= one.filter(threads).map_values(made)
            + rest.filter(threads).map_values(made));
        assert(one.filter(threads).map_values(made) =~= first.filter(kind));
    }
}

/// What stands behind and in front of the actions that the entries call for.
proof fn lemma_entries_order(
    pid: u32,
    snapshot: u64,
    entries: Seq<ThreadEntry>,
    opens: spec_fn(u32) -> u64,
)
    ensures
        ({
            let actions = entries_actions(pid, snapshot, entries, opens);
            &&& actions.len() > 0
            &&& forall|k: int|
                0 <= k < actions.len() ==> (#[trigger] actions[k] is CloseSnapshot <==> k
                    == actions.len() - 1)
            &&& actions[actions.len() - 1] == (WalkAction::CloseSnapshot { snapshot })
            &&& forall|k: int|
                0 <= k < actions.len() ==> (#[trigger] actions[k] matches WalkAction::Visit {
                    snapshot: s,
                    handle,
                } ==> k + 1 < actions.len() && actions[k + 1] == (WalkAction::CloseThread {
                    snapshot: s,
                    handle,
                }))
        }),
    decreases entries.len(),
{
    if entries.len() > 0 {
        let rest = entries.drop_first();
        lemma_entries_order(pid, snapshot, rest, opens);
        let first = entry_actions(pid, snapshot, entries[0], opens);
        let others = entries_actions(pid, snapshot, rest, opens);
        let actions = entries_actions(pid, snapshot, entries, opens);
        assert forall|k: int| 0 <= k < actions.len() implies {
            &&& #[trigger] actions[k] is CloseSnapshot <==> k == actions.len() - 1
            &&& actions[k] matches WalkAction::Visit { snapshot: s, handle } ==> k + 1
                < actions.len() && actions[k + 1] == (WalkAction::CloseThread {
                snapshot: s,
                handle,
            })
        } by {
            let n = first.len() + 1;
            if k >= n {
                assert(actions[k] == others[k - n]);
                if actions[k] is Visit {
                    assert(actions[k + 1] == others[k - n + 1]);
                }
            } else if k < first.len() {
                assert(actions[k] == first[k]);
            } else {
                assert(actions[k] is NextEntry);
            }
        }
        assert(actions[actions.len() - 1] == others[others.len() - 1]);
    }
}

/// A walk opens the threads of the process and no others, visits those of them that
/// could be opened, and closes each again right after its visit; each once and in
/// the order of the snapshot. The last action closes the snapshot, and no earlier
/// one does. Without a snapshot nothing follows.
pub proof fn law_each_own_thread_is_visited(
    pid: u32,
    snapshot: u64,
    entries: Seq<ThreadEntry>,
    opens: spec_fn(u32) -> u64,
)
    ensures
        snapshot == 0xffff_ffff_ffff_ffff ==> walked(
            pid,
            WalkAction::TakeSnapshot,
            snapshot,
            entries,
            opens,
        ) == seq![WalkAction::TakeSnapshot],
        snapshot != 0xffff_ffff_ffff_ffff ==> ({
            let actions = walked(pid, WalkAction::TakeSnapshot, snapshot, entries, opens);
            &&& actions.filter(opening()) == entries.filter(owned_by(pid)).map_values(
                |entry: ThreadEntry| WalkAction::OpenThread { snapshot, thread: entry.thread },
            )
            &&& actions.filter(visiting()) == entries.filter(reachable(pid, opens)).map_values(
                |entry: ThreadEntry| WalkAction::Visit { snapshot, handle: opens(entry.thread) },
            )
            &&& actions.filter(closing()) == entries.filter(reachable(pid, opens)).map_values(
                |entry: ThreadEntry|
                    WalkAction::CloseThread { snapshot, handle: opens(entry.thread) },
            )
            &&& forall|k: int|
                0 <= k < actions.len() && #[trigger] actions[k] is Visit ==> k + 1 < actions.len()
                    && actions[k + 1] == (WalkAction::CloseThread {
                    snapshot,
                    handle: actions[k]->Visit_handle,
                })
            &&& actions[actions.len() - 1] == (WalkAction::CloseSnapshot { snapshot })
            &&& forall|k: int|
                0 <= k < actions.len() - 1 ==> !(#[trigger] actions[k] is CloseSnapshot)
        }),
{
    law_walk_visits_own_threads(pid, snapshot, entries, opens);
    let actions = walked(pid, WalkAction::TakeSnapshot, snapshot, entries, opens);
    if snapshot == 0xffff_ffff_ffff_ffff {
        assert(actions =~= seq![WalkAction::TakeSnapshot]);
    } else {
        let head = seq![WalkAction::TakeSnapshot, WalkAction::FirstEntry { snapshot }];
        let rest = entries_actions(pid, snapshot, entries, opens);
        assert(actions =~= head + rest);
        lemma_walk_kind(
            pid,
            snapshot,
            entries,
            opens,
            opening(),
            owned_by(pid),
            |entry: ThreadEntry| WalkAction::OpenThread { snapshot, thread: entry.thread },
        );
        lemma_walk_kind(
            pid,
            snapshot,
            entries,
            opens,
            visiting(),
            reachable(pid, opens),
            |entry: ThreadEntry| WalkAction::Visit { snapshot, handle: opens(entry.thread) },
        );
        lemma_walk_kind(
            pid,
            snapshot,
            entries,
            opens,
            closing(),
            reachable(pid, opens),
            |entry: ThreadEntry| WalkAction::CloseThread { snapshot, handle: opens(entry.thread) },
        );
        lemma_entries_order(pid, snapshot, entries, opens);
        let visits = entries.filter(reachable(pid, opens)).map_values(
            |entry: ThreadEntry| WalkAction::Visit { snapshot, handle: opens(entry.thread) },
        );
        assert forall|k: int| 0 <= k < actions.len() && #[trigger] actions[k] is Visit implies k + 1
            < actions.len() && actions[k + 1] == (WalkAction::CloseThread {
            snapshot,
            handle: actions[k]->Visit_handle,
        }) by {
            assert(actions[k] == rest[k - 2]);
            assert(actions[k + 1] == rest[k - 1]);
            actions.lemma_filter_contains(visiting(), k);
            assert(visits.contains(actions[k]));
        }
        assert forall|k: int| 0 <= k < actions.len() - 1 implies !(
        #[trigger] actions[k] is CloseSnapshot) by {
            if k >= 2 {
                assert(actions[k] == rest[k - 2]);
            }
        }
    }
}

proof fn lemma_walk_kind(
    pid: u32,
    snapshot: u64,
    entries: Seq<ThreadEntry>,
    opens: spec_fn(u32) -> u64,
    kind: spec_fn(WalkAction) -> bool,
    threads: spec_fn(ThreadEntry) -> bool,
    made: spec_fn(ThreadEntry) -> WalkAction,
)
    requires
        !kind(WalkAction::TakeSnapshot),
        !kind(WalkAction::FirstEntry { snapshot }),
        !kind(WalkAction::NextEntry { snapshot }),
        !kind(WalkAction::CloseSnapshot { snapshot }),
        forall|entry: ThreadEntry| #[trigger]
            entry_kinds(pid, snapshot, entry, opens, kind) == (if threads(entry) {
                seq![made(entry)]
            } else {
                seq![]
            }),
    ensures
        (seq![WalkAction::TakeSnapshot, WalkAction::FirstEntry { snapshot }] + entries_actions(
            pid,
            snapshot,
            entries,
            opens,
        )).filter(kind) == entries.filter(threads).map_values(made),
{
    let head = seq![WalkAction::TakeSnapshot, WalkAction::FirstEntry { snapshot }];
    let rest = entries_actions(pid, snapshot, entries, opens);
    reveal_with_fuel(Seq::filter, 4);
    assert(head.drop_last() =~= seq![WalkAction::TakeSnapshot]);
    assert(head.drop_last().drop_last() =~= seq![]);
    assert(head.filter(kind) =~= seq![]);
    Seq::filter_distributes_over_add(head, rest, kind);
    assert forall|entry: ThreadEntry|
        (#[trigger] entry_actions(pid, snapshot, entry, opens)).filter(kind) == (if threads(
            entry,
        ) {
            seq![made(entry)]
        } else {
            seq![]
        }) by {
        let actions = entry_actions(pid, snapshot, entry, opens);
        assert(entry_kinds(pid, snapshot, entry, opens, kind) == (if threads(entry) {
            seq![made(entry)]
        } else {
            seq![]
        }));
        lemma_entry_kinds(pid, snapshot, entry, opens, kind);
    }
    lemma_filter_entries(pid, snapshot, entries, opens, kind, threads, made);
    assert(Seq::<WalkAction>::empty() + rest.filter(kind) =~= rest.filter(kind));
}

/// The actions of a kind that one entry calls for.
spec fn entry_kinds(
    pid: u32,
    snapshot: u64,
    entry: ThreadEntry,
    opens: spec_fn(u32) -> u64,
    kind: spec_fn(WalkAction) -> bool,
) -> Seq<WalkAction> {
    let actions = entry_actions(pid, snapshot, entry, opens);
    (if actions.len() > 0 && kind(actions[0]) {
        seq![actions[0]]
    } else {
        seq![]
    }) + (if actions.len() > 1 && kind(actions[1]) {
        seq![actions[1]]
    } else {
        seq![]
    }) + (if actions.len() > 2 && kind(actions[2]) {
        seq![actions[2]]
    } else {
        seq![]
    })
}

proof fn lemma_entry_kinds(
    pid: u32,
    snapshot: u64,
    entry: ThreadEntry,
    opens: spec_fn(u32) -> u64,
    kind: spec_fn(WalkAction) -> bool,
)
    ensures
        entry_actions(pid, snapshot, entry, opens).filter(kind) == entry_kinds(
            pid,
            snapshot,
            entry,
            opens,
            kind,
        ),
{
    reveal_with_fuel(Seq::filter, 4);
    let actions = entry_actions(pid, snapshot, entry, opens);
    let two = actions.drop_last();
    let one = two.drop_last();
    assert(actions.filter(kind) =~= entry_kinds(pid, snapshot, entry, opens, kind));
}

} // verus!
