//! The comms that the console has open.
use vstd::prelude::*;

use crate::comm_handler::CommHandlerContext;
use crate::text;
use crate::text_map::TextMap;

verus! {

/// A comm that is open.
#[derive(Debug)]
pub struct ConsoleComm {
    pub comm_name: String,
    pub ctx: CommHandlerContext,
}

/// The comms that are open, by their ids, and the id of the user interface's comm.
pub struct ConsoleComms {
    /// The name of the comm by which the user interface is driven.
    pub ui_comm_name: String,
    pub comms: TextMap<ConsoleComm>,
    pub ui_comm_id: Option<String>,
}

/// The comms whose handlers did not ask to close them.
pub open spec fn still_open(comms: Map<Seq<char>, ConsoleComm>) -> Map<Seq<char>, ConsoleComm> {
    comms.restrict(
        Set::new(
            |id: Seq<char>| comms.contains_key(id) && !comms[id].ctx.asked_to_close(),
        ),
    )
}

impl ConsoleComms {
    /// The comm of the user interface, if it is known, is open.
    pub open spec fn ok(self) -> bool {
        self.ui_comm_id matches Some(id) ==> self.comms@.contains_key(id@)
    }

    pub fn new(ui_comm_name: String) -> (r: Self)
        ensures
            r.ok(),
            r.ui_comm_name == ui_comm_name,
            r.comms@ == Map::<Seq<char>, ConsoleComm>::empty(),
            r.ui_comm_id is None,
    {
        Self { ui_comm_name, comms: TextMap::new(), ui_comm_id: None }
    }

    /// Whether the comm of the user interface is open.
    pub fn is_ui_comm_connected(&self) -> (r: bool)
        requires
            self.ok(),
        ensures
            r == (self.ui_comm_id is Some),
    {
        match &self.ui_comm_id {
            Some(id) => self.comms.contains_key(id.as_str()),
            None => false,
        }
    }

    /// The comm of the user interface.
    pub fn lookup_ui_comm(&self) -> (r: Option<&ConsoleComm>)
        requires
            self.ok(),
        ensures
            match self.ui_comm_id {
                Some(id) => r == Some(&self.comms@[id@]),
                None => r is None,
            },
    {
        match &self.ui_comm_id {
            Some(id) => self.comms.get(id.as_str()),
            None => None,
        }
    }

    /// Opens a comm on behalf of the kernel.
    pub fn comm_open_backend(&mut self, comm_id: String, comm_name: String, ctx: CommHandlerContext)
        requires
            old(self).ok(),
        ensures
            final(self).ok(),
            final(self).ui_comm_name == old(self).ui_comm_name,
            final(self).comms@ == old(self).comms@.insert(
                comm_id@,
                (ConsoleComm { comm_name, ctx }),
            ),
            final(self).ui_comm_id == old(self).ui_comm_id,
    {
        self.comms.insert(comm_id, ConsoleComm { comm_name, ctx });
    }

    /// Forgets the comm of the user interface. Returns the comm, whose handler is to be
    /// told.
    fn close_ui_comm(&mut self) -> (r: Option<ConsoleComm>)
        requires
            old(self).ok(),
        ensures
            final(self).ui_comm_name == old(self).ui_comm_name,
            final(self).ui_comm_id is None,
            match old(self).ui_comm_id {
                Some(id) => r == Some(old(self).comms@[id@]) && final(self).comms@ == old(
                    self,
                ).comms@.remove(id@),
                None => r is None && final(self).comms@ == old(self).comms@,
            },
    {
        let mut id: Option<String> = None;
        core::mem::swap(&mut id, &mut self.ui_comm_id);
        match id {
            Some(id) => self.comms.remove(id.as_str()),
            None => None,
        }
    }

    /// Opens a comm on behalf of the frontend. The comm of the user interface takes the
    /// place of an earlier one, which is closed. Returns the comm that was closed, whose
    /// handler is to be told.
    pub fn comm_open_frontend(
        &mut self,
        comm_id: String,
        comm_name: String,
        ctx: CommHandlerContext,
    ) -> (r: Option<ConsoleComm>)
        requires
            old(self).ok(),
        ensures
            final(self).ok(),
            is_opened(r, *final(self), *old(self), comm_id@, (ConsoleComm { comm_name, ctx })),
    {
        let mut replaced: Option<ConsoleComm> = None;
        if text::same(comm_name.as_str(), self.ui_comm_name.as_str()) {
            replaced = self.close_ui_comm();
            self.ui_comm_id = Some(comm_id.clone());
        }
        self.comms.insert(comm_id, ConsoleComm { comm_name, ctx });
        replaced
    }

    /// Forgets a comm. If it is the one of the user interface, that is forgotten too.
    fn remove_comm(&mut self, comm_id: &str) -> (r: Option<ConsoleComm>)
        requires
            old(self).ok(),
        ensures
            final(self).ok(),
            is_removed(r, *final(self), *old(self), comm_id@),
    {
        let removed: Option<ConsoleComm> = self.comms.remove(comm_id);
        let is_ui: bool = match &self.ui_comm_id {
            Some(id) => text::same(id.as_str(), comm_id),
            None => false,
        };
        if is_ui {
            self.ui_comm_id = None;
        }
        removed
    }

    /// The frontend closed a comm. Returns the comm, whose handler is to be told, if
    /// there is one.
    pub fn comm_handle_close(&mut self, comm_id: &str) -> (r: Option<ConsoleComm>)
        requires
            old(self).ok(),
        ensures
            final(self).ok(),
            is_removed(r, *final(self), *old(self), comm_id@),
    {
        self.remove_comm(comm_id)
    }

    /// A handler ran. The comm keeps what the handler asked for. Whether the comm is
    /// known.
    pub fn comm_handle_msg(&mut self, comm_id: &str, close: bool) -> (r: bool)
        requires
            old(self).ok(),
        ensures
            final(self).ok(),
            is_handled(r, *final(self), *old(self), comm_id@, close),
    {
        match self.comms.remove(comm_id) {
            Some(comm) => {
                let mut comm: ConsoleComm = comm;
                if close {
                    comm.ctx.close_on_exit();
                }
                self.comms.insert(comm_id.to_owned(), comm);
                assert(final(self).comms@ =~= old(self).comms@.insert(
                    comm_id@,
                    final(self).comms@[comm_id@],
                ));
                true
            },
            None => {
                assert(old(self).comms@.remove(comm_id@) =~= old(self).comms@);
                false
            },
        }
    }

    /// The environment changed. Returns the ids of the comms whose handlers are to be
    /// told, each once: of all that are open. Those that ask to be closed are then
    /// drained.
    pub fn comm_notify_environment_changed(&self) -> (r: Vec<String>)
        ensures
            forall|id: Seq<char>| #[trigger]
                text::texts(r@).contains(id) <==> self.comms@.contains_key(id),
            text::texts(r@).no_duplicates(),
    {
        let mut r: Vec<String> = Vec::new();
        let n: usize = self.comms.len();
        let mut i: usize = 0;
        while i < n
            invariant
                n == self.comms.listed().len(),
                i <= n,
                r@.len() == i,
                forall|k: int|
                    0 <= k < i ==> (#[trigger] r@[k])@ == self.comms.listed()[k].0@
                        && self.comms@.contains_key(r@[k]@),
                text::texts(r@).no_duplicates(),
            decreases n - i,
        {
            let (id, _) = self.comms.entry(i);
            let ghost before = r@;
            r.push(id.clone());
            assert(text::texts(r@) =~= text::texts(before).push(id@));
            assert forall|k: int| 0 <= k < before.len() implies text::texts(before)[k] != id@ by {
                assert(before[k]@ == self.comms.listed()[k].0@);
            }
            i = i + 1;
        }
        proof {
            self.comms.lemma_listed();
            assert forall|id: Seq<char>| #[trigger]
                text::texts(r@).contains(id) <==> self.comms@.contains_key(id) by {
                if self.comms@.contains_key(id) {
                    let k = choose|k: int|
                        0 <= k < self.comms.listed().len() && (
                        #[trigger] self.comms.listed()[k]).0@ == id;
                    assert(text::texts(r@)[k] == id);
                }
                if text::texts(r@).contains(id) {
                    let k = choose|k: int| 0 <= k < r@.len() && text::texts(r@)[k] == id;
                    assert(self.comms@.contains_key(r@[k]@));
                }
            }
        }
        r
    }

    /// Forgets the comms whose handlers asked to close them. Returns their ids, each
    /// once. The frontend is told of each.
    pub fn drain_closed(&mut self) -> (r: Vec<String>)
        requires
            old(self).ok(),
        ensures
            final(self).ok(),
            is_drained(text::texts(r@), *final(self), *old(self)),
    {
        let closed: Vec<String> = self.closed_ids();
        let ghost all = old(self).comms@;
        let n: usize = closed.len();
        let mut i: usize = 0;
        while i < n
            invariant
                n == closed@.len(),
                i <= n,
                all == old(self).comms@,
                old(self).ok(),
                text::texts(closed@).no_duplicates(),
                self.ok(),
                self.ui_comm_name == old(self).ui_comm_name,
                forall|id: Seq<char>| #[trigger]
                    text::texts(closed@).contains(id) <==> (all.contains_key(id)
                        && all[id].ctx.asked_to_close()),
                forall|id: Seq<char>| #[trigger]
                    self.comms@.contains_key(id) <==> all.contains_key(id) && !text::texts(
                        closed@.take(i as int),
                    ).contains(id),
                forall|id: Seq<char>| #[trigger]
                    self.comms@.contains_key(id) ==> self.comms@[id] == all[id],
                self.ui_comm_id == (match old(self).ui_comm_id {
                    Some(id) => if text::texts(closed@.take(i as int)).contains(id@) {
                        None
                    } else {
                        old(self).ui_comm_id
                    },
                    None => None,
                }),
            decreases n - i,
        {
            let ghost before = text::texts(closed@.take(i as int));
            let ghost after = text::texts(closed@.take(i + 1));
            assert(after =~= before.push(closed@[i as int]@));
            assert forall|id: Seq<char>| #[trigger] after.contains(id) <==> before.contains(id) || id
                == closed@[i as int]@ by {
                if before.contains(id) {
                    let k = choose|k: int| 0 <= k < before.len() && before[k] == id;
                    assert(after[k] == id);
                }
                if id == closed@[i as int]@ {
                    assert(after[i as int] == id);
                }
            }
            let _comm: Option<ConsoleComm> = self.remove_comm(closed[i].as_str());
            i = i + 1;
        }
        assert(closed@.take(n as int) =~= closed@);
        assert(self.comms@ =~= still_open(all));
        closed
    }

    /// The ids of the comms whose handlers asked to close them.
    fn closed_ids(&self) -> (r: Vec<String>)
        ensures
            forall|id: Seq<char>| #[trigger]
                text::texts(r@).contains(id) <==> (self.comms@.contains_key(id)
                    && self.comms@[id].ctx.asked_to_close()),
            text::texts(r@).no_duplicates(),
    {
        let mut r: Vec<String> = Vec::new();
        let n: usize = self.comms.len();
        let mut i: usize = 0;
        while i < n
            invariant
                n == self.comms.listed().len(),
                i <= n,
                forall|k: int|
                    0 <= k < i ==> {
                        let e = #[trigger] self.comms.listed()[k];
                        self.comms@.contains_key(e.0@) && self.comms@[e.0@] == e.1
                    },
                forall|id: Seq<char>| #[trigger]
                    text::texts(r@).contains(id) <==> exists|k: int|
                        #![trigger self.comms.listed()[k]]
                        0 <= k < i && self.comms.listed()[k].0@ == id
                            && self.comms.listed()[k].1.ctx.asked_to_close(),
                text::texts(r@).no_duplicates(),
            decreases n - i,
        {
            let (id, comm) = self.comms.entry(i);
            let ghost before = r@;
            if comm.ctx.is_closed() {
                r.push(id.clone());
                assert(text::texts(r@) =~= text::texts(before).push(id@));
                assert forall|k: int| 0 <= k < before.len() implies text::texts(before)[k]
                    != id@ by {
                    assert(text::texts(before).contains(text::texts(before)[k]));
                }
                assert forall|x: Seq<char>| #[trigger] text::texts(r@).contains(x) <==> text::texts(
                    before,
                ).contains(x) || x == id@ by {
                    if text::texts(before).contains(x) {
                        let k = choose|k: int|
                            0 <= k < text::texts(before).len() && text::texts(before)[k] == x;
                        assert(text::texts(r@)[k] == x);
                    }
                    if x == id@ {
                        assert(text::texts(r@)[before.len() as int] == x);
                    }
                }
            }
            i = i + 1;
        }
        proof {
            assert forall|id: Seq<char>| #[trigger] text::texts(r@).contains(id) <==> (
            self.comms@.contains_key(id) && self.comms@[id].ctx.asked_to_close()) by {
                self.comms.lemma_listed();
            }
        }
        r
    }
}

/// What becomes of the comms when the frontend opens one.
pub open spec fn is_opened(
    r: Option<ConsoleComm>,
    new: ConsoleComms,
    old: ConsoleComms,
    comm_id: Seq<char>,
    comm: ConsoleComm,
) -> bool {
    &&& new.ui_comm_name == old.ui_comm_name
    &&& if comm.comm_name@ == old.ui_comm_name@ {
        let before = match old.ui_comm_id {
            Some(id) => old.comms@.remove(id@),
            None => old.comms@,
        };
        &&& text::opt_text(new.ui_comm_id) == Some(comm_id)
        &&& new.comms@ == before.insert(comm_id, comm)
        &&& r == match old.ui_comm_id {
            Some(id) => Some(old.comms@[id@]),
            None => None,
        }
    } else {
        &&& new.ui_comm_id == old.ui_comm_id
        &&& new.comms@ == old.comms@.insert(comm_id, comm)
        &&& r is None
    }
}

/// What becomes of the comms when one is removed.
pub open spec fn is_removed(
    r: Option<ConsoleComm>,
    new: ConsoleComms,
    old: ConsoleComms,
    comm_id: Seq<char>,
) -> bool {
    &&& new.ui_comm_name == old.ui_comm_name
    &&& new.comms@ == old.comms@.remove(comm_id)
    &&& r == (if old.comms@.contains_key(comm_id) {
        Some(old.comms@[comm_id])
    } else {
        None
    })
    &&& new.ui_comm_id == (if text::opt_text(old.ui_comm_id) == Some(comm_id) {
        None
    } else {
        old.ui_comm_id
    })
}

/// What becomes of the comms when a handler ran, which may have asked to close its comm.
pub open spec fn is_handled(
    r: bool,
    new: ConsoleComms,
    old: ConsoleComms,
    comm_id: Seq<char>,
    close: bool,
) -> bool {
    &&& new.ui_comm_name == old.ui_comm_name
    &&& r == old.comms@.contains_key(comm_id)
    &&& new.ui_comm_id == old.ui_comm_id
    &&& if r {
        let before = old.comms@[comm_id];
        let after = new.comms@[comm_id];
        &&& new.comms@ == old.comms@.insert(comm_id, after)
        &&& after.comm_name == before.comm_name
        &&& after.ctx.asked_to_close() == (before.ctx.asked_to_close() || close)
    } else {
        new.comms@ == old.comms@
    }
}

/// What becomes of the comms when those are removed whose handlers asked for it.
pub open spec fn is_drained(r: Seq<Seq<char>>, new: ConsoleComms, old: ConsoleComms) -> bool {
    &&& new.ui_comm_name == old.ui_comm_name
    &&& new.comms@ == still_open(old.comms@)
    &&& forall|id: Seq<char>| #[trigger]
        r.contains(id) <==> (old.comms@.contains_key(id) && old.comms@[id].ctx.asked_to_close())
    &&& r.no_duplicates()
    &&& new.ui_comm_id == (match old.ui_comm_id {
        Some(id) => if old.comms@[id@].ctx.asked_to_close() {
            None
        } else {
            old.ui_comm_id
        },
        None => None,
    })
}

/// A comm that the frontend opens is open, and no other one changes, except that a new comm
/// of the user interface takes the place of the one before it.
pub proof fn law_opened_comms(
    r: Option<ConsoleComm>,
    new: ConsoleComms,
    old: ConsoleComms,
    comm_id: Seq<char>,
    comm: ConsoleComm,
    other: Seq<char>,
)
    requires
        old.ok(),
        is_opened(r, new, old, comm_id, comm),
        other != comm_id,
    ensures
        new.ok(),
        new.comms@.contains_key(comm_id) && new.comms@[comm_id] == comm,
        comm.comm_name@ != old.ui_comm_name@ ==> r is None && new.ui_comm_id == old.ui_comm_id && (
        new.comms@.contains_key(other) <==> old.comms@.contains_key(other)),
        comm.comm_name@ == old.ui_comm_name@ ==> new.ui_comm_id is Some && new.ui_comm_id->0@
            == comm_id,
        comm.comm_name@ == old.ui_comm_name@ && old.ui_comm_id is None ==> r is None && (
        new.comms@.contains_key(other) <==> old.comms@.contains_key(other)),
        comm.comm_name@ == old.ui_comm_name@ && old.ui_comm_id is Some ==> r == Some(
            old.comms@[old.ui_comm_id->0@],
        ) && (new.comms@.contains_key(other) <==> old.comms@.contains_key(other) && other
            != old.ui_comm_id->0@),
        new.comms@.contains_key(other) ==> new.comms@[other] == old.comms@[other],
{
}

/// A comm that is closed is gone and handed out. No other one changes, and the comm of the
/// user interface is forgotten only with itself.
pub proof fn law_closed_comms(
    r: Option<ConsoleComm>,
    new: ConsoleComms,
    old: ConsoleComms,
    comm_id: Seq<char>,
    other: Seq<char>,
)
    requires
        old.ok(),
        is_removed(r, new, old, comm_id),
        other != comm_id,
    ensures
        new.ok(),
        !new.comms@.contains_key(comm_id),
        r is Some <==> old.comms@.contains_key(comm_id),
        r is Some ==> r->0 == old.comms@[comm_id],
        new.comms@.contains_key(other) <==> old.comms@.contains_key(other),
        old.comms@.contains_key(other) ==> new.comms@[other] == old.comms@[other],
        old.ui_comm_id is Some && old.ui_comm_id->0@ == comm_id ==> new.ui_comm_id is None,
        old.ui_comm_id is Some && old.ui_comm_id->0@ != comm_id ==> new.ui_comm_id
            == old.ui_comm_id,
        old.ui_comm_id is None ==> new.ui_comm_id is None,
{
}

/// A comm whose handler asks to close it is told and gone once comms are drained, with the
/// comm of the user interface if it is that one. A comm whose handler does not ask stays.
pub proof fn law_comms_close_on_request(
    known: bool,
    a: ConsoleComms,
    b: ConsoleComms,
    c: ConsoleComms,
    ids: Seq<Seq<char>>,
    comm_id: Seq<char>,
    close: bool,
    other: Seq<char>,
)
    requires
        a.ok(),
        a.comms@.contains_key(comm_id),
        !a.comms@[comm_id].ctx.asked_to_close(),
        is_handled(known, b, a, comm_id, close),
        is_drained(ids, c, b),
        other != comm_id,
    ensures
        known,
        c.comms@.contains_key(comm_id) <==> !close,
        ids.contains(comm_id) <==> close,
        ids.no_duplicates(),
        a.ui_comm_id is Some && a.ui_comm_id->0@ == comm_id ==> (c.ui_comm_id is Some <==> !close),
        a.comms@.contains_key(other) && !a.comms@[other].ctx.asked_to_close()
            ==> c.comms@.contains_key(other) && c.comms@[other] == a.comms@[other]
            && !ids.contains(other),
        !a.comms@.contains_key(other) ==> !c.comms@.contains_key(other) && !ids.contains(other),
{
}

} // verus!
