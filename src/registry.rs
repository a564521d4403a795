use vstd::prelude::*;
use crate::errors::{FunctionCallError, unknown_process_error};
use crate::ids::{lemma_process_ids_distinct, process_id, process_id_text};

verus! {

/// Whether some entry is registered under `id`.
pub open spec fn has_id<H>(entries: Seq<(Seq<char>, H)>, id: Seq<char>) -> bool {
    exists|i: int| 0 <= i < entries.len() && (#[trigger] entries[i]).0 == id
}

/// The position of the entry registered under `id`.
pub open spec fn index_of<H>(entries: Seq<(Seq<char>, H)>, id: Seq<char>) -> int {
    choose|i: int| 0 <= i < entries.len() && (#[trigger] entries[i]).0 == id
}

/// The entries after registering `h` under `id`, in place of any entry there.
pub open spec fn inserted<H>(entries: Seq<(Seq<char>, H)>, id: Seq<char>, h: H) -> Seq<
    (Seq<char>, H),
> {
    if has_id(entries, id) {
        entries.update(index_of(entries, id), (id, h))
    } else {
        entries.push((id, h))
    }
}

/// No identifier is registered twice.
pub open spec fn ids_unique<H>(entries: Seq<(Seq<char>, H)>) -> bool {
    forall|i: int, j: int|
        0 <= i < entries.len() && 0 <= j < entries.len() && i != j ==> (#[trigger] entries[i]).0
            != (#[trigger] entries[j]).0
}

/// `id` is one of the first `n` identifiers issued.
pub open spec fn issued_id(id: Seq<char>, n: nat) -> bool {
    exists|k: nat| 1 <= k <= n && id == #[trigger] process_id_text(k)
}

/// Every registered identifier is one of the first `n` issued.
pub open spec fn ids_issued<H>(entries: Seq<(Seq<char>, H)>, n: nat) -> bool {
    forall|i: int| 0 <= i < entries.len() ==> issued_id(#[trigger] entries[i].0, n)
}

/// The registered processes, by identifier, and the counter that issues
/// identifiers.
pub struct ProcessTable<H> {
    next_id: u64,
    ids: Vec<String>,
    handles: Vec<H>,
}

impl<H> View for ProcessTable<H> {
    type V = Seq<(Seq<char>, H)>;

    closed spec fn view(&self) -> Seq<(Seq<char>, H)> {
        Seq::new(self.ids@.len(), |i: int| (self.ids@[i]@, self.handles@[i]))
    }
}

impl<H> ProcessTable<H> {
    pub closed spec fn wf(&self) -> bool {
        &&& self.ids@.len() == self.handles@.len()
        &&& ids_unique(self@)
        &&& ids_issued(self@, self.issued())
    }

    /// A well-formed table registers each identifier once, and only
    /// identifiers it has issued.
    pub proof fn lemma_wf_entries(&self)
        requires
            self.wf(),
        ensures
            ids_unique(self@),
            ids_issued(self@, self.issued()),
    {
    }

    /// How many identifiers have been issued.
    pub fn issued_count(&self) -> (r: u64)
        ensures
            r as nat == self.issued(),
    {
        self.next_id
    }

    /// How many identifiers have been issued.
    pub closed spec fn issued(&self) -> nat {
        self.next_id as nat
    }

    pub fn new() -> (r: Self)
        ensures
            r.wf(),
            r@.len() == 0,
            r.issued() == 0,
    {
        ProcessTable { next_id: 0, ids: Vec::new(), handles: Vec::new() }
    }

    /// Issues the next identifier. Numbers start at one, and each one is
    /// issued once only, whether or not a process is registered under it.
    /// `None` once the counter is exhausted.
    pub fn allocate_id(&mut self) -> (r: Option<String>)
        requires
            old(self).wf(),
        ensures
            final(self).wf(),
            final(self)@ == old(self)@,
            r is None <==> old(self).issued() == u64::MAX as nat,
            r is None ==> final(self).issued() == old(self).issued(),
            r matches Some(id) ==> final(self).issued() == old(self).issued() + 1 && id@
                == process_id_text(final(self).issued()),
            r matches Some(id) ==> !has_id(final(self)@, id@) && issued_id(
                id@,
                final(self).issued(),
            ),
            ids_unique(final(self)@),
            ids_issued(final(self)@, final(self).issued()),
    {
        if self.next_id == u64::MAX {
            None
        } else {
            let ghost old_n = self.next_id as nat;
            self.next_id = self.next_id + 1;
            let id = process_id(self.next_id);
            proof {
                let n = self.next_id as nat;
                assert(id@ == process_id_text(n));
                assert forall|i: int| 0 <= i < self@.len() implies issued_id(
                    #[trigger] self@[i].0,
                    n,
                ) by {
                    let k = choose|k: nat| 1 <= k <= old_n && self@[i].0 == #[trigger] process_id_text(k);
                    assert(1 <= k <= n && self@[i].0 == process_id_text(k));
                }
                assert forall|i: int| 0 <= i < self@.len() implies (#[trigger] self@[i]).0 != id@ by {
                    let k = choose|k: nat| 1 <= k <= old_n && self@[i].0 == #[trigger] process_id_text(k);
                    lemma_process_ids_distinct(k, n);
                }
                assert(issued_id(id@, n));
            }
            Some(id)
        }
    }

    /// The position of `id`, if it is registered.
    fn find(&self, id: &String) -> (r: Option<usize>)
        requires
            self.wf(),
        ensures
            r is None <==> !has_id(self@, id@),
            r matches Some(i) ==> i == index_of(self@, id@) && i < self@.len(),
    {
        let mut i: usize = 0;
        while i < self.ids.len()
            invariant
                self.wf(),
                i <= self.ids@.len(),
                forall|j: int| 0 <= j < i ==> (#[trigger] self@[j]).0 != id@,
            decreases self.ids@.len() - i,
        {
            if self.ids[i] == *id {
                assert(self@[i as int].0 == id@);
                assert(has_id(self@, id@));
                let ghost k = index_of(self@, id@);
                assert(k == i as int);
                return Some(i);
            }
            i = i + 1;
        }
        None
    }

    /// Registers `handle` under `id`, an identifier this table issued, in
    /// place of any handle already there.
    pub fn insert(&mut self, id: String, handle: H)
        requires
            old(self).wf(),
            issued_id(id@, old(self).issued()),
        ensures
            final(self).wf(),
            final(self).issued() == old(self).issued(),
            final(self)@ == inserted(old(self)@, id@, handle),
            ids_unique(final(self)@),
            ids_issued(final(self)@, final(self).issued()),
    {
        match self.find(&id) {
            Some(i) => {
                let ghost pre = self@;
                self.handles.set(i, handle);
                assert(self@ =~= pre.update(i as int, (id@, handle)));
            },
            None => {
                let ghost pre = self@;
                let ghost key = id@;
                self.ids.push(id);
                self.handles.push(handle);
                assert(self@ =~= pre.push((key, handle)));
            },
        }
    }

    /// The handle registered under `process_id`, or the not-found error.
    pub fn lookup(&self, process_id: &String) -> (r: Result<&H, FunctionCallError>)
        requires
            self.wf(),
        ensures
            r is Ok <==> has_id(self@, process_id@),
            r matches Ok(h) ==> *h == self@[index_of(self@, process_id@)].1,
            r matches Err(FunctionCallError::RespondToModel(m)) ==> m@
                == "unknown background process: "@ + process_id@,
    {
        match self.find(process_id) {
            Some(i) => Ok(&self.handles[i]),
            None => Err(unknown_process_error(process_id)),
        }
    }

    /// The registered handles, in registration order.
    pub fn handles(&self) -> (r: &Vec<H>)
        requires
            self.wf(),
        ensures
            r@.len() == self@.len(),
            forall|i: int| 0 <= i < r@.len() ==> r@[i] == (#[trigger] self@[i]).1,
            ids_unique(self@),
    {
        &self.handles
    }
}

/// Registering a process makes it listed, and keeps every process that was
/// listed before listed under the same identifier.
pub proof fn lemma_insert_keeps_registered<H>(
    entries: Seq<(Seq<char>, H)>,
    id: Seq<char>,
    h: H,
    other: Seq<char>,
)
    ensures
        has_id(inserted(entries, id, h), id),
        has_id(entries, other) ==> has_id(inserted(entries, id, h), other),
{
    let r = inserted(entries, id, h);
    if has_id(entries, id) {
        let k = index_of(entries, id);
        assert(r[k].0 == id);
    } else {
        assert(r[entries.len() as int].0 == id);
    }
    if has_id(entries, other) {
        let j = index_of(entries, other);
        if other == id {
            assert(r[index_of(entries, id)].0 == other);
        } else if has_id(entries, id) {
            assert(r[j].0 == other);
        } else {
            assert(r[j].0 == other);
        }
    }
}

} // verus!
