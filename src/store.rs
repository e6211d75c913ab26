use vstd::prelude::*;

use crate::errors::ErrorCode;
use crate::keys::{Address, Pubkey};
use crate::laws::{consistent, lemma_empty_consistent};
use crate::tally::{lemma_empty_tallies, tallies_match};
use crate::state::{ActionType, GlobalState, Member, Params, Record, Status, Submission};

verus! {

/// The control plane created by `admin`, if one is stored.
pub open spec fn global_of(m: Map<Address, Record>, admin: Pubkey) -> Option<GlobalState> {
    let a = Address::Global { admin };
    if m.contains_key(a) && m[a] is Global {
        Some(m[a]->Global_0)
    } else {
        None
    }
}

/// The catalog entry stored at `a`, if any.
pub open spec fn action_type_of(m: Map<Address, Record>, a: Address) -> Option<ActionType> {
    if m.contains_key(a) && m[a] is ActionType {
        Some(m[a]->ActionType_0)
    } else {
        None
    }
}

/// The member record stored at `a`, if any.
pub open spec fn member_of(m: Map<Address, Record>, a: Address) -> Option<Member> {
    if m.contains_key(a) && m[a] is Member {
        Some(m[a]->Member_0)
    } else {
        None
    }
}

/// The claim stored at `a`, if any.
pub open spec fn submission_of(m: Map<Address, Record>, a: Address) -> Option<Submission> {
    if m.contains_key(a) && m[a] is Submission {
        Some(m[a]->Submission_0)
    } else {
        None
    }
}

/// A content-addressed record store with create-new-or-fail semantics.
/// Its view maps each occupied address to the record held there.
pub struct Ledger {
    entries: Vec<(Address, Record)>,
    model: Ghost<Map<Address, Record>>,
}

impl View for Ledger {
    type V = Map<Address, Record>;

    closed spec fn view(&self) -> Map<Address, Record> {
        self.model@
    }
}

/// `entries` lists each address once, and `model` holds exactly its pairs.
spec fn stored(entries: Seq<(Address, Record)>, model: Map<Address, Record>) -> bool {
    &&& forall|i: int, j: int| 0 <= i < j < entries.len() ==> entries[i].0 != entries[j].0
    &&& forall|i: int|
        0 <= i < entries.len() ==> {
            &&& model.contains_key(#[trigger] entries[i].0)
            &&& model[entries[i].0] == entries[i].1
        }
    &&& forall|a: Address|
        #[trigger] model.contains_key(a) ==> exists|i: int| 0 <= i < entries.len() && entries[i].0 == a
}

/// Replacing the record at one index, under the same address, keeps the
/// entries in step with the view updated at that address.
proof fn lemma_replace(
    entries: Seq<(Address, Record)>,
    model: Map<Address, Record>,
    i: int,
    rec: Record,
)
    requires
        stored(entries, model),
        0 <= i < entries.len(),
    ensures
        stored(entries.update(i, (entries[i].0, rec)), model.insert(entries[i].0, rec)),
{
    let a = entries[i].0;
    let e2 = entries.update(i, (a, rec));
    let m2 = model.insert(a, rec);
    assert forall|j: int, k: int| 0 <= j < k < e2.len() implies e2[j].0 != e2[k].0 by {
        assert(e2[j].0 == entries[j].0);
        assert(e2[k].0 == entries[k].0);
    }
    assert forall|j: int| 0 <= j < e2.len() implies {
        &&& m2.contains_key(#[trigger] e2[j].0)
        &&& m2[e2[j].0] == e2[j].1
    } by {
        if j != i {
            assert(entries[j].0 != a);
            assert(model.contains_key(entries[j].0));
        }
    }
    assert forall|x: Address| #[trigger] m2.contains_key(x) implies exists|j: int|
        0 <= j < e2.len() && e2[j].0 == x by {
        if x == a {
            assert(e2[i].0 == x);
        } else {
            let j = choose|j: int| 0 <= j < entries.len() && entries[j].0 == x;
            assert(e2[j].0 == x);
        }
    }
}

impl Ledger {
    /// Each address occurs once, and the view holds exactly the stored pairs.
    pub closed spec fn wf(&self) -> bool {
        stored(self.entries@, self.model@)
    }

    pub fn new() -> (r: Ledger)
        ensures
            r.wf(),
            r@ == Map::<Address, Record>::empty(),
            consistent(r@),
            tallies_match(r@),
    {
        proof {
            lemma_empty_consistent();
            lemma_empty_tallies();
        }
        Ledger { entries: Vec::new(), model: Ghost(Map::empty()) }
    }

    fn index_of(&self, a: &Address) -> (r: Option<usize>)
        requires
            self.wf(),
        ensures
            match r {
                Some(i) => i < self.entries@.len() && self.entries@[i as int].0 == *a
                    && self@.contains_key(*a) && self@[*a] == self.entries@[i as int].1,
                None => !self@.contains_key(*a),
            },
    {
        let mut i: usize = 0;
        while i < self.entries.len()
            invariant
                0 <= i <= self.entries@.len(),
                self.wf(),
                forall|k: int| 0 <= k < i ==> self.entries@[k].0 != *a,
            decreases self.entries@.len() - i,
        {
            if self.entries[i].0.same_as(a) {
                assert(self.model@.contains_key(self.entries@[i as int].0));
                return Some(i);
            }
            i = i + 1;
        }
        None
    }

    /// The record at `a`, if any.
    pub fn get(&self, a: &Address) -> (r: Option<&Record>)
        requires
            self.wf(),
        ensures
            match r {
                Some(rec) => self@.contains_key(*a) && *rec == self@[*a],
                None => !self@.contains_key(*a),
            },
    {
        match self.index_of(a) {
            Some(i) => Some(&self.entries[i].1),
            None => None,
        }
    }

    /// Stores `rec` at `a`, failing if `a` already holds a record.
    pub fn create(&mut self, a: Address, rec: Record) -> (r: Result<(), ErrorCode>)
        requires
            old(self).wf(),
        ensures
            final(self).wf(),
            old(self)@.contains_key(a) ==> r == Err::<(), ErrorCode>(ErrorCode::DuplicateRecord)
                && final(self)@ == old(self)@,
            !old(self)@.contains_key(a) ==> r is Ok && final(self)@ == old(self)@.insert(a, rec),
    {
        if self.index_of(&a).is_some() {
            return Err(ErrorCode::DuplicateRecord);
        }
        let ghost pre = *self;
        proof {
            self.model@ = self.model@.insert(a, rec);
        }
        self.entries.push((a, rec));
        assert forall|x: Address| #[trigger] self.model@.contains_key(x) implies exists|i: int|
            0 <= i < self.entries@.len() && self.entries@[i].0 == x by {
            if x == a {
                assert(self.entries@[self.entries@.len() - 1].0 == x);
            } else {
                assert(pre.model@.contains_key(x));
                let i = choose|i: int| 0 <= i < pre.entries@.len() && pre.entries@[i].0 == x;
                assert(self.entries@[i] == pre.entries@[i]);
            }
        }
        Ok(())
    }

    /// Sets the status of the claim stored at `a`.
    pub(crate) fn set_status(&mut self, a: &Address, status: Status)
        requires
            old(self).wf(),
            old(self)@.contains_key(*a),
            old(self)@[*a] is Submission,
        ensures
            final(self).wf(),
            final(self)@ == old(self)@.insert(
                *a,
                Record::Submission(Submission { status, ..old(self)@[*a]->Submission_0 }),
            ),
    {
        let ghost pre = self@;
        let ghost pre_entries = self.entries@;
        let i = self.index_of(a).unwrap();
        let entry = &mut self.entries[i];
        match &mut entry.1 {
            Record::Submission(s) => {
                s.status = status;
            },
            _ => {},
        }
        proof {
            lemma_replace(pre_entries, pre, i as int, self.entries@[i as int].1);
            self.model@ = pre.insert(
                *a,
                Record::Submission(Submission { status, ..pre[*a]->Submission_0 }),
            );
        }
    }

    /// Sets the point tally of the member record stored at `a`.
    pub(crate) fn set_points(&mut self, a: &Address, points: u64)
        requires
            old(self).wf(),
            old(self)@.contains_key(*a),
            old(self)@[*a] is Member,
        ensures
            final(self).wf(),
            final(self)@ == old(self)@.insert(
                *a,
                Record::Member(Member { points, ..old(self)@[*a]->Member_0 }),
            ),
    {
        let ghost pre = self@;
        let ghost pre_entries = self.entries@;
        let i = self.index_of(a).unwrap();
        let entry = &mut self.entries[i];
        match &mut entry.1 {
            Record::Member(m) => {
                m.points = points;
            },
            _ => {},
        }
        proof {
            lemma_replace(pre_entries, pre, i as int, self.entries@[i as int].1);
            self.model@ = pre.insert(*a, Record::Member(Member { points, ..pre[*a]->Member_0 }));
        }
    }

    /// Sets the parameters of the control plane stored at `a`.
    pub(crate) fn set_params(&mut self, a: &Address, params: Params)
        requires
            old(self).wf(),
            old(self)@.contains_key(*a),
            old(self)@[*a] is Global,
        ensures
            final(self).wf(),
            final(self)@ == old(self)@.insert(
                *a,
                Record::Global(GlobalState { params, ..old(self)@[*a]->Global_0 }),
            ),
    {
        let ghost pre = self@;
        let ghost pre_entries = self.entries@;
        let i = self.index_of(a).unwrap();
        let entry = &mut self.entries[i];
        match &mut entry.1 {
            Record::Global(g) => {
                g.params = params;
            },
            _ => {},
        }
        proof {
            lemma_replace(pre_entries, pre, i as int, self.entries@[i as int].1);
            self.model@ = pre.insert(*a, Record::Global(GlobalState { params, ..pre[*a]->Global_0 }));
        }
    }

    pub fn global(&self, admin: &Pubkey) -> (r: Option<&GlobalState>)
        requires
            self.wf(),
        ensures
            match r {
                Some(g) => global_of(self@, *admin) == Some(*g),
                None => global_of(self@, *admin) is None,
            },
    {
        match self.get(&Address::Global { admin: *admin }) {
            Some(Record::Global(g)) => Some(g),
            _ => None,
        }
    }

    pub fn action_type(&self, a: &Address) -> (r: Option<&ActionType>)
        requires
            self.wf(),
        ensures
            match r {
                Some(at) => action_type_of(self@, *a) == Some(*at),
                None => action_type_of(self@, *a) is None,
            },
    {
        match self.get(a) {
            Some(Record::ActionType(at)) => Some(at),
            _ => None,
        }
    }

    pub fn member(&self, a: &Address) -> (r: Option<&Member>)
        requires
            self.wf(),
        ensures
            match r {
                Some(mem) => member_of(self@, *a) == Some(*mem),
                None => member_of(self@, *a) is None,
            },
    {
        match self.get(a) {
            Some(Record::Member(mem)) => Some(mem),
            _ => None,
        }
    }

    pub fn submission(&self, a: &Address) -> (r: Option<Submission>)
        requires
            self.wf(),
        ensures
            r == submission_of(self@, *a),
    {
        match self.get(a) {
            Some(Record::Submission(s)) => Some(*s),
            _ => None,
        }
    }
}

} // verus!
