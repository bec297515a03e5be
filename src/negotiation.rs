//! The negotiation of an offer: each offer that waits for the host's decision
//! gets an id of its own, and a decision is matched to its offer by that id,
//! so that a decision meant for one offer can never answer another.

use vstd::prelude::*;
use crate::mission::{Mission, MissionView};
use crate::model::{DeviceMessage, FileInfo, FileInfoView, FileRequest, FileRequestView};
use crate::string_map::StringMap;

verus! {

/// The characters of each string of a list, in order.
pub open spec fn id_views(v: Seq<String>) -> Seq<Seq<char>> {
    v.map_values(|s: String| s@)
}

/// The ids a list of strings names.
pub open spec fn ids_of(v: Seq<String>) -> Set<Seq<char>> {
    id_views(v).to_set()
}

/// The files of an offer that a decision approves: those offered and named.
pub open spec fn approved_set(offer: Map<Seq<char>, FileInfoView>, decision: Set<Seq<char>>) -> Set<
    Seq<char>,
> {
    offer.dom().intersect(decision)
}

/// The offers that wait for a decision, by negotiation id.
pub struct PendingOffers {
    entries: Vec<(u64, FileRequest)>,
    next: u64,
    contents: Ghost<Map<u64, FileRequestView>>,
}

/// Entries with distinct ids below `next` that hold exactly the pairs of `m`.
pub open spec fn pending_represents(
    entries: Seq<(u64, FileRequest)>,
    next: u64,
    m: Map<u64, FileRequestView>,
) -> bool {
    &&& forall|i: int, j: int| 0 <= i < j < entries.len() ==> entries[i].0 != entries[j].0
    &&& forall|i: int| 0 <= i < entries.len() ==> #[trigger] entries[i].0 < next
    &&& forall|id: u64| #[trigger]
        m.contains_key(id) <==> exists|i: int| 0 <= i < entries.len() && entries[i].0 == id
    &&& forall|i: int| 0 <= i < entries.len() ==> m[#[trigger] entries[i].0] == entries[i].1@
}

impl View for PendingOffers {
    type V = Map<u64, FileRequestView>;

    closed spec fn view(&self) -> Map<u64, FileRequestView> {
        self.contents@
    }
}

impl PendingOffers {
    /// The id the next registered offer gets.
    pub closed spec fn next_id(&self) -> u64 {
        self.next
    }

    #[verifier::type_invariant]
    closed spec fn well_formed(&self) -> bool {
        pending_represents(self.entries@, self.next, self.contents@)
    }

    pub fn new() -> (r: Self)
        ensures
            r@ == Map::<u64, FileRequestView>::empty(),
            r.next_id() == 0,
    {
        PendingOffers { entries: Vec::new(), next: 0, contents: Ghost(Map::empty()) }
    }

    fn position(&self, id: u64) -> (r: Option<usize>)
        ensures
            r is None <==> !self@.contains_key(id),
            r matches Some(i) ==> i < self.entries@.len() && self.entries@[i as int].0 == id,
    {
        proof {
            use_type_invariant(self);
        }
        let n = self.entries.len();
        let mut i: usize = 0;
        while i < n
            invariant
                n == self.entries@.len(),
                i <= n,
                pending_represents(self.entries@, self.next, self.contents@),
                forall|j: int| 0 <= j < i ==> self.entries@[j].0 != id,
            decreases n - i,
        {
            if self.entries[i].0 == id {
                return Some(i);
            }
            i = i + 1;
        }
        None
    }

    pub fn contains(&self, id: u64) -> (r: bool)
        ensures
            r == self@.contains_key(id),
    {
        self.position(id).is_some()
    }

    /// Moves the parts out, leaving `self` empty.
    fn take_parts(&mut self) -> (r: (Vec<(u64, FileRequest)>, u64))
        ensures
            r.0@ == old(self).entries@,
            r.1 == old(self).next,
            pending_represents(r.0@, r.1, old(self)@),
    {
        proof {
            use_type_invariant(&*self);
        }
        let mut taken = PendingOffers::new();
        core::mem::swap(self, &mut taken);
        let PendingOffers { entries, next, contents: _ } = taken;
        (entries, next)
    }

    /// Registers `request` under a fresh id; `None` once every id has been used.
    pub fn register(&mut self, request: FileRequest) -> (r: Option<u64>)
        ensures
            r is None <==> old(self).next_id() == u64::MAX,
            r is None ==> final(self)@ == old(self)@ && final(self).next_id() == old(self).next_id(),
            r matches Some(id) ==> {
                &&& id == old(self).next_id()
                &&& !old(self)@.contains_key(id)
                &&& final(self)@ == old(self)@.insert(id, request@)
                &&& final(self).next_id() == id + 1
            },
    {
        proof {
            use_type_invariant(&*self);
        }
        if self.next == u64::MAX {
            return None;
        }
        let ghost old_map = self@;
        let ghost req = request@;
        let (mut entries, next) = self.take_parts();
        let ghost old_entries = entries@;
        entries.push((next, request));
        let ghost new_map = old_map.insert(next, req);
        assert forall|id: u64| #[trigger]
            new_map.contains_key(id) <==> exists|i: int|
                0 <= i < entries@.len() && entries@[i].0 == id by {
            if id == next {
                assert(entries@[old_entries.len() as int].0 == id);
            } else if old_map.contains_key(id) {
                let i = choose|i: int| 0 <= i < old_entries.len() && old_entries[i].0 == id;
                assert(entries@[i].0 == id);
            } else {
                assert forall|i: int| 0 <= i < entries@.len() implies entries@[i].0 != id by {
                    if i < old_entries.len() {
                        assert(entries@[i] == old_entries[i]);
                    }
                }
            }
        }
        assert forall|i: int| 0 <= i < entries@.len() implies new_map[#[trigger] entries@[i].0]
            == entries@[i].1@ by {
            if i < old_entries.len() {
                assert(entries@[i] == old_entries[i]);
                assert(old_entries[i].0 < next);
            }
        }
        assert forall|i: int| 0 <= i < entries@.len() implies #[trigger] entries@[i].0 < next
            + 1 by {
            if i < old_entries.len() {
                assert(entries@[i] == old_entries[i]);
            }
        }
        *self = PendingOffers { entries, next: next + 1, contents: Ghost(new_map) };
        Some(next)
    }

    /// Takes the offer of `id` out of the table, if it is there.
    pub fn take(&mut self, id: u64) -> (r: Option<FileRequest>)
        ensures
            final(self)@ == old(self)@.remove(id),
            final(self).next_id() == old(self).next_id(),
            r is Some <==> old(self)@.contains_key(id),
            r matches Some(req) ==> req@ == old(self)@[id],
    {
        let ghost old_map = self@;
        match self.position(id) {
            Some(i) => {
                let (mut entries, next) = self.take_parts();
                let ghost old_entries = entries@;
                let (_, req) = entries.remove(i);
                let ghost new_map = old_map.remove(id);
                assert forall|x: u64| #[trigger]
                    new_map.contains_key(x) <==> exists|j: int|
                        0 <= j < entries@.len() && entries@[j].0 == x by {
                    if new_map.contains_key(x) {
                        let j = choose|j: int| 0 <= j < old_entries.len() && old_entries[j].0 == x;
                        if j < i {
                            assert(entries@[j] == old_entries[j]);
                        } else {
                            assert(j != i);
                            assert(entries@[j - 1] == old_entries[j]);
                        }
                    }
                    if exists|j: int| 0 <= j < entries@.len() && entries@[j].0 == x {
                        let j = choose|j: int| 0 <= j < entries@.len() && entries@[j].0 == x;
                        if j < i {
                            assert(entries@[j] == old_entries[j]);
                        } else {
                            assert(entries@[j] == old_entries[j + 1]);
                        }
                    }
                }
                assert forall|j: int| 0 <= j < entries@.len() implies new_map[
                    #[trigger] entries@[j].0] == entries@[j].1@ by {
                    if j < i {
                        assert(entries@[j] == old_entries[j]);
                    } else {
                        assert(entries@[j] == old_entries[j + 1]);
                    }
                }
                assert forall|j: int| 0 <= j < entries@.len() implies #[trigger] entries@[j].0
                    < next by {
                    if j < i {
                        assert(entries@[j] == old_entries[j]);
                    } else {
                        assert(entries@[j] == old_entries[j + 1]);
                    }
                }
                assert forall|a: int, b: int| 0 <= a < b < entries@.len() implies entries@[a].0
                    != entries@[b].0 by {
                    let oa = if a < i { a } else { a + 1 };
                    let ob = if b < i { b } else { b + 1 };
                    assert(entries@[a] == old_entries[oa]);
                    assert(entries@[b] == old_entries[ob]);
                }
                *self = PendingOffers { entries, next, contents: Ghost(new_map) };
                Some(req)
            },
            None => {
                assert(old_map.remove(id) =~= old_map);
                None
            },
        }
    }
}

/// Whether `ids` names `id`.
fn names(ids: &Vec<String>, id: &String) -> (r: bool)
    ensures
        r == ids_of(ids@).contains(id@),
{
    let n = ids.len();
    let mut i: usize = 0;
    while i < n
        invariant
            n == ids@.len(),
            i <= n,
            forall|j: int| 0 <= j < i ==> ids@[j]@ != id@,
        decreases n - i,
    {
        if ids[i] == *id {
            assert(id_views(ids@)[i as int] == id@);
            return true;
        }
        i = i + 1;
    }
    proof {
        if ids_of(ids@).contains(id@) {
            let j = choose|j: int|
                0 <= j < ids@.len() && id_views(ids@)[j] == id@;
            assert(ids@[j]@ != id@);
        }
    }
    false
}

/// The ids of the offered files that the decision names, in the offer's order.
pub fn approved_ids(files: &StringMap<FileInfo>, decision: &Vec<String>) -> (r: Vec<String>)
    ensures
        ids_of(r@) == approved_set(files@, ids_of(decision@)),
        id_views(r@).no_duplicates(),
{
    let n = files.len();
    let ghost keys = files.key_seq();
    let mut r: Vec<String> = Vec::new();
    let mut i: usize = 0;
    while i < n
        invariant
            n == keys.len(),
            keys == files.key_seq(),
            keys.no_duplicates(),
            forall|k: Seq<char>| #[trigger] files@.contains_key(k) <==> keys.contains(k),
            i <= n,
            id_views(r@).no_duplicates(),
            forall|k: Seq<char>|
                #![trigger ids_of(r@).contains(k)]
                ids_of(r@).contains(k) <==> exists|j: int|
                    0 <= j < i && keys[j] == k && ids_of(decision@).contains(k),
        decreases n - i,
    {
        let (key, _) = files.entry_at(i);
        if names(decision, key) {
            let ghost before = r@;
            r.push(key.clone());
            let ghost rv = id_views(r@);
            assert(rv =~= id_views(before).push(key@));
            assert forall|a: int, b: int| 0 <= a < b < rv.len() implies rv[a] != rv[b] by {
                if b == rv.len() - 1 {
                    assert(ids_of(before).contains(rv[a])) by {
                        assert(id_views(before)[a] == rv[a]);
                    }
                    let j = choose|j: int|
                        0 <= j < i && keys[j] == rv[a] && ids_of(decision@).contains(rv[a]);
                    assert(keys[j] != keys[i as int]);
                }
            }
            assert forall|k: Seq<char>| #[trigger]
                ids_of(r@).contains(k) <==> exists|j: int|
                    0 <= j < i + 1 && keys[j] == k && ids_of(decision@).contains(k) by {
                if ids_of(r@).contains(k) && k != key@ {
                    let a = choose|a: int| 0 <= a < rv.len() && rv[a] == k;
                    assert(id_views(before)[a] == k);
                    assert(ids_of(before).contains(k));
                }
                if k == key@ {
                    assert(rv[rv.len() - 1] == k);
                }
                if exists|j: int| 0 <= j < i && keys[j] == k && ids_of(decision@).contains(k) {
                    assert(ids_of(before).contains(k));
                    let a = choose|a: int|
                        0 <= a < before.len() && id_views(before)[a] == k;
                    assert(rv[a] == k);
                }
            }
        } else {
            assert forall|k: Seq<char>| #[trigger]
                ids_of(r@).contains(k) <==> exists|j: int|
                    0 <= j < i + 1 && keys[j] == k && ids_of(decision@).contains(k) by {
                if exists|j: int| 0 <= j < i + 1 && keys[j] == k && ids_of(decision@).contains(k) {
                    let j = choose|j: int|
                        0 <= j < i + 1 && keys[j] == k && ids_of(decision@).contains(k);
                    assert(j != i);
                }
            }
        }
        i = i + 1;
    }
    assert forall|k: Seq<char>|
        ids_of(r@).contains(k) <==> #[trigger] approved_set(files@, ids_of(decision@)).contains(
            k,
        ) by {
        if files@.contains_key(k) && ids_of(decision@).contains(k) {
            assert(keys.contains(k));
        }
    }
    assert(ids_of(r@) =~= approved_set(files@, ids_of(decision@)));
    r
}

/// The offered files that `approved` names.
pub fn accepted_files(files: &StringMap<FileInfo>, approved: &Vec<String>) -> (r: StringMap<
    FileInfo,
>)
    ensures
        r@ == files@.restrict(ids_of(approved@)),
{
    let n = files.len();
    let ghost keys = files.key_seq();
    let mut r: StringMap<FileInfo> = StringMap::new();
    let mut i: usize = 0;
    while i < n
        invariant
            n == keys.len(),
            keys == files.key_seq(),
            keys.no_duplicates(),
            forall|k: Seq<char>| #[trigger] files@.contains_key(k) <==> keys.contains(k),
            i <= n,
            r@ == files@.restrict(
                Set::new(|k: Seq<char>| exists|j: int| 0 <= j < i && keys[j] == k).intersect(
                    ids_of(approved@),
                ),
            ),
        decreases n - i,
    {
        let (key, info) = files.entry_at(i);
        let ghost before = Set::new(|k: Seq<char>| exists|j: int| 0 <= j < i && keys[j] == k);
        let ghost after = Set::new(|k: Seq<char>| exists|j: int| 0 <= j < i + 1 && keys[j] == k);
        if names(approved, key) {
            r.insert(key.clone(), info.clone());
        }
        assert forall|k: Seq<char>| #[trigger] after.contains(k) <==> before.contains(k) || k
            == keys[i as int] by {
            if after.contains(k) && k != keys[i as int] {
                let j = choose|j: int| 0 <= j < i + 1 && keys[j] == k;
                assert(before.contains(k));
            }
            if k == keys[i as int] {
                assert(after.contains(k));
            }
        }
        assert(r@ =~= files@.restrict(after.intersect(ids_of(approved@))));
        i = i + 1;
    }
    assert(Set::new(|k: Seq<char>| exists|j: int| 0 <= j < n && keys[j] == k).intersect(
        ids_of(approved@),
    ).intersect(files@.dom()) =~= ids_of(approved@).intersect(files@.dom()));
    assert(r@ =~= files@.restrict(ids_of(approved@)));
    r
}

/// The session an accepted offer becomes: the offered files that `approved`
/// names, offered by `sender` (the record the registry holds for the peer).
pub fn negotiated_mission(request: &FileRequest, approved: &Vec<String>, sender: DeviceMessage) -> (r:
    Mission)
    ensures
        r.sender_device == sender,
        r.info_map@ == request.files@.restrict(ids_of(approved@)),
        r@.wf(),
{
    Mission::new(accepted_files(&request.files, approved), sender)
}

/// An accepted offer becomes a session whose files are exactly the approved
/// ids, all of them offered, each with a token; when the host's decision names
/// only offered files, the session's files are exactly the decision.
pub proof fn lemma_session_matches_decision(
    offer: FileRequestView,
    decision: Set<Seq<char>>,
    approved: Set<Seq<char>>,
    session: MissionView,
)
    requires
        approved == approved_set(offer.files, decision),
        session.info_map == offer.files.restrict(approved),
        session.wf(),
    ensures
        session.info_map.dom() == approved,
        approved.subset_of(offer.files.dom()),
        session.id_token_map.dom() == session.info_map.dom(),
        decision.subset_of(offer.files.dom()) ==> session.info_map.dom() == decision,
{
    assert(session.info_map.dom() =~= approved);
    if decision.subset_of(offer.files.dom()) {
        assert(approved =~= decision);
    }
}

} // verus!
