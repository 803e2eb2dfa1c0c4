//! Which clients hold a menu stream and which a game stream: each client
//! id at most once per kind, so a second stream under the same id is
//! refused.

use vstd::prelude::*;
use vstd::string::StringExecFns;

verus! {

/// The texts held in `v`.
pub open spec fn texts(v: Seq<String>) -> Set<Seq<char>> {
    Set::new(|s: Seq<char>| exists|i: int| 0 <= i < v.len() && (#[trigger] v[i])@ == s)
}

/// No text is held twice.
pub open spec fn distinct(v: Seq<String>) -> bool {
    forall|i: int, j: int| 0 <= i < j < v.len() ==> (#[trigger] v[i])@ != (#[trigger] v[j])@
}

/// Adds `s` to `v` unless it is there; says whether it was added.
fn insert_text(v: &mut Vec<String>, s: &str) -> (r: bool)
    requires
        distinct(old(v)@),
    ensures
        distinct(final(v)@),
        r == !texts(old(v)@).contains(s@),
        texts(final(v)@) == texts(old(v)@).insert(s@),
{
    let t = String::from_str(s);
    let mut i: usize = 0;
    while i < v.len()
        invariant
            0 <= i <= v@.len(),
            v@ == old(v)@,
            distinct(old(v)@),
            t@ == s@,
            forall|k: int| 0 <= k < i ==> (#[trigger] v@[k])@ != s@,
        decreases v@.len() - i,
    {
        if v[i] == t {
            assert(texts(v@).contains(s@));
            assert(texts(v@).insert(s@) =~= texts(v@));
            return false;
        }
        i = i + 1;
    }
    let ghost before = v@;
    v.push(t);
    assert forall|a: int, b: int| 0 <= a < b < v@.len() implies (#[trigger] v@[a])@ != (#[trigger] v@[b])@ by {
        if b == before.len() {
            assert(before[a]@ != s@);
        } else {
            assert(v@[a] == before[a] && v@[b] == before[b]);
        }
    }
    assert forall|x: Seq<char>| texts(v@).contains(x) <==> texts(before).insert(s@).contains(x) by {
        if texts(v@).contains(x) {
            let k = choose|k: int| 0 <= k < v@.len() && (#[trigger] v@[k])@ == x;
            if k < before.len() {
                assert(before[k] == v@[k]);
            }
        }
        if texts(before).contains(x) {
            let k = choose|k: int| 0 <= k < before.len() && (#[trigger] before[k])@ == x;
            assert(v@[k] == before[k]);
        }
        if x == s@ {
            assert(v@[before.len() as int]@ == x);
        }
    }
    assert(texts(v@) =~= texts(before).insert(s@));
    true
}

/// Takes `s` out of `v`.
fn remove_text(v: &mut Vec<String>, s: &str)
    requires
        distinct(old(v)@),
    ensures
        distinct(final(v)@),
        texts(final(v)@) == texts(old(v)@).remove(s@),
{
    let t = String::from_str(s);
    let ghost before = v@;
    let mut kept: Vec<String> = Vec::new();
    let ghost mut idx: Seq<int> = Seq::empty();
    let mut i: usize = 0;
    while i < v.len()
        invariant
            0 <= i <= v@.len(),
            v@ == before,
            distinct(before),
            t@ == s@,
            idx.len() == kept@.len(),
            forall|k: int| 0 <= k < idx.len() ==> 0 <= #[trigger] idx[k] < i,
            forall|k: int, l: int| 0 <= k < l < idx.len() ==> #[trigger] idx[k] < #[trigger] idx[l],
            forall|k: int| 0 <= k < kept@.len() ==> (#[trigger] kept@[k])@ == before[idx[k]]@ && kept@[k]@ != s@,
            forall|m: int| 0 <= m < i && before[m]@ != s@ ==> exists|k: int| 0 <= k < idx.len() && #[trigger] idx[k] == m,
        decreases v@.len() - i,
    {
        if v[i] != t {
            kept.push(v[i].clone());
            proof {
                let prev = idx;
                idx = idx.push(i as int);
                assert forall|m: int| 0 <= m < i + 1 && before[m]@ != s@ implies exists|k: int|
                    0 <= k < idx.len() && #[trigger] idx[k] == m by {
                    if m < i {
                        let k = choose|k: int| 0 <= k < prev.len() && #[trigger] prev[k] == m;
                        assert(idx[k] == prev[k]);
                    } else {
                        assert(idx[idx.len() - 1] == m);
                    }
                }
            }
        }
        i = i + 1;
    }
    *v = kept;
    assert forall|a: int, b: int| 0 <= a < b < v@.len() implies (#[trigger] v@[a])@ != (#[trigger] v@[b])@ by {
        assert(idx[a] < idx[b]);
        assert(before[idx[a]]@ != before[idx[b]]@);
    }
    assert forall|x: Seq<char>| texts(v@).contains(x) <==> texts(before).remove(s@).contains(x) by {
        if texts(v@).contains(x) {
            let k = choose|k: int| 0 <= k < v@.len() && (#[trigger] v@[k])@ == x;
            assert(before[idx[k]]@ == x);
        }
        if texts(before).contains(x) && x != s@ {
            let m = choose|m: int| 0 <= m < before.len() && (#[trigger] before[m])@ == x;
            let k = choose|k: int| 0 <= k < idx.len() && #[trigger] idx[k] == m;
            assert(v@[k]@ == x);
        }
    }
    assert(texts(v@) =~= texts(before).remove(s@));
}

/// The client ids with an open menu stream and those with an open game
/// stream.
#[derive(Debug)]
pub struct ConnectionTracker {
    menu_clients: Vec<String>,
    game_clients: Vec<String>,
}

impl ConnectionTracker {
    /// Each id is held at most once per kind of stream.
    pub closed spec fn wf(&self) -> bool {
        distinct(self.menu_clients@) && distinct(self.game_clients@)
    }

    /// The ids with an open menu stream.
    pub closed spec fn menu(&self) -> Set<Seq<char>> {
        texts(self.menu_clients@)
    }

    /// The ids with an open game stream.
    pub closed spec fn game(&self) -> Set<Seq<char>> {
        texts(self.game_clients@)
    }

    /// A tracker with no stream open.
    pub fn new() -> (r: Self)
        ensures
            r.wf(),
            r.menu() == Set::<Seq<char>>::empty(),
            r.game() == Set::<Seq<char>>::empty(),
    {
        let r = ConnectionTracker { menu_clients: Vec::new(), game_clients: Vec::new() };
        assert(r.menu() =~= Set::<Seq<char>>::empty());
        assert(r.game() =~= Set::<Seq<char>>::empty());
        r
    }

    /// Records a menu stream of `client_id`; refused (false) when one is
    /// already open.
    pub fn add_menu_client(&mut self, client_id: &str) -> (r: bool)
        requires
            old(self).wf(),
        ensures
            final(self).wf(),
            r == !old(self).menu().contains(client_id@),
            final(self).menu() == old(self).menu().insert(client_id@),
            final(self).game() == old(self).game(),
    {
        insert_text(&mut self.menu_clients, client_id)
    }

    /// Forgets the menu stream of `client_id`.
    pub fn remove_menu_client(&mut self, client_id: &str)
        requires
            old(self).wf(),
        ensures
            final(self).wf(),
            final(self).menu() == old(self).menu().remove(client_id@),
            final(self).game() == old(self).game(),
    {
        remove_text(&mut self.menu_clients, client_id)
    }

    /// Records a game stream of `client_id`; refused (false) when one is
    /// already open.
    pub fn add_game_client(&mut self, client_id: &str) -> (r: bool)
        requires
            old(self).wf(),
        ensures
            final(self).wf(),
            r == !old(self).game().contains(client_id@),
            final(self).game() == old(self).game().insert(client_id@),
            final(self).menu() == old(self).menu(),
    {
        insert_text(&mut self.game_clients, client_id)
    }

    /// Forgets the game stream of `client_id`.
    pub fn remove_game_client(&mut self, client_id: &str)
        requires
            old(self).wf(),
        ensures
            final(self).wf(),
            final(self).game() == old(self).game().remove(client_id@),
            final(self).menu() == old(self).menu(),
    {
        remove_text(&mut self.game_clients, client_id)
    }
}

/// Once a game stream of an id is recorded, another under the same id is
/// refused (its add answers false) until the first is removed; then one is
/// accepted again.
pub proof fn lemma_one_game_stream_per_id(
    t: ConnectionTracker,
    t1: ConnectionTracker,
    t2: ConnectionTracker,
    id: Seq<char>,
)
    requires
        t1.game() == t.game().insert(id),
        t2.game() == t1.game().remove(id),
    ensures
        t1.game().contains(id),
        !t2.game().contains(id),
{
}

} // verus!
