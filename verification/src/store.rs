//! The key-value table that the database task keeps: string keys, string
//! values, at most one value per key; a write replaces what the key held.
//!
//! The table is a list of pairs with distinct keys. vstd's contracts for
//! `HashMap` hold only for key types that `obeys_key_model` admits, which it
//! grants to integers and `bool` but not to `String`; with `String` keys a
//! `HashMap` would give no contract to prove the table's laws from.
use vstd::prelude::*;

verus! {

/// A table from string keys to string values.
pub struct Store {
    entries: Vec<(String, String)>,
}

/// A request to the database task.
pub enum Request {
    /// Store the value under the key.
    Write(String, String),
    /// Answer the value stored under the key.
    Read(String),
    /// Stop serving.
    Shutdown,
}

/// What the database task does after a request.
#[derive(Debug, PartialEq, Eq)]
pub enum Step {
    /// Go on with the next request.
    Continue,
    /// Send this value back.
    Answer(String),
    /// The key read has no value.
    Missing,
    /// Stop serving.
    Stop,
}

/// The table after `req`: a write stores its value under its key; other
/// requests leave the table as it was.
pub open spec fn apply_request(m: Map<Seq<char>, Seq<char>>, req: Request) -> Map<Seq<char>, Seq<char>> {
    match req {
        Request::Write(k, v) => m.insert(k@, v@),
        _ => m,
    }
}

/// The table after the first `n` of `reqs`, starting from an empty one.
pub open spec fn replay(reqs: Seq<Request>, n: nat) -> Map<Seq<char>, Seq<char>>
    decreases n,
{
    if n == 0 {
        Map::empty()
    } else {
        apply_request(replay(reqs, (n - 1) as nat), reqs[n - 1])
    }
}

/// Whether `req` writes under key `k`.
pub open spec fn writes_key(req: Request, k: Seq<char>) -> bool {
    req matches Request::Write(k2, _) && k2@ == k
}

/// Whether no two entries have the same key.
pub open spec fn keys_distinct(entries: Seq<(String, String)>) -> bool {
    forall|i: int, j: int|
        0 <= i < j < entries.len() ==> #[trigger] entries[i].0@ != #[trigger] entries[j].0@
}

/// Whether some entry has key `k`.
pub open spec fn has_key(entries: Seq<(String, String)>, k: Seq<char>) -> bool {
    exists|i: int| 0 <= i < entries.len() && #[trigger] entries[i].0@ == k
}

/// The map that the entries stand for.
pub open spec fn entries_map(entries: Seq<(String, String)>) -> Map<Seq<char>, Seq<char>> {
    Map::new(
        |k: Seq<char>| has_key(entries, k),
        |k: Seq<char>| entries[choose|i: int| 0 <= i < entries.len() && #[trigger] entries[i].0@ == k].1@,
    )
}

impl View for Store {
    type V = Map<Seq<char>, Seq<char>>;

    closed spec fn view(&self) -> Map<Seq<char>, Seq<char>> {
        entries_map(self.entries@)
    }
}

impl Store {
    #[verifier::type_invariant]
    closed spec fn inv(self) -> bool {
        keys_distinct(self.entries@)
    }

    /// An empty table.
    pub fn new() -> (s: Store)
        ensures
            s@ == Map::<Seq<char>, Seq<char>>::empty(),
    {
        let s = Store { entries: Vec::new() };
        assert(s@ =~= Map::<Seq<char>, Seq<char>>::empty());
        s
    }

    /// The position of the entry with key `key` in `entries`, if there is
    /// one.
    fn position_in(entries: &Vec<(String, String)>, key: &String) -> (r: Option<usize>)
        ensures
            r is None ==> !has_key(entries@, key@),
            r matches Some(i) ==> i < entries@.len() && entries@[i as int].0@ == key@,
    {
        let mut i: usize = 0;
        while i < entries.len()
            invariant
                i <= entries@.len(),
                forall|j: int| 0 <= j < i ==> #[trigger] entries@[j].0@ != key@,
            decreases entries@.len() - i,
        {
            if entries[i].0 == *key {
                return Some(i);
            }
            i = i + 1;
        }
        None
    }

    /// Stores `value` under `key`, replacing what `key` held.
    pub fn insert(&mut self, key: String, value: String)
        ensures
            final(self)@ == old(self)@.insert(key@, value@),
    {
        proof {
            use_type_invariant(&*self);
        }
        let ghost old_entries = self.entries@;
        let ghost k = key@;
        let ghost v = value@;
        let mut entries = Vec::new();
        std::mem::swap(&mut entries, &mut self.entries);
        let ghost p: int;
        match Store::position_in(&entries, &key) {
            Some(i) => {
                entries.set(i, (key, value));
                proof {
                    p = i as int;
                }
            },
            None => {
                entries.push((key, value));
                proof {
                    p = old_entries.len() as int;
                }
            },
        }
        proof {
            lemma_write_entry(old_entries, entries@, p, k, v);
        }
        self.entries = entries;
    }

    /// Serves one request: a write stores its value under its key, a read
    /// answers the value stored under its key (or `Missing` where there is
    /// none) and leaves the table as it was, and `Shutdown` stops the task.
    pub fn serve(&mut self, request: Request) -> (s: Step)
        ensures
            final(self)@ == apply_request(old(self)@, request),
            match request {
                Request::Write(_, _) => s is Continue,
                Request::Read(k) => if old(self)@.contains_key(k@) {
                    (s matches Step::Answer(v) && v@ == old(self)@[k@])
                } else {
                    s is Missing
                },
                Request::Shutdown => s is Stop,
            },
    {
        match request {
            Request::Write(key, value) => {
                self.insert(key, value);
                Step::Continue
            },
            Request::Read(key) => match self.get(&key) {
                Some(v) => Step::Answer(v.clone()),
                None => Step::Missing,
            },
            Request::Shutdown => Step::Stop,
        }
    }

    /// The value stored under `key`, if any.
    pub fn get(&self, key: &String) -> (r: Option<&String>)
        ensures
            r is Some <==> self@.contains_key(key@),
            r matches Some(v) ==> v@ == self@[key@],
    {
        proof {
            use_type_invariant(self);
        }
        match Store::position_in(&self.entries, key) {
            Some(i) => {
                proof {
                    let w = choose|w: int| 0 <= w < self.entries@.len() && #[trigger] self.entries@[w].0@ == key@;
                    assert(w == i);
                }
                Some(&self.entries[i].1)
            },
            None => None,
        }
    }
}

/// Writing `v` under `k` at position `p` of `old` (over the entry with key
/// `k` when `p` is inside `old`, appended when `p` is its length and `k` is
/// new) keeps the keys distinct and stores `v` under `k` in the map.
proof fn lemma_write_entry(old: Seq<(String, String)>, new: Seq<(String, String)>, p: int, k: Seq<char>, v: Seq<char>)
    requires
        keys_distinct(old),
        0 <= p <= old.len(),
        new.len() == (if p < old.len() { old.len() as int } else { old.len() + 1int }),
        forall|j: int| 0 <= j < old.len() && j != p ==> #[trigger] new[j] == old[j],
        new[p].0@ == k,
        new[p].1@ == v,
        p < old.len() ==> old[p].0@ == k,
        p == old.len() ==> !has_key(old, k),
    ensures
        keys_distinct(new),
        entries_map(new) == entries_map(old).insert(k, v),
{
    assert forall|a: int, b: int| 0 <= a < b < new.len() implies #[trigger] new[a].0@ != #[trigger] new[b].0@ by {
        if a == p {
            if p < old.len() {
                assert(old[a].0@ != old[b].0@);
            } else {
                assert(false);
            }
        } else if b == p {
            if p < old.len() {
                assert(old[a].0@ != old[b].0@);
            } else {
                assert(old[a].0@ != k);
            }
        } else {
            assert(old[a].0@ != old[b].0@);
        }
    }
    assert forall|q: Seq<char>| #[trigger] has_key(new, q) == (has_key(old, q) || q == k) by {
        if has_key(old, q) {
            let w = choose|w: int| 0 <= w < old.len() && #[trigger] old[w].0@ == q;
            if w != p {
                assert(new[w].0@ == q);
            }
        }
        if q == k {
            assert(new[p].0@ == q);
        }
        if has_key(new, q) {
            let w = choose|w: int| 0 <= w < new.len() && #[trigger] new[w].0@ == q;
            if w != p {
                assert(old[w].0@ == q);
            }
        }
    }
    assert forall|q: Seq<char>| has_key(new, q) implies entries_map(new)[q]
        == #[trigger] map_after_insert(old, k, v)[q] by {
        let w = choose|w: int| 0 <= w < new.len() && #[trigger] new[w].0@ == q;
        if q == k {
            assert(w == p);
        } else {
            let w2 = choose|w2: int| 0 <= w2 < old.len() && #[trigger] old[w2].0@ == q;
            assert(w2 != p);
            assert(new[w2].0@ == q);
            assert(w2 == w);
        }
    }
    assert(entries_map(new) =~= entries_map(old).insert(k, v));
}

/// The map of `entries` after storing `v` under `k`.
spec fn map_after_insert(entries: Seq<(String, String)>, k: Seq<char>, v: Seq<char>) -> Map<
    Seq<char>,
    Seq<char>,
> {
    entries_map(entries).insert(k, v)
}

/// Requests `i .. n` write nothing under `k`: the table keeps what it held
/// under `k` after the first `i` requests.
proof fn lemma_replay_keeps_key(reqs: Seq<Request>, i: nat, n: nat, k: Seq<char>)
    requires
        i <= n <= reqs.len(),
        forall|l: int| i <= l < n ==> !writes_key(#[trigger] reqs[l], k),
    ensures
        replay(reqs, n).contains_key(k) == replay(reqs, i).contains_key(k),
        replay(reqs, i).contains_key(k) ==> replay(reqs, n)[k] == replay(reqs, i)[k],
    decreases n - i,
{
    if n > i {
        lemma_replay_keeps_key(reqs, i, (n - 1) as nat, k);
        assert(!writes_key(reqs[n - 1], k));
    }
}

/// A table that starts empty and is taken through `reqs` one request at a
/// time, each as [`Store::serve`] takes it (`states[l + 1]` is
/// `apply_request(states[l], reqs[l])`), holds after `l` requests what
/// [`replay`] gives for them; so the laws on [`replay`] hold of what the
/// requests served in order are answered.
pub proof fn law_served_stream_is_replay(states: Seq<Map<Seq<char>, Seq<char>>>, reqs: Seq<Request>)
    requires
        states.len() == reqs.len() + 1,
        states[0] == Map::<Seq<char>, Seq<char>>::empty(),
        forall|l: int| 0 <= l < reqs.len() ==> #[trigger] states[l + 1] == apply_request(states[l], reqs[l]),
    ensures
        forall|l: int| 0 <= l <= reqs.len() ==> #[trigger] states[l] == replay(reqs, l as nat),
{
    assert forall|l: int| 0 <= l <= reqs.len() implies #[trigger] states[l] == replay(reqs, l as nat) by {
        lemma_states_replay(states, reqs, l as nat);
    }
}

proof fn lemma_states_replay(states: Seq<Map<Seq<char>, Seq<char>>>, reqs: Seq<Request>, l: nat)
    requires
        l <= reqs.len(),
        states.len() == reqs.len() + 1,
        states[0] == Map::<Seq<char>, Seq<char>>::empty(),
        forall|m: int| 0 <= m < reqs.len() ==> #[trigger] states[m + 1] == apply_request(states[m], reqs[m]),
    ensures
        states[l as int] == replay(reqs, l),
    decreases l,
{
    if l > 0 {
        lemma_states_replay(states, reqs, (l - 1) as nat);
        assert(states[(l - 1) + 1] == apply_request(states[l - 1], reqs[l - 1]));
    }
}

/// Served in order from an empty table, a read answers the value of the
/// latest earlier write under its key.
pub proof fn law_read_sees_latest_write(reqs: Seq<Request>, i: int, j: int)
    requires
        0 <= i < j < reqs.len(),
        reqs[i] is Write,
        reqs[j] is Read,
        writes_key(reqs[i], reqs[j]->Read_0@),
        forall|l: int| i < l < j ==> !writes_key(#[trigger] reqs[l], reqs[j]->Read_0@),
    ensures
        replay(reqs, j as nat).contains_key(reqs[j]->Read_0@),
        replay(reqs, j as nat)[reqs[j]->Read_0@] == reqs[i]->Write_1@,
{
    let k = reqs[j]->Read_0@;
    assert(replay(reqs, (i + 1) as nat) == replay(reqs, i as nat).insert(k, reqs[i]->Write_1@));
    lemma_replay_keeps_key(reqs, (i + 1) as nat, j as nat, k);
}

/// Served in order from an empty table, a read of a key that no earlier
/// request wrote finds it missing.
pub proof fn law_read_without_write_is_missing(reqs: Seq<Request>, j: int)
    requires
        0 <= j < reqs.len(),
        reqs[j] is Read,
        forall|l: int| 0 <= l < j ==> !writes_key(#[trigger] reqs[l], reqs[j]->Read_0@),
    ensures
        !replay(reqs, j as nat).contains_key(reqs[j]->Read_0@),
{
    lemma_replay_keeps_key(reqs, 0, j as nat, reqs[j]->Read_0@);
}

/// A read gives back the last value written under the same key, and a write
/// under one key leaves every other key as it was.
pub proof fn law_read_after_write(m: Map<Seq<char>, Seq<char>>, k: Seq<char>, v: Seq<char>, other: Seq<char>)
    requires
        other != k,
    ensures
        m.insert(k, v).contains_key(k),
        m.insert(k, v)[k] == v,
        m.insert(k, v).contains_key(other) == m.contains_key(other),
        m.contains_key(other) ==> m.insert(k, v)[other] == m[other],
{
}

} // verus!
