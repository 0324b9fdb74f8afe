use crate::helpers::same_text;
use crate::message_error::MessageError;
use crate::messages::{opt_str_view, Message, MessageView, Role};
use crate::transport::{Channel, Streamable};
use vstd::map::*;
use vstd::prelude::*;

verus! {

/// A connected, logged-in player, with the channel that reaches its client.
pub struct Player<S> {
    pub id: String,
    pub stream: Channel<S>,
    pub opponent: Option<(String, usize)>,
    pub question: Option<String>,
    pub role: Option<Role>,
}

/// Mathematical model of a `Player`: everything but its channel.
pub struct PlayerView {
    pub id: Seq<char>,
    pub opponent: Option<(Seq<char>, nat)>,
    pub question: Option<Seq<char>>,
    pub role: Option<Role>,
}

impl<S> View for Player<S> {
    type V = PlayerView;

    open spec fn view(&self) -> PlayerView {
        PlayerView {
            id: self.id@,
            opponent: match self.opponent {
                Some(o) => Some((o.0@, o.1 as nat)),
                None => None,
            },
            question: opt_str_view(self.question),
            role: self.role,
        }
    }
}

/// A player just logged in: no role, no opponent, no question.
pub open spec fn fresh_player(id: Seq<char>) -> PlayerView {
    PlayerView { id, opponent: None, question: None, role: None }
}

impl<S> Player<S> {
    /// A player just logged in under `id`, reached through `stream`.
    pub fn new(id: String, stream: Channel<S>) -> (r: Player<S>)
        ensures
            r@ == fresh_player(id@),
            r.stream == stream,
    {
        Player { id, stream, opponent: None, question: None, role: None }
    }
}

/// Whether a player's opponent is `id`.
pub open spec fn names(p: PlayerView, id: Seq<char>) -> bool {
    p.opponent matches Some(o) && o.0 == id
}

/// A player with any pairing with `id` dropped, question included.
pub open spec fn cleared(p: PlayerView, id: Seq<char>) -> PlayerView {
    if names(p, id) {
        PlayerView { opponent: None, question: None, ..p }
    } else {
        p
    }
}

/// The registry once `id` has left: its entry is gone and nobody points at it.
pub open spec fn after_remove(m: Map<Seq<char>, PlayerView>, id: Seq<char>) -> Map<
    Seq<char>,
    PlayerView,
> {
    Map::new(|k: Seq<char>| m.contains_key(k) && k != id, |k: Seq<char>| cleared(m[k], id))
}

/// An account after a departure notice for `id`: when `due`, the notice was handed to
/// the channel once (taken or not); otherwise the account is untouched.
pub open spec fn took_notice(
    before: Seq<(MessageView, bool)>,
    after: Seq<(MessageView, bool)>,
    due: bool,
    id: Seq<char>,
) -> bool {
    if due {
        after == before.push((MessageView::PlayerNotAvailable(id), after.last().1))
    } else {
        after == before
    }
}

/// The accounts after `id` left registry `m`: its own is gone, each player paired
/// with it was handed the departure notice once, and nobody else was sent anything.
pub open spec fn notified(
    before: Map<Seq<char>, Seq<(MessageView, bool)>>,
    after: Map<Seq<char>, Seq<(MessageView, bool)>>,
    m: Map<Seq<char>, PlayerView>,
    id: Seq<char>,
) -> bool {
    &&& after.dom() == before.dom().remove(id)
    &&& forall|k: Seq<char>| #[trigger]
        after.contains_key(k) ==> took_notice(before[k], after[k], names(m[k], id), id)
}

/// A player with its role set.
pub open spec fn with_role(p: PlayerView, role: Role) -> PlayerView {
    PlayerView { role: Some(role), ..p }
}

/// A player paired with `opponent` over `question`, with no guess counted yet.
pub open spec fn with_opponent(p: PlayerView, opponent: Seq<char>, question: Seq<char>) -> PlayerView {
    PlayerView { opponent: Some((opponent, 0)), question: Some(question), ..p }
}

/// A player whose guess counter went up by one (it stays put at the top of `usize`).
pub open spec fn bumped(p: PlayerView) -> PlayerView {
    match p.opponent {
        Some(o) => PlayerView {
            opponent: Some((o.0, if o.1 < usize::MAX { o.1 + 1 } else { o.1 })),
            ..p
        },
        None => p,
    }
}

/// A guessing player nobody has challenged yet.
pub open spec fn is_free_guessing(p: PlayerView) -> bool {
    p.role == Some(Role::GuessingPlayer) && p.opponent is None
}

/// An asking player that is not playing yet.
pub open spec fn is_free_asking(p: PlayerView) -> bool {
    p.role == Some(Role::AskingPlayer) && p.opponent is None
}

/// Every pairing in the registry names a player that is still there.
pub open spec fn refs_closed(m: Map<Seq<char>, PlayerView>) -> bool {
    forall|k: Seq<char>|
        #[trigger] m.contains_key(k) ==> (m[k].opponent matches Some(o) ==> m.contains_key(o.0))
}

/// No two entries share an identifier.
pub open spec fn unique_ids(s: Seq<PlayerView>) -> bool {
    forall|i: int, j: int| 0 <= i < s.len() && 0 <= j < s.len() && i != j ==> s[i].id != s[j].id
}

/// Whether some entry has identifier `k`.
pub open spec fn has_id(s: Seq<PlayerView>, k: Seq<char>) -> bool {
    exists|i: int| 0 <= i < s.len() && (#[trigger] s[i]).id == k
}

/// The entries, keyed by identifier.
pub open spec fn map_of(s: Seq<PlayerView>) -> Map<Seq<char>, PlayerView> {
    Map::new(
        |k: Seq<char>| has_id(s, k),
        |k: Seq<char>| s[choose|i: int| 0 <= i < s.len() && (#[trigger] s[i]).id == k],
    )
}

/// With distinct identifiers, each entry is found under its own identifier.
proof fn lemma_map_of_at(s: Seq<PlayerView>, i: int)
    requires
        unique_ids(s),
        0 <= i < s.len(),
    ensures
        map_of(s).contains_key(s[i].id),
        map_of(s)[s[i].id] == s[i],
{
    assert(has_id(s, s[i].id));
    let j = choose|j: int| 0 <= j < s.len() && (#[trigger] s[j]).id == s[i].id;
    assert(i == j);
}

/// Replacing an entry by one with the same identifier replaces it in the map.
proof fn lemma_map_of_update(s: Seq<PlayerView>, i: int, v: PlayerView)
    requires
        unique_ids(s),
        0 <= i < s.len(),
        v.id == s[i].id,
    ensures
        unique_ids(s.update(i, v)),
        map_of(s.update(i, v)) == map_of(s).insert(v.id, v),
{
    let t = s.update(i, v);
    assert(unique_ids(t)) by {
        assert forall|a: int, b: int|
            0 <= a < t.len() && 0 <= b < t.len() && a != b implies t[a].id != t[b].id by {
            assert(t[a].id == s[a].id && t[b].id == s[b].id);
        }
    }
    assert forall|k: Seq<char>| #[trigger] has_id(t, k) <==> has_id(s, k) by {
        if has_id(s, k) {
            let j = choose|j: int| 0 <= j < s.len() && (#[trigger] s[j]).id == k;
            assert(t[j].id == k);
        }
        if has_id(t, k) {
            let j = choose|j: int| 0 <= j < t.len() && (#[trigger] t[j]).id == k;
            assert(s[j].id == k);
        }
    }
    assert forall|k: Seq<char>| #[trigger] map_of(t).contains_key(k) implies map_of(t)[k] == map_of(
        s,
    ).insert(v.id, v)[k] by {
        let j = choose|j: int| 0 <= j < t.len() && (#[trigger] t[j]).id == k;
        lemma_map_of_at(t, j);
        if j != i {
            lemma_map_of_at(s, j);
        }
    }
    assert(map_of(t) =~= map_of(s).insert(v.id, v));
}

/// Appending an entry with a new identifier adds it to the map.
proof fn lemma_map_of_push(s: Seq<PlayerView>, v: PlayerView)
    requires
        unique_ids(s),
        !has_id(s, v.id),
    ensures
        unique_ids(s.push(v)),
        map_of(s.push(v)) == map_of(s).insert(v.id, v),
{
    let t = s.push(v);
    assert(unique_ids(t)) by {
        assert forall|a: int, b: int|
            0 <= a < t.len() && 0 <= b < t.len() && a != b implies t[a].id != t[b].id by {
            if a < s.len() && b < s.len() {
                assert(t[a] == s[a] && t[b] == s[b]);
            } else if a < s.len() {
                assert(t[a] == s[a]);
            } else {
                assert(t[b] == s[b]);
            }
        }
    }
    assert forall|k: Seq<char>| #[trigger] has_id(t, k) <==> (has_id(s, k) || k == v.id) by {
        if has_id(s, k) {
            let j = choose|j: int| 0 <= j < s.len() && (#[trigger] s[j]).id == k;
            assert(t[j].id == k);
        }
        if k == v.id {
            assert(t[s.len() as int].id == k);
        }
        if has_id(t, k) && k != v.id {
            let j = choose|j: int| 0 <= j < t.len() && (#[trigger] t[j]).id == k;
            assert(s[j].id == k);
        }
    }
    assert forall|k: Seq<char>| #[trigger] map_of(t).contains_key(k) implies map_of(t)[k] == map_of(
        s,
    ).insert(v.id, v)[k] by {
        let j = choose|j: int| 0 <= j < t.len() && (#[trigger] t[j]).id == k;
        lemma_map_of_at(t, j);
        if j < s.len() {
            assert(t[j] == s[j]);
            lemma_map_of_at(s, j);
        }
    }
    assert(map_of(t) =~= map_of(s).insert(v.id, v));
}

/// Dropping an entry drops its identifier from the map.
proof fn lemma_map_of_remove(s: Seq<PlayerView>, i: int)
    requires
        unique_ids(s),
        0 <= i < s.len(),
    ensures
        unique_ids(s.remove(i)),
        map_of(s.remove(i)) == map_of(s).remove(s[i].id),
{
    let t = s.remove(i);
    let ix = |a: int| if a < i { a } else { a + 1 };
    assert forall|a: int| 0 <= a < t.len() implies #[trigger] t[a] == s[ix(a)] by {}
    assert(unique_ids(t)) by {
        assert forall|a: int, b: int|
            0 <= a < t.len() && 0 <= b < t.len() && a != b implies t[a].id != t[b].id by {
            assert(t[a] == s[ix(a)] && t[b] == s[ix(b)]);
        }
    }
    assert forall|k: Seq<char>| #[trigger] has_id(t, k) <==> (has_id(s, k) && k != s[i].id) by {
        if has_id(s, k) && k != s[i].id {
            let j = choose|j: int| 0 <= j < s.len() && (#[trigger] s[j]).id == k;
            let a = if j < i { j } else { j - 1 };
            assert(t[a] == s[ix(a)]);
            assert(t[a].id == k);
        }
        if has_id(t, k) {
            let a = choose|a: int| 0 <= a < t.len() && (#[trigger] t[a]).id == k;
            assert(t[a] == s[ix(a)]);
            assert(s[ix(a)].id == k);
        }
    }
    assert forall|k: Seq<char>| #[trigger] map_of(t).contains_key(k) implies map_of(t)[k] == map_of(
        s,
    ).remove(s[i].id)[k] by {
        let a = choose|a: int| 0 <= a < t.len() && (#[trigger] t[a]).id == k;
        lemma_map_of_at(t, a);
        assert(t[a] == s[ix(a)]);
        lemma_map_of_at(s, ix(a));
    }
    assert(map_of(t) =~= map_of(s).remove(s[i].id));
}

/// Clearing every pairing with `id` clears it in the map.
proof fn lemma_map_of_cleared(s: Seq<PlayerView>, id: Seq<char>)
    requires
        unique_ids(s),
    ensures
        unique_ids(s.map_values(|p: PlayerView| cleared(p, id))),
        map_of(s.map_values(|p: PlayerView| cleared(p, id))) == Map::new(
            |k: Seq<char>| map_of(s).contains_key(k),
            |k: Seq<char>| cleared(map_of(s)[k], id),
        ),
{
    let t = s.map_values(|p: PlayerView| cleared(p, id));
    assert forall|a: int| 0 <= a < t.len() implies #[trigger] t[a] == cleared(s[a], id) by {}
    assert(unique_ids(t)) by {
        assert forall|a: int, b: int|
            0 <= a < t.len() && 0 <= b < t.len() && a != b implies t[a].id != t[b].id by {
            assert(t[a] == cleared(s[a], id) && t[b] == cleared(s[b], id));
        }
    }
    let target = Map::new(
        |k: Seq<char>| map_of(s).contains_key(k),
        |k: Seq<char>| cleared(map_of(s)[k], id),
    );
    assert forall|k: Seq<char>| #[trigger] has_id(t, k) <==> has_id(s, k) by {
        if has_id(s, k) {
            let j = choose|j: int| 0 <= j < s.len() && (#[trigger] s[j]).id == k;
            assert(t[j] == cleared(s[j], id));
        }
        if has_id(t, k) {
            let j = choose|j: int| 0 <= j < t.len() && (#[trigger] t[j]).id == k;
            assert(t[j] == cleared(s[j], id));
        }
    }
    assert forall|k: Seq<char>| #[trigger] map_of(t).contains_key(k) implies map_of(t)[k]
        == target[k] by {
        let j = choose|j: int| 0 <= j < t.len() && (#[trigger] t[j]).id == k;
        assert(t[j] == cleared(s[j], id));
        lemma_map_of_at(t, j);
        lemma_map_of_at(s, j);
    }
    assert(map_of(t) =~= target);
}

/// The models of a sequence of players.
pub open spec fn views<S>(ps: Seq<Player<S>>) -> Seq<PlayerView> {
    ps.map_values(|p: Player<S>| p@)
}

/// Every message handed to each player's channel, keyed by identifier.
pub open spec fn accounts<S>(ps: Seq<Player<S>>) -> Map<Seq<char>, Seq<(MessageView, bool)>> {
    Map::new(
        |k: Seq<char>| has_id(views(ps), k),
        |k: Seq<char>|
            ps[choose|i: int| 0 <= i < views(ps).len() && (#[trigger] views(ps)[i]).id == k].stream.sent(),
    )
}

/// With distinct identifiers, each player's account is found under its identifier.
proof fn lemma_accounts_at<S>(ps: Seq<Player<S>>, i: int)
    requires
        unique_ids(views(ps)),
        0 <= i < ps.len(),
    ensures
        accounts(ps).contains_key(ps[i].id@),
        accounts(ps)[ps[i].id@] == ps[i].stream.sent(),
{
    let vs = views(ps);
    assert(vs[i] == ps[i]@);
    assert(has_id(vs, ps[i].id@));
    let j = choose|j: int| 0 <= j < vs.len() && (#[trigger] vs[j]).id == ps[i].id@;
    assert(vs[j] == ps[j]@);
}

/// Same identifiers at the same places, and only the channel at `i` may have taken more.
proof fn lemma_accounts_update<S>(a: Seq<Player<S>>, b: Seq<Player<S>>, i: int)
    requires
        unique_ids(views(a)),
        a.len() == b.len(),
        0 <= i < a.len(),
        forall|j: int| 0 <= j < a.len() ==> #[trigger] b[j].id@ == a[j].id@,
        forall|j: int| 0 <= j < a.len() && j != i ==> #[trigger] b[j].stream.sent() == a[j].stream.sent(),
    ensures
        unique_ids(views(b)),
        accounts(b) == accounts(a).insert(a[i].id@, b[i].stream.sent()),
{
    let va = views(a);
    let vb = views(b);
    assert forall|j: int| 0 <= j < a.len() implies #[trigger] vb[j].id == va[j].id by {
        assert(vb[j] == b[j]@ && va[j] == a[j]@);
    }
    assert(unique_ids(vb));
    assert forall|k: Seq<char>| has_id(vb, k) <==> has_id(va, k) by {
        if has_id(va, k) {
            let j = choose|j: int| 0 <= j < va.len() && (#[trigger] va[j]).id == k;
            assert(vb[j].id == k);
        }
        if has_id(vb, k) {
            let j = choose|j: int| 0 <= j < vb.len() && (#[trigger] vb[j]).id == k;
            assert(va[j].id == k);
        }
    }
    let target = accounts(a).insert(a[i].id@, b[i].stream.sent());
    assert forall|k: Seq<char>| #[trigger] accounts(b).contains_key(k) implies accounts(b)[k]
        == target[k] by {
        let j = choose|j: int| 0 <= j < vb.len() && (#[trigger] vb[j]).id == k;
        assert(vb[j] == b[j]@);
        lemma_accounts_at(b, j);
        lemma_accounts_at(a, j);
        if j != i {
            assert(va[j] == a[j]@ && va[i] == a[i]@);
        }
    }
    lemma_accounts_at(a, i);
    assert(accounts(b) =~= target);
}

/// A new player at the end brings its own account.
proof fn lemma_accounts_push<S>(a: Seq<Player<S>>, p: Player<S>)
    requires
        unique_ids(views(a.push(p))),
    ensures
        accounts(a.push(p)) == accounts(a).insert(p.id@, p.stream.sent()),
{
    let b = a.push(p);
    let va = views(a);
    let vb = views(b);
    assert forall|j: int| 0 <= j < a.len() implies #[trigger] vb[j] == va[j] by {
        assert(b[j] == a[j]);
    }
    assert(unique_ids(va)) by {
        assert forall|x: int, y: int|
            0 <= x < va.len() && 0 <= y < va.len() && x != y implies va[x].id != va[y].id by {
            assert(vb[x] == va[x] && vb[y] == va[y]);
        }
    }
    assert(vb[a.len() as int] == p@);
    assert forall|k: Seq<char>| has_id(vb, k) <==> (has_id(va, k) || k == p.id@) by {
        if has_id(va, k) {
            let j = choose|j: int| 0 <= j < va.len() && (#[trigger] va[j]).id == k;
            assert(vb[j].id == k);
        }
        if has_id(vb, k) && k != p.id@ {
            let j = choose|j: int| 0 <= j < vb.len() && (#[trigger] vb[j]).id == k;
            assert(va[j].id == k);
        }
    }
    let target = accounts(a).insert(p.id@, p.stream.sent());
    assert forall|k: Seq<char>| #[trigger] accounts(b).contains_key(k) implies accounts(b)[k]
        == target[k] by {
        let j = choose|j: int| 0 <= j < vb.len() && (#[trigger] vb[j]).id == k;
        lemma_accounts_at(b, j);
        if j < a.len() {
            assert(b[j] == a[j]);
            assert(vb[j] == b[j]@);
            lemma_accounts_at(a, j);
        } else {
            assert(b[j] == p);
        }
    }
    assert(accounts(b) =~= target);
}

/// Dropping a player drops its account.
proof fn lemma_accounts_remove<S>(a: Seq<Player<S>>, i: int)
    requires
        unique_ids(views(a)),
        0 <= i < a.len(),
    ensures
        accounts(a.remove(i)) == accounts(a).remove(a[i].id@),
{
    let b = a.remove(i);
    let va = views(a);
    let vb = views(b);
    let ix = |x: int| if x < i { x } else { x + 1 };
    assert forall|x: int| 0 <= x < b.len() implies #[trigger] b[x] == a[ix(x)] by {}
    assert forall|x: int| 0 <= x < b.len() implies #[trigger] vb[x] == va[ix(x)] by {
        assert(b[x] == a[ix(x)]);
    }
    assert(unique_ids(vb)) by {
        assert forall|x: int, y: int|
            0 <= x < vb.len() && 0 <= y < vb.len() && x != y implies vb[x].id != vb[y].id by {
            assert(vb[x] == va[ix(x)] && vb[y] == va[ix(y)]);
        }
    }
    assert(va[i] == a[i]@);
    assert forall|k: Seq<char>| has_id(vb, k) <==> (has_id(va, k) && k != a[i].id@) by {
        if has_id(va, k) && k != a[i].id@ {
            let j = choose|j: int| 0 <= j < va.len() && (#[trigger] va[j]).id == k;
            let x = if j < i { j } else { j - 1 };
            assert(vb[x] == va[ix(x)]);
            assert(vb[x].id == k);
        }
        if has_id(vb, k) {
            let x = choose|x: int| 0 <= x < vb.len() && (#[trigger] vb[x]).id == k;
            assert(vb[x] == va[ix(x)]);
        }
    }
    let target = accounts(a).remove(a[i].id@);
    assert forall|k: Seq<char>| #[trigger] accounts(b).contains_key(k) implies accounts(b)[k]
        == target[k] by {
        let x = choose|x: int| 0 <= x < vb.len() && (#[trigger] vb[x]).id == k;
        lemma_accounts_at(b, x);
        assert(b[x] == a[ix(x)]);
        assert(vb[x] == b[x]@);
        lemma_accounts_at(a, ix(x));
    }
    assert(accounts(b) =~= target);
}

/// The shared collection of logged-in players, keyed by identifier.
pub struct Players<S> {
    players: Vec<Player<S>>,
}

impl<S> Players<S> {
    /// The models of the entries, in storage order.
    pub closed spec fn entries(&self) -> Seq<PlayerView> {
        views(self.players@)
    }

    /// Every message handed to each player's channel, with whether it was taken,
    /// keyed by identifier.
    pub closed spec fn sent_to(&self) -> Map<Seq<char>, Seq<(MessageView, bool)>> {
        accounts(self.players@)
    }

    /// Every logged-in player has an account and nobody else does.
    pub proof fn lemma_sent_to_dom(&self)
        ensures
            self.sent_to().dom() == self@.dom(),
    {
        assert(self.sent_to().dom() =~= self@.dom());
    }

    /// Identifiers are distinct.
    pub closed spec fn wf(&self) -> bool {
        unique_ids(self.entries())
    }

    proof fn lemma_view_at(&self, i: int)
        requires
            self.wf(),
            0 <= i < self.players@.len(),
        ensures
            self@.contains_key(self.players@[i].id@),
            self@[self.players@[i].id@] == self.players@[i]@,
    {
        assert(self.entries()[i] == self.players@[i]@);
        lemma_map_of_at(self.entries(), i);
    }

    /// An empty registry.
    pub fn new() -> (r: Players<S>)
        ensures
            r.wf(),
            r@ == Map::<Seq<char>, PlayerView>::empty(),
            r.sent_to() == Map::<Seq<char>, Seq<(MessageView, bool)>>::empty(),
    {
        let r = Players { players: Vec::new() };
        assert(r@ =~= Map::<Seq<char>, PlayerView>::empty());
        assert(r.sent_to() =~= Map::<Seq<char>, Seq<(MessageView, bool)>>::empty());
        r
    }

    /// Position of the player `id`, if there is one.
    fn find(&self, id: &str) -> (r: Option<usize>)
        requires
            self.wf(),
        ensures
            match r {
                Some(i) => i < self.players@.len() && self.players@[i as int].id@ == id@,
                None => !self@.contains_key(id@),
            },
    {
        let mut i: usize = 0;
        while i < self.players.len()
            invariant
                i <= self.players@.len(),
                forall|j: int| 0 <= j < i ==> self.players@[j].id@ != id@,
            decreases self.players@.len() - i,
        {
            if same_text(self.players[i].id.as_str(), id) {
                return Some(i);
            }
            i = i + 1;
        }
        proof {
            if self@.contains_key(id@) {
                let j = choose|j: int|
                    0 <= j < self.entries().len() && (#[trigger] self.entries()[j]).id == id@;
                assert(self.entries()[j] == self.players@[j]@);
            }
        }
        None
    }

    /// Whether the player `id` is logged in.
    pub fn contains(&self, id: &str) -> (r: bool)
        requires
            self.wf(),
        ensures
            r == self@.contains_key(id@),
    {
        match self.find(id) {
            Some(i) => {
                proof { self.lemma_view_at(i as int); }
                true
            },
            None => false,
        }
    }

    /// The player `id`, if logged in.
    pub fn get(&self, id: &str) -> (r: Option<&Player<S>>)
        requires
            self.wf(),
        ensures
            r is Some <==> self@.contains_key(id@),
            r matches Some(p) ==> p@ == self@[id@],
    {
        match self.find(id) {
            Some(i) => {
                proof { self.lemma_view_at(i as int); }
                Some(&self.players[i])
            },
            None => None,
        }
    }
    /// Adds a player, or replaces the one with the same identifier.
    pub fn insert(&mut self, player: Player<S>)
        requires
            old(self).wf(),
        ensures
            final(self).wf(),
            final(self)@ == old(self)@.insert(player.id@, player@),
            final(self).sent_to() == old(self).sent_to().insert(player.id@, player.stream.sent()),
    {
        let ghost v = player@;
        let ghost p = player;
        let ghost s = self.entries();
        let ghost ps = self.players@;
        match self.find(player.id.as_str()) {
            Some(i) => {
                self.players.set(i, player);
                proof {
                    assert(self.entries() =~= s.update(i as int, v));
                    lemma_map_of_update(s, i as int, v);
                    assert(self.players@ == ps.update(i as int, p));
                    lemma_accounts_update(ps, self.players@, i as int);
                }
            },
            None => {
                self.players.push(player);
                proof {
                    assert(self.entries() =~= s.push(v));
                    assert(!has_id(s, v.id));
                    lemma_map_of_push(s, v);
                    assert(self.players@ == ps.push(p));
                    lemma_accounts_push(ps, p);
                }
            },
        }
    }

    /// Sets the role of the player `id`; says whether that player is logged in.
    pub fn set_role(&mut self, id: &str, role: Role) -> (r: bool)
        requires
            old(self).wf(),
        ensures
            final(self).wf(),
            r == old(self)@.contains_key(id@),
            r ==> final(self)@ == old(self)@.insert(id@, with_role(old(self)@[id@], role)),
            !r ==> final(self)@ == old(self)@,
        final(self).sent_to() == old(self).sent_to(),
    {
        let ghost s = self.entries();
        let ghost ps = self.players@;
        match self.find(id) {
            Some(i) => {
                proof { self.lemma_view_at(i as int); }
                self.players[i].role = Some(role);
                proof {
                    let v = with_role(s[i as int], role);
                    assert(self.entries() =~= s.update(i as int, v));
                    lemma_map_of_update(s, i as int, v);
                    lemma_accounts_update(ps, self.players@, i as int);
                    lemma_accounts_at(ps, i as int);
                    assert(old(self).sent_to().insert(ps[i as int].id@, ps[i as int].stream.sent()) =~= old(self).sent_to());
                }
                true
            },
            None => false,
        }
    }

    /// Pairs the player `id` with `opponent` over `question`, with no guess counted.
    pub fn set_opponent(&mut self, id: &str, opponent: String, question: String) -> (r: bool)
        requires
            old(self).wf(),
        ensures
            final(self).wf(),
            r == old(self)@.contains_key(id@),
            r ==> final(self)@ == old(self)@.insert(
                id@,
                with_opponent(old(self)@[id@], opponent@, question@),
            ),
            !r ==> final(self)@ == old(self)@,
        final(self).sent_to() == old(self).sent_to(),
    {
        let ghost s = self.entries();
        let ghost ps = self.players@;
        let ghost o = opponent@;
        let ghost q = question@;
        match self.find(id) {
            Some(i) => {
                proof { self.lemma_view_at(i as int); }
                self.players[i].opponent = Some((opponent, 0));
                self.players[i].question = Some(question);
                proof {
                    let v = with_opponent(s[i as int], o, q);
                    assert(self.entries() =~= s.update(i as int, v));
                    lemma_map_of_update(s, i as int, v);
                    lemma_accounts_update(ps, self.players@, i as int);
                    lemma_accounts_at(ps, i as int);
                    assert(old(self).sent_to().insert(ps[i as int].id@, ps[i as int].stream.sent()) =~= old(self).sent_to());
                }
                true
            },
            None => false,
        }
    }

    /// Counts one more guess for the player `id`, who must be logged in and paired.
    pub fn increase_guess_count(&mut self, id: &str) -> (r: Result<(), &'static str>)
        requires
            old(self).wf(),
        ensures
            final(self).wf(),
            r is Ok <==> old(self)@.contains_key(id@) && old(self)@[id@].opponent is Some,
            r is Ok ==> final(self)@ == old(self)@.insert(id@, bumped(old(self)@[id@])),
            r is Err ==> final(self)@ == old(self)@,
        final(self).sent_to() == old(self).sent_to(),
    {
        let ghost s = self.entries();
        let ghost ps = self.players@;
        match self.find(id) {
            Some(i) => {
                proof { self.lemma_view_at(i as int); }
                match &self.players[i].opponent {
                    Some(o) => {
                        let count = if o.1 < usize::MAX { o.1 + 1 } else { o.1 };
                        let opponent = o.0.clone();
                        self.players[i].opponent = Some((opponent, count));
                        proof {
                            let v = bumped(s[i as int]);
                            assert(self.entries() =~= s.update(i as int, v));
                            lemma_map_of_update(s, i as int, v);
                            lemma_accounts_update(ps, self.players@, i as int);
                            lemma_accounts_at(ps, i as int);
                            assert(old(self).sent_to().insert(ps[i as int].id@, ps[i as int].stream.sent()) =~= old(self).sent_to());
                        }
                        Ok(())
                    },
                    None => Err("Opponent not in players list"),
                }
            },
            None => Err("Player not registered"),
        }
    }

    /// Identifiers of the guessing players nobody has challenged, each once.
    pub fn list_available_guessing_players(&self) -> (r: Vec<String>)
        requires
            self.wf(),
        ensures
            forall|k: Seq<char>|
                (exists|j: int| 0 <= j < r@.len() && (#[trigger] r@[j])@ == k) <==> (
                self@.contains_key(k) && is_free_guessing(self@[k])),
            forall|a: int, b: int| 0 <= a < b < r@.len() ==> r@[a]@ != r@[b]@,
    {
        let mut r: Vec<String> = Vec::new();
        let ghost mut idx: Seq<int> = Seq::empty();
        let mut i: usize = 0;
        while i < self.players.len()
            invariant
                self.wf(),
                i <= self.players@.len(),
                idx.len() == r@.len(),
                forall|j: int|
                    0 <= j < r@.len() ==> 0 <= #[trigger] idx[j] < i && r@[j]@
                        == self.players@[idx[j]].id@ && is_free_guessing(self.players@[idx[j]]@),
                forall|a: int, b: int| 0 <= a < b < idx.len() ==> idx[a] < idx[b],
                forall|a: int|
                    0 <= a < i && is_free_guessing(#[trigger] self.players@[a]@) ==> exists|j: int|
                        0 <= j < idx.len() && idx[j] == a,
            decreases self.players@.len() - i,
        {
            let p = &self.players[i];
            let free = match (&p.role, &p.opponent) {
                (Some(Role::GuessingPlayer), None) => true,
                _ => false,
            };
            if free {
                r.push(p.id.clone());
                proof {
                    let old_idx = idx;
                    idx = idx.push(i as int);
                    assert forall|a: int|
                        0 <= a < i + 1 && is_free_guessing(
                            #[trigger] self.players@[a]@,
                        ) implies exists|j: int| 0 <= j < idx.len() && idx[j] == a by {
                        if a < i {
                            let j = choose|j: int| 0 <= j < old_idx.len() && old_idx[j] == a;
                            assert(idx[j] == a);
                        } else {
                            assert(idx[idx.len() - 1] == a);
                        }
                    }
                }
            }
            i = i + 1;
        }
        proof {
            assert forall|a: int, b: int| 0 <= a < b < r@.len() implies r@[a]@ != r@[b]@ by {
                assert(self.entries()[idx[a]] == self.players@[idx[a]]@);
                assert(self.entries()[idx[b]] == self.players@[idx[b]]@);
            }
            assert forall|k: Seq<char>|
                (exists|j: int| 0 <= j < r@.len() && (#[trigger] r@[j])@ == k) implies (
                self@.contains_key(k) && is_free_guessing(self@[k])) by {
                let j = choose|j: int| 0 <= j < r@.len() && (#[trigger] r@[j])@ == k;
                self.lemma_view_at(idx[j]);
            }
            assert forall|k: Seq<char>|
                self@.contains_key(k) && is_free_guessing(self@[k]) implies (exists|j: int|
                0 <= j < r@.len() && (#[trigger] r@[j])@ == k) by {
                let a = choose|a: int|
                    0 <= a < self.entries().len() && (#[trigger] self.entries()[a]).id == k;
                assert(self.entries()[a] == self.players@[a]@);
                self.lemma_view_at(a);
                let j = choose|j: int| 0 <= j < idx.len() && idx[j] == a;
                assert(r@[j]@ == k);
            }
        }
        r
    }
}

impl<S> Players<S> {
    /// One row per asking player in a game: its identifier, its opponent's, and the
    /// guesses counted so far.
    pub fn status_rows(&self) -> (r: Vec<(String, String, usize)>)
        requires
            self.wf(),
        ensures
            forall|j: int|
                0 <= j < r@.len() ==> {
                    let row = #[trigger] r@[j];
                    &&& self@.contains_key(row.0@)
                    &&& self@[row.0@].role == Some(Role::AskingPlayer)
                    &&& self@[row.0@].opponent == Some((row.1@, row.2 as nat))
                },
            forall|k: Seq<char>|
                self@.contains_key(k) && self@[k].role == Some(Role::AskingPlayer)
                    && self@[k].opponent is Some ==> exists|j: int|
                    0 <= j < r@.len() && (#[trigger] r@[j]).0@ == k,
            forall|a: int, b: int| 0 <= a < b < r@.len() ==> r@[a].0@ != r@[b].0@,
    {
        let mut r: Vec<(String, String, usize)> = Vec::new();
        let ghost mut idx: Seq<int> = Seq::empty();
        let mut i: usize = 0;
        while i < self.players.len()
            invariant
                self.wf(),
                i <= self.players@.len(),
                idx.len() == r@.len(),
                forall|j: int|
                    0 <= j < r@.len() ==> {
                        let p = self.players@[#[trigger] idx[j]]@;
                        &&& 0 <= idx[j] < i
                        &&& r@[j].0@ == p.id
                        &&& p.role == Some(Role::AskingPlayer)
                        &&& p.opponent == Some((r@[j].1@, r@[j].2 as nat))
                    },
                forall|a: int, b: int| 0 <= a < b < idx.len() ==> idx[a] < idx[b],
                forall|a: int|
                    0 <= a < i && (#[trigger] self.players@[a]@).role == Some(Role::AskingPlayer)
                        && self.players@[a]@.opponent is Some ==> exists|j: int|
                        0 <= j < idx.len() && idx[j] == a,
            decreases self.players@.len() - i,
        {
            let p = &self.players[i];
            if let (Some(Role::AskingPlayer), Some(o)) = (&p.role, &p.opponent) {
                r.push((p.id.clone(), o.0.clone(), o.1));
                proof {
                    let old_idx = idx;
                    idx = idx.push(i as int);
                    assert forall|a: int|
                        0 <= a < i + 1 && (#[trigger] self.players@[a]@).role == Some(
                            Role::AskingPlayer,
                        ) && self.players@[a]@.opponent is Some implies exists|j: int|
                        0 <= j < idx.len() && idx[j] == a by {
                        if a < i {
                            let j = choose|j: int| 0 <= j < old_idx.len() && old_idx[j] == a;
                            assert(idx[j] == a);
                        } else {
                            assert(idx[idx.len() - 1] == a);
                        }
                    }
                }
            }
            i = i + 1;
        }
        proof {
            assert forall|a: int, b: int| 0 <= a < b < r@.len() implies r@[a].0@ != r@[b].0@ by {
                assert(self.entries()[idx[a]] == self.players@[idx[a]]@);
                assert(self.entries()[idx[b]] == self.players@[idx[b]]@);
            }
            assert forall|j: int| 0 <= j < r@.len() implies {
                let row = #[trigger] r@[j];
                &&& self@.contains_key(row.0@)
                &&& self@[row.0@].role == Some(Role::AskingPlayer)
                &&& self@[row.0@].opponent == Some((row.1@, row.2 as nat))
            } by {
                self.lemma_view_at(idx[j]);
            }
            assert forall|k: Seq<char>|
                self@.contains_key(k) && self@[k].role == Some(Role::AskingPlayer)
                    && self@[k].opponent is Some implies exists|j: int|
                0 <= j < r@.len() && (#[trigger] r@[j]).0@ == k by {
                let a = choose|a: int|
                    0 <= a < self.entries().len() && (#[trigger] self.entries()[a]).id == k;
                assert(self.entries()[a] == self.players@[a]@);
                self.lemma_view_at(a);
                let j = choose|j: int| 0 <= j < idx.len() && idx[j] == a;
                assert(r@[j].0@ == k);
            }
        }
        r
    }
}

impl<S: Streamable> Players<S> {
    /// Writes `message` to the channel of the player `id`; `None` when no such player.
    pub fn send_to(&mut self, id: &str, message: &Message) -> (r: Option<Result<(), MessageError>>)
        requires
            old(self).wf(),
        ensures
            final(self).wf(),
            final(self)@ == old(self)@,
            r is Some <==> old(self)@.contains_key(id@),
            r matches Some(w) ==> final(self).sent_to() == old(self).sent_to().insert(
                id@,
                old(self).sent_to()[id@].push((message@, w is Ok)),
            ),
            r is None ==> final(self).sent_to() == old(self).sent_to(),
    {
        let ghost s = self.entries();
        let ghost ps = self.players@;
        match self.find(id) {
            Some(i) => {
                proof {
                    self.lemma_view_at(i as int);
                    lemma_accounts_at(ps, i as int);
                }
                let r = self.players[i].stream.write(message);
                proof {
                    assert(self.entries() =~= s);
                    lemma_accounts_update(ps, self.players@, i as int);
                    assert(old(self).sent_to().insert(ps[i as int].id@, ps[i as int].stream.sent())
                        =~= old(self).sent_to());
                }
                Some(r)
            },
            None => None,
        }
    }

    /// Removes the player `id`; every remaining player paired with it loses that
    /// pairing and its question, and is sent `PlayerNotAvailable(id)` through its
    /// channel; nobody else is sent anything.
    pub fn remove(&mut self, id: &str)
        requires
            old(self).wf(),
        ensures
            final(self).wf(),
            final(self)@ == after_remove(old(self)@, id@),
            notified(old(self).sent_to(), final(self).sent_to(), old(self)@, id@),
    {
        let ghost s = self.entries();
        let ghost ps = self.players@;
        let notice = Message::PlayerNotAvailable(id.to_owned());
        let mut i: usize = 0;
        while i < self.players.len()
            invariant
                i <= self.players@.len(),
                self.players@.len() == s.len(),
                forall|j: int|
                    0 <= j < s.len() ==> #[trigger] self.entries()[j] == if j < i {
                        cleared(s[j], id@)
                    } else {
                        s[j]
                    },
                s == views(ps),
                notice@ == MessageView::PlayerNotAvailable(id@),
                forall|j: int| 0 <= j < s.len() ==> #[trigger] self.players@[j].id@ == ps[j].id@,
                forall|j: int|
                    0 <= j < s.len() ==> took_notice(
                        ps[j].stream.sent(),
                        #[trigger] self.players@[j].stream.sent(),
                        j < i && names(s[j], id@),
                        id@,
                    ),
            decreases self.players@.len() - i,
        {
            assert(self.entries()[i as int] == self.players@[i as int]@);
            let paired = match &self.players[i].opponent {
                Some(o) => same_text(o.0.as_str(), id),
                None => false,
            };
            let ghost before = self.entries();
            let ghost pb = self.players@;
            if paired {
                self.players[i].opponent = None;
                self.players[i].question = None;
                let _ = self.players[i].stream.write(&notice);
            }
            proof {
                assert(self.entries() =~= before.update(i as int, cleared(s[i as int], id@)));
                assert(s[i as int] == ps[i as int]@);
                assert forall|j: int| 0 <= j < s.len() && j != i implies #[trigger] self.players@[j]
                    == pb[j] by {}
                assert(self.entries()[i as int] == self.players@[i as int]@);
            }
            i = i + 1;
        }
        proof {
            assert(self.entries() =~= s.map_values(|p: PlayerView| cleared(p, id@)));
            lemma_map_of_cleared(s, id@);
            let cs = self.players@;
            assert forall|k: Seq<char>| #[trigger] accounts(cs).contains_key(k) implies {
                &&& accounts(ps).contains_key(k)
                &&& map_of(s).contains_key(k)
                &&& took_notice(accounts(ps)[k], accounts(cs)[k], names(map_of(s)[k], id@), id@)
            } by {
                let j = choose|j: int|
                    0 <= j < views(cs).len() && (#[trigger] views(cs)[j]).id == k;
                assert(views(cs)[j] == cs[j]@);
                lemma_accounts_at(cs, j);
                lemma_accounts_at(ps, j);
                lemma_map_of_at(s, j);
                assert(s[j] == ps[j]@);
            }
            assert forall|k: Seq<char>| accounts(ps).contains_key(k) implies #[trigger] accounts(
                cs,
            ).contains_key(k) by {
                let j = choose|j: int|
                    0 <= j < views(ps).len() && (#[trigger] views(ps)[j]).id == k;
                assert(views(ps)[j] == ps[j]@);
                lemma_accounts_at(cs, j);
            }
        }
        let ghost c = self.entries();
        let ghost cs = self.players@;
        match self.find(id) {
            Some(k) => {
                self.players.remove(k);
                proof {
                    assert(c[k as int].id == id@);
                    assert(self.entries() =~= c.remove(k as int));
                    lemma_map_of_remove(c, k as int);
                    assert(self@ =~= after_remove(map_of(s), id@));
                    assert(views(cs) == c);
                    assert(cs[k as int]@ == c[k as int]);
                    lemma_accounts_remove(cs, k as int);
                    assert(accounts(cs).dom() =~= accounts(ps).dom());
                    assert(self.sent_to() == accounts(cs).remove(id@));
                    assert(self.sent_to().dom() =~= accounts(ps).dom().remove(id@));
                }
            },
            None => {
                proof {
                    assert(self@ =~= after_remove(map_of(s), id@));
                    assert(accounts(cs).dom() =~= accounts(ps).dom());
                    old(self).lemma_sent_to_dom();
                    assert(!map_of(s).contains_key(id@));
                    assert(accounts(ps).dom().remove(id@) =~= accounts(ps).dom());
                    assert(self.sent_to() == accounts(cs));
                }
            },
        }
    }
}


impl<S> View for Players<S> {
    type V = Map<Seq<char>, PlayerView>;

    closed spec fn view(&self) -> Map<Seq<char>, PlayerView> {
        map_of(self.entries())
    }
}

/// One change to the registry's membership.
pub enum RegistryOp {
    Insert(Seq<char>),
    Remove(Seq<char>),
}

/// The registry after one membership change: a login adds a fresh player, a
/// departure removes one and clears the pairings with it.
pub open spec fn apply_op(m: Map<Seq<char>, PlayerView>, op: RegistryOp) -> Map<
    Seq<char>,
    PlayerView,
> {
    match op {
        RegistryOp::Insert(id) => m.insert(id, fresh_player(id)),
        RegistryOp::Remove(id) => after_remove(m, id),
    }
}

/// The registry after a sequence of membership changes, in order.
pub open spec fn apply_ops(m: Map<Seq<char>, PlayerView>, ops: Seq<RegistryOp>) -> Map<
    Seq<char>,
    PlayerView,
>
    decreases ops.len(),
{
    if ops.len() == 0 {
        m
    } else {
        apply_op(apply_ops(m, ops.drop_last()), ops.last())
    }
}

/// After a departure nobody points at the departed player, and it is gone.
pub proof fn law_remove_clears_references(m: Map<Seq<char>, PlayerView>, id: Seq<char>)
    ensures
        !after_remove(m, id).contains_key(id),
        forall|k: Seq<char>| #[trigger]
            after_remove(m, id).contains_key(k) ==> !names(after_remove(m, id)[k], id),
{
}

/// A single membership change keeps every pairing pointing at a present player.
pub proof fn law_op_keeps_references(m: Map<Seq<char>, PlayerView>, op: RegistryOp)
    requires
        refs_closed(m),
    ensures
        refs_closed(apply_op(m, op)),
{
    let n = apply_op(m, op);
    match op {
        RegistryOp::Insert(id) => {
            assert forall|k: Seq<char>| #[trigger] n.contains_key(k) implies (
            n[k].opponent matches Some(o) ==> n.contains_key(o.0)) by {
                if k != id {
                    assert(m.contains_key(k));
                }
            }
        },
        RegistryOp::Remove(id) => {
            assert forall|k: Seq<char>| #[trigger] n.contains_key(k) implies (
            n[k].opponent matches Some(o) ==> n.contains_key(o.0)) by {
                assert(m.contains_key(k));
                if let Some(o) = n[k].opponent {
                    assert(m.contains_key(o.0));
                }
            }
        },
    }
}

/// Registry invariant: starting from a registry whose pairings all point at present
/// players (an empty one, say), after any sequence of logins and departures no
/// remaining player's opponent names a player that is no longer there.
pub proof fn law_no_dangling_opponents(m: Map<Seq<char>, PlayerView>, ops: Seq<RegistryOp>)
    requires
        refs_closed(m),
    ensures
        refs_closed(apply_ops(m, ops)),
        forall|k: Seq<char>, gone: Seq<char>|
            apply_ops(m, ops).contains_key(k) && !apply_ops(m, ops).contains_key(gone)
                ==> !#[trigger] names(apply_ops(m, ops)[k], gone),
    decreases ops.len(),
{
    if ops.len() > 0 {
        law_no_dangling_opponents(m, ops.drop_last());
        law_op_keeps_references(apply_ops(m, ops.drop_last()), ops.last());
    }
    let n = apply_ops(m, ops);
    assert forall|k: Seq<char>, gone: Seq<char>|
        n.contains_key(k) && !n.contains_key(gone) implies !#[trigger] names(n[k], gone) by {
        assert(n.contains_key(k));
    }
}

} // verus!
