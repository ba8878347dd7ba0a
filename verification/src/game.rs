//! The rounds of the game: a stack of situations is played out around a table
//! of players, each round taken by the player at the head of the table while
//! the others vote.
use vstd::prelude::*;
use std::collections::VecDeque;

verus! {

/// A situation card.
#[derive(Debug, Clone, Copy)]
pub struct Card;

/// A player at the table, with the cards in hand.
#[derive(Debug)]
pub struct Player {
    hand: Vec<Card>,
}

impl View for Player {
    type V = Seq<Card>;

    closed spec fn view(&self) -> Seq<Card> {
        self.hand@
    }
}

impl Default for Player {
    /// A player with an empty hand.
    fn default() -> (p: Self)
        ensures
            p@ == Seq::<Card>::empty(),
    {
        Player { hand: Vec::new() }
    }
}

impl Player {
    /// The cards in the player's hand.
    pub fn hand(&self) -> (h: &[Card])
        ensures
            h@ == self@,
    {
        self.hand.as_slice()
    }
}

/// How a player votes on a situation: every player agrees.
pub open spec fn chooses(p: Player) -> bool {
    true
}

/// Whether every player at a table agrees.
pub open spec fn table_agrees(table: Seq<Player>) -> bool {
    forall|i: int| 0 <= i < table.len() ==> #[trigger] chooses(table[i])
}

/// A table after the head has moved to the back `k` times.
pub open spec fn rotate<T>(s: Seq<T>, k: int) -> Seq<T> {
    s.subrange(k, s.len() as int) + s.subrange(0, k)
}

/// The vote of one player.
pub fn player_choice(player: &Player) -> (agrees: bool)
    ensures
        agrees == chooses(*player),
{
    true
}

/// The vote of a table: whether every player at it agrees. A table with nobody
/// at it cannot vote.
pub fn vote(players: &[Player]) -> (pass: bool)
    requires
        players@.len() > 0,
    ensures
        pass == table_agrees(players@),
{
    let mut pass = player_choice(&players[0]);
    let mut i: usize = 1;
    while i < players.len()
        invariant
            1 <= i <= players@.len(),
            pass == table_agrees(players@.take(i as int)),
        decreases players@.len() - i,
    {
        let c = player_choice(&players[i]);
        pass = pass && c;
        i = i + 1;
        assert(players@.take(i as int).drop_last() =~= players@.take(i - 1));
    }
    assert(players@.take(i as int) =~= players@);
    pass
}

/// `VecDeque::make_contiguous` rearranges the deque's storage into one slice and
/// hands that slice out; std documents that it does not change the order of the
/// elements. The deque afterwards holds what the slice holds when it is let go.
#[verifier::external_body]
fn make_contiguous(players: &mut VecDeque<Player>) -> (table: &mut [Player])
    ensures
        table@ == old(players)@,
        final(players)@ == final(table)@,
{
    players.make_contiguous()
}

/// One round: the top situation leaves the stack; the player at the head of
/// the table takes it, the others vote, and that player moves to the back.
/// Nothing happens without a situation; without players the situation is
/// dropped. A lone player leaves nobody to vote, so that case is excluded.
pub fn play_round(players: &mut VecDeque<Player>, stack: &mut Vec<Card>) -> (passed: Option<bool>)
    requires
        !(old(stack)@.len() > 0 && old(players)@.len() == 1),
    ensures
        old(stack)@.len() == 0 ==> {
            &&& passed is None
            &&& final(stack)@ == old(stack)@
            &&& final(players)@ == old(players)@
        },
        old(stack)@.len() > 0 && old(players)@.len() == 0 ==> {
            &&& passed is None
            &&& final(stack)@ == old(stack)@.drop_last()
            &&& final(players)@ == old(players)@
        },
        old(stack)@.len() > 0 && old(players)@.len() > 0 ==> {
            &&& passed == Some(table_agrees(old(players)@.drop_first()))
            &&& final(stack)@ == old(stack)@.drop_last()
            &&& final(players)@ == rotate(old(players)@, 1)
        },
{
    let situation = stack.pop();
    match situation {
        None => {
            return None;
        },
        Some(_) => {},
    }
    let player = players.pop_front();
    match player {
        None => {
            return None;
        },
        Some(p) => {
            let pass = vote(make_contiguous(players));
            players.push_back(p);
            assert(players@ =~= rotate(old(players)@, 1));
            Some(pass)
        },
    }
}

proof fn lemma_rotate_index<T>(s: Seq<T>, k: int, j: int)
    requires
        0 <= k < s.len(),
        0 <= j < s.len(),
    ensures
        rotate(s, k).len() == s.len(),
        rotate(s, k)[j] == s[(k + j) % (s.len() as int)],
{
    let n = s.len() as int;
    if k + j < n {
        vstd::arithmetic::div_mod::lemma_small_mod((k + j) as nat, n as nat);
    } else {
        vstd::arithmetic::div_mod::lemma_small_mod((k + j - n) as nat, n as nat);
        vstd::arithmetic::div_mod::lemma_mod_sub_multiples_vanish(k + j, n);
    }
}

/// Playing `a` rounds and then `b` rounds seats the table as playing `a + b`
/// rounds does: each round moves the head of the table to its back.
pub proof fn lemma_rounds_compose<T>(s: Seq<T>, a: nat, b: nat)
    requires
        s.len() > 0,
    ensures
        rotate(rotate(s, (a as int) % (s.len() as int)), (b as int) % (s.len() as int)) == rotate(
            s,
            (a + b) as int % (s.len() as int),
        ),
{
    let n = s.len() as int;
    let a1 = (a as int) % n;
    let b1 = (b as int) % n;
    let c1 = (a + b) as int % n;
    vstd::arithmetic::div_mod::lemma_mod_bound(a as int, n);
    vstd::arithmetic::div_mod::lemma_mod_bound(b as int, n);
    vstd::arithmetic::div_mod::lemma_mod_bound((a + b) as int, n);
    let r = rotate(s, a1);
    assert(r.len() == n);
    assert forall|j: int| 0 <= j < n implies #[trigger] rotate(r, b1)[j] == rotate(s, c1)[j] by {
        lemma_rotate_index(s, a1, ((b1 + j) % n));
        vstd::arithmetic::div_mod::lemma_mod_bound(b1 + j, n);
        lemma_rotate_index(r, b1, j);
        lemma_rotate_index(s, c1, j);
        vstd::arithmetic::div_mod::lemma_add_mod_noop(a1, b1 + j, n);
        vstd::arithmetic::div_mod::lemma_mod_twice(a as int, n);
        vstd::arithmetic::div_mod::lemma_add_mod_noop(a as int, b as int + j, n);
        vstd::arithmetic::div_mod::lemma_add_mod_noop(b as int, j, n);
        vstd::arithmetic::div_mod::lemma_small_mod(j as nat, n as nat);
        vstd::arithmetic::div_mod::lemma_add_mod_noop((a + b) as int, j, n);
        assert((a1 + (b1 + j) % n) % n == (a + b + j) % n);
        assert((c1 + j) % n == (a + b + j) % n);
    }
    assert(rotate(r, b1) =~= rotate(s, c1));
}

/// Playing as many rounds as there are players, or any multiple of that,
/// seats the table as it started.
pub proof fn lemma_full_cycles<T>(s: Seq<T>, k: nat)
    requires
        s.len() > 0,
    ensures
        rotate(s, ((k * s.len()) as int) % (s.len() as int)) == s,
{
    vstd::arithmetic::div_mod::lemma_mod_multiples_basic(k as int, s.len() as int);
    assert((k * s.len()) as int == (k as int) * (s.len() as int));
    assert(rotate(s, 0) =~= s);
}

/// Every vote passes: each player agrees, so any table agrees.
pub proof fn lemma_every_vote_passes(table: Seq<Player>)
    ensures
        table_agrees(table),
{
}

/// Plays out the stack of situations around the table, one round per
/// situation from the top of the stack, and gives the votes in the order of
/// the rounds. Without players the first situation is dropped and play stops.
/// A lone player with situations to play is excluded, as in `play_round`.
pub fn thegameloop(players: &mut VecDeque<Player>, stack: &mut Vec<Card>) -> (votes: Vec<bool>)
    requires
        !(old(stack)@.len() > 0 && old(players)@.len() == 1),
    ensures
        old(players)@.len() == 0 ==> {
            &&& votes@.len() == 0
            &&& final(players)@ == old(players)@
            &&& final(stack)@ == if old(stack)@.len() > 0 {
                old(stack)@.drop_last()
            } else {
                old(stack)@
            }
        },
        old(players)@.len() > 0 ==> {
            &&& final(stack)@.len() == 0
            &&& votes@.len() == old(stack)@.len()
            &&& final(players)@ == rotate(
                old(players)@,
                (old(stack)@.len() as int) % (old(players)@.len() as int),
            )
            &&& forall|i: int|
                0 <= i < votes@.len() ==> #[trigger] votes@[i] == table_agrees(
                    rotate(old(players)@, i % (old(players)@.len() as int)).drop_first(),
                )
        },
{
    let mut votes: Vec<bool> = Vec::new();
    let ghost p0 = players@;
    let ghost s0 = stack@;
    let ghost n = p0.len() as int;
    if players.len() == 0 {
        let _ = play_round(players, stack);
        return votes;
    }
    proof {
        vstd::arithmetic::div_mod::lemma_small_mod(0, n as nat);
        assert(rotate(p0, 0) =~= p0);
    }
    loop
        invariant
            n == p0.len(),
            n > 0,
            !(s0.len() > 0 && n == 1),
            players@.len() == n,
            stack@.len() <= s0.len(),
            stack@ == s0.take(stack@.len() as int),
            votes@.len() == s0.len() - stack@.len(),
            players@ == rotate(p0, (votes@.len() as int) % n),
            forall|i: int|
                0 <= i < votes@.len() ==> #[trigger] votes@[i] == table_agrees(
                    rotate(p0, i % n).drop_first(),
                ),
        ensures
            stack@.len() == 0,
            votes@.len() == s0.len(),
            players@ == rotate(p0, (s0.len() as int) % n),
            forall|i: int|
                0 <= i < votes@.len() ==> #[trigger] votes@[i] == table_agrees(
                    rotate(p0, i % n).drop_first(),
                ),
        decreases stack@.len(),
    {
        let ghost k = votes@.len();
        let ghost before = players@;
        let r = play_round(players, stack);
        match r {
            None => {
                break;
            },
            Some(pass) => {
                votes.push(pass);
                proof {
                    assert(stack@ =~= s0.take(stack@.len() as int));
                    lemma_rounds_compose(p0, k as nat, 1);
                    vstd::arithmetic::div_mod::lemma_small_mod(1, n as nat);
                }
            },
        }
    }
    votes
}

} // verus!
