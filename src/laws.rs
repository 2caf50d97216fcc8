//! Properties that relate several operations, proved over their models.

use vstd::prelude::*;
use crate::channels::{name_free, roster_of, with_member};
use crate::join::{
    char_count, has_whitespace, is_name, join_keyword, parse_join, split_spaces, surviving, whitespace_at,
    SPACE,
};
use crate::server::{departs, stays, Event};

verus! {

proof fn lemma_split_single(t: Seq<u8>)
    requires
        !t.contains(SPACE),
    ensures
        split_spaces(t) == seq![t],
    decreases t.len(),
{
    if t.len() == 0 {
        assert(t =~= Seq::<u8>::empty());
    } else {
        let p = t.drop_last();
        assert(!p.contains(SPACE)) by {
            if p.contains(SPACE) {
                let j = choose|j: int| 0 <= j < p.len() && p[j] == SPACE;
                assert(t[j] == SPACE);
            }
        }
        lemma_split_single(p);
        assert(t.last() != SPACE) by {
            assert(t[t.len() - 1] == t.last());
        }
        assert(p.push(t.last()) =~= t);
        assert(seq![p].update(0, t) =~= seq![t]);
    }
}

proof fn lemma_split_concat(x: Seq<u8>, y: Seq<u8>)
    ensures
        split_spaces(x + seq![SPACE] + y) == split_spaces(x) + split_spaces(y),
    decreases y.len(),
{
    let xs = x + seq![SPACE];
    if y.len() == 0 {
        assert(xs + y =~= xs);
        assert(xs.drop_last() =~= x);
        assert(split_spaces(x) + seq![Seq::<u8>::empty()] =~= split_spaces(x).push(Seq::empty()));
    } else {
        let y1 = y.drop_last();
        lemma_split_concat(x, y1);
        crate::join::lemma_split_spaces_nonempty(y1);
        crate::join::lemma_split_spaces_nonempty(x);
        assert((xs + y).drop_last() =~= xs + y1);
        assert((xs + y).last() == y.last());
        let a = split_spaces(x);
        let b1 = split_spaces(y1);
        if y.last() == SPACE {
            assert((a + b1).push(Seq::empty()) =~= a + b1.push(Seq::empty()));
        } else {
            assert((a + b1).last() == b1.last());
            assert((a + b1).update((a + b1).len() - 1, b1.last().push(y.last())) =~= a + b1.update(
                b1.len() - 1,
                b1.last().push(y.last()),
            ));
        }
    }
}

proof fn lemma_name_has_no_space(t: Seq<u8>)
    requires
        is_name(t),
    ensures
        !t.contains(SPACE),
{
    if t.contains(SPACE) {
        let j = choose|j: int| 0 <= j < t.len() && t[j] == SPACE;
        assert(whitespace_at(t, j));
    }
}

/// A join command built from a channel name and a user name that both meet
/// the name rules (at most twenty characters, no whitespace) parses back to
/// exactly that channel and user.
pub proof fn lemma_join_command_round_trip(chan: Seq<u8>, user: Seq<u8>)
    requires
        is_name(chan),
        is_name(user),
    ensures
        parse_join(join_keyword() + seq![SPACE] + chan + seq![SPACE] + user) == Some((chan, user)),
{
    let k = join_keyword();
    assert(!has_whitespace(k)) by {
        assert forall|j: int| 0 <= j < k.len() implies !whitespace_at(k, j) by {}
    }
    assert(!k.contains(SPACE)) by {
        if k.contains(SPACE) {
            let j = choose|j: int| 0 <= j < k.len() && k[j] == SPACE;
        }
    }
    lemma_name_has_no_space(chan);
    lemma_name_has_no_space(user);
    lemma_split_single(k);
    lemma_split_single(chan);
    lemma_split_single(user);
    let head = k + seq![SPACE] + chan;
    lemma_split_concat(k, chan);
    lemma_split_concat(head, user);
    let terms = split_spaces(head + seq![SPACE] + user);
    assert(terms =~= seq![k, chan, user]);
    let t1 = seq![k];
    let t2 = seq![k, chan];
    assert(t1.drop_last() =~= Seq::<Seq<u8>>::empty());
    assert(surviving(Seq::<Seq<u8>>::empty()) == Seq::<Seq<u8>>::empty());
    assert(char_count(k) == 4) by {
        assert(k.drop_last() =~= seq![0x4Au8, 0x4Fu8, 0x49u8]);
        assert(k.drop_last().drop_last() =~= seq![0x4Au8, 0x4Fu8]);
        assert(k.drop_last().drop_last().drop_last() =~= seq![0x4Au8]);
        assert(seq![0x4Au8].drop_last() =~= Seq::<u8>::empty());
        reveal_with_fuel(char_count, 5);
    }
    assert(is_name(k));
    assert(t1.last() == k);
    assert(t2.last() == chan);
    assert(terms.last() == user);
    assert(surviving(t1) =~= seq![k]);
    assert(t2.drop_last() =~= t1);
    assert(surviving(t2) =~= seq![k, chan]);
    assert(terms.drop_last() =~= t2);
    assert(surviving(terms) =~= seq![k, chan, user]);
}

/// Once a user has joined a channel, the same name is refused there.
pub proof fn lemma_name_taken_after_join(
    m: Map<Seq<char>, Seq<Seq<char>>>,
    chan: Seq<char>,
    user: Seq<char>,
)
    ensures
        !name_free(with_member(m, chan, user), chan, user),
{
    let r = roster_of(m, chan).push(user);
    assert(r[r.len() - 1] == user);
}

/// A channel that was removed starts again with a roster that holds only
/// the user who joins it next.
pub proof fn lemma_fresh_roster_after_removal(
    m: Map<Seq<char>, Seq<Seq<char>>>,
    chan: Seq<char>,
    user: Seq<char>,
)
    ensures
        name_free(m.remove(chan), chan, user),
        with_member(m.remove(chan), chan, user)[chan] == seq![user],
{
    assert(Seq::<Seq<char>>::empty().push(user) =~= seq![user]);
}

/// Joining a channel leaves every other channel as it was.
pub proof fn lemma_join_keeps_other_channels(
    m: Map<Seq<char>, Seq<Seq<char>>>,
    chan: Seq<char>,
    user: Seq<char>,
    other: Seq<char>,
)
    requires
        other != chan,
    ensures
        with_member(m, chan, user).contains_key(other) == m.contains_key(other),
        m.contains_key(other) ==> with_member(m, chan, user)[other] == m[other],
{
}

/// How many departure announcements a session makes over `evs`, starting
/// joined (`active`) or not.
pub open spec fn departures(active: bool, evs: Seq<Event>) -> nat
    decreases evs.len(),
{
    if evs.len() == 0 {
        0
    } else {
        (if departs(active, evs[0]) {
            1nat
        } else {
            0nat
        }) + departures(stays(active, evs[0]), evs.drop_first())
    }
}

/// A joined session announces its departure exactly once when its stream
/// ends, whatever else happens, and never when it does not end; a session
/// that has left announces nothing.
pub proof fn lemma_departure_once(active: bool, evs: Seq<Event>)
    ensures
        departures(active, evs) == if active && exists|i: int|
            0 <= i < evs.len() && #[trigger] evs[i] is Closed {
            1nat
        } else {
            0nat
        },
    decreases evs.len(),
{
    if evs.len() > 0 {
        let rest = evs.drop_first();
        lemma_departure_once(stays(active, evs[0]), rest);
        if active && !(evs[0] is Closed) {
            if exists|i: int| 0 <= i < evs.len() && #[trigger] evs[i] is Closed {
                let i = choose|i: int| 0 <= i < evs.len() && #[trigger] evs[i] is Closed;
                assert(rest[i - 1] is Closed);
            }
            if exists|i: int| 0 <= i < rest.len() && #[trigger] rest[i] is Closed {
                let i = choose|i: int| 0 <= i < rest.len() && #[trigger] rest[i] is Closed;
                assert(evs[i + 1] is Closed);
            }
        }
        if active && evs[0] is Closed {
            assert(evs[0] is Closed);
        }
    }
}

} // verus!
