//! An ephemeral in-memory mailbox of encrypted messages.
//!
//! Messages are keyed by an id derived from their content (`msg:` and the
//! hex of the first 16 bytes of SHA-256 over payload, sender and
//! recipient). Only messages addressed to the node itself are read, each
//! at most once, and a message past its time-to-live is never read.

use vstd::prelude::*;
use crate::clock::now_ms;
use crate::digest::{sha256, sha256_of};
use crate::text::{hex_of, owned, push_hex, str_eq};

verus! {

/// A recipient, identified by a 32-byte public-key fingerprint.
#[derive(Clone, Copy, Debug, PartialEq, Eq, Hash)]
pub struct Recipient(pub [u8; 32]);

impl Recipient {
    /// True when both fingerprints are the same bytes.
    pub fn same_as(&self, other: &Recipient) -> (res: bool)
        ensures
            res == (self.0@ == other.0@),
    {
        let mut i: usize = 0;
        while i < 32
            invariant
                0 <= i <= 32,
                self.0@.len() == 32,
                other.0@.len() == 32,
                forall|j: int| 0 <= j < i ==> self.0@[j] == other.0@[j],
            decreases 32 - i,
        {
            if self.0[i] != other.0[i] {
                return false;
            }
            i = i + 1;
        }
        assert(self.0@ =~= other.0@);
        true
    }
}

/// A message sitting in the mailbox; the payload is opaque ciphertext.
#[derive(Clone, Debug)]
pub struct StoredMessage {
    /// Content-derived id.
    pub id: String,
    /// Sender.
    pub from: Recipient,
    /// Recipient.
    pub to: Recipient,
    /// Opaque ciphertext.
    pub payload: Vec<u8>,
    /// Created at (ms since the epoch).
    pub created_at_ms: u64,
    /// Time-to-live in ms.
    pub ttl_ms: u64,
}

impl StoredMessage {
    /// A field-for-field copy.
    pub fn copy(&self) -> (res: StoredMessage)
        ensures
            res.id == self.id,
            res.from == self.from,
            res.to == self.to,
            res.payload@ == self.payload@,
            res.created_at_ms == self.created_at_ms,
            res.ttl_ms == self.ttl_ms,
    {
        StoredMessage {
            id: self.id.clone(),
            from: self.from,
            to: self.to,
            payload: self.payload.clone(),
            created_at_ms: self.created_at_ms,
            ttl_ms: self.ttl_ms,
        }
    }
}

/// A message that has been read.
#[derive(Clone, Debug)]
pub struct ReadMessage {
    /// Sender.
    pub from: Recipient,
    /// Body, as stored.
    pub body: Vec<u8>,
    /// Milliseconds of life it had left.
    pub remaining_ms: u64,
}

/// Time elapsed from `since` to `now`; a clock that went backwards counts as none.
pub open spec fn elapsed(now: u64, since: u64) -> nat {
    if now >= since {
        (now - since) as nat
    } else {
        0
    }
}

/// A message created at `created` with a time-to-live of `ttl` has
/// expired at `now` once more than `ttl` ms have passed.
pub open spec fn expired_at(created: u64, ttl: u64, now: u64) -> bool {
    elapsed(now, created) > ttl
}

/// The id of a message with this payload, sender and recipient.
pub open spec fn message_id(payload: Seq<u8>, from: Recipient, to: Recipient) -> Seq<char> {
    "msg:"@ + hex_of(sha256_of(payload + from.0@ + to.0@).take(16))
}

/// The plain view of a stored message: (id, from, to, payload, created, ttl).
pub open spec fn stored_view(m: StoredMessage) -> (Seq<char>, Recipient, Recipient, Seq<u8>, u64, u64) {
    (m.id@, m.from, m.to, m.payload@, m.created_at_ms, m.ttl_ms)
}

/// True when a message can be read by `me` at `now`.
pub open spec fn deliverable(m: (Seq<char>, Recipient, Recipient, Seq<u8>, u64, u64), me: Recipient, now: u64) -> bool {
    m.2.0@ == me.0@ && !expired_at(m.4, m.5, now)
}

/// The number of messages among the first `n` that `me` can read at `now`.
pub open spec fn count_deliverable(s: Seq<(Seq<char>, Recipient, Recipient, Seq<u8>, u64, u64)>, me: Recipient, now: u64, n: int) -> nat
    decreases n,
{
    if n <= 0 {
        0
    } else {
        count_deliverable(s, me, now, n - 1) + (if deliverable(s[n - 1], me, now) { 1nat } else { 0nat })
    }
}

/// The index of the first message that `me` can read at `now`, or -1.
pub open spec fn first_deliverable(s: Seq<(Seq<char>, Recipient, Recipient, Seq<u8>, u64, u64)>, me: Recipient, now: u64) -> int
    decreases s.len(),
{
    if s.len() == 0 {
        -1
    } else {
        let p = first_deliverable(s.drop_last(), me, now);
        if p >= 0 {
            p
        } else if deliverable(s.last(), me, now) {
            s.len() - 1
        } else {
            -1
        }
    }
}

/// `first_deliverable` finds the first readable message, if any.
pub proof fn lemma_first_deliverable(s: Seq<(Seq<char>, Recipient, Recipient, Seq<u8>, u64, u64)>, me: Recipient, now: u64)
    ensures
        -1 <= first_deliverable(s, me, now) < s.len(),
        first_deliverable(s, me, now) >= 0 ==> deliverable(s[first_deliverable(s, me, now)], me, now),
        forall|j: int|
            0 <= j < s.len() && (first_deliverable(s, me, now) < 0 || j < first_deliverable(s, me, now))
                ==> !deliverable(#[trigger] s[j], me, now),
    decreases s.len(),
{
    if s.len() > 0 {
        let t = s.drop_last();
        lemma_first_deliverable(t, me, now);
        assert forall|j: int|
            0 <= j < s.len() && (first_deliverable(s, me, now) < 0 || j < first_deliverable(s, me, now))
                implies !deliverable(#[trigger] s[j], me, now) by {
            if j < s.len() - 1 {
                assert(s[j] == t[j]);
            }
        }
    }
}

/// The life a message had left when read at `now`.
pub open spec fn remaining_at(created: u64, ttl: u64, now: u64) -> nat {
    if elapsed(now, created) >= ttl {
        0
    } else {
        (ttl - elapsed(now, created)) as nat
    }
}

/// The messages not expired at `now`, in order.
pub open spec fn unexpired_messages(s: Seq<(Seq<char>, Recipient, Recipient, Seq<u8>, u64, u64)>, now: u64) -> Seq<(Seq<char>, Recipient, Recipient, Seq<u8>, u64, u64)> {
    s.filter(|m: (Seq<char>, Recipient, Recipient, Seq<u8>, u64, u64)| !expired_at(m.4, m.5, now))
}

/// Storing the message `m` takes the mailbox from `before` to `after`: it
/// replaces, in place, the stored message with the same id, or else is
/// added at the end; every other message stays as it was.
pub open spec fn sent_at(
    before: Seq<(Seq<char>, Recipient, Recipient, Seq<u8>, u64, u64)>,
    after: Seq<(Seq<char>, Recipient, Recipient, Seq<u8>, u64, u64)>,
    m: (Seq<char>, Recipient, Recipient, Seq<u8>, u64, u64),
) -> bool {
    if exists|i: int| 0 <= i < before.len() && (#[trigger] before[i]).0 == m.0 {
        exists|i: int| 0 <= i < before.len() && (#[trigger] before[i]).0 == m.0 && after == before.update(i, m)
    } else {
        after == before.push(m)
    }
}

/// What reading at `now` does: see [`MsgNode::receive_at`].
pub open spec fn receive_outcome(
    s: Seq<(Seq<char>, Recipient, Recipient, Seq<u8>, u64, u64)>,
    me: Recipient,
    now: u64,
    res: Option<ReadMessage>,
    after: Seq<(Seq<char>, Recipient, Recipient, Seq<u8>, u64, u64)>,
) -> bool {
    let k = first_deliverable(s, me, now);
    if k < 0 {
        res is None && after == s
    } else {
        &&& res matches Some(r)
        &&& r.from == s[k].1
        &&& r.body@ == s[k].3
        &&& r.remaining_ms == remaining_at(s[k].4, s[k].5, now)
        &&& after == s.remove(k)
    }
}

/// Hex of the first 16 bytes of SHA-256 over the three parts, prefixed.
fn compute_id(payload: &[u8], from: &Recipient, to: &Recipient) -> (res: String)
    ensures
        res@ == message_id(payload@, *from, *to),
        res@.len() == 36,
{
    let mut data: Vec<u8> = Vec::new();
    let mut i: usize = 0;
    while i < payload.len()
        invariant
            0 <= i <= payload@.len(),
            data@ == payload@.take(i as int),
        decreases payload@.len() - i,
    {
        data.push(payload[i]);
        i = i + 1;
        proof {
            assert(data@ =~= payload@.take(i as int));
        }
    }
    let ghost base = payload@;
    let mut j: usize = 0;
    while j < 32
        invariant
            0 <= j <= 32,
            base == payload@,
            from.0@.len() == 32,
            data@ == base + from.0@.take(j as int),
        decreases 32 - j,
    {
        data.push(from.0[j]);
        j = j + 1;
        proof {
            assert(data@ =~= base + from.0@.take(j as int));
        }
    }
    let ghost base2 = payload@ + from.0@;
    proof {
        assert(from.0@.take(32) =~= from.0@);
    }
    let mut k: usize = 0;
    while k < 32
        invariant
            0 <= k <= 32,
            base2 == payload@ + from.0@,
            to.0@.len() == 32,
            data@ == base2 + to.0@.take(k as int),
        decreases 32 - k,
    {
        data.push(to.0[k]);
        k = k + 1;
        proof {
            assert(data@ =~= base2 + to.0@.take(k as int));
        }
    }
    proof {
        assert(to.0@.take(32) =~= to.0@);
    }
    let digest = sha256(data.as_slice());
    let mut head: Vec<u8> = Vec::new();
    let mut h: usize = 0;
    while h < 16
        invariant
            0 <= h <= 16,
            digest@.len() == 32,
            head@ == digest@.take(h as int),
        decreases 16 - h,
    {
        head.push(digest[h]);
        h = h + 1;
        proof {
            assert(head@ =~= digest@.take(h as int));
        }
    }
    let mut id = owned("msg:");
    push_hex(&mut id, head.as_slice());
    proof {
        reveal_strlit("msg:");
    }
    id
}

/// An in-memory mailbox.
pub struct MsgNode {
    mailbox: Vec<StoredMessage>,
    me: Recipient,
}

impl MsgNode {
    /// The stored messages, oldest first.
    pub closed spec fn messages(&self) -> Seq<(Seq<char>, Recipient, Recipient, Seq<u8>, u64, u64)> {
        self.mailbox@.map_values(|m: StoredMessage| stored_view(m))
    }

    /// Whose mailbox this is.
    pub closed spec fn owner(&self) -> Recipient {
        self.me
    }

    /// No two stored messages share an id.
    pub open spec fn wf(&self) -> bool {
        forall|i: int, j: int|
            0 <= i < j < self.messages().len() ==> (#[trigger] self.messages()[i]).0 != (
            #[trigger] self.messages()[j]).0
    }

    /// An empty mailbox for `me`.
    pub fn new(me: Recipient) -> (res: MsgNode)
        ensures
            res.wf(),
            res.owner() == me,
            res.messages().len() == 0,
    {
        MsgNode { mailbox: Vec::new(), me }
    }

    /// Stores a message created at `now` (the caller has encrypted the
    /// payload) and returns its id; a stored message with the same id is
    /// replaced in place.
    pub fn send_at(&mut self, from: Recipient, to: Recipient, payload: Vec<u8>, ttl_ms: u64, now: u64) -> (res: String)
        requires
            old(self).wf(),
        ensures
            final(self).wf(),
            final(self).owner() == old(self).owner(),
            res@ == message_id(payload@, from, to),
            res@.len() == 36,
            sent_at(old(self).messages(), final(self).messages(), (res@, from, to, payload@, now, ttl_ms)),
    {
        let id = compute_id(payload.as_slice(), &from, &to);
        let ghost s = self.messages();
        let ghost pv = payload@;
        let msg = StoredMessage { id: id.clone(), from, to, payload, created_at_ms: now, ttl_ms };
        let n = self.mailbox.len();
        let mut i: usize = 0;
        while i < n
            invariant
                0 <= i <= n,
                n == self.mailbox@.len(),
                self.messages() == s,
                forall|j: int| 0 <= j < i ==> (#[trigger] s[j]).0 != id@,
            ensures
                0 <= i <= n,
                forall|j: int| 0 <= j < i ==> (#[trigger] s[j]).0 != id@,
                i < n ==> s[i as int].0 == id@,
            decreases n - i,
        {
            proof {
                assert(s[i as int] == stored_view(self.mailbox@[i as int]));
            }
            if str_eq(self.mailbox[i].id.as_str(), id.as_str()) {
                break;
            }
            i = i + 1;
        }
        let ghost m = (id@, from, to, pv, now, ttl_ms);
        if i < n {
            self.mailbox.set(i, msg);
            proof {
                assert(self.messages() =~= s.update(i as int, m));
                assert forall|a: int, b: int| 0 <= a < b < self.messages().len() implies (
                #[trigger] self.messages()[a]).0 != (#[trigger] self.messages()[b]).0 by {
                    if a != i && b != i {
                        assert(self.messages()[a] == s[a] && self.messages()[b] == s[b]);
                    } else if a == i {
                        assert(self.messages()[b] == s[b]);
                    } else {
                        assert(self.messages()[a] == s[a]);
                    }
                }
            }
        } else {
            self.mailbox.push(msg);
            proof {
                assert(self.messages() =~= s.push(m));
            }
        }
        id
    }

    /// Reads and removes the first message addressed to this node that has
    /// not expired at `now`; `None`, with nothing changed, when there is none.
    pub fn receive_at(&mut self, now: u64) -> (res: Option<ReadMessage>)
        requires
            old(self).wf(),
        ensures
            final(self).wf(),
            final(self).owner() == old(self).owner(),
            receive_outcome(old(self).messages(), old(self).owner(), now, res, final(self).messages()),
            res matches Some(r) ==> exists|i: int|
                0 <= i < old(self).messages().len() && (#[trigger] old(self).messages()[i]).2.0@
                    == old(self).owner().0@ && r.from == old(self).messages()[i].1,
    {
        let ghost s = self.messages();
        let n = self.mailbox.len();
        let mut i: usize = 0;
        proof {
            lemma_first_deliverable(s, self.me, now);
        }
        while i < n
            invariant
                0 <= i <= n,
                n == self.mailbox@.len(),
                self.messages() == s,
                forall|j: int| 0 <= j < i ==> !deliverable(#[trigger] s[j], self.me, now),
            ensures
                0 <= i <= n,
                forall|j: int| 0 <= j < i ==> !deliverable(#[trigger] s[j], self.me, now),
                i < n ==> deliverable(s[i as int], self.me, now),
            decreases n - i,
        {
            proof {
                assert(s[i as int] == stored_view(self.mailbox@[i as int]));
            }
            let m = &self.mailbox[i];
            if m.to.same_as(&self.me) && !(now.saturating_sub(m.created_at_ms) > m.ttl_ms) {
                break;
            }
            i = i + 1;
        }
        if i == n {
            return None;
        }
        proof {
            if first_deliverable(s, self.me, now) < 0 || i < first_deliverable(s, self.me, now) {
                assert(!deliverable(s[i as int], self.me, now));
            }
            if first_deliverable(s, self.me, now) < i {
                let k = first_deliverable(s, self.me, now);
                assert(!deliverable(s[k], self.me, now));
            }
            assert(s[i as int] == stored_view(self.mailbox@[i as int]));
        }
        let ghost old_mailbox = self.mailbox@;
        let m = self.mailbox.remove(i);
        proof {
            assert(self.messages() =~= s.remove(i as int));
            assert forall|a: int, b: int| 0 <= a < b < self.messages().len() implies (
            #[trigger] self.messages()[a]).0 != (#[trigger] self.messages()[b]).0 by {
                let a0 = if a < i { a } else { a + 1 };
                let b0 = if b < i { b } else { b + 1 };
                assert(self.messages()[a] == s[a0]);
                assert(self.messages()[b] == s[b0]);
            }
        }
        let elapsed = now.saturating_sub(m.created_at_ms);
        let remaining_ms = if elapsed >= m.ttl_ms {
            0
        } else {
            m.ttl_ms - elapsed
        };
        Some(ReadMessage { from: m.from, body: m.payload, remaining_ms })
    }

    /// Reads and removes the next message for this node, as
    /// [`MsgNode::receive_at`] does at the current time.
    pub fn receive(&mut self) -> (res: Option<ReadMessage>)
        requires
            old(self).wf(),
        ensures
            final(self).wf(),
            final(self).owner() == old(self).owner(),
            exists|now: u64| #[trigger] receive_outcome(old(self).messages(), old(self).owner(), now, res, final(self).messages()),
    {
        let now = now_ms();
        let res = self.receive_at(now);
        assert(receive_outcome(old(self).messages(), old(self).owner(), now, res, self.messages()));
        res
    }

    /// The number of messages this node can read at `now`.
    pub fn pending_at(&self, now: u64) -> (res: usize)
        ensures
            res == count_deliverable(self.messages(), self.owner(), now, self.messages().len() as int),
            res == live_mail_for(self.messages(), self.owner(), now, self.messages().len() as int),
            res <= addressed_to(self.messages(), self.owner(), self.messages().len() as int),
    {
        proof {
            lemma_pending_counts_only_own_mail(self.messages(), self.owner(), now, self.messages().len() as int);
        }
        let ghost s = self.messages();
        let n = self.mailbox.len();
        let mut c: usize = 0;
        let mut i: usize = 0;
        while i < n
            invariant
                0 <= i <= n,
                n == self.mailbox@.len(),
                self.messages() == s,
                c == count_deliverable(s, self.me, now, i as int),
                c <= i,
            decreases n - i,
        {
            proof {
                assert(s[i as int] == stored_view(self.mailbox@[i as int]));
            }
            let m = &self.mailbox[i];
            if m.to.same_as(&self.me) && !(now.saturating_sub(m.created_at_ms) > m.ttl_ms) {
                c = c + 1;
            }
            i = i + 1;
        }
        c
    }

    /// The number of messages this node can read now.
    pub fn pending(&self) -> (res: usize)
        ensures
            exists|now: u64| res == #[trigger] count_deliverable(self.messages(), self.owner(), now, self.messages().len() as int),
    {
        let now = now_ms();
        self.pending_at(now)
    }

    /// Drops the messages expired at `now`; returns how many.
    pub fn sweep_at(&mut self, now: u64) -> (res: usize)
        requires
            old(self).wf(),
        ensures
            final(self).wf(),
            final(self).owner() == old(self).owner(),
            final(self).messages() == unexpired_messages(old(self).messages(), now),
            res == old(self).messages().len() - final(self).messages().len(),
    {
        let ghost s = self.messages();
        let ghost pred = |m: (Seq<char>, Recipient, Recipient, Seq<u8>, u64, u64)| !expired_at(m.4, m.5, now);
        let n = self.mailbox.len();
        let mut kept: Vec<StoredMessage> = Vec::new();
        let mut i: usize = 0;
        proof {
            reveal(Seq::filter);
            assert(s.take(0) =~= Seq::<(Seq<char>, Recipient, Recipient, Seq<u8>, u64, u64)>::empty());
            assert(kept@.map_values(|m: StoredMessage| stored_view(m)) =~= Seq::<(Seq<char>, Recipient, Recipient, Seq<u8>, u64, u64)>::empty());
        }
        while i < n
            invariant
                0 <= i <= n,
                n == self.mailbox@.len(),
                self.messages() == s,
                pred == (|m: (Seq<char>, Recipient, Recipient, Seq<u8>, u64, u64)| !expired_at(m.4, m.5, now)),
                kept@.map_values(|m: StoredMessage| stored_view(m)) == s.take(i as int).filter(pred),
                kept@.len() <= i,
                forall|a: int| 0 <= a < kept@.len() ==> exists|b: int| 0 <= b < i && stored_view(#[trigger] kept@[a]) == s[b],
                forall|a: int, b: int| 0 <= a < b < kept@.len() ==> exists|c: int, d: int| 0 <= c < d < i && stored_view(#[trigger] kept@[a]) == s[c] && stored_view(#[trigger] kept@[b]) == s[d],
            decreases n - i,
        {
            proof {
                reveal(Seq::filter);
                assert(s.take(i + 1).drop_last() =~= s.take(i as int));
                assert(s.take(i + 1).last() == s[i as int]);
                assert(s.take(i + 1).filter(pred) == if pred(s[i as int]) {
                    s.take(i as int).filter(pred).push(s[i as int])
                } else {
                    s.take(i as int).filter(pred)
                });
                assert(s[i as int] == stored_view(self.mailbox@[i as int]));
            }
            let m = &self.mailbox[i];
            if !(now.saturating_sub(m.created_at_ms) > m.ttl_ms) {
                assert(pred(s[i as int]));
                let c = m.copy();
                let ghost k0 = kept@;
                kept.push(c);
                proof {
                    assert(kept@.map_values(|m: StoredMessage| stored_view(m)) =~= k0.map_values(|m: StoredMessage| stored_view(m)).push(s[i as int]));
                    assert forall|a: int, b: int| 0 <= a < b < kept@.len() implies exists|c: int, d: int| 0 <= c < d < i + 1 && stored_view(#[trigger] kept@[a]) == s[c] && stored_view(#[trigger] kept@[b]) == s[d] by {
                        if b < k0.len() {
                            assert(kept@[a] == k0[a]);
                            assert(kept@[b] == k0[b]);
                        } else {
                            assert(kept@[a] == k0[a]);
                            let c = choose|c: int| 0 <= c < i && stored_view(#[trigger] k0[a]) == s[c];
                            assert(stored_view(kept@[b]) == s[i as int]);
                            assert(0 <= c < i && stored_view(kept@[a]) == s[c] && stored_view(kept@[b]) == s[i as int]);
                        }
                    }
                    assert forall|a: int| 0 <= a < kept@.len() implies exists|b: int| 0 <= b < i + 1 && stored_view(#[trigger] kept@[a]) == s[b] by {
                        if a < k0.len() {
                            assert(kept@[a] == k0[a]);
                        } else {
                            assert(stored_view(kept@[a]) == s[i as int]);
                        }
                    }
                }
            } else {
                assert(!pred(s[i as int]));
            }
            i = i + 1;
        }
        proof {
            assert(s.take(n as int) =~= s);
        }
        let removed = n - kept.len();
        self.mailbox = kept;
        proof {
            assert forall|a: int, b: int| 0 <= a < b < self.messages().len() implies (
            #[trigger] self.messages()[a]).0 != (#[trigger] self.messages()[b]).0 by {
                let (c, d) = choose|c: int, d: int| 0 <= c < d < n && stored_view(#[trigger] self.mailbox@[a]) == s[c] && stored_view(#[trigger] self.mailbox@[b]) == s[d];
                assert(s[c].0 != s[d].0);
            }
        }
        removed
    }

    /// Drops the messages expired now; returns how many.
    pub fn sweep(&mut self) -> (res: usize)
        requires
            old(self).wf(),
        ensures
            final(self).wf(),
            final(self).owner() == old(self).owner(),
            exists|now: u64| final(self).messages() == #[trigger] unexpired_messages(old(self).messages(), now),
            res == old(self).messages().len() - final(self).messages().len(),
    {
        let now = now_ms();
        self.sweep_at(now)
    }

    /// Stores a message created now and returns its id, as
    /// [`MsgNode::send_at`] does at the current time.
    pub fn send(&mut self, from: Recipient, to: Recipient, payload: Vec<u8>, ttl_ms: u64) -> (res: String)
        requires
            old(self).wf(),
        ensures
            final(self).wf(),
            final(self).owner() == old(self).owner(),
            res@ == message_id(payload@, from, to),
            res@.len() == 36,
            exists|now: u64|
                #[trigger] sent_at(old(self).messages(), final(self).messages(), (res@, from, to, payload@, now, ttl_ms)),
    {
        let now = now_ms();
        let ghost pv = payload@;
        let id = self.send_at(from, to, payload, ttl_ms, now);
        assert(sent_at(old(self).messages(), self.messages(), (id@, from, to, pv, now, ttl_ms)));
        id
    }
}

/// How many of the first `n` messages are addressed to `me`, live or not.
pub open spec fn addressed_to(s: Seq<(Seq<char>, Recipient, Recipient, Seq<u8>, u64, u64)>, me: Recipient, n: int) -> nat
    decreases n,
{
    if n <= 0 {
        0
    } else {
        addressed_to(s, me, n - 1) + (if s[n - 1].2.0@ == me.0@ { 1nat } else { 0nat })
    }
}

/// A node reads only its own mail: a read gives the sender and body of a
/// stored message addressed to the node (its recipient is the node's own
/// identity, whoever sent it) that has not expired, with no earlier such
/// message, and removes just that one; nothing is read, and nothing
/// changes, when no live message is addressed to the node.
pub proof fn lemma_reads_only_own_live_mail(
    s: Seq<(Seq<char>, Recipient, Recipient, Seq<u8>, u64, u64)>,
    me: Recipient,
    now: u64,
    res: Option<ReadMessage>,
    after: Seq<(Seq<char>, Recipient, Recipient, Seq<u8>, u64, u64)>,
)
    requires
        receive_outcome(s, me, now, res, after),
    ensures
        res matches Some(r) ==> exists|i: int|
            #![trigger s[i]]
            {
                &&& 0 <= i < s.len()
                &&& s[i].2.0@ == me.0@
                &&& !expired_at(s[i].4, s[i].5, now)
                &&& r.from == s[i].1
                &&& r.body@ == s[i].3
                &&& after == s.remove(i)
                &&& forall|j: int| 0 <= j < i ==> !((#[trigger] s[j]).2.0@ == me.0@ && !expired_at(s[j].4, s[j].5, now))
            },
        res is None ==> after == s && forall|j: int|
            0 <= j < s.len() && (#[trigger] s[j]).2.0@ == me.0@ ==> expired_at(s[j].4, s[j].5, now),
{
    lemma_first_deliverable(s, me, now);
    let k = first_deliverable(s, me, now);
    if k >= 0 {
        assert(s[k].2.0@ == me.0@);
    }
}

/// How many of the first `n` messages are addressed to `me` and still
/// within their time to live at `now`.
pub open spec fn live_mail_for(s: Seq<(Seq<char>, Recipient, Recipient, Seq<u8>, u64, u64)>, me: Recipient, now: u64, n: int) -> nat
    decreases n,
{
    if n <= 0 {
        0
    } else {
        live_mail_for(s, me, now, n - 1) + (if s[n - 1].2.0@ == me.0@ && elapsed(now, s[n - 1].4) <= s[n - 1].5 {
            1nat
        } else {
            0nat
        })
    }
}

/// Mail for others is never counted, nor expired mail: the messages a
/// node counts as pending are exactly those addressed to it that are still
/// within their time to live, so at most those addressed to it.
pub proof fn lemma_pending_counts_only_own_mail(
    s: Seq<(Seq<char>, Recipient, Recipient, Seq<u8>, u64, u64)>,
    me: Recipient,
    now: u64,
    n: int,
)
    ensures
        count_deliverable(s, me, now, n) == live_mail_for(s, me, now, n),
        count_deliverable(s, me, now, n) <= addressed_to(s, me, n),
    decreases n,
{
    if n > 0 {
        lemma_pending_counts_only_own_mail(s, me, now, n - 1);
    }
}

} // verus!
