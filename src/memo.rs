//! The gateway's short-lived memo of answers to read-only calls, keyed by
//! the exact request URL.

use vstd::prelude::*;
use crate::utils::str_eq;
use crate::station::memo_fresh;

verus! {

/// One memoized answer: its URL, when it was fetched (seconds since the Unix
/// epoch), and its body.
#[derive(Clone, Debug)]
pub struct MemoEntry {
    pub url: String,
    pub stored_at: u64,
    pub body: String,
}

/// The answers that a sequence of entries stands for; a later entry of a URL
/// supersedes an earlier one.
pub open spec fn memo_of(entries: Seq<MemoEntry>) -> Map<Seq<char>, (u64, Seq<char>)>
    decreases entries.len(),
{
    if entries.len() == 0 {
        Map::empty()
    } else {
        memo_of(entries.drop_last()).insert(entries.last().url@, (entries.last().stored_at, entries.last().body@))
    }
}

/// Whether the answer memoized for `url` may be served at time `now`: it
/// was fetched no later than `now`, and less than `lifetime` seconds ago.
pub open spec fn memo_hit(memo: Map<Seq<char>, (u64, Seq<char>)>, url: Seq<char>, now: u64, lifetime: u64) -> bool {
    memo.contains_key(url) && memo[url].0 <= now && now - memo[url].0 < lifetime
}

/// The memo of answers.
pub struct ResponseMemo {
    entries: Vec<MemoEntry>,
}

impl ResponseMemo {
    /// The memoized answers: for each URL, when it was fetched and its body.
    pub closed spec fn contents(&self) -> Map<Seq<char>, (u64, Seq<char>)> {
        memo_of(self.entries@)
    }

    /// An empty memo.
    pub fn new() -> (r: ResponseMemo)
        ensures
            r.contents() == Map::<Seq<char>, (u64, Seq<char>)>::empty(),
    {
        ResponseMemo { entries: Vec::new() }
    }

    fn find(&self, url: &str) -> (r: Option<usize>)
        ensures
            match r {
                Some(i) => i < self.entries@.len() && self.contents().contains_key(url@)
                    && self.contents()[url@] == (self.entries@[i as int].stored_at, self.entries@[i as int].body@),
                None => !self.contents().contains_key(url@),
            },
    {
        let mut i: usize = self.entries.len();
        assert(self.entries@.take(i as int) =~= self.entries@);
        while i > 0
            invariant
                i <= self.entries@.len(),
                memo_of(self.entries@.take(i as int)).contains_key(url@) == self.contents().contains_key(url@),
                memo_of(self.entries@.take(i as int)).contains_key(url@) ==> memo_of(self.entries@.take(i as int))[url@]
                    == self.contents()[url@],
            decreases i,
        {
            assert(self.entries@.take(i as int).drop_last() =~= self.entries@.take(i as int - 1));
            if str_eq(self.entries[i - 1].url.as_str(), url) {
                return Some(i - 1);
            }
            i = i - 1;
        }
        assert(memo_of(self.entries@.take(0)) == Map::<Seq<char>, (u64, Seq<char>)>::empty());
        None
    }

    /// Forgets the answer to `url`, if any.
    pub fn remove(&mut self, url: &str)
        ensures
            final(self).contents() == old(self).contents().remove(url@),
    {
        let ghost es = self.entries@;
        let mut kept: Vec<MemoEntry> = Vec::new();
        let mut i: usize = 0;
        while i < self.entries.len()
            invariant
                es == self.entries@,
                i <= es.len(),
                memo_of(kept@) == memo_of(es.take(i as int)).remove(url@),
            decreases es.len() - i,
        {
            assert(es.take(i as int + 1).drop_last() =~= es.take(i as int));
            let e = &self.entries[i];
            if !str_eq(e.url.as_str(), url) {
                let ghost before = kept@;
                kept.push(MemoEntry { url: e.url.clone(), stored_at: e.stored_at, body: e.body.clone() });
                assert(kept@.drop_last() =~= before);
                assert(memo_of(kept@) =~= memo_of(es.take(i as int + 1)).remove(url@));
            } else {
                assert(memo_of(kept@) =~= memo_of(es.take(i as int + 1)).remove(url@));
            }
            i = i + 1;
        }
        assert(es.take(es.len() as int) =~= es);
        self.entries = kept;
    }

    /// Remembers `body` as the answer to `url`, fetched at time `now`.
    pub fn store(&mut self, url: &str, now: u64, body: &str)
        ensures
            final(self).contents() == old(self).contents().insert(url@, (now, body@)),
    {
        self.remove(url);
        let ghost before = self.entries@;
        self.entries.push(MemoEntry { url: String::from_str(url), stored_at: now, body: String::from_str(body) });
        assert(self.entries@.drop_last() =~= before);
        assert(self.contents() =~= old(self).contents().insert(url@, (now, body@)));
    }

    /// The answer to `url` that may be served at time `now` under
    /// `lifetime` (see [`memo_hit`]), where memoization is allowed for the
    /// call; an answer that may not be served is then forgotten, so that the
    /// call goes to the remote service. A call that may not be memoized
    /// bypasses the memo: it reads and changes nothing.
    pub fn lookup(&mut self, url: &str, now: u64, lifetime: u64, allow_cache: bool) -> (r: Option<String>)
        ensures
            !allow_cache ==> r is None && final(self).contents() == old(self).contents(),
            allow_cache ==> if memo_hit(old(self).contents(), url@, now, lifetime) {
                r is Some && r->Some_0@ == old(self).contents()[url@].1 && final(self).contents() == old(self).contents()
            } else {
                r is None && final(self).contents() == old(self).contents().remove(url@)
            },
    {
        if !allow_cache {
            return None;
        }
        match self.find(url) {
            Some(i) => {
                let stored = self.entries[i].stored_at;
                let age: Option<u64> = if stored <= now { Some(now - stored) } else { None };
                if memo_fresh(age, lifetime) {
                    return Some(self.entries[i].body.clone());
                }
            },
            None => {},
        }
        self.remove(url);
        None
    }
}

} // verus!
