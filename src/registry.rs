//! The inode/path registry: a stable numeric identifier for every canonical
//! remote path seen during one mounted session.

use vstd::prelude::*;

verus! {

/// `s` with every separator that directly follows another separator removed.
pub open spec fn collapse_separators(s: Seq<char>) -> Seq<char>
    decreases s.len(),
{
    if s.len() == 0 {
        Seq::empty()
    } else if s.len() >= 2 && s.last() == '/' && s[s.len() - 2] == '/' {
        collapse_separators(s.drop_last())
    } else {
        collapse_separators(s.drop_last()).push(s.last())
    }
}

/// The canonical form of a path: runs of separators collapsed to one, and a
/// single trailing separator stripped unless the path is the root itself.
pub open spec fn canonical(s: Seq<char>) -> Seq<char> {
    let c = collapse_separators(s);
    if c.len() > 1 && c.last() == '/' {
        c.drop_last()
    } else {
        c
    }
}

/// The canonical form of `path` (see [`canonical`]).
pub fn canonicalize(path: &str) -> (r: String)
    ensures
        r@ == canonical(path@),
{
    let n = path.unicode_len();
    let mut out = String::new();
    let mut i: usize = 0;
    while i < n
        invariant
            n == path@.len(),
            i <= n,
            out@ == collapse_separators(path@.subrange(0, i as int)),
        decreases n - i,
    {
        let c = path.get_char(i);
        assert(path@.subrange(0, i as int + 1).drop_last() =~= path@.subrange(0, i as int));
        if c == '/' && i > 0 && path.get_char(i - 1) == '/' {
        } else {
            out.append(path.substring_char(i, i + 1));
            assert(path@.subrange(i as int, i as int + 1) =~= seq![c]);
        }
        i = i + 1;
    }
    assert(path@.subrange(0, n as int) =~= path@);
    let len = out.unicode_len();
    if len > 1 && out.get_char(len - 1) == '/' {
        let trimmed = out.substring_char(0, len - 1);
        assert(out@.drop_last() =~= out@.subrange(0, len - 1));
        String::from_str(trimmed)
    } else {
        out
    }
}


/// No path occurs twice.
pub open spec fn paths_distinct(s: Seq<Seq<char>>) -> bool {
    forall|i: int, j: int| 0 <= i < j < s.len() ==> s[i] != s[j]
}

/// The registry that `assign` leaves, and the identifier it returns, when it
/// is called with `path` on a registry whose paths are `reg` (identifier
/// `i + 1` stands for `reg[i]`).
pub open spec fn assign_spec(reg: Seq<Seq<char>>, path: Seq<char>) -> (Seq<Seq<char>>, u64) {
    let c = canonical(path);
    if reg.contains(c) {
        (reg, ((choose|i: int| 0 <= i < reg.len() && reg[i] == c) + 1) as u64)
    } else {
        (reg.push(c), (reg.len() + 1) as u64)
    }
}

/// The path that identifier `ino` stands for in `reg`, if any.
pub open spec fn path_of(reg: Seq<Seq<char>>, ino: u64) -> Option<Seq<char>> {
    if 1 <= ino <= reg.len() {
        Some(reg[ino - 1])
    } else {
        None
    }
}

/// Assigning the same path twice gives the same identifier and leaves the
/// registry as the first call left it, and the identifier maps back to the
/// canonical form of that path.
pub proof fn lemma_assign_round_trip(reg: Seq<Seq<char>>, path: Seq<char>)
    requires
        paths_distinct(reg),
        reg.len() < u64::MAX,
    ensures
        ({
            let (reg1, ino) = assign_spec(reg, path);
            &&& assign_spec(reg1, path) == (reg1, ino)
            &&& path_of(reg1, ino) == Some(canonical(path))
            &&& paths_distinct(reg1)
        }),
{
    let c = canonical(path);
    let (reg1, ino) = assign_spec(reg, path);
    if reg.contains(c) {
        let i = choose|i: int| 0 <= i < reg.len() && reg[i] == c;
        assert(ino == i + 1);
    } else {
        assert(reg1[reg.len() as int] == c);
        assert(reg1.contains(c));
        let j = choose|j: int| 0 <= j < reg1.len() && reg1[j] == c;
        assert(j == reg.len());
    }
}

/// A bidirectional mapping between canonical paths and identifiers.
/// Identifiers are handed out from 1 upwards, one per new canonical path, and
/// never reused.
pub struct InodeRegistry {
    paths: Vec<String>,
}

impl View for InodeRegistry {
    type V = Seq<Seq<char>>;

    /// The registered paths, in the order their identifiers were handed out.
    closed spec fn view(&self) -> Seq<Seq<char>> {
        self.paths@.map_values(|s: String| s@)
    }
}

impl InodeRegistry {
    /// Every path is registered once.
    pub open spec fn wf(&self) -> bool {
        paths_distinct(self@)
    }

    /// An empty registry.
    pub fn new() -> (r: InodeRegistry)
        ensures
            r@ == Seq::<Seq<char>>::empty(),
            r.wf(),
    {
        let r = InodeRegistry { paths: Vec::new() };
        assert(r@ =~= Seq::<Seq<char>>::empty());
        r
    }

    /// The number of registered paths.
    pub fn len(&self) -> (r: usize)
        ensures
            r == self@.len(),
    {
        self.paths.len()
    }

    /// The identifier of the canonical form of `path`, registering it first
    /// if it is new.
    pub fn assign(&mut self, path: &str) -> (r: u64)
        requires
            old(self).wf(),
            old(self)@.len() < usize::MAX,
        ensures
            final(self).wf(),
            (final(self)@, r) == assign_spec(old(self)@, path@),
            path_of(final(self)@, r) == Some(canonical(path@)),
    {
        let c = canonicalize(path);
        let n = self.paths.len();
        let mut i: usize = 0;
        while i < n
            invariant
                n == self.paths@.len(),
                i <= n,
                self.wf(),
                *self == *old(self),
                c@ == canonical(path@),
                self@.len() < usize::MAX,
                forall|k: int| 0 <= k < i ==> self@[k] != c@,
            decreases n - i,
        {
            if self.paths[i] == c {
                let ghost reg = self@;
                assert(reg[i as int] == c@);
                assert(reg.contains(c@));
                let ghost j = choose|j: int| 0 <= j < reg.len() && reg[j] == c@;
                assert(j == i);
                return (i + 1) as u64;
            }
            i = i + 1;
        }
        let ghost reg = self@;
        assert(!reg.contains(c@));
        self.paths.push(c);
        assert(self@ =~= reg.push(canonical(path@)));
        (n + 1) as u64
    }

    /// The path that `ino` stands for, or `None` where it was never handed out.
    pub fn path_for(&self, ino: u64) -> (r: Option<String>)
        ensures
            match r {
                Some(p) => path_of(self@, ino) == Some(p@),
                None => path_of(self@, ino) is None,
            },
    {
        if ino >= 1 && ino <= self.paths.len() as u64 {
            Some(self.paths[(ino - 1) as usize].clone())
        } else {
            None
        }
    }
}

} // verus!
