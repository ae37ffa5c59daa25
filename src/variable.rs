//! A change-tracked view of one value in the game's memory.
use vstd::prelude::*;

verus! {

/// The value seen on the latest successful read and the one before it.
#[derive(Clone, Copy, PartialEq, Eq, Debug)]
pub struct Pair<T> {
    pub old: T,
    pub current: T,
}

/// The pair after one read attempt: a successful read shifts `current` into
/// `old` (the first one fills both), a failed one changes nothing.
pub open spec fn next_pair<T>(prev: Option<Pair<T>>, read: Option<T>) -> Option<Pair<T>> {
    match read {
        None => prev,
        Some(v) => Some(
            Pair {
                old: match prev {
                    Some(p) => p.current,
                    None => v,
                },
                current: v,
            },
        ),
    }
}

/// The pair after a whole run of read attempts on a fresh cell.
pub open spec fn pair_after<T>(reads: Seq<Option<T>>) -> Option<Pair<T>>
    decreases reads.len(),
{
    if reads.len() == 0 {
        None
    } else {
        next_pair(pair_after(reads.drop_last()), reads.last())
    }
}

/// The values of the successful reads, in order.
pub open spec fn successes<T>(reads: Seq<Option<T>>) -> Seq<T>
    decreases reads.len(),
{
    if reads.len() == 0 {
        Seq::empty()
    } else {
        match reads.last() {
            Some(v) => successes(reads.drop_last()).push(v),
            None => successes(reads.drop_last()),
        }
    }
}

/// For every run of reads, `current` is the latest successful read and `old`
/// the successful read just before it (the latest one itself while there has
/// been only one); failed reads leave no trace.
pub proof fn lemma_old_is_previous_success<T>(reads: Seq<Option<T>>)
    ensures
        ({
            let s = successes(reads);
            pair_after(reads) == if s.len() == 0 {
                None
            } else {
                Some(
                    Pair {
                        old: if s.len() >= 2 {
                            s[s.len() - 2]
                        } else {
                            s.last()
                        },
                        current: s.last(),
                    },
                )
            }
        }),
    decreases reads.len(),
{
    if reads.len() > 0 {
        lemma_old_is_previous_success(reads.drop_last());
        let s0 = successes(reads.drop_last());
        match reads.last() {
            Some(v) => {
                assert(successes(reads) == s0.push(v));
                assert(s0.push(v)[s0.len() as int] == v);
                if s0.len() > 0 {
                    assert(s0.push(v)[s0.len() - 1] == s0.last());
                }
            },
            None => {},
        }
    }
}

/// One tracked value: where it lives (a base address and a chain of pointer
/// offsets) and its change-tracked pair.
pub struct Variable<T> {
    pair: Option<Pair<T>>,
    base_address: u32,
    address_path: Vec<u32>,
}

impl<T: Copy> Variable<T> {
    pub closed spec fn pair(&self) -> Option<Pair<T>> {
        self.pair
    }

    pub closed spec fn base(&self) -> u32 {
        self.base_address
    }

    pub closed spec fn path(&self) -> Seq<u32> {
        self.address_path@
    }

    /// A cell that has not been read yet.
    pub fn new(base_address: u32, address_path: Vec<u32>) -> (r: Self)
        ensures
            r.pair() is None,
            r.base() == base_address,
            r.path() == address_path@,
    {
        Variable { pair: None, base_address, address_path }
    }

    pub fn base_address(&self) -> (r: u32)
        ensures
            r == self.base(),
    {
        self.base_address
    }

    pub fn address_path(&self) -> (r: &[u32])
        ensures
            r@ == self.path(),
    {
        self.address_path.as_slice()
    }

    /// The pair as it stands, if the cell was ever read.
    pub fn get(&self) -> (r: Option<Pair<T>>)
        ensures
            r == self.pair(),
    {
        self.pair
    }

    /// Takes the outcome of this tick's read. Returns the updated pair when
    /// the read succeeded, and `None` (keeping the history) when it failed.
    pub fn update(&mut self, read: Option<T>) -> (r: Option<Pair<T>>)
        ensures
            final(self).pair() == next_pair(old(self).pair(), read),
            final(self).base() == old(self).base(),
            final(self).path() == old(self).path(),
            r == (if read is Some {
                final(self).pair()
            } else {
                None
            }),
    {
        match read {
            None => None,
            Some(v) => {
                let old_value = match self.pair {
                    Some(p) => p.current,
                    None => v,
                };
                let p = Pair { old: old_value, current: v };
                self.pair = Some(p);
                Some(p)
            },
        }
    }
}

} // verus!
