//! SPDK threads and the cores they may run on.
use vstd::prelude::*;

verus! {

/// A set of CPU cores.
#[derive(Debug)]
pub struct CpuSet {
    cores: Vec<u32>,
}

impl View for CpuSet {
    type V = Set<u32>;

    closed spec fn view(&self) -> Set<u32> {
        self.cores@.to_set()
    }
}

impl CpuSet {
    #[verifier::type_invariant]
    closed spec fn inv(&self) -> bool {
        self.cores@.no_duplicates()
    }

    /// Creates an empty set.
    pub fn new() -> (set: CpuSet)
        ensures
            set@ == Set::<u32>::empty(),
    {
        let cores: Vec<u32> = Vec::new();
        assert(cores@.to_set() =~= Set::<u32>::empty());
        CpuSet { cores }
    }

    /// Creates the set of the given cores.
    pub fn from_cores(cores: &[u32]) -> (set: CpuSet)
        ensures
            set@ == cores@.to_set(),
    {
        let mut set = CpuSet::new();
        let mut i: usize = 0;
        assert(cores@.take(0).to_set() =~= Set::<u32>::empty());
        while i < cores.len()
            invariant
                i <= cores@.len(),
                set@ == cores@.take(i as int).to_set(),
            decreases cores@.len() - i,
        {
            set.set(cores[i]);
            proof {
                cores@.take(i as int).lemma_push_to_set_commute(cores@[i as int]);
                assert(cores@.take(i + 1) =~= cores@.take(i as int).push(cores@[i as int]));
            }
            i = i + 1;
        }
        assert(cores@.take(i as int) =~= cores@);
        set
    }

    /// Adds a core.
    pub fn set(&mut self, core: u32)
        ensures
            final(self)@ == old(self)@.insert(core),
    {
        proof {
            use_type_invariant(&*self);
        }
        let mut i: usize = 0;
        while i < self.cores.len()
            invariant
                i <= self.cores@.len(),
                *self == *old(self),
                forall|j: int| 0 <= j < i ==> self.cores@[j] != core,
            decreases self.cores@.len() - i,
        {
            if self.cores[i] == core {
                proof {
                    assert(self.cores@.contains(core));
                    assert(self.cores@.to_set().contains(core));
                    assert(self@.insert(core) =~= self@);
                }
                return ;
            }
            i = i + 1;
        }
        proof {
            use_type_invariant(&*self);
            self.cores@.lemma_push_to_set_commute(core);
        }
        let mut cores: Vec<u32> = Vec::new();
        std::mem::swap(&mut cores, &mut self.cores);
        cores.push(core);
        self.cores = cores;
    }

    /// Takes all cores out.
    pub fn clear(&mut self)
        ensures
            final(self)@ == Set::<u32>::empty(),
    {
        self.cores = Vec::new();
        assert(self.cores@.to_set() =~= Set::<u32>::empty());
    }

    /// Returns the cores, each once.
    pub fn cores(&self) -> (cores: &[u32])
        ensures
            cores@.to_set() == self@,
            cores@.no_duplicates(),
    {
        proof {
            use_type_invariant(self);
        }
        self.cores.as_slice()
    }
}

impl Default for CpuSet {
    fn default() -> (set: CpuSet)
        ensures
            set@ == Set::<u32>::empty(),
    {
        CpuSet::new()
    }
}

/// A handle of an SPDK lightweight thread: the address of its control structure, which is never
/// 0. It may be moved between threads.
#[derive(Clone, Copy, Debug, PartialEq, Eq, Structural)]
pub struct SpdkThread {
    raw: usize,
}

impl SpdkThread {
    /// The address of the thread's control structure.
    pub closed spec fn spec_raw(&self) -> usize {
        self.raw
    }

    pub fn from_raw(raw: usize) -> (thread: SpdkThread)
        requires
            raw != 0,
        ensures
            thread.spec_raw() == raw,
    {
        SpdkThread { raw }
    }

    /// Returns the address of the thread's control structure.
    pub fn raw(&self) -> (raw: usize)
        ensures
            raw == self.spec_raw(),
    {
        self.raw
    }

    /// Returns the current SPDK thread, whose address `get_thread` asks SPDK for.
    pub fn current<F: FnOnce() -> usize>(get_thread: F) -> (thread: SpdkThread)
        requires
            get_thread.requires(()),
            forall|raw: usize| #[trigger] get_thread.ensures((), raw) ==> raw != 0,
        ensures
            get_thread.ensures((), thread.spec_raw()),
    {
        SpdkThread { raw: get_thread() }
    }

    /// Tells whether this is the current SPDK thread; `get_thread` gives the current one's
    /// address, which is 0 outside of SPDK threads.
    pub fn is_current<F: FnOnce() -> usize>(&self, get_thread: F) -> (res: bool)
        requires
            get_thread.requires(()),
        ensures
            exists|raw: usize| #[trigger]
                get_thread.ensures((), raw) && res == (raw == self.spec_raw()),
    {
        let raw = get_thread();
        self.raw == raw
    }

    /// Returns the ID of the thread, which `get_id` asks SPDK for.
    pub fn id<F: FnOnce(usize) -> u64>(&self, get_id: F) -> (id: u64)
        requires
            get_id.requires((self.spec_raw(),)),
        ensures
            get_id.ensures((self.spec_raw(),), id),
    {
        get_id(self.raw)
    }

    /// Creates a thread that may run on any core. `create` asks SPDK for it.
    pub fn new<F: FnOnce(&str, Option<&CpuSet>) -> usize>(name: &str, create: F) -> (thread:
        SpdkThread)
        requires
            !name@.contains('\0'),
            create.requires((name, None)),
            forall|raw: usize| #[trigger] create.ensures((name, None), raw) ==> raw != 0,
        ensures
            create.ensures((name, None), thread.spec_raw()),
    {
        SpdkThread::new_at_cpuset(name, None, create)
    }

    /// Creates a thread that may run on the given cores.
    pub fn new_at_cores<F: FnOnce(&str, Option<&CpuSet>) -> usize>(
        name: &str,
        cores: &[u32],
        create: F,
    ) -> (thread: SpdkThread)
        requires
            !name@.contains('\0'),
            forall|set: &CpuSet|
                set@ == cores@.to_set() ==> #[trigger] create.requires((name, Some(set))),
            forall|set: &CpuSet, raw: usize| #[trigger]
                create.ensures((name, Some(set)), raw) ==> raw != 0,
        ensures
            exists|set: &CpuSet|
                set@ == cores@.to_set() && #[trigger] create.ensures(
                    (name, Some(set)),
                    thread.spec_raw(),
                ),
    {
        let cpuset = CpuSet::from_cores(cores);
        SpdkThread::new_at_cpuset(name, Some(&cpuset), create)
    }

    /// Creates a thread that may run on the cores of a set, or on any core where there is none.
    pub fn new_at_cpuset<F: FnOnce(&str, Option<&CpuSet>) -> usize>(
        name: &str,
        cpuset: Option<&CpuSet>,
        create: F,
    ) -> (thread: SpdkThread)
        requires
            !name@.contains('\0'),
            create.requires((name, cpuset)),
            forall|raw: usize| #[trigger] create.ensures((name, cpuset), raw) ==> raw != 0,
        ensures
            create.ensures((name, cpuset), thread.spec_raw()),
    {
        SpdkThread { raw: create(name, cpuset) }
    }
}

/// Returns the ID of the current SPDK thread.
pub fn thread_id<F: FnOnce() -> usize, G: FnOnce(usize) -> u64>(get_thread: F, get_id: G) -> (id:
    u64)
    requires
        get_thread.requires(()),
        forall|raw: usize| #[trigger]
            get_thread.ensures((), raw) ==> raw != 0 && get_id.requires((raw,)),
    ensures
        exists|raw: usize| #[trigger] get_thread.ensures((), raw) && get_id.ensures((raw,), id),
{
    SpdkThread::current(get_thread).id(get_id)
}

} // verus!
