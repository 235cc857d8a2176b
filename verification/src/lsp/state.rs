//! Scheduling of the language server's scans: which files a scan covers,
//! which request generation runs, and which waits.
use vstd::prelude::*;
use vstd::string::*;
use crate::text::str_eq;

verus! {

/// What a scan should cover.
#[derive(Debug, Clone)]
pub enum ScanRequest {
    Full,
    /// The changed files, as path text.
    Files(Vec<String>),
}

/// How soon a requested scan runs.
#[derive(Debug, Clone, Copy, PartialEq, Eq, Structural)]
pub enum ScanTrigger {
    Immediate,
    Debounced,
}

/// The file paths of a list, as a set.
pub open spec fn path_set(v: Seq<String>) -> Set<Seq<char>> {
    Set::new(|p: Seq<char>| exists|i: int| 0 <= i < v.len() && (#[trigger] v[i])@ == p)
}

proof fn lemma_path_set_push(v: Seq<String>, x: String)
    ensures
        path_set(v.push(x)) == path_set(v).insert(x@),
{
    let w = v.push(x);
    assert forall|p: Seq<char>| path_set(w).contains(p) <==> path_set(v).insert(x@).contains(p) by {
        if path_set(w).contains(p) {
            let i = choose|i: int| 0 <= i < w.len() && (#[trigger] w[i])@ == p;
            if i < v.len() {
                assert(v[i] == w[i]);
            }
        }
        if path_set(v).contains(p) {
            let i = choose|i: int| 0 <= i < v.len() && (#[trigger] v[i])@ == p;
            assert(w[i] == v[i]);
        }
        if p == x@ {
            assert(w[v.len() as int] == x);
        }
    }
    assert(path_set(w) =~= path_set(v).insert(x@));
}

/// No path occurs twice in the list.
pub open spec fn distinct_paths(v: Seq<String>) -> bool {
    forall|i: int, j: int| 0 <= i < j < v.len() ==> (#[trigger] v[i])@ != (#[trigger] v[j])@
}

/// The scope of the scans requested and not yet started.
#[derive(Debug, Clone)]
pub struct PendingScanScope {
    pub full_scan: bool,
    /// The changed files, each once.
    pub changed_files: Vec<String>,
}

impl PendingScanScope {
    /// The scope as (whole workspace, set of changed files).
    pub open spec fn view(&self) -> (bool, Set<Seq<char>>) {
        (self.full_scan, path_set(self.changed_files@))
    }

    /// No file is listed twice, and a full scan lists none.
    pub open spec fn wf(&self) -> bool {
        distinct_paths(self.changed_files@) && (self.full_scan ==> self.changed_files@.len() == 0)
    }

    /// The empty scope.
    pub fn new() -> (r: Self)
        ensures
            r.wf(),
            r.view() == (false, Set::<Seq<char>>::empty()),
            !r.full_scan,
            r.changed_files@.len() == 0,
    {
        let r = PendingScanScope { full_scan: false, changed_files: Vec::new() };
        assert(path_set(r.changed_files@) =~= Set::<Seq<char>>::empty());
        r
    }

    /// Add a request to the scope: a full request covers everything; files
    /// add to the scope unless a full scan is already pending.
    pub fn merge(&mut self, request: ScanRequest)
        requires
            old(self).wf(),
        ensures
            final(self).wf(),
            match request {
                ScanRequest::Full => final(self).view() == (true, Set::<Seq<char>>::empty()),
                ScanRequest::Files(paths) => if old(self).full_scan {
                    final(self).view() == old(self).view()
                } else {
                    final(self).view() == (false, old(self).view().1.union(path_set(paths@)))
                },
            },
    {
        match request {
            ScanRequest::Full => {
                self.full_scan = true;
                self.changed_files = Vec::new();
                assert(path_set(self.changed_files@) =~= Set::<Seq<char>>::empty());
            },
            ScanRequest::Files(paths) => {
                if !self.full_scan {
                    let ghost before = path_set(self.changed_files@);
                    let mut i: usize = 0;
                    while i < paths.len()
                        invariant
                            i <= paths.len(),
                            !self.full_scan,
                            distinct_paths(self.changed_files@),
                            path_set(self.changed_files@) == before.union(path_set(paths@.take(i as int))),
                        decreases paths.len() - i,
                    {
                        let p = &paths[i];
                        let ghost fv = self.changed_files@;
                        let mut j: usize = 0;
                        let mut seen = false;
                        while j < self.changed_files.len()
                            invariant
                                j <= self.changed_files.len(),
                                fv == self.changed_files@,
                                seen ==> path_set(fv).contains(p@),
                                !seen ==> forall|k: int| 0 <= k < j ==> (#[trigger] fv[k])@ != p@,
                            decreases self.changed_files.len() - j,
                        {
                            if str_eq(self.changed_files[j].as_str(), p.as_str()) {
                                assert(fv[j as int]@ == p@);
                                seen = true;
                            }
                            j = j + 1;
                        }
                        if !seen {
                            self.changed_files.push(p.clone());
                            proof {
                                assert(self.changed_files@ == fv.push(*p));
                                lemma_path_set_push(fv, *p);
                            }
                        }
                        proof {
                            assert(paths@.take(i + 1) == paths@.take(i as int).push(paths@[i as int]));
                            lemma_path_set_push(paths@.take(i as int), paths@[i as int]);
                            if seen {
                                assert(path_set(self.changed_files@).contains(p@));
                                assert(path_set(self.changed_files@) =~= path_set(self.changed_files@).insert(p@));
                            }
                            assert(path_set(self.changed_files@) =~= before.union(
                                path_set(paths@.take(i + 1)),
                            ));
                        }
                        i = i + 1;
                    }
                    assert(paths@.take(paths.len() as int) == paths@);
                }
            },
        }
    }

    /// Take the pending request out of the scope, leaving it empty: a full
    /// scan when one is pending, else the changed files, else nothing.
    pub fn take_request(&mut self) -> (r: Option<ScanRequest>)
        requires
            old(self).wf(),
        ensures
            final(self).wf(),
            final(self).view() == (false, Set::<Seq<char>>::empty()),
            old(self).full_scan ==> r matches Some(ScanRequest::Full),
            !old(self).full_scan && old(self).changed_files@.len() == 0 ==> r is None,
            !old(self).full_scan && old(self).changed_files@.len() > 0 ==> (r matches Some(
                ScanRequest::Files(fs),
            ) && path_set(fs@) == old(self).view().1 && distinct_paths(fs@)),
    {
        if self.full_scan {
            self.full_scan = false;
            self.changed_files = Vec::new();
            assert(path_set(self.changed_files@) =~= Set::<Seq<char>>::empty());
            return Some(ScanRequest::Full);
        }
        if self.changed_files.len() == 0 {
            assert(path_set(self.changed_files@) =~= Set::<Seq<char>>::empty());
            return None;
        }
        let mut files: Vec<String> = Vec::new();
        std::mem::swap(&mut files, &mut self.changed_files);
        assert(path_set(self.changed_files@) =~= Set::<Seq<char>>::empty());
        Some(ScanRequest::Files(files))
    }

    /// Nothing is pending.
    pub fn is_empty(&self) -> (r: bool)
        requires
            self.wf(),
        ensures
            r == (!self.view().0 && self.view().1 == Set::<Seq<char>>::empty()),
    {
        proof {
            if self.changed_files@.len() > 0 {
                assert(path_set(self.changed_files@).contains(self.changed_files@[0]@));
            } else {
                assert(path_set(self.changed_files@) =~= Set::<Seq<char>>::empty());
            }
        }
        !self.full_scan && self.changed_files.len() == 0
    }
}

/// Whether a scan runs, and of which generation.
#[derive(Debug, Clone, Copy, PartialEq, Eq, Structural)]
pub enum ScanExecutionState {
    Idle,
    Running { generation: u64 },
}

impl ScanExecutionState {
    /// The generation of the running scan, if one runs.
    pub fn running_generation(&self) -> (r: Option<u64>)
        ensures
            r == match *self {
                ScanExecutionState::Idle => None,
                ScanExecutionState::Running { generation } => Some(generation),
            },
    {
        match self {
            ScanExecutionState::Idle => None,
            ScanExecutionState::Running { generation } => Some(*generation),
        }
    }
}

/// The scheduler of the language server's scans. Every request gets the
/// next generation number; only the latest generation runs, one scan at
/// a time, and a request made while a scan runs waits for it.
#[derive(Debug, Clone)]
pub struct ScanScheduler {
    pub next_generation: u64,
    pub latest_requested_generation: u64,
    pub pending_generation: Option<u64>,
    pub execution: ScanExecutionState,
    /// The generation of the debounce timer that is armed, if any.
    pub debounce: Option<u64>,
    pub scheduled_scope: PendingScanScope,
}

impl ScanScheduler {
    /// The scheduler's invariant: the latest request has the last number
    /// given out, and the pending scope is well formed.
    pub open spec fn wf(&self) -> bool {
        &&& self.latest_requested_generation == self.next_generation
        &&& self.scheduled_scope.wf()
    }

    /// A scheduler with nothing requested.
    pub fn new() -> (r: Self)
        ensures
            r.wf(),
            r.next_generation == 0,
            r.latest_requested_generation == 0,
            r.pending_generation is None,
            r.execution == ScanExecutionState::Idle,
            r.debounce is None,
            r.scheduled_scope.view() == (false, Set::<Seq<char>>::empty()),
    {
        ScanScheduler {
            next_generation: 0,
            latest_requested_generation: 0,
            pending_generation: None,
            execution: ScanExecutionState::Idle,
            debounce: None,
            scheduled_scope: PendingScanScope::new(),
        }
    }

    /// Register a request: it gets the next generation, becomes the latest,
    /// joins the pending scope, and disarms the debounce timer.
    pub fn register_request(&mut self, request: ScanRequest) -> (g: u64)
        requires
            old(self).wf(),
            old(self).next_generation < u64::MAX,
        ensures
            final(self).wf(),
            g == old(self).next_generation + 1,
            final(self).next_generation == g,
            final(self).pending_generation == old(self).pending_generation,
            final(self).execution == old(self).execution,
            final(self).debounce is None,
            match request {
                ScanRequest::Full => final(self).scheduled_scope.view() == (true, Set::<Seq<char>>::empty()),
                ScanRequest::Files(paths) => if old(self).scheduled_scope.full_scan {
                    final(self).scheduled_scope.view() == old(self).scheduled_scope.view()
                } else {
                    final(self).scheduled_scope.view() == (
                        false,
                        old(self).scheduled_scope.view().1.union(path_set(paths@)),
                    )
                },
            },
    {
        self.next_generation = self.next_generation + 1;
        let generation = self.next_generation;
        self.latest_requested_generation = generation;
        self.scheduled_scope.merge(request);
        self.debounce = None;
        generation
    }

    /// Arm the debounce timer of a generation.
    pub fn arm_debounce(&mut self, generation: u64)
        ensures
            final(self).debounce == Some(generation),
            final(self).next_generation == old(self).next_generation,
            final(self).latest_requested_generation == old(self).latest_requested_generation,
            final(self).pending_generation == old(self).pending_generation,
            final(self).execution == old(self).execution,
            final(self).scheduled_scope == old(self).scheduled_scope,
    {
        self.debounce = Some(generation);
    }

    /// Decide whether the scan of `generation` starts now. A superseded
    /// generation does not run; while a scan runs, the generation waits;
    /// otherwise the pending request starts, if there is one.
    pub fn prepare_scan(&mut self, generation: u64) -> (r: Option<ScanRequest>)
        requires
            old(self).wf(),
        ensures
            final(self).wf(),
            final(self).debounce == (if old(self).debounce == Some(generation) {
                None
            } else {
                old(self).debounce
            }),
            final(self).next_generation == old(self).next_generation,
            generation < old(self).latest_requested_generation ==> r is None && final(self).execution
                == old(self).execution && final(self).pending_generation == old(self).pending_generation
                && final(self).scheduled_scope.view() == old(self).scheduled_scope.view(),
            generation >= old(self).latest_requested_generation && old(self).execution is Running
                ==> r is None && final(self).execution == old(self).execution
                && final(self).pending_generation == Some(generation)
                && final(self).scheduled_scope.view() == old(self).scheduled_scope.view(),
            generation >= old(self).latest_requested_generation && old(self).execution is Idle ==> {
                let sv = old(self).scheduled_scope.view();
                &&& final(self).pending_generation == old(self).pending_generation
                &&& final(self).scheduled_scope.view() == (false, Set::<Seq<char>>::empty())
                &&& (!sv.0 && sv.1 == Set::<Seq<char>>::empty()) ==> r is None && final(self).execution
                    == old(self).execution
                &&& sv.0 ==> (r matches Some(ScanRequest::Full) && final(self).execution
                    == (ScanExecutionState::Running { generation }))
                &&& (!sv.0 && sv.1 != Set::<Seq<char>>::empty()) ==> (r matches Some(
                    ScanRequest::Files(fs),
                ) && path_set(fs@) == sv.1) && final(self).execution
                    == (ScanExecutionState::Running { generation })
            },
    {
        if self.debounce == Some(generation) {
            self.debounce = None;
        }
        if generation < self.latest_requested_generation {
            return None;
        }
        if self.execution.running_generation().is_some() {
            self.pending_generation = Some(generation);
            return None;
        }
        proof {
            let fs = self.scheduled_scope.changed_files@;
            if fs.len() > 0 {
                assert(path_set(fs).contains(fs[0]@));
            } else {
                assert(path_set(fs) =~= Set::<Seq<char>>::empty());
            }
        }
        let request = match self.scheduled_scope.take_request() {
            Some(r) => r,
            None => return None,
        };
        self.execution = ScanExecutionState::Running { generation };
        Some(request)
    }

    /// A scan of `generation` finished: the scheduler goes idle if that scan
    /// was the running one, and says which generation to scan next, if
    /// anything is pending: the waiting generation when it is newer, else
    /// the latest.
    pub fn finish_scan(&mut self, generation: u64) -> (r: Option<u64>)
        requires
            old(self).wf(),
        ensures
            final(self).wf(),
            final(self).execution == (if old(self).execution == (ScanExecutionState::Running {
                generation,
            }) {
                ScanExecutionState::Idle
            } else {
                old(self).execution
            }),
            final(self).scheduled_scope == old(self).scheduled_scope,
            final(self).next_generation == old(self).next_generation,
            final(self).debounce == old(self).debounce,
            final(self).pending_generation is None,
            (!old(self).scheduled_scope.view().0 && old(self).scheduled_scope.view().1 == Set::<
                Seq<char>,
            >::empty()) ==> r is None,
            !(!old(self).scheduled_scope.view().0 && old(self).scheduled_scope.view().1 == Set::<
                Seq<char>,
            >::empty()) ==> r == Some(
                {
                    let next = match old(self).pending_generation {
                        Some(p) => p,
                        None => old(self).latest_requested_generation,
                    };
                    if next > generation {
                        next
                    } else {
                        old(self).latest_requested_generation
                    }
                },
            ),
    {
        if self.execution.running_generation() == Some(generation) {
            self.execution = ScanExecutionState::Idle;
        }
        if self.scheduled_scope.is_empty() {
            self.pending_generation = None;
            return None;
        }
        let next = match self.pending_generation {
            Some(p) => p,
            None => self.latest_requested_generation,
        };
        self.pending_generation = None;
        Some(
            if next > generation {
                next
            } else {
                self.latest_requested_generation
            },
        )
    }

    /// Whether `generation` is the latest requested.
    pub fn is_generation_current(&self, generation: u64) -> (r: bool)
        ensures
            r == (generation == self.latest_requested_generation),
    {
        generation == self.latest_requested_generation
    }
}

impl Default for ScanScheduler {
    fn default() -> (r: Self)
        ensures
            r.wf(),
            r.next_generation == 0,
            r.latest_requested_generation == 0,
            r.pending_generation is None,
            r.execution == ScanExecutionState::Idle,
            r.debounce is None,
            r.scheduled_scope.view() == (false, Set::<Seq<char>>::empty()),
    {
        ScanScheduler::new()
    }
}

} // verus!
