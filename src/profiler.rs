use vstd::prelude::*;
use vstd::string::StrSliceExecFns;

verus! {

/// Whether two strings hold the same characters.
pub fn str_eq(a: &str, b: &str) -> (r: bool)
    ensures
        r == (a@ == b@),
{
    let n = a.unicode_len();
    if n != b.unicode_len() {
        return false;
    }
    let mut i: usize = 0;
    while i < n
        invariant
            n == a@.len(),
            n == b@.len(),
            i <= n,
            forall|k: int| 0 <= k < i ==> a@[k] == b@[k],
        decreases n - i,
    {
        if a.get_char(i) != b.get_char(i) {
            return false;
        }
        i = i + 1;
    }
    assert(a@ =~= b@);
    true
}

/// The time at which a scope was entered, in microseconds of a clock that
/// the caller reads.
pub struct Guard {
    pub enter_time: u128,
}

impl Guard {
    /// A guard for a scope entered at `now`.
    pub fn enter(now: u128) -> (r: Guard)
        ensures
            r.enter_time == now,
    {
        Guard { enter_time: now }
    }
}

/// A named region of code in the call tree, with the number of times it
/// was left and the total time spent in it (both saturating).
pub struct Scope {
    name: String,
    pred: Option<usize>,
    succs: Vec<usize>,
    num_calls: usize,
    duration_sum: u128,
}

/// Mathematical value of a scope.
pub struct ScopeView {
    pub name: Seq<char>,
    pub pred: Option<usize>,
    pub succs: Seq<usize>,
    pub num_calls: nat,
    pub duration_sum: nat,
}

impl View for Scope {
    type V = ScopeView;

    closed spec fn view(&self) -> ScopeView {
        ScopeView {
            name: self.name@,
            pred: self.pred,
            succs: self.succs@,
            num_calls: self.num_calls as nat,
            duration_sum: self.duration_sum as nat,
        }
    }
}

/// `a + b`, or the largest value of the type when that does not fit.
pub open spec fn saturating(a: nat, b: nat, max: nat) -> nat {
    if a + b > max {
        max
    } else {
        a + b
    }
}

/// One line of a profile report.
pub struct ProfileRow {
    /// Depth in the call tree, from zero.
    pub depth: usize,
    pub name: String,
    pub num_calls: usize,
    pub duration_sum: u128,
    /// Time spent in the enclosing scope, or in all roots for a root.
    pub pred_duration_sum: u128,
}

impl Scope {
    /// A scope named `name` under `pred`, never entered.
    pub fn new(name: &str, pred: Option<usize>) -> (r: Scope)
        ensures
            r@ == (ScopeView {
                name: name@,
                pred,
                succs: Seq::empty(),
                num_calls: 0,
                duration_sum: 0,
            }),
    {
        Scope { name: name.to_owned(), pred, succs: Vec::new(), num_calls: 0, duration_sum: 0 }
    }

    /// The name of this scope.
    pub fn get_name(&self) -> (r: &str)
        ensures
            r@ == self@.name,
    {
        self.name.as_str()
    }

    /// The enclosing scope, if any.
    pub fn get_pred(&self) -> (r: Option<usize>)
        ensures
            r == self@.pred,
    {
        self.pred
    }

    /// The scopes entered from this one.
    pub fn get_succs(&self) -> (r: &Vec<usize>)
        ensures
            r@ == self@.succs,
    {
        &self.succs
    }

    /// Records `succ` as entered from this scope.
    pub fn add_succ(&mut self, succ: usize)
        ensures
            final(self)@ == (ScopeView { succs: old(self)@.succs.push(succ), ..old(self)@ }),
    {
        self.succs.push(succ);
    }

    /// The total time spent in this scope.
    pub fn get_duration_sum(&self) -> (r: u128)
        ensures
            r == self@.duration_sum,
    {
        self.duration_sum
    }

    /// The number of times this scope was left.
    pub fn get_num_calls(&self) -> (r: usize)
        ensures
            r == self@.num_calls,
    {
        self.num_calls
    }

    /// Enters this scope at `now`.
    pub fn enter(&mut self, now: u128) -> (r: Guard)
        ensures
            r.enter_time == now,
            final(self)@ == old(self)@,
    {
        Guard::enter(now)
    }

    /// Leaves this scope after `duration`.
    pub fn leave(&mut self, duration: u128)
        ensures
            final(self)@ == (ScopeView {
                num_calls: saturating(old(self)@.num_calls, 1, usize::MAX as nat),
                duration_sum: saturating(
                    old(self)@.duration_sum,
                    duration as nat,
                    u128::MAX as nat,
                ),
                ..old(self)@
            }),
    {
        if self.num_calls < usize::MAX {
            self.num_calls = self.num_calls + 1;
        }
        if self.duration_sum <= u128::MAX - duration {
            self.duration_sum = self.duration_sum + duration;
        } else {
            self.duration_sum = u128::MAX;
        }
    }
}

/// Successors of a scope come after it, and point back at it.
pub open spec fn tree_wf(scopes: Seq<ScopeView>) -> bool {
    forall|i: int, k: int|
        0 <= i < scopes.len() && 0 <= k < scopes[i].succs.len() ==> i < #[trigger] scopes[i].succs[k]
            < scopes.len() && scopes[scopes[i].succs[k] as int].pred == Some(i as usize)
}

/// A call tree of scopes, with the scope currently entered.
pub struct Profiler {
    scopes: Vec<Scope>,
    roots: Vec<usize>,
    current: Option<usize>,
}

impl Profiler {
    pub closed spec fn spec_scopes(&self) -> Seq<ScopeView> {
        self.scopes@.map_values(|s: Scope| s@)
    }

    pub closed spec fn spec_roots(&self) -> Seq<usize> {
        self.roots@
    }

    pub closed spec fn spec_current(&self) -> Option<usize> {
        self.current
    }

    /// Every index in the tree names a scope, and successors come after
    /// their scope.
    pub open spec fn wf(&self) -> bool {
        &&& tree_wf(self.spec_scopes())
        &&& forall|k: int|
            0 <= k < self.spec_roots().len() ==> #[trigger] self.spec_roots()[k]
                < self.spec_scopes().len()
        &&& self.spec_current() matches Some(c) ==> c < self.spec_scopes().len()
        &&& forall|i: int|
            0 <= i < self.spec_scopes().len() ==> ((#[trigger] self.spec_scopes()[i]).pred matches Some(
                p,
            ) ==> p < i)
    }

    /// An empty profile.
    pub fn new() -> (r: Profiler)
        ensures
            r.wf(),
            r.spec_scopes().len() == 0,
            r.spec_roots().len() == 0,
            r.spec_current() is None,
    {
        let r = Profiler { scopes: Vec::new(), roots: Vec::new(), current: None };
        assert(r.spec_scopes() =~= Seq::<ScopeView>::empty());
        r
    }

    /// The scope at `index`.
    pub fn scope(&self, index: usize) -> (r: &Scope)
        requires
            index < self.spec_scopes().len(),
        ensures
            r@ == self.spec_scopes()[index as int],
    {
        &self.scopes[index]
    }

    /// The number of scopes.
    pub fn len(&self) -> (r: usize)
        ensures
            r == self.spec_scopes().len(),
    {
        self.scopes.len()
    }

    /// The scope currently entered.
    pub fn current(&self) -> (r: Option<usize>)
        ensures
            r == self.spec_current(),
    {
        self.current
    }

    fn push_scope(&mut self, name: &str, pred: Option<usize>) -> (r: usize)
        requires
            old(self).wf(),
            pred matches Some(p) ==> p < old(self).spec_scopes().len(),
        ensures
            final(self).wf(),
            r == old(self).spec_scopes().len(),
            final(self).spec_scopes() == old(self).spec_scopes().push(
                ScopeView { name: name@, pred, succs: Seq::empty(), num_calls: 0, duration_sum: 0 },
            ),
            final(self).spec_roots() == old(self).spec_roots(),
            final(self).spec_current() == old(self).spec_current(),
    {
        let r = self.scopes.len();
        let s = Scope::new(name, pred);
        self.scopes.push(s);
        let ghost before = old(self).spec_scopes();
        let ghost after = self.spec_scopes();
        assert(after =~= before.push(s@));
        assert forall|i: int, k: int|
            0 <= i < after.len() && 0 <= k < after[i].succs.len() implies i
                < #[trigger] after[i].succs[k] < after.len() && after[after[i].succs[k] as int].pred
                == Some(i as usize) by {
            assert(i < before.len());
            assert(after[i] == before[i]);
            assert(after[before[i].succs[k] as int] == before[before[i].succs[k] as int]);
        }
        assert forall|i: int| 0 <= i < after.len() implies ((#[trigger] after[i]).pred matches Some(p) ==> p < i) by {
            if i < before.len() {
                assert(after[i] == before[i]);
            }
        }
        assert(self.spec_roots() == old(self).spec_roots());
        r
    }

    /// The root scope named `name`, made when there is none.
    fn get_root_scope(&mut self, name: &str) -> (r: usize)
        requires
            old(self).wf(),
        ensures
            final(self).wf(),
            r < final(self).spec_scopes().len(),
            final(self).spec_scopes()[r as int].name == name@,
            final(self).spec_roots().contains(r),
            final(self).spec_current() == old(self).spec_current(),
            r < old(self).spec_scopes().len() ==> final(self).spec_scopes() == old(self).spec_scopes()
                && final(self).spec_roots() == old(self).spec_roots(),
            r >= old(self).spec_scopes().len() ==> r == old(self).spec_scopes().len()
                && final(self).spec_scopes() == old(self).spec_scopes().push(
                ScopeView { name: name@, pred: None, succs: Seq::empty(), num_calls: 0, duration_sum: 0 },
            ) && final(self).spec_roots() == old(self).spec_roots().push(r),
    {
        let mut k: usize = 0;
        while k < self.roots.len()
            invariant
                self.wf(),
                k <= self.roots@.len(),
            decreases self.roots@.len() - k,
        {
            let root = self.roots[k];
            assert(self.spec_roots()[k as int] == root);
            if str_eq(self.scopes[root].get_name(), name) {
                assert(self.spec_roots()[k as int] == root);
                return root;
            }
            k = k + 1;
        }
        let r = self.push_scope(name, None);
        self.roots.push(r);
        assert(self.spec_roots()[self.spec_roots().len() - 1] == r);
        r
    }

    /// The scope named `name` entered from the current scope (a root when
    /// no scope is entered), made when there is none.
    pub fn get_scope(&mut self, name: &str) -> (r: usize)
        requires
            old(self).wf(),
        ensures
            final(self).wf(),
            r < final(self).spec_scopes().len(),
            final(self).spec_scopes()[r as int].name == name@,
            final(self).spec_current() == old(self).spec_current(),
            old(self).spec_current() is None ==> final(self).spec_roots().contains(r),
            old(self).spec_current() matches Some(c) ==> final(self).spec_scopes()[r as int].pred
                == Some(c) && final(self).spec_scopes()[c as int].succs.contains(r),
            final(self).spec_scopes().len() == old(self).spec_scopes().len() || final(self).spec_scopes().len() == old(self).spec_scopes().len() + 1,
    {
        match self.current {
            None => self.get_root_scope(name),
            Some(c) => {
                let mut k: usize = 0;
                let n = self.scopes[c].get_succs().len();
                while k < n
                    invariant
                        self.wf(),
                        self.current == Some(c),
                        c < self.spec_scopes().len(),
                        n == self.spec_scopes()[c as int].succs.len(),
                        k <= n,
                    decreases n - k,
                {
                    let succ = self.scopes[c].get_succs()[k];
                    assert(self.spec_scopes()[c as int].succs[k as int] == succ);
                    if str_eq(self.scopes[succ].get_name(), name) {
                        assert(self.spec_scopes()[c as int].succs[k as int] == succ);
                        return succ;
                    }
                    k = k + 1;
                }
                let r = self.push_scope(name, Some(c));
                let ghost before = self.spec_scopes();
                self.scopes[c].add_succ(r);
                proof {
                    let after = self.spec_scopes();
                    assert(after =~= before.update(
                        c as int,
                        ScopeView { succs: before[c as int].succs.push(r), ..before[c as int] },
                    ));
                    assert(after[c as int].succs[after[c as int].succs.len() - 1] == r);
                    assert forall|i: int, k: int|
                        0 <= i < after.len() && 0 <= k < after[i].succs.len() implies i
                            < #[trigger] after[i].succs[k] < after.len() && after[after[i].succs[k] as int].pred
                            == Some(i as usize) by {
                        if i != c {
                            assert(after[i] == before[i]);
                        } else if k < before[c as int].succs.len() {
                            assert(after[i].succs[k] == before[i].succs[k]);
                        }
                    }
                }
                r
            },
        }
    }

    /// Makes `scope` the current scope, entered at `now`.
    pub fn enter_scope(&mut self, scope: usize, now: u128) -> (r: Guard)
        requires
            old(self).wf(),
            scope < old(self).spec_scopes().len(),
        ensures
            final(self).wf(),
            r.enter_time == now,
            final(self).spec_current() == Some(scope),
            final(self).spec_scopes() == old(self).spec_scopes(),
            final(self).spec_roots() == old(self).spec_roots(),
    {
        self.current = Some(scope);
        assert(self.spec_roots() == old(self).spec_roots());
        assert(self.spec_scopes() == old(self).spec_scopes());
        Guard::enter(now)
    }

    /// Enters the scope named `name` below the current one at `now`.
    pub fn sync_scope(&mut self, name: &str, now: u128) -> (r: Guard)
        requires
            old(self).wf(),
        ensures
            final(self).wf(),
            r.enter_time == now,
            final(self).spec_current() matches Some(s) && s < final(self).spec_scopes().len()
                && final(self).spec_scopes()[s as int].name == name@ && (old(self).spec_current() matches Some(
                c,
            ) ==> final(self).spec_scopes()[s as int].pred == Some(c)),
    {
        let scope = self.get_scope(name);
        self.enter_scope(scope, now)
    }

    /// Leaves the current scope after `duration`; its enclosing scope
    /// becomes current. Nothing happens when no scope is entered.
    pub fn leave_scope(&mut self, duration: u128)
        requires
            old(self).wf(),
        ensures
            final(self).wf(),
            final(self).spec_roots() == old(self).spec_roots(),
            final(self).spec_scopes().len() == old(self).spec_scopes().len(),
            old(self).spec_current() is None ==> final(self).spec_scopes() == old(self).spec_scopes()
                && final(self).spec_current() is None,
            old(self).spec_current() matches Some(c) ==> {
                &&& final(self).spec_current() == old(self).spec_scopes()[c as int].pred
                &&& final(self).spec_scopes()[c as int].num_calls == saturating(
                    old(self).spec_scopes()[c as int].num_calls,
                    1,
                    usize::MAX as nat,
                )
                &&& final(self).spec_scopes()[c as int].duration_sum == saturating(
                    old(self).spec_scopes()[c as int].duration_sum,
                    duration as nat,
                    u128::MAX as nat,
                )
            },
    {
        match self.current {
            None => {},
            Some(c) => {
                let ghost before = self.spec_scopes();
                self.scopes[c].leave(duration);
                let pred = self.scopes[c].get_pred();
                self.current = pred;
                proof {
                    let after = self.spec_scopes();
                    assert(after =~= before.update(c as int, after[c as int]));
                    assert(after[c as int].succs == before[c as int].succs);
                    assert(after[c as int].pred == before[c as int].pred);
                    assert forall|i: int, k: int|
                        0 <= i < after.len() && 0 <= k < after[i].succs.len() implies i
                            < #[trigger] after[i].succs[k] < after.len() && after[after[i].succs[k] as int].pred
                            == Some(i as usize) by {
                        assert(after[i].succs == before[i].succs);
                        assert(after[before[i].succs[k] as int].pred == before[before[i].succs[k] as int].pred);
                    }
                    assert forall|i: int| 0 <= i < after.len() implies ((#[trigger] after[i]).pred matches Some(p) ==> p < i) by {
                        assert(after[i].pred == before[i].pred);
                    }
                    assert(self.spec_roots() == old(self).spec_roots());
                }
            },
        }
    }

    /// The report rows of the whole tree, roots in order of creation, each
    /// scope followed by the scopes entered from it, down to `max_depth`.
    pub fn write(&self, max_depth: Option<usize>) -> (r: Vec<ProfileRow>)
        requires
            self.wf(),
        ensures
            forall|k: int| 0 <= k < r@.len() ==> (max_depth matches Some(d) ==> #[trigger] r@[k].depth <= d),
    {
        let mut total: u128 = 0;
        let mut k: usize = 0;
        while k < self.roots.len()
            invariant
                self.wf(),
                k <= self.roots@.len(),
            decreases self.roots@.len() - k,
        {
            assert(self.spec_roots()[k as int] == self.roots@[k as int]);
            let d = self.scopes[self.roots[k]].get_duration_sum();
            if total <= u128::MAX - d {
                total = total + d;
            } else {
                total = u128::MAX;
            }
            k = k + 1;
        }
        let mut rows: Vec<ProfileRow> = Vec::new();
        let mut k: usize = 0;
        while k < self.roots.len()
            invariant
                self.wf(),
                k <= self.roots@.len(),
                forall|j: int| 0 <= j < rows@.len() ==> (max_depth matches Some(d) ==> #[trigger] rows@[j].depth <= d),
            decreases self.roots@.len() - k,
        {
            let root = self.roots[k];
            assert(self.spec_roots()[k as int] == root);
            self.scopes[root].write_recursive(self, root, total, 0, max_depth, &mut rows);
            k = k + 1;
        }
        rows
    }
}

impl Scope {
    /// Appends the report rows of this scope, which stands at `index` in
    /// `profiler`, and of the scopes entered from it, when `depth` does not
    /// pass `max_depth`.
    pub fn write_recursive(
        &self,
        profiler: &Profiler,
        index: usize,
        total_duration: u128,
        depth: usize,
        max_depth: Option<usize>,
        rows: &mut Vec<ProfileRow>,
    )
        requires
            profiler.wf(),
            index < profiler.spec_scopes().len(),
            profiler.spec_scopes()[index as int] == self@,
            depth <= index,
            forall|j: int| 0 <= j < old(rows)@.len() ==> (max_depth matches Some(d) ==> #[trigger] old(rows)@[j].depth <= d),
        ensures
            final(rows)@.len() >= old(rows)@.len(),
            forall|j: int| 0 <= j < old(rows)@.len() ==> #[trigger] final(rows)@[j] == old(rows)@[j],
            forall|j: int| 0 <= j < final(rows)@.len() ==> (max_depth matches Some(d) ==> #[trigger] final(rows)@[j].depth <= d),
            (max_depth matches Some(d) && depth > d) ==> final(rows)@ == old(rows)@,
            !(max_depth matches Some(d) && depth > d) ==> ({
                let row = final(rows)@[old(rows)@.len() as int];
                &&& final(rows)@.len() > old(rows)@.len()
                &&& row.depth == depth
                &&& row.name@ == self@.name
                &&& row.num_calls == self@.num_calls
                &&& row.duration_sum == self@.duration_sum
            }),
        decreases profiler.spec_scopes().len() - depth,
    {
        if let Some(d) = max_depth {
            if depth > d {
                return;
            }
        }
        let pred_duration_sum: u128 = match self.pred {
            Some(p) => profiler.scope(p).get_duration_sum(),
            None => total_duration,
        };
        let ghost start = rows@.len();
        rows.push(
            ProfileRow {
                depth,
                name: self.name.clone(),
                num_calls: self.num_calls,
                duration_sum: self.duration_sum,
                pred_duration_sum,
            },
        );
        let n = self.succs.len();
        let mut k: usize = 0;
        while k < n
            invariant
                profiler.wf(),
                index < profiler.spec_scopes().len(),
                profiler.spec_scopes()[index as int] == self@,
                depth <= index,
                n == self@.succs.len(),
                k <= n,
                rows@.len() > start,
                start == old(rows)@.len(),
                forall|j: int| 0 <= j < old(rows)@.len() ==> #[trigger] rows@[j] == old(rows)@[j],
                rows@[start as int].depth == depth,
                rows@[start as int].name@ == self@.name,
                rows@[start as int].num_calls == self@.num_calls,
                rows@[start as int].duration_sum == self@.duration_sum,
                forall|j: int| 0 <= j < rows@.len() ==> (max_depth matches Some(d) ==> #[trigger] rows@[j].depth <= d),
            decreases n - k,
        {
            let succ = self.succs[k];
            assert(profiler.spec_scopes()[index as int].succs[k as int] == succ);
            let ghost before = rows@;
            profiler.scope(succ).write_recursive(profiler, succ, total_duration, depth + 1, max_depth, rows);
            assert(rows@[start as int] == before[start as int]);
            k = k + 1;
        }
    }
}

} // verus!
